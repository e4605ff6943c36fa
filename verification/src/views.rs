//! Small facts about deep views of vectors and slices.

use vstd::prelude::*;

verus! {

/// Pushing onto a vector pushes onto its deep view.
pub proof fn lemma_deep_view_push<T: DeepView>(v1: Vec<T>, v2: Vec<T>, x: T)
    requires
        v2@ == v1@.push(x),
    ensures
        v2.deep_view() =~= v1.deep_view().push(x.deep_view()),
{
    assert forall|k: int| 0 <= k < v2.deep_view().len() implies v2.deep_view()[k]
        == v1.deep_view().push(x.deep_view())[k] by {
        if k < v1@.len() {
            assert(v2@[k] == v1@[k]);
        } else {
            assert(v2@[k] == x);
        }
    }
}

/// Taking a subrange of a slice takes the same subrange of its deep view.
pub proof fn lemma_deep_view_subrange<T: DeepView>(a: &[T], b: &[T], i: int, j: int)
    requires
        0 <= i <= j <= a@.len(),
        b@ == a@.subrange(i, j),
    ensures
        b.deep_view() =~= a.deep_view().subrange(i, j),
{
    assert forall|k: int| 0 <= k < b.deep_view().len() implies b.deep_view()[k]
        == a.deep_view().subrange(i, j)[k] by {
        assert(b@[k] == a@[k + i]);
    }
}

} // verus!
