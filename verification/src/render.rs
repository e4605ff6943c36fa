//! The canonical serializer: every node kind renders back to the
//! dialect's surface syntax.
//!
//! Rendering is total — it never fails on any tree — and each method is
//! proved to produce exactly the model's canonical text of the node's
//! deep view, so two structurally equal nodes always render identically.

use vstd::prelude::*;
use vstd::string::{StrSliceExecFns, StringExecFns};

use crate::ast::{
    Clause, Constant, Description, Distinct, Function, Literal, Not, Or, Proposition, Relation,
    Rule, Sentence, Term, Variable,
};
use crate::model::{
    kw_distinct, kw_implies, kw_not, kw_or, render_args, render_clause, render_clauses,
    render_clauses_tail, render_description, render_distinct, render_function, render_literal,
    render_lits, render_not, render_or, render_proposition, render_relation, render_rule,
    render_sentence, render_term, render_variable,
};

verus! {

/// Appends ` arg` for each argument, left to right.
fn append_args(out: &mut String, args: &Vec<Term>)
    ensures
        final(out)@ == old(out)@ + render_args(args.deep_view()),
    decreases *args,
{
    let ghost av = args.deep_view();
    let ghost goal = old(out)@ + render_args(av);
    let mut i: usize = 0;
    proof {
        assert(av.subrange(0, av.len() as int) =~= av);
    }
    while i < args.len()
        invariant
            i <= args.len(),
            av == args.deep_view(),
            goal == out@ + render_args(av.subrange(i as int, av.len() as int)),
        decreases args@.len() - i,
    {
        let ghost tail = av.subrange(i as int, av.len() as int);
        out.append(" ");
        let ts = args[i].render();
        out.append(ts.as_str());
        proof {
            reveal_strlit(" ");
            assert(" "@ =~= seq![' ']);
            assert(tail[0] == av[i as int]);
            assert(tail.subrange(1, tail.len() as int) =~= av.subrange(
                i + 1,
                av.len() as int,
            ));
            assert(av[i as int] == args[i as int].deep_view());
            assert(goal =~= out@ + render_args(av.subrange(i + 1, av.len() as int)));
        }
        i += 1;
    }
    proof {
        assert(av.subrange(av.len() as int, av.len() as int) =~= Seq::<
            crate::model::SpecTerm,
        >::empty());
        assert(goal =~= out@);
    }
}

/// Appends ` lit` for each literal, left to right.
fn append_lits(out: &mut String, lits: &Vec<Literal>)
    ensures
        final(out)@ == old(out)@ + render_lits(lits.deep_view()),
    decreases *lits,
{
    let ghost lv = lits.deep_view();
    let ghost goal = old(out)@ + render_lits(lv);
    let mut i: usize = 0;
    proof {
        assert(lv.subrange(0, lv.len() as int) =~= lv);
    }
    while i < lits.len()
        invariant
            i <= lits.len(),
            lv == lits.deep_view(),
            goal == out@ + render_lits(lv.subrange(i as int, lv.len() as int)),
        decreases lits@.len() - i,
    {
        let ghost tail = lv.subrange(i as int, lv.len() as int);
        out.append(" ");
        let ls = lits[i].render();
        out.append(ls.as_str());
        proof {
            reveal_strlit(" ");
            assert(" "@ =~= seq![' ']);
            assert(tail[0] == lv[i as int]);
            assert(tail.subrange(1, tail.len() as int) =~= lv.subrange(
                i + 1,
                lv.len() as int,
            ));
            assert(lv[i as int] == lits[i as int].deep_view());
            assert(goal =~= out@ + render_lits(lv.subrange(i + 1, lv.len() as int)));
        }
        i += 1;
    }
    proof {
        assert(lv.subrange(lv.len() as int, lv.len() as int) =~= Seq::<
            crate::model::SpecLiteral,
        >::empty());
        assert(goal =~= out@);
    }
}

impl Constant {
    /// The canonical text of the constant: its name verbatim.
    pub fn render(&self) -> (r: String)
        ensures
            r@ == self.deep_view(),
    {
        self.name.clone()
    }
}

impl Variable {
    /// The canonical text of the variable: `?name`.
    pub fn render(&self) -> (r: String)
        ensures
            r@ == render_variable(self.deep_view()),
    {
        let mut out = String::from_str("?");
        out.append(self.name.name.as_str());
        proof {
            reveal_strlit("?");
            assert("?"@ =~= seq!['?']);
            assert(out@ =~= render_variable(self.deep_view()));
        }
        out
    }
}

impl Function {
    /// The canonical text of the compound term: `(name arg...)`.
    pub fn render(&self) -> (r: String)
        ensures
            r@ == render_function(self.deep_view()),
        decreases *self,
    {
        let mut out = String::from_str("(");
        out.append(self.name.name.as_str());
        append_args(&mut out, &self.args);
        out.append(")");
        proof {
            reveal_strlit("(");
            reveal_strlit(")");
            assert("("@ =~= seq!['(']);
            assert(")"@ =~= seq![')']);
            assert(self.deep_view().args =~= self.args.deep_view());
            assert(out@ =~= render_function(self.deep_view()));
        }
        out
    }
}

impl Term {
    /// The canonical text of the term.
    pub fn render(&self) -> (r: String)
        ensures
            r@ == render_term(self.deep_view()),
        decreases *self,
    {
        match self {
            Term::VarTerm(v) => v.render(),
            Term::FuncTerm(f) => f.render(),
            Term::ConstTerm(c) => c.render(),
        }
    }
}

impl Proposition {
    /// The canonical text of the proposition: its bare name.
    pub fn render(&self) -> (r: String)
        ensures
            r@ == render_proposition(self.deep_view()),
    {
        self.name.render()
    }
}

impl Relation {
    /// The canonical text of the relation: `(name arg...)`.
    pub fn render(&self) -> (r: String)
        ensures
            r@ == render_relation(self.deep_view()),
    {
        let mut out = String::from_str("(");
        out.append(self.name.name.as_str());
        append_args(&mut out, &self.args);
        out.append(")");
        proof {
            reveal_strlit("(");
            reveal_strlit(")");
            assert("("@ =~= seq!['(']);
            assert(")"@ =~= seq![')']);
            assert(self.deep_view().args =~= self.args.deep_view());
            assert(out@ =~= render_relation(self.deep_view()));
        }
        out
    }
}

impl Sentence {
    /// The canonical text of the sentence.
    pub fn render(&self) -> (r: String)
        ensures
            r@ == render_sentence(self.deep_view()),
    {
        match self {
            Sentence::PropSentence(p) => p.render(),
            Sentence::RelSentence(rel) => rel.render(),
        }
    }
}

impl Not {
    /// The canonical text of the negation: `(not lit)`.
    pub fn render(&self) -> (r: String)
        ensures
            r@ == render_not(self.deep_view()),
        decreases *self,
    {
        let mut out = String::from_str("(not ");
        let ls = self.lit.render();
        out.append(ls.as_str());
        out.append(")");
        proof {
            reveal_strlit("(not ");
            reveal_strlit(")");
            assert("(not "@ =~= seq!['('] + kw_not() + seq![' ']);
            assert(")"@ =~= seq![')']);
            assert(out@ =~= render_not(self.deep_view()));
        }
        out
    }
}

impl Or {
    /// The canonical text of the disjunction: `(or lit...)`.
    pub fn render(&self) -> (r: String)
        ensures
            r@ == render_or(self.deep_view()),
        decreases *self,
    {
        let mut out = String::from_str("(or");
        append_lits(&mut out, &self.lits);
        out.append(")");
        proof {
            reveal_strlit("(or");
            reveal_strlit(")");
            assert("(or"@ =~= seq!['('] + kw_or());
            assert(")"@ =~= seq![')']);
            assert(self.deep_view().lits =~= self.lits.deep_view());
            assert(out@ =~= render_or(self.deep_view()));
        }
        out
    }
}

impl Distinct {
    /// The canonical text of the inequality constraint: `(distinct t1 t2)`.
    pub fn render(&self) -> (r: String)
        ensures
            r@ == render_distinct(self.deep_view()),
    {
        let mut out = String::from_str("(distinct ");
        let s1 = self.term1.render();
        out.append(s1.as_str());
        out.append(" ");
        let s2 = self.term2.render();
        out.append(s2.as_str());
        out.append(")");
        proof {
            reveal_strlit("(distinct ");
            reveal_strlit(" ");
            reveal_strlit(")");
            assert("(distinct "@ =~= seq!['('] + kw_distinct() + seq![' ']);
            assert(" "@ =~= seq![' ']);
            assert(")"@ =~= seq![')']);
            assert(out@ =~= render_distinct(self.deep_view()));
        }
        out
    }
}

impl Literal {
    /// The canonical text of the literal.
    pub fn render(&self) -> (r: String)
        ensures
            r@ == render_literal(self.deep_view()),
        decreases *self,
    {
        match self {
            Literal::NotLit(n) => n.render(),
            Literal::OrLit(o) => o.render(),
            Literal::DistinctLit(d) => d.render(),
            Literal::PropLit(p) => p.render(),
            Literal::RelLit(rel) => rel.render(),
        }
    }
}

impl Rule {
    /// The canonical text of the rule: `(<= head lit...)`.
    pub fn render(&self) -> (r: String)
        ensures
            r@ == render_rule(self.deep_view()),
    {
        let mut out = String::from_str("(<= ");
        let hs = self.head.render();
        out.append(hs.as_str());
        append_lits(&mut out, &self.body);
        out.append(")");
        proof {
            reveal_strlit("(<= ");
            reveal_strlit(")");
            assert("(<= "@ =~= seq!['('] + kw_implies() + seq![' ']);
            assert(")"@ =~= seq![')']);
            assert(self.deep_view().body =~= self.body.deep_view());
            assert(out@ =~= render_rule(self.deep_view()));
        }
        out
    }
}

impl Clause {
    /// The canonical text of the clause.
    pub fn render(&self) -> (r: String)
        ensures
            r@ == render_clause(self.deep_view()),
    {
        match self {
            Clause::RuleClause(rule) => rule.render(),
            Clause::SentenceClause(s) => s.render(),
        }
    }
}

impl Description {
    /// The canonical text of the description: the clauses' renderings
    /// separated by single spaces, with no trailing separator.
    pub fn render(&self) -> (r: String)
        ensures
            r@ == render_description(self.deep_view()),
    {
        let ghost cv = self.deep_view().clauses;
        let mut out = String::new();
        if self.clauses.len() == 0 {
            proof {
                assert(out@ =~= render_description(self.deep_view()));
            }
            return out;
        }
        let c0 = self.clauses[0].render();
        out.append(c0.as_str());
        proof {
            assert(cv[0] == self.clauses[0 as int].deep_view());
        }
        let mut i: usize = 1;
        while i < self.clauses.len()
            invariant
                1 <= i <= self.clauses.len(),
                cv == self.deep_view().clauses,
                cv.len() == self.clauses.len(),
                render_description(self.deep_view()) == out@ + render_clauses_tail(
                    cv.subrange(i as int, cv.len() as int),
                ),
            decreases self.clauses@.len() - i,
        {
            let ghost tail = cv.subrange(i as int, cv.len() as int);
            out.append(" ");
            let cs = self.clauses[i].render();
            out.append(cs.as_str());
            proof {
                reveal_strlit(" ");
                assert(" "@ =~= seq![' ']);
                assert(tail[0] == cv[i as int]);
                assert(tail.subrange(1, tail.len() as int) =~= cv.subrange(
                    i + 1,
                    cv.len() as int,
                ));
                assert(cv[i as int] == self.clauses[i as int].deep_view());
                assert(render_description(self.deep_view()) =~= out@ + render_clauses_tail(
                    cv.subrange(i + 1, cv.len() as int),
                ));
            }
            i += 1;
        }
        proof {
            assert(cv.subrange(cv.len() as int, cv.len() as int) =~= Seq::<
                crate::model::SpecClause,
            >::empty());
            assert(render_description(self.deep_view()) =~= out@);
        }
        out
    }
}

} // verus!
