//! The structural total order over every node kind.
//!
//! The order follows variant order, then field order, recursively;
//! sequences compare lexicographically, a strict prefix ordering first.
//! Character sequences compare by code point.  The `cmp_*` functions are
//! the mathematical definition; each node kind's `compare` method is
//! proved to return exactly them; and the laws at the bottom show the
//! order is total: comparison returns `Equal` exactly on structurally
//! equal nodes, reverses under swapping its arguments, and is transitive.

use core::cmp::Ordering;

use vstd::prelude::*;
use vstd::string::StrSliceExecFns;

use crate::ast::{
    Clause, Constant, Description, Distinct, Function, Literal, Not, Or, Proposition, Relation,
    Rule, Sentence, Term, Variable,
};
use crate::model::{
    SpecClause, SpecDescription, SpecDistinct, SpecFunction, SpecLiteral, SpecNot, SpecOr,
    SpecProposition, SpecRelation, SpecRule, SpecSentence, SpecTerm, SpecVariable,
};

verus! {

// ---------------------------------------------------------------------------
// The mathematical order.
// ---------------------------------------------------------------------------

/// Lexicographic order on character sequences, by code point; a strict
/// prefix comes first.
pub open spec fn cmp_chars(a: Seq<char>, b: Seq<char>) -> Ordering
    decreases a.len(),
{
    if a.len() == 0 && b.len() == 0 {
        Ordering::Equal
    } else if a.len() == 0 {
        Ordering::Less
    } else if b.len() == 0 {
        Ordering::Greater
    } else if (a[0] as u32) < (b[0] as u32) {
        Ordering::Less
    } else if (a[0] as u32) > (b[0] as u32) {
        Ordering::Greater
    } else {
        cmp_chars(a.subrange(1, a.len() as int), b.subrange(1, b.len() as int))
    }
}

/// The rank of a term's variant, in declaration order.
pub open spec fn term_rank(t: SpecTerm) -> int {
    match t {
        SpecTerm::VarTerm(_) => 0,
        SpecTerm::FuncTerm(_) => 1,
        SpecTerm::ConstTerm(_) => 2,
    }
}

/// Order on variables: by name.
pub open spec fn cmp_variable(a: SpecVariable, b: SpecVariable) -> Ordering {
    cmp_chars(a.name, b.name)
}

/// Order on compound terms: by name, then by arguments.
pub open spec fn cmp_function(a: SpecFunction, b: SpecFunction) -> Ordering
    decreases a,
{
    if cmp_chars(a.name, b.name) == Ordering::Equal {
        cmp_terms(a.args, b.args)
    } else {
        cmp_chars(a.name, b.name)
    }
}

/// Order on terms: by variant rank, then within the variant.
pub open spec fn cmp_term(a: SpecTerm, b: SpecTerm) -> Ordering
    decreases a,
{
    if term_rank(a) < term_rank(b) {
        Ordering::Less
    } else if term_rank(a) > term_rank(b) {
        Ordering::Greater
    } else {
        match (a, b) {
            (SpecTerm::VarTerm(v1), SpecTerm::VarTerm(v2)) => cmp_variable(v1, v2),
            (SpecTerm::FuncTerm(f1), SpecTerm::FuncTerm(f2)) => cmp_function(f1, f2),
            (SpecTerm::ConstTerm(c1), SpecTerm::ConstTerm(c2)) => cmp_chars(c1, c2),
            _ => Ordering::Equal,
        }
    }
}

/// Lexicographic order on term sequences; a strict prefix comes first.
pub open spec fn cmp_terms(a: Seq<SpecTerm>, b: Seq<SpecTerm>) -> Ordering
    decreases a,
{
    if a.len() == 0 && b.len() == 0 {
        Ordering::Equal
    } else if a.len() == 0 {
        Ordering::Less
    } else if b.len() == 0 {
        Ordering::Greater
    } else if cmp_term(a[0], b[0]) == Ordering::Equal {
        cmp_terms(a.subrange(1, a.len() as int), b.subrange(1, b.len() as int))
    } else {
        cmp_term(a[0], b[0])
    }
}

/// Order on propositions: by name.
pub open spec fn cmp_proposition(a: SpecProposition, b: SpecProposition) -> Ordering {
    cmp_chars(a.name, b.name)
}

/// Order on relations: by name, then by arguments.
pub open spec fn cmp_relation(a: SpecRelation, b: SpecRelation) -> Ordering {
    if cmp_chars(a.name, b.name) == Ordering::Equal {
        cmp_terms(a.args, b.args)
    } else {
        cmp_chars(a.name, b.name)
    }
}

/// The rank of a sentence's variant, in declaration order.
pub open spec fn sentence_rank(s: SpecSentence) -> int {
    match s {
        SpecSentence::PropSentence(_) => 0,
        SpecSentence::RelSentence(_) => 1,
    }
}

/// Order on sentences: by variant rank, then within the variant.
pub open spec fn cmp_sentence(a: SpecSentence, b: SpecSentence) -> Ordering {
    if sentence_rank(a) < sentence_rank(b) {
        Ordering::Less
    } else if sentence_rank(a) > sentence_rank(b) {
        Ordering::Greater
    } else {
        match (a, b) {
            (SpecSentence::PropSentence(p1), SpecSentence::PropSentence(p2)) => cmp_proposition(
                p1,
                p2,
            ),
            (SpecSentence::RelSentence(r1), SpecSentence::RelSentence(r2)) => cmp_relation(r1, r2),
            _ => Ordering::Equal,
        }
    }
}

/// The rank of a literal's variant, in declaration order.
pub open spec fn literal_rank(l: SpecLiteral) -> int {
    match l {
        SpecLiteral::NotLit(_) => 0,
        SpecLiteral::OrLit(_) => 1,
        SpecLiteral::DistinctLit(_) => 2,
        SpecLiteral::PropLit(_) => 3,
        SpecLiteral::RelLit(_) => 4,
    }
}

/// Order on negations: by the negated literal.
pub open spec fn cmp_not(a: SpecNot, b: SpecNot) -> Ordering
    decreases a,
{
    cmp_literal(*a.lit, *b.lit)
}

/// Order on disjunctions: by the disjunct list.
pub open spec fn cmp_or(a: SpecOr, b: SpecOr) -> Ordering
    decreases a,
{
    cmp_lits(a.lits, b.lits)
}

/// Order on inequality constraints: by first term, then second.
pub open spec fn cmp_distinct(a: SpecDistinct, b: SpecDistinct) -> Ordering {
    if cmp_term(a.term1, b.term1) == Ordering::Equal {
        cmp_term(a.term2, b.term2)
    } else {
        cmp_term(a.term1, b.term1)
    }
}

/// Order on literals: by variant rank, then within the variant.
pub open spec fn cmp_literal(a: SpecLiteral, b: SpecLiteral) -> Ordering
    decreases a,
{
    if literal_rank(a) < literal_rank(b) {
        Ordering::Less
    } else if literal_rank(a) > literal_rank(b) {
        Ordering::Greater
    } else {
        match (a, b) {
            (SpecLiteral::NotLit(n1), SpecLiteral::NotLit(n2)) => cmp_not(n1, n2),
            (SpecLiteral::OrLit(o1), SpecLiteral::OrLit(o2)) => cmp_or(o1, o2),
            (SpecLiteral::DistinctLit(d1), SpecLiteral::DistinctLit(d2)) => cmp_distinct(d1, d2),
            (SpecLiteral::PropLit(p1), SpecLiteral::PropLit(p2)) => cmp_proposition(p1, p2),
            (SpecLiteral::RelLit(r1), SpecLiteral::RelLit(r2)) => cmp_relation(r1, r2),
            _ => Ordering::Equal,
        }
    }
}

/// Lexicographic order on literal sequences; a strict prefix comes first.
pub open spec fn cmp_lits(a: Seq<SpecLiteral>, b: Seq<SpecLiteral>) -> Ordering
    decreases a,
{
    if a.len() == 0 && b.len() == 0 {
        Ordering::Equal
    } else if a.len() == 0 {
        Ordering::Less
    } else if b.len() == 0 {
        Ordering::Greater
    } else if cmp_literal(a[0], b[0]) == Ordering::Equal {
        cmp_lits(a.subrange(1, a.len() as int), b.subrange(1, b.len() as int))
    } else {
        cmp_literal(a[0], b[0])
    }
}

/// Order on rules: by head, then by body.
pub open spec fn cmp_rule(a: SpecRule, b: SpecRule) -> Ordering {
    if cmp_sentence(a.head, b.head) == Ordering::Equal {
        cmp_lits(a.body, b.body)
    } else {
        cmp_sentence(a.head, b.head)
    }
}

/// The rank of a clause's variant, in declaration order.
pub open spec fn clause_rank(c: SpecClause) -> int {
    match c {
        SpecClause::RuleClause(_) => 0,
        SpecClause::SentenceClause(_) => 1,
    }
}

/// Order on clauses: by variant rank, then within the variant.
pub open spec fn cmp_clause(a: SpecClause, b: SpecClause) -> Ordering {
    if clause_rank(a) < clause_rank(b) {
        Ordering::Less
    } else if clause_rank(a) > clause_rank(b) {
        Ordering::Greater
    } else {
        match (a, b) {
            (SpecClause::RuleClause(r1), SpecClause::RuleClause(r2)) => cmp_rule(r1, r2),
            (SpecClause::SentenceClause(s1), SpecClause::SentenceClause(s2)) => cmp_sentence(
                s1,
                s2,
            ),
            _ => Ordering::Equal,
        }
    }
}

/// Lexicographic order on clause sequences; a strict prefix comes first.
pub open spec fn cmp_clauses(a: Seq<SpecClause>, b: Seq<SpecClause>) -> Ordering
    decreases a,
{
    if a.len() == 0 && b.len() == 0 {
        Ordering::Equal
    } else if a.len() == 0 {
        Ordering::Less
    } else if b.len() == 0 {
        Ordering::Greater
    } else if cmp_clause(a[0], b[0]) == Ordering::Equal {
        cmp_clauses(a.subrange(1, a.len() as int), b.subrange(1, b.len() as int))
    } else {
        cmp_clause(a[0], b[0])
    }
}

/// Order on descriptions: by the clause list.
pub open spec fn cmp_description(a: SpecDescription, b: SpecDescription) -> Ordering {
    cmp_clauses(a.clauses, b.clauses)
}

// ---------------------------------------------------------------------------
// The executable comparisons.
// ---------------------------------------------------------------------------

/// Compares two strings by code point.
fn compare_str(a: &str, b: &str) -> (r: Ordering)
    ensures
        r == cmp_chars(a@, b@),
{
    let na = a.unicode_len();
    let nb = b.unicode_len();
    let mut i: usize = 0;
    proof {
        assert(a@.subrange(0, na as int) =~= a@);
        assert(b@.subrange(0, nb as int) =~= b@);
    }
    while i < na && i < nb
        invariant
            na == a@.len(),
            nb == b@.len(),
            i <= na,
            i <= nb,
            cmp_chars(a@, b@) == cmp_chars(
                a@.subrange(i as int, na as int),
                b@.subrange(i as int, nb as int),
            ),
        decreases na - i,
    {
        let ca = a.get_char(i);
        let cb = b.get_char(i);
        let ghost sa = a@.subrange(i as int, na as int);
        let ghost sb = b@.subrange(i as int, nb as int);
        if (ca as u32) < (cb as u32) {
            proof {
                assert(cmp_chars(sa, sb) == Ordering::Less);
            }
            return Ordering::Less;
        }
        if (ca as u32) > (cb as u32) {
            proof {
                assert(cmp_chars(sa, sb) == Ordering::Greater);
            }
            return Ordering::Greater;
        }
        proof {
            assert(sa.subrange(1, sa.len() as int) =~= a@.subrange(i + 1, na as int));
            assert(sb.subrange(1, sb.len() as int) =~= b@.subrange(i + 1, nb as int));
        }
        i += 1;
    }
    if na == nb {
        proof {
            assert(a@.subrange(i as int, na as int).len() == 0);
            assert(b@.subrange(i as int, nb as int).len() == 0);
        }
        Ordering::Equal
    } else if na < nb {
        proof {
            assert(a@.subrange(i as int, na as int).len() == 0);
            assert(b@.subrange(i as int, nb as int).len() > 0);
        }
        Ordering::Less
    } else {
        proof {
            assert(b@.subrange(i as int, nb as int).len() == 0);
            assert(a@.subrange(i as int, na as int).len() > 0);
        }
        Ordering::Greater
    }
}

impl Constant {
    /// Structural comparison, by name.
    pub fn compare(&self, other: &Constant) -> (r: Ordering)
        ensures
            r == cmp_chars(self.deep_view(), other.deep_view()),
    {
        compare_str(self.name.as_str(), other.name.as_str())
    }
}

impl Variable {
    /// Structural comparison, by name.
    pub fn compare(&self, other: &Variable) -> (r: Ordering)
        ensures
            r == cmp_variable(self.deep_view(), other.deep_view()),
    {
        self.name.compare(&other.name)
    }
}

/// Compares two term lists lexicographically.
fn compare_term_lists(a: &Vec<Term>, b: &Vec<Term>) -> (r: Ordering)
    ensures
        r == cmp_terms(a.deep_view(), b.deep_view()),
    decreases *a,
{
    let ghost adv = a.deep_view();
    let ghost bdv = b.deep_view();
    let mut i: usize = 0;
    proof {
        assert(adv.subrange(0, adv.len() as int) =~= adv);
        assert(bdv.subrange(0, bdv.len() as int) =~= bdv);
    }
    while i < a.len() && i < b.len()
        invariant
            adv == a.deep_view(),
            bdv == b.deep_view(),
            adv.len() == a@.len(),
            bdv.len() == b@.len(),
            i <= a@.len(),
            i <= b@.len(),
            cmp_terms(adv, bdv) == cmp_terms(
                adv.subrange(i as int, adv.len() as int),
                bdv.subrange(i as int, bdv.len() as int),
            ),
        decreases a@.len() - i,
    {
        let ghost sa = adv.subrange(i as int, adv.len() as int);
        let ghost sb = bdv.subrange(i as int, bdv.len() as int);
        proof {
            assert(decreases_to!(*a => a@[i as int]));
        }
        let c = a[i].compare(&b[i]);
        match c {
            Ordering::Equal => {
                proof {
                    assert(sa[0] == adv[i as int]);
                    assert(sb[0] == bdv[i as int]);
                    assert(sa.subrange(1, sa.len() as int) =~= adv.subrange(
                        i + 1,
                        adv.len() as int,
                    ));
                    assert(sb.subrange(1, sb.len() as int) =~= bdv.subrange(
                        i + 1,
                        bdv.len() as int,
                    ));
                }
                i += 1;
            },
            _ => {
                proof {
                    assert(sa[0] == adv[i as int]);
                    assert(sb[0] == bdv[i as int]);
                    assert(cmp_terms(sa, sb) == c);
                }
                return c;
            },
        }
    }
    if a.len() == b.len() {
        proof {
            assert(adv.subrange(i as int, adv.len() as int).len() == 0);
            assert(bdv.subrange(i as int, bdv.len() as int).len() == 0);
        }
        Ordering::Equal
    } else if a.len() < b.len() {
        proof {
            assert(adv.subrange(i as int, adv.len() as int).len() == 0);
            assert(bdv.subrange(i as int, bdv.len() as int).len() > 0);
        }
        Ordering::Less
    } else {
        proof {
            assert(bdv.subrange(i as int, bdv.len() as int).len() == 0);
            assert(adv.subrange(i as int, adv.len() as int).len() > 0);
        }
        Ordering::Greater
    }
}

impl Function {
    /// Structural comparison: by name, then by arguments.
    pub fn compare(&self, other: &Function) -> (r: Ordering)
        ensures
            r == cmp_function(self.deep_view(), other.deep_view()),
        decreases *self,
    {
        proof {
            assert(self.deep_view().args =~= self.args.deep_view());
            assert(other.deep_view().args =~= other.args.deep_view());
        }
        let c = self.name.compare(&other.name);
        match c {
            Ordering::Equal => compare_term_lists(&self.args, &other.args),
            _ => c,
        }
    }
}

impl Term {
    /// Structural comparison: by variant, then within the variant.
    pub fn compare(&self, other: &Term) -> (r: Ordering)
        ensures
            r == cmp_term(self.deep_view(), other.deep_view()),
        decreases *self,
    {
        match (self, other) {
            (Term::VarTerm(v1), Term::VarTerm(v2)) => v1.compare(v2),
            (Term::VarTerm(_), _) => Ordering::Less,
            (Term::FuncTerm(_), Term::VarTerm(_)) => Ordering::Greater,
            (Term::FuncTerm(f1), Term::FuncTerm(f2)) => f1.compare(f2),
            (Term::FuncTerm(_), Term::ConstTerm(_)) => Ordering::Less,
            (Term::ConstTerm(c1), Term::ConstTerm(c2)) => c1.compare(c2),
            (Term::ConstTerm(_), _) => Ordering::Greater,
        }
    }
}

impl Proposition {
    /// Structural comparison, by name.
    pub fn compare(&self, other: &Proposition) -> (r: Ordering)
        ensures
            r == cmp_proposition(self.deep_view(), other.deep_view()),
    {
        self.name.compare(&other.name)
    }
}

impl Relation {
    /// Structural comparison: by name, then by arguments.
    pub fn compare(&self, other: &Relation) -> (r: Ordering)
        ensures
            r == cmp_relation(self.deep_view(), other.deep_view()),
    {
        proof {
            assert(self.deep_view().args =~= self.args.deep_view());
            assert(other.deep_view().args =~= other.args.deep_view());
        }
        let c = self.name.compare(&other.name);
        match c {
            Ordering::Equal => compare_term_lists(&self.args, &other.args),
            _ => c,
        }
    }
}

impl Sentence {
    /// Structural comparison: by variant, then within the variant.
    pub fn compare(&self, other: &Sentence) -> (r: Ordering)
        ensures
            r == cmp_sentence(self.deep_view(), other.deep_view()),
    {
        match (self, other) {
            (Sentence::PropSentence(p1), Sentence::PropSentence(p2)) => p1.compare(p2),
            (Sentence::PropSentence(_), Sentence::RelSentence(_)) => Ordering::Less,
            (Sentence::RelSentence(_), Sentence::PropSentence(_)) => Ordering::Greater,
            (Sentence::RelSentence(r1), Sentence::RelSentence(r2)) => r1.compare(r2),
        }
    }
}

impl Not {
    /// Structural comparison, by the negated literal.
    pub fn compare(&self, other: &Not) -> (r: Ordering)
        ensures
            r == cmp_not(self.deep_view(), other.deep_view()),
        decreases *self,
    {
        (*self.lit).compare(&*other.lit)
    }
}

/// Compares two literal lists lexicographically.
fn compare_literal_lists(a: &Vec<Literal>, b: &Vec<Literal>) -> (r: Ordering)
    ensures
        r == cmp_lits(a.deep_view(), b.deep_view()),
    decreases *a,
{
    let ghost adv = a.deep_view();
    let ghost bdv = b.deep_view();
    let mut i: usize = 0;
    proof {
        assert(adv.subrange(0, adv.len() as int) =~= adv);
        assert(bdv.subrange(0, bdv.len() as int) =~= bdv);
    }
    while i < a.len() && i < b.len()
        invariant
            adv == a.deep_view(),
            bdv == b.deep_view(),
            adv.len() == a@.len(),
            bdv.len() == b@.len(),
            i <= a@.len(),
            i <= b@.len(),
            cmp_lits(adv, bdv) == cmp_lits(
                adv.subrange(i as int, adv.len() as int),
                bdv.subrange(i as int, bdv.len() as int),
            ),
        decreases a@.len() - i,
    {
        let ghost sa = adv.subrange(i as int, adv.len() as int);
        let ghost sb = bdv.subrange(i as int, bdv.len() as int);
        proof {
            assert(decreases_to!(*a => a@[i as int]));
        }
        let c = a[i].compare(&b[i]);
        match c {
            Ordering::Equal => {
                proof {
                    assert(sa[0] == adv[i as int]);
                    assert(sb[0] == bdv[i as int]);
                    assert(sa.subrange(1, sa.len() as int) =~= adv.subrange(
                        i + 1,
                        adv.len() as int,
                    ));
                    assert(sb.subrange(1, sb.len() as int) =~= bdv.subrange(
                        i + 1,
                        bdv.len() as int,
                    ));
                }
                i += 1;
            },
            _ => {
                proof {
                    assert(sa[0] == adv[i as int]);
                    assert(sb[0] == bdv[i as int]);
                    assert(cmp_lits(sa, sb) == c);
                }
                return c;
            },
        }
    }
    if a.len() == b.len() {
        proof {
            assert(adv.subrange(i as int, adv.len() as int).len() == 0);
            assert(bdv.subrange(i as int, bdv.len() as int).len() == 0);
        }
        Ordering::Equal
    } else if a.len() < b.len() {
        proof {
            assert(adv.subrange(i as int, adv.len() as int).len() == 0);
            assert(bdv.subrange(i as int, bdv.len() as int).len() > 0);
        }
        Ordering::Less
    } else {
        proof {
            assert(bdv.subrange(i as int, bdv.len() as int).len() == 0);
            assert(adv.subrange(i as int, adv.len() as int).len() > 0);
        }
        Ordering::Greater
    }
}

impl Or {
    /// Structural comparison, by the disjunct list.
    pub fn compare(&self, other: &Or) -> (r: Ordering)
        ensures
            r == cmp_or(self.deep_view(), other.deep_view()),
        decreases *self,
    {
        proof {
            assert(self.deep_view().lits =~= self.lits.deep_view());
            assert(other.deep_view().lits =~= other.lits.deep_view());
        }
        compare_literal_lists(&self.lits, &other.lits)
    }
}

impl Distinct {
    /// Structural comparison: by first term, then second.
    pub fn compare(&self, other: &Distinct) -> (r: Ordering)
        ensures
            r == cmp_distinct(self.deep_view(), other.deep_view()),
    {
        let c = self.term1.compare(&other.term1);
        match c {
            Ordering::Equal => self.term2.compare(&other.term2),
            _ => c,
        }
    }
}

impl Literal {
    /// Structural comparison: by variant, then within the variant.
    pub fn compare(&self, other: &Literal) -> (r: Ordering)
        ensures
            r == cmp_literal(self.deep_view(), other.deep_view()),
        decreases *self,
    {
        match (self, other) {
            (Literal::NotLit(n1), Literal::NotLit(n2)) => n1.compare(n2),
            (Literal::NotLit(_), _) => Ordering::Less,
            (Literal::OrLit(_), Literal::NotLit(_)) => Ordering::Greater,
            (Literal::OrLit(o1), Literal::OrLit(o2)) => o1.compare(o2),
            (Literal::OrLit(_), _) => Ordering::Less,
            (Literal::DistinctLit(_), Literal::NotLit(_)) => Ordering::Greater,
            (Literal::DistinctLit(_), Literal::OrLit(_)) => Ordering::Greater,
            (Literal::DistinctLit(d1), Literal::DistinctLit(d2)) => d1.compare(d2),
            (Literal::DistinctLit(_), _) => Ordering::Less,
            (Literal::PropLit(p1), Literal::PropLit(p2)) => p1.compare(p2),
            (Literal::PropLit(_), Literal::RelLit(_)) => Ordering::Less,
            (Literal::PropLit(_), _) => Ordering::Greater,
            (Literal::RelLit(r1), Literal::RelLit(r2)) => r1.compare(r2),
            (Literal::RelLit(_), _) => Ordering::Greater,
        }
    }
}

impl Rule {
    /// Structural comparison: by head, then by body.
    pub fn compare(&self, other: &Rule) -> (r: Ordering)
        ensures
            r == cmp_rule(self.deep_view(), other.deep_view()),
    {
        proof {
            assert(self.deep_view().body =~= self.body.deep_view());
            assert(other.deep_view().body =~= other.body.deep_view());
        }
        let c = self.head.compare(&other.head);
        match c {
            Ordering::Equal => compare_literal_lists(&self.body, &other.body),
            _ => c,
        }
    }
}

impl Clause {
    /// Structural comparison: by variant, then within the variant.
    pub fn compare(&self, other: &Clause) -> (r: Ordering)
        ensures
            r == cmp_clause(self.deep_view(), other.deep_view()),
    {
        match (self, other) {
            (Clause::RuleClause(r1), Clause::RuleClause(r2)) => r1.compare(r2),
            (Clause::RuleClause(_), Clause::SentenceClause(_)) => Ordering::Less,
            (Clause::SentenceClause(_), Clause::RuleClause(_)) => Ordering::Greater,
            (Clause::SentenceClause(s1), Clause::SentenceClause(s2)) => s1.compare(s2),
        }
    }
}

impl Description {
    /// Structural comparison, by the clause list.
    pub fn compare(&self, other: &Description) -> (r: Ordering)
        ensures
            r == cmp_description(self.deep_view(), other.deep_view()),
    {
        proof {
            assert(self.deep_view().clauses =~= self.clauses.deep_view());
            assert(other.deep_view().clauses =~= other.clauses.deep_view());
        }
        let ghost adv = self.clauses.deep_view();
        let ghost bdv = other.clauses.deep_view();
        let mut i: usize = 0;
        proof {
            assert(adv.subrange(0, adv.len() as int) =~= adv);
            assert(bdv.subrange(0, bdv.len() as int) =~= bdv);
        }
        while i < self.clauses.len() && i < other.clauses.len()
            invariant
                adv == self.clauses.deep_view(),
                bdv == other.clauses.deep_view(),
                adv.len() == self.clauses@.len(),
                bdv.len() == other.clauses@.len(),
                i <= self.clauses@.len(),
                i <= other.clauses@.len(),
                cmp_clauses(adv, bdv) == cmp_clauses(
                    adv.subrange(i as int, adv.len() as int),
                    bdv.subrange(i as int, bdv.len() as int),
                ),
            decreases self.clauses@.len() - i,
        {
            let ghost sa = adv.subrange(i as int, adv.len() as int);
            let ghost sb = bdv.subrange(i as int, bdv.len() as int);
            let c = self.clauses[i].compare(&other.clauses[i]);
            match c {
                Ordering::Equal => {
                    proof {
                        assert(sa[0] == adv[i as int]);
                        assert(sb[0] == bdv[i as int]);
                        assert(sa.subrange(1, sa.len() as int) =~= adv.subrange(
                            i + 1,
                            adv.len() as int,
                        ));
                        assert(sb.subrange(1, sb.len() as int) =~= bdv.subrange(
                            i + 1,
                            bdv.len() as int,
                        ));
                    }
                    i += 1;
                },
                _ => {
                    proof {
                        assert(sa[0] == adv[i as int]);
                        assert(sb[0] == bdv[i as int]);
                        assert(cmp_clauses(sa, sb) == c);
                    }
                    return c;
                },
            }
        }
        if self.clauses.len() == other.clauses.len() {
            proof {
                assert(adv.subrange(i as int, adv.len() as int).len() == 0);
                assert(bdv.subrange(i as int, bdv.len() as int).len() == 0);
            }
            Ordering::Equal
        } else if self.clauses.len() < other.clauses.len() {
            proof {
                assert(adv.subrange(i as int, adv.len() as int).len() == 0);
                assert(bdv.subrange(i as int, bdv.len() as int).len() > 0);
            }
            Ordering::Less
        } else {
            proof {
                assert(bdv.subrange(i as int, bdv.len() as int).len() == 0);
                assert(adv.subrange(i as int, adv.len() as int).len() > 0);
            }
            Ordering::Greater
        }
    }
}

// ---------------------------------------------------------------------------
// The laws: the order is total.
// ---------------------------------------------------------------------------

/// The opposite of an ordering.
pub open spec fn flip(o: Ordering) -> Ordering {
    match o {
        Ordering::Less => Ordering::Greater,
        Ordering::Equal => Ordering::Equal,
        Ordering::Greater => Ordering::Less,
    }
}

/// Character comparison returns `Equal` exactly on equal sequences.
pub proof fn lemma_cmp_chars_eq(a: Seq<char>, b: Seq<char>)
    ensures
        (cmp_chars(a, b) == Ordering::Equal) <==> (a == b),
    decreases a.len(),
{
    if a.len() == 0 && b.len() == 0 {
        assert(a =~= b);
    } else if a.len() > 0 && b.len() > 0 && (a[0] as u32) == (b[0] as u32) {
        let ta = a.subrange(1, a.len() as int);
        let tb = b.subrange(1, b.len() as int);
        lemma_cmp_chars_eq(ta, tb);
        vstd::utf8::char_u32_cast(a[0], (a[0] as u32));
        vstd::utf8::char_u32_cast(b[0], (b[0] as u32));
        assert(a[0] == b[0]);
        if cmp_chars(a, b) == Ordering::Equal {
            assert(ta == tb);
            assert forall|i: int| 0 <= i < a.len() implies a[i] == b[i] by {
                if i > 0 {
                    assert(a[i] == ta[i - 1]);
                    assert(b[i] == tb[i - 1]);
                }
            }
            assert(a =~= b);
        }
        if a == b {
            assert(ta =~= tb);
        }
    }
}

/// Swapping the arguments of a character comparison flips the result.
pub proof fn lemma_cmp_chars_antisym(a: Seq<char>, b: Seq<char>)
    ensures
        cmp_chars(b, a) == flip(cmp_chars(a, b)),
    decreases a.len(),
{
    if a.len() > 0 && b.len() > 0 && (a[0] as u32) == (b[0] as u32) {
        lemma_cmp_chars_antisym(
            a.subrange(1, a.len() as int),
            b.subrange(1, b.len() as int),
        );
    }
}

/// Character comparison is transitive.
pub proof fn lemma_cmp_chars_trans(a: Seq<char>, b: Seq<char>, c: Seq<char>)
    requires
        cmp_chars(a, b) == Ordering::Less,
        cmp_chars(b, c) == Ordering::Less,
    ensures
        cmp_chars(a, c) == Ordering::Less,
    decreases a.len(),
{
    if a.len() > 0 {
        if (a[0] as u32) == (b[0] as u32) && (b[0] as u32) == (c[0] as u32) {
            lemma_cmp_chars_trans(
                a.subrange(1, a.len() as int),
                b.subrange(1, b.len() as int),
                c.subrange(1, c.len() as int),
            );
        }
    }
}

/// Term comparison returns `Equal` exactly on structurally equal terms.
pub proof fn lemma_cmp_term_eq(a: SpecTerm, b: SpecTerm)
    ensures
        (cmp_term(a, b) == Ordering::Equal) <==> (a == b),
    decreases a,
{
    match (a, b) {
        (SpecTerm::VarTerm(v1), SpecTerm::VarTerm(v2)) => {
            lemma_cmp_chars_eq(v1.name, v2.name);
            if v1.name == v2.name {
                assert(v1 =~= v2);
            }
        },
        (SpecTerm::FuncTerm(f1), SpecTerm::FuncTerm(f2)) => {
            lemma_cmp_chars_eq(f1.name, f2.name);
            lemma_cmp_terms_eq(f1.args, f2.args);
            if f1.name == f2.name && f1.args == f2.args {
                assert(f1 =~= f2);
            }
        },
        (SpecTerm::ConstTerm(c1), SpecTerm::ConstTerm(c2)) => {
            lemma_cmp_chars_eq(c1, c2);
        },
        _ => {},
    }
}

/// Term-list comparison returns `Equal` exactly on equal lists.
pub proof fn lemma_cmp_terms_eq(x: Seq<SpecTerm>, y: Seq<SpecTerm>)
    ensures
        (cmp_terms(x, y) == Ordering::Equal) <==> (x == y),
    decreases x,
{
    if x.len() == 0 && y.len() == 0 {
        assert(x =~= y);
    } else if x.len() > 0 && y.len() > 0 {
        lemma_cmp_term_eq(x[0], y[0]);
        if cmp_term(x[0], y[0]) == Ordering::Equal {
            let tx = x.subrange(1, x.len() as int);
            let ty = y.subrange(1, y.len() as int);
            lemma_cmp_terms_eq(tx, ty);
            if cmp_terms(x, y) == Ordering::Equal {
                assert forall|i: int| 0 <= i < x.len() implies x[i] == y[i] by {
                    if i > 0 {
                        assert(x[i] == tx[i - 1]);
                        assert(y[i] == ty[i - 1]);
                    }
                }
                assert(x =~= y);
            }
            if x == y {
                assert(tx =~= ty);
            }
        } else {
            assert(x[0] != y[0]);
        }
    }
}

/// Swapping the arguments of a term comparison flips the result.
pub proof fn lemma_cmp_term_antisym(a: SpecTerm, b: SpecTerm)
    ensures
        cmp_term(b, a) == flip(cmp_term(a, b)),
    decreases a,
{
    match (a, b) {
        (SpecTerm::VarTerm(v1), SpecTerm::VarTerm(v2)) => {
            lemma_cmp_chars_antisym(v1.name, v2.name);
        },
        (SpecTerm::FuncTerm(f1), SpecTerm::FuncTerm(f2)) => {
            lemma_cmp_chars_antisym(f1.name, f2.name);
            lemma_cmp_terms_antisym(f1.args, f2.args);
        },
        (SpecTerm::ConstTerm(c1), SpecTerm::ConstTerm(c2)) => {
            lemma_cmp_chars_antisym(c1, c2);
        },
        _ => {},
    }
}

/// Swapping the arguments of a term-list comparison flips the result.
pub proof fn lemma_cmp_terms_antisym(x: Seq<SpecTerm>, y: Seq<SpecTerm>)
    ensures
        cmp_terms(y, x) == flip(cmp_terms(x, y)),
    decreases x,
{
    if x.len() > 0 && y.len() > 0 {
        lemma_cmp_term_antisym(x[0], y[0]);
        if cmp_term(x[0], y[0]) == Ordering::Equal {
            lemma_cmp_terms_antisym(
                x.subrange(1, x.len() as int),
                y.subrange(1, y.len() as int),
            );
        }
    }
}

/// Term comparison is transitive.
pub proof fn lemma_cmp_term_trans(a: SpecTerm, b: SpecTerm, c: SpecTerm)
    requires
        cmp_term(a, b) == Ordering::Less,
        cmp_term(b, c) == Ordering::Less,
    ensures
        cmp_term(a, c) == Ordering::Less,
    decreases a,
{
    if term_rank(a) == term_rank(b) && term_rank(b) == term_rank(c) {
        match (a, b, c) {
            (SpecTerm::VarTerm(v1), SpecTerm::VarTerm(v2), SpecTerm::VarTerm(v3)) => {
                lemma_cmp_chars_trans(v1.name, v2.name, v3.name);
            },
            (SpecTerm::FuncTerm(f1), SpecTerm::FuncTerm(f2), SpecTerm::FuncTerm(f3)) => {
                lemma_cmp_chars_eq(f1.name, f2.name);
                lemma_cmp_chars_eq(f2.name, f3.name);
                if cmp_chars(f1.name, f2.name) == Ordering::Equal {
                    if cmp_chars(f2.name, f3.name) == Ordering::Equal {
                        lemma_cmp_terms_trans(f1.args, f2.args, f3.args);
                    }
                } else {
                    if cmp_chars(f2.name, f3.name) != Ordering::Equal {
                        lemma_cmp_chars_trans(f1.name, f2.name, f3.name);
                    }
                }
            },
            (SpecTerm::ConstTerm(c1), SpecTerm::ConstTerm(c2), SpecTerm::ConstTerm(c3)) => {
                lemma_cmp_chars_trans(c1, c2, c3);
            },
            _ => {},
        }
    }
}

/// Term-list comparison is transitive.
pub proof fn lemma_cmp_terms_trans(x: Seq<SpecTerm>, y: Seq<SpecTerm>, z: Seq<SpecTerm>)
    requires
        cmp_terms(x, y) == Ordering::Less,
        cmp_terms(y, z) == Ordering::Less,
    ensures
        cmp_terms(x, z) == Ordering::Less,
    decreases x,
{
    if x.len() > 0 {
        if y.len() > 0 && z.len() > 0 {
            lemma_cmp_term_eq(x[0], y[0]);
            lemma_cmp_term_eq(y[0], z[0]);
            if cmp_term(x[0], y[0]) == Ordering::Equal {
                if cmp_term(y[0], z[0]) == Ordering::Equal {
                    lemma_cmp_terms_trans(
                        x.subrange(1, x.len() as int),
                        y.subrange(1, y.len() as int),
                        z.subrange(1, z.len() as int),
                    );
                }
            } else {
                if cmp_term(y[0], z[0]) != Ordering::Equal {
                    lemma_cmp_term_trans(x[0], y[0], z[0]);
                }
            }
        }
    }
}

/// Variable comparison returns `Equal` exactly on equal variables.
pub proof fn lemma_cmp_variable_eq(a: SpecVariable, b: SpecVariable)
    ensures
        (cmp_variable(a, b) == Ordering::Equal) <==> (a == b),
{
    lemma_cmp_chars_eq(a.name, b.name);
    if a.name == b.name {
        assert(a =~= b);
    }
}

/// Swapping the arguments of a variable comparison flips the result.
pub proof fn lemma_cmp_variable_antisym(a: SpecVariable, b: SpecVariable)
    ensures
        cmp_variable(b, a) == flip(cmp_variable(a, b)),
{
    lemma_cmp_chars_antisym(a.name, b.name);
}

/// Variable comparison is transitive.
pub proof fn lemma_cmp_variable_trans(a: SpecVariable, b: SpecVariable, c: SpecVariable)
    requires
        cmp_variable(a, b) == Ordering::Less,
        cmp_variable(b, c) == Ordering::Less,
    ensures
        cmp_variable(a, c) == Ordering::Less,
{
    lemma_cmp_chars_trans(a.name, b.name, c.name);
}

/// Compound-term comparison returns `Equal` exactly on equal terms.
pub proof fn lemma_cmp_function_eq(a: SpecFunction, b: SpecFunction)
    ensures
        (cmp_function(a, b) == Ordering::Equal) <==> (a == b),
{
    lemma_cmp_chars_eq(a.name, b.name);
    lemma_cmp_terms_eq(a.args, b.args);
    if a.name == b.name && a.args == b.args {
        assert(a =~= b);
    }
}

/// Swapping the arguments of a compound-term comparison flips the result.
pub proof fn lemma_cmp_function_antisym(a: SpecFunction, b: SpecFunction)
    ensures
        cmp_function(b, a) == flip(cmp_function(a, b)),
{
    lemma_cmp_chars_antisym(a.name, b.name);
    lemma_cmp_chars_eq(a.name, b.name);
    lemma_cmp_terms_antisym(a.args, b.args);
}

/// Compound-term comparison is transitive.
pub proof fn lemma_cmp_function_trans(a: SpecFunction, b: SpecFunction, c: SpecFunction)
    requires
        cmp_function(a, b) == Ordering::Less,
        cmp_function(b, c) == Ordering::Less,
    ensures
        cmp_function(a, c) == Ordering::Less,
{
    lemma_cmp_chars_eq(a.name, b.name);
    lemma_cmp_chars_eq(b.name, c.name);
    if cmp_chars(a.name, b.name) == Ordering::Equal {
        if cmp_chars(b.name, c.name) == Ordering::Equal {
            lemma_cmp_terms_trans(a.args, b.args, c.args);
        }
    } else {
        if cmp_chars(b.name, c.name) != Ordering::Equal {
            lemma_cmp_chars_trans(a.name, b.name, c.name);
        }
    }
}

/// Proposition comparison returns `Equal` exactly on equal propositions.
pub proof fn lemma_cmp_proposition_eq(a: SpecProposition, b: SpecProposition)
    ensures
        (cmp_proposition(a, b) == Ordering::Equal) <==> (a == b),
{
    lemma_cmp_chars_eq(a.name, b.name);
    if a.name == b.name {
        assert(a =~= b);
    }
}

/// Swapping the arguments of a proposition comparison flips the result.
pub proof fn lemma_cmp_proposition_antisym(a: SpecProposition, b: SpecProposition)
    ensures
        cmp_proposition(b, a) == flip(cmp_proposition(a, b)),
{
    lemma_cmp_chars_antisym(a.name, b.name);
}

/// Proposition comparison is transitive.
pub proof fn lemma_cmp_proposition_trans(
    a: SpecProposition,
    b: SpecProposition,
    c: SpecProposition,
)
    requires
        cmp_proposition(a, b) == Ordering::Less,
        cmp_proposition(b, c) == Ordering::Less,
    ensures
        cmp_proposition(a, c) == Ordering::Less,
{
    lemma_cmp_chars_trans(a.name, b.name, c.name);
}

/// Relation comparison returns `Equal` exactly on equal relations.
pub proof fn lemma_cmp_relation_eq(a: SpecRelation, b: SpecRelation)
    ensures
        (cmp_relation(a, b) == Ordering::Equal) <==> (a == b),
{
    lemma_cmp_chars_eq(a.name, b.name);
    lemma_cmp_terms_eq(a.args, b.args);
    if a.name == b.name && a.args == b.args {
        assert(a =~= b);
    }
}

/// Swapping the arguments of a relation comparison flips the result.
pub proof fn lemma_cmp_relation_antisym(a: SpecRelation, b: SpecRelation)
    ensures
        cmp_relation(b, a) == flip(cmp_relation(a, b)),
{
    lemma_cmp_chars_antisym(a.name, b.name);
    lemma_cmp_chars_eq(a.name, b.name);
    lemma_cmp_terms_antisym(a.args, b.args);
}

/// Relation comparison is transitive.
pub proof fn lemma_cmp_relation_trans(a: SpecRelation, b: SpecRelation, c: SpecRelation)
    requires
        cmp_relation(a, b) == Ordering::Less,
        cmp_relation(b, c) == Ordering::Less,
    ensures
        cmp_relation(a, c) == Ordering::Less,
{
    lemma_cmp_chars_eq(a.name, b.name);
    lemma_cmp_chars_eq(b.name, c.name);
    if cmp_chars(a.name, b.name) == Ordering::Equal {
        if cmp_chars(b.name, c.name) == Ordering::Equal {
            lemma_cmp_terms_trans(a.args, b.args, c.args);
        }
    } else {
        if cmp_chars(b.name, c.name) != Ordering::Equal {
            lemma_cmp_chars_trans(a.name, b.name, c.name);
        }
    }
}

/// Sentence comparison returns `Equal` exactly on equal sentences.
pub proof fn lemma_cmp_sentence_eq(a: SpecSentence, b: SpecSentence)
    ensures
        (cmp_sentence(a, b) == Ordering::Equal) <==> (a == b),
{
    match (a, b) {
        (SpecSentence::PropSentence(p1), SpecSentence::PropSentence(p2)) => {
            lemma_cmp_proposition_eq(p1, p2);
        },
        (SpecSentence::RelSentence(r1), SpecSentence::RelSentence(r2)) => {
            lemma_cmp_relation_eq(r1, r2);
        },
        _ => {},
    }
}

/// Swapping the arguments of a sentence comparison flips the result.
pub proof fn lemma_cmp_sentence_antisym(a: SpecSentence, b: SpecSentence)
    ensures
        cmp_sentence(b, a) == flip(cmp_sentence(a, b)),
{
    match (a, b) {
        (SpecSentence::PropSentence(p1), SpecSentence::PropSentence(p2)) => {
            lemma_cmp_proposition_antisym(p1, p2);
        },
        (SpecSentence::RelSentence(r1), SpecSentence::RelSentence(r2)) => {
            lemma_cmp_relation_antisym(r1, r2);
        },
        _ => {},
    }
}

/// Sentence comparison is transitive.
pub proof fn lemma_cmp_sentence_trans(a: SpecSentence, b: SpecSentence, c: SpecSentence)
    requires
        cmp_sentence(a, b) == Ordering::Less,
        cmp_sentence(b, c) == Ordering::Less,
    ensures
        cmp_sentence(a, c) == Ordering::Less,
{
    match (a, b, c) {
        (
            SpecSentence::PropSentence(p1),
            SpecSentence::PropSentence(p2),
            SpecSentence::PropSentence(p3),
        ) => {
            lemma_cmp_proposition_trans(p1, p2, p3);
        },
        (
            SpecSentence::RelSentence(r1),
            SpecSentence::RelSentence(r2),
            SpecSentence::RelSentence(r3),
        ) => {
            lemma_cmp_relation_trans(r1, r2, r3);
        },
        _ => {},
    }
}

/// Literal comparison returns `Equal` exactly on equal literals.
pub proof fn lemma_cmp_literal_eq(a: SpecLiteral, b: SpecLiteral)
    ensures
        (cmp_literal(a, b) == Ordering::Equal) <==> (a == b),
    decreases a,
{
    match (a, b) {
        (SpecLiteral::NotLit(n1), SpecLiteral::NotLit(n2)) => {
            lemma_cmp_literal_eq(*n1.lit, *n2.lit);
            if *n1.lit == *n2.lit {
                assert(n1 =~= n2);
            }
        },
        (SpecLiteral::OrLit(o1), SpecLiteral::OrLit(o2)) => {
            lemma_cmp_lits_eq(o1.lits, o2.lits);
            if o1.lits == o2.lits {
                assert(o1 =~= o2);
            }
        },
        (SpecLiteral::DistinctLit(d1), SpecLiteral::DistinctLit(d2)) => {
            lemma_cmp_term_eq(d1.term1, d2.term1);
            lemma_cmp_term_eq(d1.term2, d2.term2);
            if d1.term1 == d2.term1 && d1.term2 == d2.term2 {
                assert(d1 =~= d2);
            }
        },
        (SpecLiteral::PropLit(p1), SpecLiteral::PropLit(p2)) => {
            lemma_cmp_proposition_eq(p1, p2);
        },
        (SpecLiteral::RelLit(r1), SpecLiteral::RelLit(r2)) => {
            lemma_cmp_relation_eq(r1, r2);
        },
        _ => {},
    }
}

/// Literal-list comparison returns `Equal` exactly on equal lists.
pub proof fn lemma_cmp_lits_eq(x: Seq<SpecLiteral>, y: Seq<SpecLiteral>)
    ensures
        (cmp_lits(x, y) == Ordering::Equal) <==> (x == y),
    decreases x,
{
    if x.len() == 0 && y.len() == 0 {
        assert(x =~= y);
    } else if x.len() > 0 && y.len() > 0 {
        lemma_cmp_literal_eq(x[0], y[0]);
        if cmp_literal(x[0], y[0]) == Ordering::Equal {
            let tx = x.subrange(1, x.len() as int);
            let ty = y.subrange(1, y.len() as int);
            lemma_cmp_lits_eq(tx, ty);
            if cmp_lits(x, y) == Ordering::Equal {
                assert forall|i: int| 0 <= i < x.len() implies x[i] == y[i] by {
                    if i > 0 {
                        assert(x[i] == tx[i - 1]);
                        assert(y[i] == ty[i - 1]);
                    }
                }
                assert(x =~= y);
            }
            if x == y {
                assert(tx =~= ty);
            }
        } else {
            assert(x[0] != y[0]);
        }
    }
}

/// Swapping the arguments of a literal comparison flips the result.
pub proof fn lemma_cmp_literal_antisym(a: SpecLiteral, b: SpecLiteral)
    ensures
        cmp_literal(b, a) == flip(cmp_literal(a, b)),
    decreases a,
{
    match (a, b) {
        (SpecLiteral::NotLit(n1), SpecLiteral::NotLit(n2)) => {
            lemma_cmp_literal_antisym(*n1.lit, *n2.lit);
        },
        (SpecLiteral::OrLit(o1), SpecLiteral::OrLit(o2)) => {
            lemma_cmp_lits_antisym(o1.lits, o2.lits);
        },
        (SpecLiteral::DistinctLit(d1), SpecLiteral::DistinctLit(d2)) => {
            lemma_cmp_term_antisym(d1.term1, d2.term1);
            lemma_cmp_term_eq(d1.term1, d2.term1);
            lemma_cmp_term_antisym(d1.term2, d2.term2);
        },
        (SpecLiteral::PropLit(p1), SpecLiteral::PropLit(p2)) => {
            lemma_cmp_proposition_antisym(p1, p2);
        },
        (SpecLiteral::RelLit(r1), SpecLiteral::RelLit(r2)) => {
            lemma_cmp_relation_antisym(r1, r2);
        },
        _ => {},
    }
}

/// Swapping the arguments of a literal-list comparison flips the result.
pub proof fn lemma_cmp_lits_antisym(x: Seq<SpecLiteral>, y: Seq<SpecLiteral>)
    ensures
        cmp_lits(y, x) == flip(cmp_lits(x, y)),
    decreases x,
{
    if x.len() > 0 && y.len() > 0 {
        lemma_cmp_literal_antisym(x[0], y[0]);
        if cmp_literal(x[0], y[0]) == Ordering::Equal {
            lemma_cmp_lits_antisym(
                x.subrange(1, x.len() as int),
                y.subrange(1, y.len() as int),
            );
        }
    }
}

/// Literal comparison is transitive.
pub proof fn lemma_cmp_literal_trans(a: SpecLiteral, b: SpecLiteral, c: SpecLiteral)
    requires
        cmp_literal(a, b) == Ordering::Less,
        cmp_literal(b, c) == Ordering::Less,
    ensures
        cmp_literal(a, c) == Ordering::Less,
    decreases a,
{
    if literal_rank(a) == literal_rank(b) && literal_rank(b) == literal_rank(c) {
        match (a, b, c) {
            (SpecLiteral::NotLit(n1), SpecLiteral::NotLit(n2), SpecLiteral::NotLit(n3)) => {
                lemma_cmp_literal_trans(*n1.lit, *n2.lit, *n3.lit);
            },
            (SpecLiteral::OrLit(o1), SpecLiteral::OrLit(o2), SpecLiteral::OrLit(o3)) => {
                lemma_cmp_lits_trans(o1.lits, o2.lits, o3.lits);
            },
            (
                SpecLiteral::DistinctLit(d1),
                SpecLiteral::DistinctLit(d2),
                SpecLiteral::DistinctLit(d3),
            ) => {
                lemma_cmp_term_eq(d1.term1, d2.term1);
                lemma_cmp_term_eq(d2.term1, d3.term1);
                if cmp_term(d1.term1, d2.term1) == Ordering::Equal {
                    if cmp_term(d2.term1, d3.term1) == Ordering::Equal {
                        lemma_cmp_term_trans(d1.term2, d2.term2, d3.term2);
                    }
                } else {
                    if cmp_term(d2.term1, d3.term1) != Ordering::Equal {
                        lemma_cmp_term_trans(d1.term1, d2.term1, d3.term1);
                    }
                }
            },
            (SpecLiteral::PropLit(p1), SpecLiteral::PropLit(p2), SpecLiteral::PropLit(p3)) => {
                lemma_cmp_proposition_trans(p1, p2, p3);
            },
            (SpecLiteral::RelLit(r1), SpecLiteral::RelLit(r2), SpecLiteral::RelLit(r3)) => {
                lemma_cmp_relation_trans(r1, r2, r3);
            },
            _ => {},
        }
    }
}

/// Literal-list comparison is transitive.
pub proof fn lemma_cmp_lits_trans(x: Seq<SpecLiteral>, y: Seq<SpecLiteral>, z: Seq<SpecLiteral>)
    requires
        cmp_lits(x, y) == Ordering::Less,
        cmp_lits(y, z) == Ordering::Less,
    ensures
        cmp_lits(x, z) == Ordering::Less,
    decreases x,
{
    if x.len() > 0 {
        if y.len() > 0 && z.len() > 0 {
            lemma_cmp_literal_eq(x[0], y[0]);
            lemma_cmp_literal_eq(y[0], z[0]);
            if cmp_literal(x[0], y[0]) == Ordering::Equal {
                if cmp_literal(y[0], z[0]) == Ordering::Equal {
                    lemma_cmp_lits_trans(
                        x.subrange(1, x.len() as int),
                        y.subrange(1, y.len() as int),
                        z.subrange(1, z.len() as int),
                    );
                }
            } else {
                if cmp_literal(y[0], z[0]) != Ordering::Equal {
                    lemma_cmp_literal_trans(x[0], y[0], z[0]);
                }
            }
        }
    }
}

/// Negation comparison returns `Equal` exactly on equal negations.
pub proof fn lemma_cmp_not_eq(a: SpecNot, b: SpecNot)
    ensures
        (cmp_not(a, b) == Ordering::Equal) <==> (a == b),
{
    lemma_cmp_literal_eq(*a.lit, *b.lit);
    if *a.lit == *b.lit {
        assert(a =~= b);
    }
}

/// Swapping the arguments of a negation comparison flips the result.
pub proof fn lemma_cmp_not_antisym(a: SpecNot, b: SpecNot)
    ensures
        cmp_not(b, a) == flip(cmp_not(a, b)),
{
    lemma_cmp_literal_antisym(*a.lit, *b.lit);
}

/// Negation comparison is transitive.
pub proof fn lemma_cmp_not_trans(a: SpecNot, b: SpecNot, c: SpecNot)
    requires
        cmp_not(a, b) == Ordering::Less,
        cmp_not(b, c) == Ordering::Less,
    ensures
        cmp_not(a, c) == Ordering::Less,
{
    lemma_cmp_literal_trans(*a.lit, *b.lit, *c.lit);
}

/// Disjunction comparison returns `Equal` exactly on equal disjunctions.
pub proof fn lemma_cmp_or_eq(a: SpecOr, b: SpecOr)
    ensures
        (cmp_or(a, b) == Ordering::Equal) <==> (a == b),
{
    lemma_cmp_lits_eq(a.lits, b.lits);
    if a.lits == b.lits {
        assert(a =~= b);
    }
}

/// Swapping the arguments of a disjunction comparison flips the result.
pub proof fn lemma_cmp_or_antisym(a: SpecOr, b: SpecOr)
    ensures
        cmp_or(b, a) == flip(cmp_or(a, b)),
{
    lemma_cmp_lits_antisym(a.lits, b.lits);
}

/// Disjunction comparison is transitive.
pub proof fn lemma_cmp_or_trans(a: SpecOr, b: SpecOr, c: SpecOr)
    requires
        cmp_or(a, b) == Ordering::Less,
        cmp_or(b, c) == Ordering::Less,
    ensures
        cmp_or(a, c) == Ordering::Less,
{
    lemma_cmp_lits_trans(a.lits, b.lits, c.lits);
}

/// Inequality-constraint comparison returns `Equal` exactly on equal
/// constraints.
pub proof fn lemma_cmp_distinct_eq(a: SpecDistinct, b: SpecDistinct)
    ensures
        (cmp_distinct(a, b) == Ordering::Equal) <==> (a == b),
{
    lemma_cmp_term_eq(a.term1, b.term1);
    lemma_cmp_term_eq(a.term2, b.term2);
    if a.term1 == b.term1 && a.term2 == b.term2 {
        assert(a =~= b);
    }
}

/// Swapping the arguments of an inequality-constraint comparison flips
/// the result.
pub proof fn lemma_cmp_distinct_antisym(a: SpecDistinct, b: SpecDistinct)
    ensures
        cmp_distinct(b, a) == flip(cmp_distinct(a, b)),
{
    lemma_cmp_term_antisym(a.term1, b.term1);
    lemma_cmp_term_eq(a.term1, b.term1);
    lemma_cmp_term_antisym(a.term2, b.term2);
}

/// Inequality-constraint comparison is transitive.
pub proof fn lemma_cmp_distinct_trans(a: SpecDistinct, b: SpecDistinct, c: SpecDistinct)
    requires
        cmp_distinct(a, b) == Ordering::Less,
        cmp_distinct(b, c) == Ordering::Less,
    ensures
        cmp_distinct(a, c) == Ordering::Less,
{
    lemma_cmp_term_eq(a.term1, b.term1);
    lemma_cmp_term_eq(b.term1, c.term1);
    if cmp_term(a.term1, b.term1) == Ordering::Equal {
        if cmp_term(b.term1, c.term1) == Ordering::Equal {
            lemma_cmp_term_trans(a.term2, b.term2, c.term2);
        }
    } else {
        if cmp_term(b.term1, c.term1) != Ordering::Equal {
            lemma_cmp_term_trans(a.term1, b.term1, c.term1);
        }
    }
}

/// Rule comparison returns `Equal` exactly on equal rules.
pub proof fn lemma_cmp_rule_eq(a: SpecRule, b: SpecRule)
    ensures
        (cmp_rule(a, b) == Ordering::Equal) <==> (a == b),
{
    lemma_cmp_sentence_eq(a.head, b.head);
    lemma_cmp_lits_eq(a.body, b.body);
    if a.head == b.head && a.body == b.body {
        assert(a =~= b);
    }
}

/// Swapping the arguments of a rule comparison flips the result.
pub proof fn lemma_cmp_rule_antisym(a: SpecRule, b: SpecRule)
    ensures
        cmp_rule(b, a) == flip(cmp_rule(a, b)),
{
    lemma_cmp_sentence_antisym(a.head, b.head);
    lemma_cmp_sentence_eq(a.head, b.head);
    lemma_cmp_lits_antisym(a.body, b.body);
}

/// Rule comparison is transitive.
pub proof fn lemma_cmp_rule_trans(a: SpecRule, b: SpecRule, c: SpecRule)
    requires
        cmp_rule(a, b) == Ordering::Less,
        cmp_rule(b, c) == Ordering::Less,
    ensures
        cmp_rule(a, c) == Ordering::Less,
{
    lemma_cmp_sentence_eq(a.head, b.head);
    lemma_cmp_sentence_eq(b.head, c.head);
    if cmp_sentence(a.head, b.head) == Ordering::Equal {
        if cmp_sentence(b.head, c.head) == Ordering::Equal {
            lemma_cmp_lits_trans(a.body, b.body, c.body);
        }
    } else {
        if cmp_sentence(b.head, c.head) != Ordering::Equal {
            lemma_cmp_sentence_trans(a.head, b.head, c.head);
        }
    }
}

/// Clause comparison returns `Equal` exactly on equal clauses.
pub proof fn lemma_cmp_clause_eq(a: SpecClause, b: SpecClause)
    ensures
        (cmp_clause(a, b) == Ordering::Equal) <==> (a == b),
{
    match (a, b) {
        (SpecClause::RuleClause(r1), SpecClause::RuleClause(r2)) => {
            lemma_cmp_rule_eq(r1, r2);
        },
        (SpecClause::SentenceClause(s1), SpecClause::SentenceClause(s2)) => {
            lemma_cmp_sentence_eq(s1, s2);
        },
        _ => {},
    }
}

/// Swapping the arguments of a clause comparison flips the result.
pub proof fn lemma_cmp_clause_antisym(a: SpecClause, b: SpecClause)
    ensures
        cmp_clause(b, a) == flip(cmp_clause(a, b)),
{
    match (a, b) {
        (SpecClause::RuleClause(r1), SpecClause::RuleClause(r2)) => {
            lemma_cmp_rule_antisym(r1, r2);
        },
        (SpecClause::SentenceClause(s1), SpecClause::SentenceClause(s2)) => {
            lemma_cmp_sentence_antisym(s1, s2);
        },
        _ => {},
    }
}

/// Clause comparison is transitive.
pub proof fn lemma_cmp_clause_trans(a: SpecClause, b: SpecClause, c: SpecClause)
    requires
        cmp_clause(a, b) == Ordering::Less,
        cmp_clause(b, c) == Ordering::Less,
    ensures
        cmp_clause(a, c) == Ordering::Less,
{
    match (a, b, c) {
        (SpecClause::RuleClause(r1), SpecClause::RuleClause(r2), SpecClause::RuleClause(r3)) => {
            lemma_cmp_rule_trans(r1, r2, r3);
        },
        (
            SpecClause::SentenceClause(s1),
            SpecClause::SentenceClause(s2),
            SpecClause::SentenceClause(s3),
        ) => {
            lemma_cmp_sentence_trans(s1, s2, s3);
        },
        _ => {},
    }
}

/// Clause-list comparison returns `Equal` exactly on equal lists.
pub proof fn lemma_cmp_clauses_eq(x: Seq<SpecClause>, y: Seq<SpecClause>)
    ensures
        (cmp_clauses(x, y) == Ordering::Equal) <==> (x == y),
    decreases x,
{
    if x.len() == 0 && y.len() == 0 {
        assert(x =~= y);
    } else if x.len() > 0 && y.len() > 0 {
        lemma_cmp_clause_eq(x[0], y[0]);
        if cmp_clause(x[0], y[0]) == Ordering::Equal {
            let tx = x.subrange(1, x.len() as int);
            let ty = y.subrange(1, y.len() as int);
            lemma_cmp_clauses_eq(tx, ty);
            if cmp_clauses(x, y) == Ordering::Equal {
                assert forall|i: int| 0 <= i < x.len() implies x[i] == y[i] by {
                    if i > 0 {
                        assert(x[i] == tx[i - 1]);
                        assert(y[i] == ty[i - 1]);
                    }
                }
                assert(x =~= y);
            }
            if x == y {
                assert(tx =~= ty);
            }
        } else {
            assert(x[0] != y[0]);
        }
    }
}

/// Swapping the arguments of a clause-list comparison flips the result.
pub proof fn lemma_cmp_clauses_antisym(x: Seq<SpecClause>, y: Seq<SpecClause>)
    ensures
        cmp_clauses(y, x) == flip(cmp_clauses(x, y)),
    decreases x,
{
    if x.len() > 0 && y.len() > 0 {
        lemma_cmp_clause_antisym(x[0], y[0]);
        if cmp_clause(x[0], y[0]) == Ordering::Equal {
            lemma_cmp_clauses_antisym(
                x.subrange(1, x.len() as int),
                y.subrange(1, y.len() as int),
            );
        }
    }
}

/// Clause-list comparison is transitive.
pub proof fn lemma_cmp_clauses_trans(x: Seq<SpecClause>, y: Seq<SpecClause>, z: Seq<SpecClause>)
    requires
        cmp_clauses(x, y) == Ordering::Less,
        cmp_clauses(y, z) == Ordering::Less,
    ensures
        cmp_clauses(x, z) == Ordering::Less,
    decreases x,
{
    if x.len() > 0 {
        if y.len() > 0 && z.len() > 0 {
            lemma_cmp_clause_eq(x[0], y[0]);
            lemma_cmp_clause_eq(y[0], z[0]);
            if cmp_clause(x[0], y[0]) == Ordering::Equal {
                if cmp_clause(y[0], z[0]) == Ordering::Equal {
                    lemma_cmp_clauses_trans(
                        x.subrange(1, x.len() as int),
                        y.subrange(1, y.len() as int),
                        z.subrange(1, z.len() as int),
                    );
                }
            } else {
                if cmp_clause(y[0], z[0]) != Ordering::Equal {
                    lemma_cmp_clause_trans(x[0], y[0], z[0]);
                }
            }
        }
    }
}

/// Description comparison returns `Equal` exactly on equal descriptions.
pub proof fn lemma_cmp_description_eq(a: SpecDescription, b: SpecDescription)
    ensures
        (cmp_description(a, b) == Ordering::Equal) <==> (a == b),
{
    lemma_cmp_clauses_eq(a.clauses, b.clauses);
    if a.clauses == b.clauses {
        assert(a =~= b);
    }
}

/// Swapping the arguments of a description comparison flips the result.
pub proof fn lemma_cmp_description_antisym(a: SpecDescription, b: SpecDescription)
    ensures
        cmp_description(b, a) == flip(cmp_description(a, b)),
{
    lemma_cmp_clauses_antisym(a.clauses, b.clauses);
}

/// Description comparison is transitive.
pub proof fn lemma_cmp_description_trans(a: SpecDescription, b: SpecDescription, c: SpecDescription)
    requires
        cmp_description(a, b) == Ordering::Less,
        cmp_description(b, c) == Ordering::Less,
    ensures
        cmp_description(a, c) == Ordering::Less,
{
    lemma_cmp_clauses_trans(a.clauses, b.clauses, c.clauses);
}

} // verus!
