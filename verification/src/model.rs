//! The mathematical model of the abstract syntax tree.
//!
//! Every executable node kind in [`crate::ast`] has a mirror here built
//! from `Seq` instead of `Vec` and `String`; the executable types map onto
//! these mirrors through `DeepView`.  All contracts of the library are
//! stated over this model: the grammar's well-formedness predicates live
//! here, and the canonical rendering of each node is defined here as a
//! recursive function on the model.

use vstd::prelude::*;

verus! {

/// A variable: rendered with a leading `?` sigil that is not stored.
#[verifier::ext_equal]
pub struct SpecVariable {
    pub name: Seq<char>,
}

/// A compound term: a constant name applied to one or more arguments.
#[verifier::ext_equal]
pub struct SpecFunction {
    pub name: Seq<char>,
    pub args: Seq<SpecTerm>,
}

/// A term: a variable, a compound term, or an atomic constant.
#[verifier::ext_equal]
pub enum SpecTerm {
    VarTerm(SpecVariable),
    FuncTerm(SpecFunction),
    ConstTerm(Seq<char>),
}

/// A zero-argument sentence.
#[verifier::ext_equal]
pub struct SpecProposition {
    pub name: Seq<char>,
}

/// An n-argument sentence.
#[verifier::ext_equal]
pub struct SpecRelation {
    pub name: Seq<char>,
    pub args: Seq<SpecTerm>,
}

/// A sentence: the shape a fact or a rule head may take.
#[verifier::ext_equal]
pub enum SpecSentence {
    PropSentence(SpecProposition),
    RelSentence(SpecRelation),
}

/// Negation of a literal.
#[verifier::ext_equal]
pub struct SpecNot {
    pub lit: Box<SpecLiteral>,
}

/// Disjunction of one or more literals.
#[verifier::ext_equal]
pub struct SpecOr {
    pub lits: Seq<SpecLiteral>,
}

/// An inequality constraint between two terms.
#[verifier::ext_equal]
pub struct SpecDistinct {
    pub term1: SpecTerm,
    pub term2: SpecTerm,
}

/// A rule-body element.
#[verifier::ext_equal]
pub enum SpecLiteral {
    NotLit(SpecNot),
    OrLit(SpecOr),
    DistinctLit(SpecDistinct),
    PropLit(SpecProposition),
    RelLit(SpecRelation),
}

/// An implication: a head sentence implied by one or more body literals.
#[verifier::ext_equal]
pub struct SpecRule {
    pub head: SpecSentence,
    pub body: Seq<SpecLiteral>,
}

/// A top-level statement.
#[verifier::ext_equal]
pub enum SpecClause {
    RuleClause(SpecRule),
    SentenceClause(SpecSentence),
}

/// A whole program: an ordered sequence of clauses.
#[verifier::ext_equal]
pub struct SpecDescription {
    pub clauses: Seq<SpecClause>,
}

/// The name of a sentence: the proposition's or the relation's name.
pub open spec fn sentence_name(s: SpecSentence) -> Seq<char> {
    match s {
        SpecSentence::PropSentence(p) => p.name,
        SpecSentence::RelSentence(r) => r.name,
    }
}

/// The name of a term: the variable's, the compound term's, or the
/// constant itself.
pub open spec fn term_name(t: SpecTerm) -> Seq<char> {
    match t {
        SpecTerm::VarTerm(v) => v.name,
        SpecTerm::FuncTerm(f) => f.name,
        SpecTerm::ConstTerm(c) => c,
    }
}

// ---------------------------------------------------------------------------
// Lexical character classes.
// ---------------------------------------------------------------------------

/// Whitespace separates tokens: space, tab and newline.
pub open spec fn is_space_char(c: char) -> bool {
    c == ' ' || c == '\t' || c == '\n'
}

/// A character that may appear inside a token: anything that is not
/// whitespace, a parenthesis, or the comment introducer `;`.
pub open spec fn is_word_char(c: char) -> bool {
    !is_space_char(c) && c != '(' && c != ')' && c != ';'
}

/// The reserved keyword `<=`.
pub open spec fn kw_implies() -> Seq<char> {
    seq!['<', '=']
}

/// The reserved keyword `not`.
pub open spec fn kw_not() -> Seq<char> {
    seq!['n', 'o', 't']
}

/// The reserved keyword `or`.
pub open spec fn kw_or() -> Seq<char> {
    seq!['o', 'r']
}

/// The reserved keyword `distinct`.
pub open spec fn kw_distinct() -> Seq<char> {
    seq!['d', 'i', 's', 't', 'i', 'n', 'c', 't']
}

/// A token equal to one of the four reserved keywords.
pub open spec fn is_reserved(s: Seq<char>) -> bool {
    s == kw_implies() || s == kw_not() || s == kw_or() || s == kw_distinct()
}

/// A valid constant name: a non-empty run of token characters that does
/// not begin with the variable sigil `?` and is not a reserved keyword.
pub open spec fn wf_name(s: Seq<char>) -> bool {
    &&& s.len() > 0
    &&& forall|i: int| 0 <= i < s.len() ==> is_word_char(#[trigger] s[i])
    &&& s[0] != '?'
    &&& !is_reserved(s)
}

// ---------------------------------------------------------------------------
// Well-formedness: the shapes the grammar can produce.
// ---------------------------------------------------------------------------

/// A term the grammar can produce: names are valid and every compound
/// term has at least one argument.
pub open spec fn wf_term(t: SpecTerm) -> bool
    decreases t,
{
    match t {
        SpecTerm::VarTerm(v) => wf_name(v.name),
        SpecTerm::FuncTerm(f) => {
            &&& wf_name(f.name)
            &&& f.args.len() > 0
            &&& forall|i: int| 0 <= i < f.args.len() ==> wf_term(#[trigger] f.args[i])
        },
        SpecTerm::ConstTerm(c) => wf_name(c),
    }
}

/// A sentence the grammar can produce: a relation has at least one argument.
pub open spec fn wf_sentence(s: SpecSentence) -> bool {
    match s {
        SpecSentence::PropSentence(p) => wf_name(p.name),
        SpecSentence::RelSentence(r) => {
            &&& wf_name(r.name)
            &&& r.args.len() > 0
            &&& forall|i: int| 0 <= i < r.args.len() ==> wf_term(#[trigger] r.args[i])
        },
    }
}

/// A literal the grammar can produce: a disjunction has at least one
/// disjunct, and nested literals are themselves well-formed.
pub open spec fn wf_literal(l: SpecLiteral) -> bool
    decreases l,
{
    match l {
        SpecLiteral::NotLit(n) => wf_literal(*n.lit),
        SpecLiteral::OrLit(o) => {
            &&& o.lits.len() > 0
            &&& forall|i: int| 0 <= i < o.lits.len() ==> wf_literal(#[trigger] o.lits[i])
        },
        SpecLiteral::DistinctLit(d) => wf_term(d.term1) && wf_term(d.term2),
        SpecLiteral::PropLit(p) => wf_name(p.name),
        SpecLiteral::RelLit(r) => {
            &&& wf_name(r.name)
            &&& r.args.len() > 0
            &&& forall|i: int| 0 <= i < r.args.len() ==> wf_term(#[trigger] r.args[i])
        },
    }
}

/// A rule the grammar can produce: the body is non-empty.
pub open spec fn wf_rule(r: SpecRule) -> bool {
    &&& wf_sentence(r.head)
    &&& r.body.len() > 0
    &&& forall|i: int| 0 <= i < r.body.len() ==> wf_literal(#[trigger] r.body[i])
}

/// A clause the grammar can produce.
pub open spec fn wf_clause(c: SpecClause) -> bool {
    match c {
        SpecClause::RuleClause(r) => wf_rule(r),
        SpecClause::SentenceClause(s) => wf_sentence(s),
    }
}

/// A description the grammar can produce.
pub open spec fn wf_description(d: SpecDescription) -> bool {
    forall|i: int| 0 <= i < d.clauses.len() ==> wf_clause(#[trigger] d.clauses[i])
}

// ---------------------------------------------------------------------------
// Canonical rendering, one production per node kind.
// ---------------------------------------------------------------------------

/// The canonical text of a variable: the `?` sigil, then the name.
pub open spec fn render_variable(v: SpecVariable) -> Seq<char> {
    seq!['?'] + v.name
}

/// The canonical text of a compound term: `(name arg...)`.
pub open spec fn render_function(f: SpecFunction) -> Seq<char>
    decreases f,
{
    seq!['('] + f.name + render_args(f.args) + seq![')']
}

/// The canonical text of a term.
pub open spec fn render_term(t: SpecTerm) -> Seq<char>
    decreases t,
{
    match t {
        SpecTerm::VarTerm(v) => render_variable(v),
        SpecTerm::FuncTerm(f) => render_function(f),
        SpecTerm::ConstTerm(c) => c,
    }
}

/// The canonical text of an argument list: each argument is preceded by a
/// single space.
pub open spec fn render_args(args: Seq<SpecTerm>) -> Seq<char>
    decreases args,
{
    if args.len() == 0 {
        Seq::empty()
    } else {
        seq![' '] + render_term(args[0]) + render_args(args.subrange(1, args.len() as int))
    }
}

/// The canonical text of a proposition: its bare name, no parentheses.
pub open spec fn render_proposition(p: SpecProposition) -> Seq<char> {
    p.name
}

/// The canonical text of a relation: `(name arg...)`.
pub open spec fn render_relation(r: SpecRelation) -> Seq<char>
    decreases r,
{
    seq!['('] + r.name + render_args(r.args) + seq![')']
}

/// The canonical text of a sentence.
pub open spec fn render_sentence(s: SpecSentence) -> Seq<char> {
    match s {
        SpecSentence::PropSentence(p) => render_proposition(p),
        SpecSentence::RelSentence(r) => render_relation(r),
    }
}

/// The canonical text of a negation: `(not lit)`.
pub open spec fn render_not(n: SpecNot) -> Seq<char>
    decreases n,
{
    seq!['('] + kw_not() + seq![' '] + render_literal(*n.lit) + seq![')']
}

/// The canonical text of a disjunction: `(or lit...)`.
pub open spec fn render_or(o: SpecOr) -> Seq<char>
    decreases o,
{
    seq!['('] + kw_or() + render_lits(o.lits) + seq![')']
}

/// The canonical text of an inequality constraint: `(distinct t1 t2)`.
pub open spec fn render_distinct(d: SpecDistinct) -> Seq<char>
    decreases d,
{
    seq!['('] + kw_distinct() + seq![' '] + render_term(d.term1) + seq![' '] + render_term(d.term2)
        + seq![')']
}

/// The canonical text of a literal.
pub open spec fn render_literal(l: SpecLiteral) -> Seq<char>
    decreases l,
{
    match l {
        SpecLiteral::NotLit(n) => render_not(n),
        SpecLiteral::OrLit(o) => render_or(o),
        SpecLiteral::DistinctLit(d) => render_distinct(d),
        SpecLiteral::PropLit(p) => render_proposition(p),
        SpecLiteral::RelLit(r) => render_relation(r),
    }
}

/// The canonical text of a literal list: each literal is preceded by a
/// single space.
pub open spec fn render_lits(lits: Seq<SpecLiteral>) -> Seq<char>
    decreases lits,
{
    if lits.len() == 0 {
        Seq::empty()
    } else {
        seq![' '] + render_literal(lits[0]) + render_lits(lits.subrange(1, lits.len() as int))
    }
}

/// The canonical text of a rule: `(<= head body...)`.
pub open spec fn render_rule(r: SpecRule) -> Seq<char> {
    seq!['('] + kw_implies() + seq![' '] + render_sentence(r.head) + render_lits(r.body)
        + seq![')']
}

/// The canonical text of a clause.
pub open spec fn render_clause(c: SpecClause) -> Seq<char> {
    match c {
        SpecClause::RuleClause(r) => render_rule(r),
        SpecClause::SentenceClause(s) => render_sentence(s),
    }
}

/// The canonical text of a description: the clauses' renderings separated
/// by single spaces, with no trailing separator.
pub open spec fn render_description(d: SpecDescription) -> Seq<char> {
    render_clauses(d.clauses)
}

/// Clause list rendering: the first clause stands bare, every later one is
/// preceded by a single space.
pub open spec fn render_clauses(cs: Seq<SpecClause>) -> Seq<char>
    decreases cs,
{
    if cs.len() == 0 {
        Seq::empty()
    } else {
        render_clause(cs[0]) + render_clauses_tail(cs.subrange(1, cs.len() as int))
    }
}

/// The rendering of every clause after the first: each preceded by a
/// single space.
pub open spec fn render_clauses_tail(cs: Seq<SpecClause>) -> Seq<char>
    decreases cs,
{
    if cs.len() == 0 {
        Seq::empty()
    } else {
        seq![' '] + render_clause(cs[0]) + render_clauses_tail(cs.subrange(1, cs.len() as int))
    }
}

} // verus!
