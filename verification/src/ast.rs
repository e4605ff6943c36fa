//! The executable abstract syntax tree.
//!
//! Every node kind mirrors a model type in [`crate::model`] through
//! `DeepView`; all contracts on the executable API are stated over those
//! mirrors.  Nodes are plain value types: construction, structural
//! equality, hashing and a total order (derived), plus a verified `Clone`
//! that preserves the deep view.

use vstd::prelude::*;

use crate::model::{
    SpecClause, SpecDescription, SpecDistinct, SpecFunction, SpecLiteral, SpecNot, SpecOr,
    SpecProposition, SpecRelation, SpecRule, SpecSentence, SpecTerm, SpecVariable,
};

verus! {

/// An atomic symbol, name or number token.
#[derive(Debug, Hash, Eq, PartialEq, Ord, PartialOrd)]
pub struct Constant {
    pub name: String,
}

/// A logic variable; rendered with a leading `?` sigil not stored in `name`.
#[derive(Debug, Hash, Eq, PartialEq, Ord, PartialOrd)]
pub struct Variable {
    pub name: Constant,
}

/// A compound term: a constant name applied to one or more arguments.
#[derive(Debug, Hash, Eq, PartialEq, Ord, PartialOrd)]
pub struct Function {
    pub name: Constant,
    pub args: Vec<Term>,
}

/// A term: a variable, a compound term, or an atomic constant.
#[derive(Debug, Hash, Eq, PartialEq, Ord, PartialOrd)]
pub enum Term {
    VarTerm(Variable),
    FuncTerm(Function),
    ConstTerm(Constant),
}

/// A zero-argument sentence: it only has a name.
#[derive(Debug, Hash, Eq, PartialEq, Ord, PartialOrd)]
pub struct Proposition {
    pub name: Constant,
}

/// An n-argument sentence.
#[derive(Debug, Hash, Eq, PartialEq, Ord, PartialOrd)]
pub struct Relation {
    pub name: Constant,
    pub args: Vec<Term>,
}

/// A sentence: the shape a fact or a rule head may take.
#[derive(Debug, Hash, Eq, PartialEq, Ord, PartialOrd)]
pub enum Sentence {
    PropSentence(Proposition),
    RelSentence(Relation),
}

/// Negation of a literal.
#[derive(Debug, Hash, Eq, PartialEq, Ord, PartialOrd)]
pub struct Not {
    pub lit: Box<Literal>,
}

/// Disjunction of literals.
#[derive(Debug, Hash, Eq, PartialEq, Ord, PartialOrd)]
pub struct Or {
    pub lits: Vec<Literal>,
}

/// An inequality constraint between two terms.
#[derive(Debug, Hash, Eq, PartialEq, Ord, PartialOrd)]
pub struct Distinct {
    pub term1: Term,
    pub term2: Term,
}

/// A rule-body element.
#[derive(Debug, Hash, Eq, PartialEq, Ord, PartialOrd)]
pub enum Literal {
    NotLit(Not),
    OrLit(Or),
    DistinctLit(Distinct),
    PropLit(Proposition),
    RelLit(Relation),
}

/// An implication: a head sentence implied by the body literals.
#[derive(Debug, Hash, Eq, PartialEq, Ord, PartialOrd)]
pub struct Rule {
    pub head: Sentence,
    pub body: Vec<Literal>,
}

/// A top-level statement: a rule or a bare sentence.
#[derive(Debug, Hash, Eq, PartialEq, Ord, PartialOrd)]
pub enum Clause {
    RuleClause(Rule),
    SentenceClause(Sentence),
}

/// A whole program: an ordered sequence of clauses.
#[derive(Debug, Hash, Eq, PartialEq, Ord, PartialOrd)]
pub struct Description {
    pub clauses: Vec<Clause>,
}

// ---------------------------------------------------------------------------
// Deep views into the model.
// ---------------------------------------------------------------------------

impl DeepView for Constant {
    type V = Seq<char>;

    open spec fn deep_view(&self) -> Seq<char> {
        self.name@
    }
}

impl DeepView for Variable {
    type V = SpecVariable;

    open spec fn deep_view(&self) -> SpecVariable {
        SpecVariable { name: self.name.deep_view() }
    }
}

impl DeepView for Function {
    type V = SpecFunction;

    open spec fn deep_view(&self) -> SpecFunction
        decreases self,
    {
        SpecFunction {
            name: self.name.deep_view(),
            // The bound on `i` is what lets the termination measure reach
            // the element; out of range the closure is never evaluated.
            args: Seq::new(
                self.args.len() as nat,
                |i: int|
                    if 0 <= i < self.args.len() {
                        self.args[i].deep_view()
                    } else {
                        SpecTerm::ConstTerm(Seq::empty())
                    },
            ),
        }
    }
}

impl DeepView for Term {
    type V = SpecTerm;

    open spec fn deep_view(&self) -> SpecTerm
        decreases self,
    {
        match self {
            Term::VarTerm(v) => SpecTerm::VarTerm(v.deep_view()),
            Term::FuncTerm(f) => SpecTerm::FuncTerm(f.deep_view()),
            Term::ConstTerm(c) => SpecTerm::ConstTerm(c.deep_view()),
        }
    }
}

impl DeepView for Proposition {
    type V = SpecProposition;

    open spec fn deep_view(&self) -> SpecProposition {
        SpecProposition { name: self.name.deep_view() }
    }
}

impl DeepView for Relation {
    type V = SpecRelation;

    open spec fn deep_view(&self) -> SpecRelation
        decreases self,
    {
        SpecRelation {
            name: self.name.deep_view(),
            args: Seq::new(self.args.len() as nat, |i: int| self.args[i].deep_view()),
        }
    }
}

impl DeepView for Sentence {
    type V = SpecSentence;

    open spec fn deep_view(&self) -> SpecSentence
        decreases self,
    {
        match self {
            Sentence::PropSentence(p) => SpecSentence::PropSentence(p.deep_view()),
            Sentence::RelSentence(r) => SpecSentence::RelSentence(r.deep_view()),
        }
    }
}

impl DeepView for Not {
    type V = SpecNot;

    open spec fn deep_view(&self) -> SpecNot
        decreases self,
    {
        SpecNot { lit: Box::new((*self.lit).deep_view()) }
    }
}

impl DeepView for Or {
    type V = SpecOr;

    open spec fn deep_view(&self) -> SpecOr
        decreases self,
    {
        SpecOr {
            // The bound on `i` is what lets the termination measure reach
            // the element; out of range the closure is never evaluated.
            lits: Seq::new(
                self.lits.len() as nat,
                |i: int|
                    if 0 <= i < self.lits.len() {
                        self.lits[i].deep_view()
                    } else {
                        SpecLiteral::PropLit(SpecProposition { name: Seq::empty() })
                    },
            ),
        }
    }
}

impl DeepView for Distinct {
    type V = SpecDistinct;

    open spec fn deep_view(&self) -> SpecDistinct
        decreases self,
    {
        SpecDistinct { term1: self.term1.deep_view(), term2: self.term2.deep_view() }
    }
}

impl DeepView for Literal {
    type V = SpecLiteral;

    open spec fn deep_view(&self) -> SpecLiteral
        decreases self,
    {
        match self {
            Literal::NotLit(n) => SpecLiteral::NotLit(n.deep_view()),
            Literal::OrLit(o) => SpecLiteral::OrLit(o.deep_view()),
            Literal::DistinctLit(d) => SpecLiteral::DistinctLit(d.deep_view()),
            Literal::PropLit(p) => SpecLiteral::PropLit(p.deep_view()),
            Literal::RelLit(r) => SpecLiteral::RelLit(r.deep_view()),
        }
    }
}

impl DeepView for Rule {
    type V = SpecRule;

    open spec fn deep_view(&self) -> SpecRule
        decreases self,
    {
        SpecRule {
            head: self.head.deep_view(),
            body: Seq::new(self.body.len() as nat, |i: int| self.body[i].deep_view()),
        }
    }
}

impl DeepView for Clause {
    type V = SpecClause;

    open spec fn deep_view(&self) -> SpecClause
        decreases self,
    {
        match self {
            Clause::RuleClause(r) => SpecClause::RuleClause(r.deep_view()),
            Clause::SentenceClause(s) => SpecClause::SentenceClause(s.deep_view()),
        }
    }
}

impl DeepView for Description {
    type V = SpecDescription;

    open spec fn deep_view(&self) -> SpecDescription
        decreases self,
    {
        SpecDescription {
            clauses: Seq::new(self.clauses.len() as nat, |i: int| self.clauses[i].deep_view()),
        }
    }
}

// ---------------------------------------------------------------------------
// Cloning: a clone has the same deep view as the original.
// ---------------------------------------------------------------------------

impl Clone for Constant {
    fn clone(&self) -> (r: Constant)
        ensures
            r.deep_view() == self.deep_view(),
    {
        Constant { name: self.name.clone() }
    }
}

impl Clone for Variable {
    fn clone(&self) -> (r: Variable)
        ensures
            r.deep_view() == self.deep_view(),
    {
        Variable { name: self.name.clone() }
    }
}

impl Clone for Function {
    fn clone(&self) -> (r: Function)
        ensures
            r.deep_view() == self.deep_view(),
        decreases *self,
    {
        let mut args: Vec<Term> = Vec::new();
        let mut i: usize = 0;
        while i < self.args.len()
            invariant
                i <= self.args.len(),
                args.len() == i,
                forall|j: int|
                    0 <= j < i ==> #[trigger] args[j].deep_view() == self.args[j].deep_view(),
            decreases self.args.len() - i,
        {
            args.push(self.args[i].clone());
            i += 1;
        }
        let r = Function { name: self.name.clone(), args };
        proof {
            let a = r.deep_view().args;
            let b = self.deep_view().args;
            assert forall|j: int| 0 <= j < a.len() implies a[j] == b[j] by {
                assert(a[j] == r.args[j].deep_view());
                assert(b[j] == self.args[j].deep_view());
            }
            assert(r.deep_view().args =~= self.deep_view().args);
            assert(r.deep_view() =~= self.deep_view());
        }
        r
    }
}

impl Clone for Term {
    fn clone(&self) -> (r: Term)
        ensures
            r.deep_view() == self.deep_view(),
        decreases *self,
    {
        match self {
            Term::VarTerm(v) => Term::VarTerm(v.clone()),
            Term::FuncTerm(f) => Term::FuncTerm(f.clone()),
            Term::ConstTerm(c) => Term::ConstTerm(c.clone()),
        }
    }
}

impl Clone for Proposition {
    fn clone(&self) -> (r: Proposition)
        ensures
            r.deep_view() == self.deep_view(),
    {
        Proposition { name: self.name.clone() }
    }
}

impl Clone for Relation {
    fn clone(&self) -> (r: Relation)
        ensures
            r.deep_view() == self.deep_view(),
    {
        let mut args: Vec<Term> = Vec::new();
        let mut i: usize = 0;
        while i < self.args.len()
            invariant
                i <= self.args.len(),
                args.len() == i,
                forall|j: int|
                    0 <= j < i ==> #[trigger] args[j].deep_view() == self.args[j].deep_view(),
            decreases self.args.len() - i,
        {
            args.push(self.args[i].clone());
            i += 1;
        }
        let r = Relation { name: self.name.clone(), args };
        proof {
            assert(r.deep_view().args =~= self.deep_view().args);
            assert(r.deep_view() =~= self.deep_view());
        }
        r
    }
}

impl Clone for Sentence {
    fn clone(&self) -> (r: Sentence)
        ensures
            r.deep_view() == self.deep_view(),
    {
        match self {
            Sentence::PropSentence(p) => Sentence::PropSentence(p.clone()),
            Sentence::RelSentence(rel) => Sentence::RelSentence(rel.clone()),
        }
    }
}

impl Clone for Not {
    fn clone(&self) -> (r: Not)
        ensures
            r.deep_view() == self.deep_view(),
        decreases *self,
    {
        Not { lit: Box::new((*self.lit).clone()) }
    }
}

impl Clone for Or {
    fn clone(&self) -> (r: Or)
        ensures
            r.deep_view() == self.deep_view(),
        decreases *self,
    {
        let mut lits: Vec<Literal> = Vec::new();
        let mut i: usize = 0;
        while i < self.lits.len()
            invariant
                i <= self.lits.len(),
                lits.len() == i,
                forall|j: int|
                    0 <= j < i ==> #[trigger] lits[j].deep_view() == self.lits[j].deep_view(),
            decreases self.lits.len() - i,
        {
            lits.push(self.lits[i].clone());
            i += 1;
        }
        let r = Or { lits };
        proof {
            let a = r.deep_view().lits;
            let b = self.deep_view().lits;
            assert forall|j: int| 0 <= j < a.len() implies a[j] == b[j] by {
                assert(a[j] == r.lits[j].deep_view());
                assert(b[j] == self.lits[j].deep_view());
            }
            assert(r.deep_view().lits =~= self.deep_view().lits);
            assert(r.deep_view() =~= self.deep_view());
        }
        r
    }
}

impl Clone for Distinct {
    fn clone(&self) -> (r: Distinct)
        ensures
            r.deep_view() == self.deep_view(),
    {
        Distinct { term1: self.term1.clone(), term2: self.term2.clone() }
    }
}

impl Clone for Literal {
    fn clone(&self) -> (r: Literal)
        ensures
            r.deep_view() == self.deep_view(),
        decreases *self,
    {
        match self {
            Literal::NotLit(n) => Literal::NotLit(n.clone()),
            Literal::OrLit(o) => Literal::OrLit(o.clone()),
            Literal::DistinctLit(d) => Literal::DistinctLit(d.clone()),
            Literal::PropLit(p) => Literal::PropLit(p.clone()),
            Literal::RelLit(rel) => Literal::RelLit(rel.clone()),
        }
    }
}

impl Clone for Rule {
    fn clone(&self) -> (r: Rule)
        ensures
            r.deep_view() == self.deep_view(),
    {
        let mut body: Vec<Literal> = Vec::new();
        let mut i: usize = 0;
        while i < self.body.len()
            invariant
                i <= self.body.len(),
                body.len() == i,
                forall|j: int|
                    0 <= j < i ==> #[trigger] body[j].deep_view() == self.body[j].deep_view(),
            decreases self.body.len() - i,
        {
            body.push(self.body[i].clone());
            i += 1;
        }
        let r = Rule { head: self.head.clone(), body };
        proof {
            assert(r.deep_view().body =~= self.deep_view().body);
            assert(r.deep_view() =~= self.deep_view());
        }
        r
    }
}

impl Clone for Clause {
    fn clone(&self) -> (r: Clause)
        ensures
            r.deep_view() == self.deep_view(),
    {
        match self {
            Clause::RuleClause(rule) => Clause::RuleClause(rule.clone()),
            Clause::SentenceClause(s) => Clause::SentenceClause(s.clone()),
        }
    }
}

impl Clone for Description {
    fn clone(&self) -> (r: Description)
        ensures
            r.deep_view() == self.deep_view(),
    {
        let mut clauses: Vec<Clause> = Vec::new();
        let mut i: usize = 0;
        while i < self.clauses.len()
            invariant
                i <= self.clauses.len(),
                clauses.len() == i,
                forall|j: int|
                    0 <= j < i ==> #[trigger] clauses[j].deep_view()
                        == self.clauses[j].deep_view(),
            decreases self.clauses.len() - i,
        {
            clauses.push(self.clauses[i].clone());
            i += 1;
        }
        let r = Description { clauses };
        proof {
            assert(r.deep_view().clauses =~= self.deep_view().clauses);
            assert(r.deep_view() =~= self.deep_view());
        }
        r
    }
}

// ---------------------------------------------------------------------------
// Constructors and accessors.
// ---------------------------------------------------------------------------

impl Constant {
    /// Constructs a new constant with the given name.
    pub fn new(name: String) -> (r: Constant)
        ensures
            r.deep_view() == name@,
    {
        Constant { name }
    }
}

impl Variable {
    /// Constructs a new variable with the given name.
    pub fn new(name: Constant) -> (r: Variable)
        ensures
            r.deep_view() == (SpecVariable { name: name.deep_view() }),
    {
        Variable { name }
    }
}

impl Function {
    /// Constructs a new compound term from a name and an argument list.
    pub fn new(name: Constant, args: Vec<Term>) -> (r: Function)
        ensures
            r.deep_view() == (SpecFunction { name: name.deep_view(), args: args.deep_view() }),
    {
        let r = Function { name, args };
        proof {
            assert(r.deep_view().args =~= r.args.deep_view());
        }
        r
    }
}

impl Proposition {
    /// Constructs a new proposition with the given name.
    pub fn new(name: Constant) -> (r: Proposition)
        ensures
            r.deep_view() == (SpecProposition { name: name.deep_view() }),
    {
        Proposition { name }
    }
}

impl Relation {
    /// Constructs a new relation from a name and an argument list.
    pub fn new(name: Constant, args: Vec<Term>) -> (r: Relation)
        ensures
            r.deep_view() == (SpecRelation { name: name.deep_view(), args: args.deep_view() }),
    {
        let r = Relation { name, args };
        proof {
            assert(r.deep_view().args =~= r.args.deep_view());
        }
        r
    }
}

impl Not {
    /// Constructs the negation of a literal.
    pub fn new(lit: Box<Literal>) -> (r: Not)
        ensures
            r.deep_view() == (SpecNot { lit: Box::new(lit.deep_view()) }),
    {
        Not { lit }
    }
}

impl Or {
    /// Constructs a disjunction from a list of literals.
    pub fn new(lits: Vec<Literal>) -> (r: Or)
        ensures
            r.deep_view() == (SpecOr { lits: lits.deep_view() }),
    {
        let r = Or { lits };
        proof {
            assert(r.deep_view().lits =~= r.lits.deep_view());
        }
        r
    }
}

impl Distinct {
    /// Constructs an inequality constraint between two terms.
    pub fn new(term1: Term, term2: Term) -> (r: Distinct)
        ensures
            r.deep_view() == (SpecDistinct {
                term1: term1.deep_view(),
                term2: term2.deep_view(),
            }),
    {
        Distinct { term1, term2 }
    }
}

impl Rule {
    /// Constructs a rule from a head sentence and a body of literals.
    pub fn new(head: Sentence, body: Vec<Literal>) -> (r: Rule)
        ensures
            r.deep_view() == (SpecRule { head: head.deep_view(), body: body.deep_view() }),
    {
        let r = Rule { head, body };
        proof {
            assert(r.deep_view().body =~= r.body.deep_view());
        }
        r
    }
}

impl Description {
    /// Constructs a description from a list of clauses.
    pub fn new(clauses: Vec<Clause>) -> (r: Description)
        ensures
            r.deep_view() == (SpecDescription { clauses: clauses.deep_view() }),
    {
        let r = Description { clauses };
        proof {
            assert(r.deep_view().clauses =~= r.clauses.deep_view());
        }
        r
    }
}

// ---------------------------------------------------------------------------
// Conversions into the wider node kinds.
// ---------------------------------------------------------------------------

impl From<Constant> for Term {
    fn from(c: Constant) -> (t: Term) {
        Term::ConstTerm(c)
    }
}

impl vstd::std_specs::convert::FromSpecImpl<Constant> for Term {
    open spec fn obeys_from_spec() -> bool {
        true
    }

    open spec fn from_spec(c: Constant) -> Term {
        Term::ConstTerm(c)
    }
}

impl From<Variable> for Term {
    fn from(v: Variable) -> (t: Term) {
        Term::VarTerm(v)
    }
}

impl vstd::std_specs::convert::FromSpecImpl<Variable> for Term {
    open spec fn obeys_from_spec() -> bool {
        true
    }

    open spec fn from_spec(v: Variable) -> Term {
        Term::VarTerm(v)
    }
}

impl From<Function> for Term {
    fn from(f: Function) -> (t: Term) {
        Term::FuncTerm(f)
    }
}

impl vstd::std_specs::convert::FromSpecImpl<Function> for Term {
    open spec fn obeys_from_spec() -> bool {
        true
    }

    open spec fn from_spec(f: Function) -> Term {
        Term::FuncTerm(f)
    }
}

impl From<Proposition> for Sentence {
    fn from(p: Proposition) -> (s: Sentence) {
        Sentence::PropSentence(p)
    }
}

impl vstd::std_specs::convert::FromSpecImpl<Proposition> for Sentence {
    open spec fn obeys_from_spec() -> bool {
        true
    }

    open spec fn from_spec(p: Proposition) -> Sentence {
        Sentence::PropSentence(p)
    }
}

impl From<Relation> for Sentence {
    fn from(r: Relation) -> (s: Sentence) {
        Sentence::RelSentence(r)
    }
}

impl vstd::std_specs::convert::FromSpecImpl<Relation> for Sentence {
    open spec fn obeys_from_spec() -> bool {
        true
    }

    open spec fn from_spec(r: Relation) -> Sentence {
        Sentence::RelSentence(r)
    }
}

impl From<Proposition> for Literal {
    fn from(p: Proposition) -> (l: Literal) {
        Literal::PropLit(p)
    }
}

impl vstd::std_specs::convert::FromSpecImpl<Proposition> for Literal {
    open spec fn obeys_from_spec() -> bool {
        true
    }

    open spec fn from_spec(p: Proposition) -> Literal {
        Literal::PropLit(p)
    }
}

impl From<Relation> for Literal {
    fn from(r: Relation) -> (l: Literal) {
        Literal::RelLit(r)
    }
}

impl vstd::std_specs::convert::FromSpecImpl<Relation> for Literal {
    open spec fn obeys_from_spec() -> bool {
        true
    }

    open spec fn from_spec(r: Relation) -> Literal {
        Literal::RelLit(r)
    }
}

impl From<Not> for Literal {
    fn from(n: Not) -> (l: Literal) {
        Literal::NotLit(n)
    }
}

impl vstd::std_specs::convert::FromSpecImpl<Not> for Literal {
    open spec fn obeys_from_spec() -> bool {
        true
    }

    open spec fn from_spec(n: Not) -> Literal {
        Literal::NotLit(n)
    }
}

impl From<Or> for Literal {
    fn from(o: Or) -> (l: Literal) {
        Literal::OrLit(o)
    }
}

impl vstd::std_specs::convert::FromSpecImpl<Or> for Literal {
    open spec fn obeys_from_spec() -> bool {
        true
    }

    open spec fn from_spec(o: Or) -> Literal {
        Literal::OrLit(o)
    }
}

impl From<Distinct> for Literal {
    fn from(d: Distinct) -> (l: Literal) {
        Literal::DistinctLit(d)
    }
}

impl vstd::std_specs::convert::FromSpecImpl<Distinct> for Literal {
    open spec fn obeys_from_spec() -> bool {
        true
    }

    open spec fn from_spec(d: Distinct) -> Literal {
        Literal::DistinctLit(d)
    }
}

impl From<Sentence> for Literal {
    fn from(s: Sentence) -> (l: Literal) {
        match s {
            Sentence::PropSentence(p) => Literal::PropLit(p),
            Sentence::RelSentence(r) => Literal::RelLit(r),
        }
    }
}

impl vstd::std_specs::convert::FromSpecImpl<Sentence> for Literal {
    open spec fn obeys_from_spec() -> bool {
        true
    }

    open spec fn from_spec(s: Sentence) -> Literal {
        match s {
            Sentence::PropSentence(p) => Literal::PropLit(p),
            Sentence::RelSentence(r) => Literal::RelLit(r),
        }
    }
}

impl From<Rule> for Clause {
    fn from(r: Rule) -> (c: Clause) {
        Clause::RuleClause(r)
    }
}

impl vstd::std_specs::convert::FromSpecImpl<Rule> for Clause {
    open spec fn obeys_from_spec() -> bool {
        true
    }

    open spec fn from_spec(r: Rule) -> Clause {
        Clause::RuleClause(r)
    }
}

impl From<Sentence> for Clause {
    fn from(s: Sentence) -> (c: Clause) {
        Clause::SentenceClause(s)
    }
}

impl vstd::std_specs::convert::FromSpecImpl<Sentence> for Clause {
    open spec fn obeys_from_spec() -> bool {
        true
    }

    open spec fn from_spec(s: Sentence) -> Clause {
        Clause::SentenceClause(s)
    }
}

impl Sentence {
    /// Returns the name of the sentence.
    pub fn name(&self) -> (r: &Constant)
        ensures
            r.deep_view() == crate::model::sentence_name(self.deep_view()),
    {
        match self {
            Sentence::PropSentence(p) => &p.name,
            Sentence::RelSentence(r) => &r.name,
        }
    }
}

impl Term {
    /// Returns the name of the term.
    pub fn name(&self) -> (r: &Constant)
        ensures
            r.deep_view() == crate::model::term_name(self.deep_view()),
    {
        match self {
            Term::VarTerm(v) => &v.name,
            Term::FuncTerm(f) => &f.name,
            Term::ConstTerm(c) => c,
        }
    }
}

} // verus!
