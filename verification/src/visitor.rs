//! The traversal engine: a strict post-order walk over the tree.
//!
//! A [`Visitor`] exposes one hook per node kind, each defaulting to a
//! no-op, so implementers override only what they need.  Every `visit_*`
//! function fully visits a node's children — recursively, depth-first, in
//! field order, left to right — before firing the node's own hook, and
//! grants each hook mutable access to the node it receives, so a hook on
//! a parent observes children already in their final, possibly rewritten
//! state.  The traversal itself is total and never fails; a hook that
//! needs to signal an error must carry it in its own state.

use vstd::prelude::*;

use crate::ast::{
    Clause, Constant, Description, Distinct, Function, Literal, Not, Or, Proposition, Relation,
    Rule, Sentence, Term, Variable,
};

verus! {

/// A visitor over the tree: one hook per node kind, fired post-order.
pub trait Visitor {
    /// Called after all clauses of a description have been visited.
    fn visit_description(&mut self, _d: &mut Description) {
    }

    /// Called after the clause's rule or sentence has been visited.
    fn visit_clause(&mut self, _c: &mut Clause) {
    }

    /// Called after the rule's head and body have been visited.
    fn visit_rule(&mut self, _r: &mut Rule) {
    }

    /// Called after the sentence's proposition or relation has been visited.
    fn visit_sentence(&mut self, _s: &mut Sentence) {
    }

    /// Called after the proposition's name has been visited.
    fn visit_proposition(&mut self, _p: &mut Proposition) {
    }

    /// Called after the relation's name and arguments have been visited.
    fn visit_relation(&mut self, _r: &mut Relation) {
    }

    /// Called after the literal's underlying node has been visited.
    fn visit_literal(&mut self, _l: &mut Literal) {
    }

    /// Called after the term's underlying node has been visited.
    fn visit_term(&mut self, _t: &mut Term) {
    }

    /// Called on every constant; constants have no children.
    fn visit_constant(&mut self, _c: &mut Constant) {
    }

    /// Called after all disjuncts have been visited.
    fn visit_or(&mut self, _o: &mut Or) {
    }

    /// Called after the negated literal has been visited.
    fn visit_not(&mut self, _n: &mut Not) {
    }

    /// Called after both terms of the constraint have been visited.
    fn visit_distinct(&mut self, _d: &mut Distinct) {
    }

    /// Called after the variable's name has been visited.
    fn visit_variable(&mut self, _v: &mut Variable) {
    }

    /// Called after the function's name and arguments have been visited.
    fn visit_function(&mut self, _f: &mut Function) {
    }
}

fn visit_constant_owned<V: Visitor>(c: Constant, visitor: &mut V) -> Constant {
    let mut c2 = c;
    visitor.visit_constant(&mut c2);
    c2
}

fn visit_variable_owned<V: Visitor>(v: Variable, visitor: &mut V) -> Variable {
    let mut v2 = Variable { name: visit_constant_owned(v.name, visitor) };
    visitor.visit_variable(&mut v2);
    v2
}

fn visit_function_owned<V: Visitor>(f: Function, visitor: &mut V) -> Function
    decreases f,
{
    let ghost f0 = f;
    let Function { name, args } = f;
    let name = visit_constant_owned(name, visitor);
    let ghost orig = args@;
    let mut args = args;
    let mut out: Vec<Term> = Vec::new();
    while args.len() > 0
        invariant
            out@.len() + args@.len() == orig.len(),
            args@ == orig.subrange(out@.len() as int, orig.len() as int),
            orig == f0.args@,
            f0 == f,
        decreases args@.len(),
    {
        let ghost k = out@.len() as int;
        let t = args.remove(0);
        proof {
            assert(t == f0.args@[k]);
            assert(args@ =~= orig.subrange(k + 1, orig.len() as int));
            assert(decreases_to!(f0 => f0.args));
            assert(decreases_to!(f0.args => f0.args@[k]));
            assert(decreases_to!(f0 => t));
        }
        let t2 = visit_term_owned(t, visitor);
        out.push(t2);
    }
    let mut f2 = Function { name, args: out };
    visitor.visit_function(&mut f2);
    f2
}

fn visit_term_owned<V: Visitor>(t: Term, visitor: &mut V) -> Term
    decreases t,
{
    let mut t2 = match t {
        Term::VarTerm(v) => Term::VarTerm(visit_variable_owned(v, visitor)),
        Term::FuncTerm(f) => Term::FuncTerm(visit_function_owned(f, visitor)),
        Term::ConstTerm(c) => Term::ConstTerm(visit_constant_owned(c, visitor)),
    };
    visitor.visit_term(&mut t2);
    t2
}

fn visit_proposition_owned<V: Visitor>(p: Proposition, visitor: &mut V) -> Proposition {
    let mut p2 = Proposition { name: visit_constant_owned(p.name, visitor) };
    visitor.visit_proposition(&mut p2);
    p2
}

fn visit_relation_owned<V: Visitor>(r: Relation, visitor: &mut V) -> Relation {
    let ghost r0 = r;
    let Relation { name, args } = r;
    let name = visit_constant_owned(name, visitor);
    let ghost orig = args@;
    let mut args = args;
    let mut out: Vec<Term> = Vec::new();
    while args.len() > 0
        invariant
            out@.len() + args@.len() == orig.len(),
            args@ == orig.subrange(out@.len() as int, orig.len() as int),
        decreases args@.len(),
    {
        let ghost k = out@.len() as int;
        let t = args.remove(0);
        proof {
            assert(args@ =~= orig.subrange(k + 1, orig.len() as int));
        }
        let t2 = visit_term_owned(t, visitor);
        out.push(t2);
    }
    let mut r2 = Relation { name, args: out };
    visitor.visit_relation(&mut r2);
    r2
}

fn visit_sentence_owned<V: Visitor>(s: Sentence, visitor: &mut V) -> Sentence {
    let mut s2 = match s {
        Sentence::PropSentence(p) => Sentence::PropSentence(visit_proposition_owned(p, visitor)),
        Sentence::RelSentence(r) => Sentence::RelSentence(visit_relation_owned(r, visitor)),
    };
    visitor.visit_sentence(&mut s2);
    s2
}

fn visit_not_owned<V: Visitor>(n: Not, visitor: &mut V) -> Not
    decreases n,
{
    let ghost n0 = n;
    let inner = *n.lit;
    proof {
        assert(inner == *n0.lit);
    }
    let mut n2 = Not { lit: Box::new(visit_literal_owned(inner, visitor)) };
    visitor.visit_not(&mut n2);
    n2
}

fn visit_or_owned<V: Visitor>(o: Or, visitor: &mut V) -> Or
    decreases o,
{
    let ghost o0 = o;
    let Or { lits } = o;
    let ghost orig = lits@;
    let mut lits = lits;
    let mut out: Vec<Literal> = Vec::new();
    while lits.len() > 0
        invariant
            out@.len() + lits@.len() == orig.len(),
            lits@ == orig.subrange(out@.len() as int, orig.len() as int),
            orig == o0.lits@,
            o0 == o,
        decreases lits@.len(),
    {
        let ghost k = out@.len() as int;
        let l = lits.remove(0);
        proof {
            assert(l == o0.lits@[k]);
            assert(lits@ =~= orig.subrange(k + 1, orig.len() as int));
            assert(decreases_to!(o0 => o0.lits));
            assert(decreases_to!(o0.lits => o0.lits@[k]));
            assert(decreases_to!(o0 => l));
        }
        let l2 = visit_literal_owned(l, visitor);
        out.push(l2);
    }
    let mut o2 = Or { lits: out };
    visitor.visit_or(&mut o2);
    o2
}

fn visit_distinct_owned<V: Visitor>(d: Distinct, visitor: &mut V) -> Distinct {
    let t1 = visit_term_owned(d.term1, visitor);
    let t2 = visit_term_owned(d.term2, visitor);
    let mut d2 = Distinct { term1: t1, term2: t2 };
    visitor.visit_distinct(&mut d2);
    d2
}

fn visit_literal_owned<V: Visitor>(l: Literal, visitor: &mut V) -> Literal
    decreases l,
{
    let mut l2 = match l {
        Literal::NotLit(n) => Literal::NotLit(visit_not_owned(n, visitor)),
        Literal::OrLit(o) => Literal::OrLit(visit_or_owned(o, visitor)),
        Literal::DistinctLit(d) => Literal::DistinctLit(visit_distinct_owned(d, visitor)),
        Literal::PropLit(p) => Literal::PropLit(visit_proposition_owned(p, visitor)),
        Literal::RelLit(r) => Literal::RelLit(visit_relation_owned(r, visitor)),
    };
    visitor.visit_literal(&mut l2);
    l2
}

fn visit_rule_owned<V: Visitor>(r: Rule, visitor: &mut V) -> Rule {
    let Rule { head, body } = r;
    let head = visit_sentence_owned(head, visitor);
    let ghost orig = body@;
    let mut body = body;
    let mut out: Vec<Literal> = Vec::new();
    while body.len() > 0
        invariant
            out@.len() + body@.len() == orig.len(),
            body@ == orig.subrange(out@.len() as int, orig.len() as int),
        decreases body@.len(),
    {
        let ghost k = out@.len() as int;
        let l = body.remove(0);
        proof {
            assert(body@ =~= orig.subrange(k + 1, orig.len() as int));
        }
        let l2 = visit_literal_owned(l, visitor);
        out.push(l2);
    }
    let mut r2 = Rule { head, body: out };
    visitor.visit_rule(&mut r2);
    r2
}

fn visit_clause_owned<V: Visitor>(c: Clause, visitor: &mut V) -> Clause {
    let mut c2 = match c {
        Clause::RuleClause(r) => Clause::RuleClause(visit_rule_owned(r, visitor)),
        Clause::SentenceClause(s) => Clause::SentenceClause(visit_sentence_owned(s, visitor)),
    };
    visitor.visit_clause(&mut c2);
    c2
}

fn visit_description_owned<V: Visitor>(d: Description, visitor: &mut V) -> Description {
    let Description { clauses } = d;
    let ghost orig = clauses@;
    let mut clauses = clauses;
    let mut out: Vec<Clause> = Vec::new();
    while clauses.len() > 0
        invariant
            out@.len() + clauses@.len() == orig.len(),
            clauses@ == orig.subrange(out@.len() as int, orig.len() as int),
        decreases clauses@.len(),
    {
        let ghost k = out@.len() as int;
        let c = clauses.remove(0);
        proof {
            assert(clauses@ =~= orig.subrange(k + 1, orig.len() as int));
        }
        let c2 = visit_clause_owned(c, visitor);
        out.push(c2);
    }
    let mut d2 = Description { clauses: out };
    visitor.visit_description(&mut d2);
    d2
}

/// Performs a post-order traversal of a whole description.
pub fn visit<V: Visitor>(desc: &mut Description, visitor: &mut V) {
    let mut tmp = Description { clauses: Vec::new() };
    core::mem::swap(desc, &mut tmp);
    tmp = visit_description_owned(tmp, visitor);
    core::mem::swap(desc, &mut tmp);
}

/// Performs a post-order traversal of a clause.
pub fn visit_clause<V: Visitor>(clause: &mut Clause, visitor: &mut V) {
    let mut tmp = Clause::SentenceClause(
        Sentence::PropSentence(Proposition { name: Constant { name: String::new() } }),
    );
    core::mem::swap(clause, &mut tmp);
    tmp = visit_clause_owned(tmp, visitor);
    core::mem::swap(clause, &mut tmp);
}

/// Performs a post-order traversal of a rule.
pub fn visit_rule<V: Visitor>(rule: &mut Rule, visitor: &mut V) {
    let mut tmp = Rule {
        head: Sentence::PropSentence(Proposition { name: Constant { name: String::new() } }),
        body: Vec::new(),
    };
    core::mem::swap(rule, &mut tmp);
    tmp = visit_rule_owned(tmp, visitor);
    core::mem::swap(rule, &mut tmp);
}

/// Performs a post-order traversal of a sentence.
pub fn visit_sentence<V: Visitor>(sentence: &mut Sentence, visitor: &mut V) {
    let mut tmp = Sentence::PropSentence(Proposition { name: Constant { name: String::new() } });
    core::mem::swap(sentence, &mut tmp);
    tmp = visit_sentence_owned(tmp, visitor);
    core::mem::swap(sentence, &mut tmp);
}

/// Performs a post-order traversal of a proposition.
pub fn visit_proposition<V: Visitor>(proposition: &mut Proposition, visitor: &mut V) {
    let mut tmp = Proposition { name: Constant { name: String::new() } };
    core::mem::swap(proposition, &mut tmp);
    tmp = visit_proposition_owned(tmp, visitor);
    core::mem::swap(proposition, &mut tmp);
}

/// Performs a post-order traversal of a relation.
pub fn visit_relation<V: Visitor>(relation: &mut Relation, visitor: &mut V) {
    let mut tmp = Relation { name: Constant { name: String::new() }, args: Vec::new() };
    core::mem::swap(relation, &mut tmp);
    tmp = visit_relation_owned(tmp, visitor);
    core::mem::swap(relation, &mut tmp);
}

/// Performs a post-order traversal of a literal.
pub fn visit_literal<V: Visitor>(literal: &mut Literal, visitor: &mut V) {
    let mut tmp = Literal::PropLit(Proposition { name: Constant { name: String::new() } });
    core::mem::swap(literal, &mut tmp);
    tmp = visit_literal_owned(tmp, visitor);
    core::mem::swap(literal, &mut tmp);
}

/// Performs a post-order traversal of a term.
pub fn visit_term<V: Visitor>(term: &mut Term, visitor: &mut V) {
    let mut tmp = Term::ConstTerm(Constant { name: String::new() });
    core::mem::swap(term, &mut tmp);
    tmp = visit_term_owned(tmp, visitor);
    core::mem::swap(term, &mut tmp);
}

/// Visits a constant; constants have no children, so only the hook fires.
pub fn visit_constant<V: Visitor>(constant: &mut Constant, visitor: &mut V) {
    visitor.visit_constant(constant);
}

/// Performs a post-order traversal of a disjunction.
pub fn visit_or<V: Visitor>(or: &mut Or, visitor: &mut V) {
    let mut tmp = Or { lits: Vec::new() };
    core::mem::swap(or, &mut tmp);
    tmp = visit_or_owned(tmp, visitor);
    core::mem::swap(or, &mut tmp);
}

/// Performs a post-order traversal of a negation.
pub fn visit_not<V: Visitor>(not: &mut Not, visitor: &mut V) {
    let mut tmp = Not {
        lit: Box::new(Literal::PropLit(Proposition { name: Constant { name: String::new() } })),
    };
    core::mem::swap(not, &mut tmp);
    tmp = visit_not_owned(tmp, visitor);
    core::mem::swap(not, &mut tmp);
}

/// Performs a post-order traversal of an inequality constraint.
pub fn visit_distinct<V: Visitor>(distinct: &mut Distinct, visitor: &mut V) {
    let mut tmp = Distinct {
        term1: Term::ConstTerm(Constant { name: String::new() }),
        term2: Term::ConstTerm(Constant { name: String::new() }),
    };
    core::mem::swap(distinct, &mut tmp);
    tmp = visit_distinct_owned(tmp, visitor);
    core::mem::swap(distinct, &mut tmp);
}

/// Performs a post-order traversal of a variable.
pub fn visit_variable<V: Visitor>(variable: &mut Variable, visitor: &mut V) {
    let mut tmp = Variable { name: Constant { name: String::new() } };
    core::mem::swap(variable, &mut tmp);
    tmp = visit_variable_owned(tmp, visitor);
    core::mem::swap(variable, &mut tmp);
}

/// Performs a post-order traversal of a function term.
pub fn visit_function<V: Visitor>(function: &mut Function, visitor: &mut V) {
    let mut tmp = Function { name: Constant { name: String::new() }, args: Vec::new() };
    core::mem::swap(function, &mut tmp);
    tmp = visit_function_owned(tmp, visitor);
    core::mem::swap(function, &mut tmp);
}

} // verus!
