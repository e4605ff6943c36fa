use std::cmp::Ordering;

use gdl_parser::Clause::SentenceClause;
use gdl_parser::Sentence::RelSentence;
use gdl_parser::{parse, Constant, Description, Relation, Term, Variable};

fn con(name: &str) -> Constant {
    Constant::new(name.to_string())
}

#[test]
fn parse_render_round_trip() {
    let sources = [
        "(p a b)",
        "p",
        "(<= (p ?x) (q ?x) (not (r ?x)))",
        "(<= p (or (q a) (distinct ?x (f ?y a))))",
        "init (succ 1 2) (<= (next ?s) (true ?s))",
        "",
    ];
    for src in sources.iter() {
        let d = parse(src).unwrap();
        let rendered = d.render();
        let reparsed = parse(&rendered).unwrap();
        assert_eq!(reparsed, d, "round trip failed for {:?}", src);
    }
}

#[test]
fn rendering_normalizes_whitespace_and_comments() {
    let noisy = "  (p\n\ta  b) ; trailing words\n\tq";
    let clean = "(p a b) q";
    let d1 = parse(noisy).unwrap();
    let d2 = parse(clean).unwrap();
    assert_eq!(d1, d2);
    assert_eq!(d1.render(), clean.to_string());
}

#[test]
fn equal_trees_render_identically() {
    let parsed = parse("(p a b)").unwrap();
    let built = Description::new(vec![SentenceClause(RelSentence(Relation::new(
        con("p"),
        vec![con("a").into(), con("b").into()],
    )))]);
    assert_eq!(parsed, built);
    assert_eq!(parsed.render(), built.render());
}

#[test]
fn zero_argument_forms_are_rejected() {
    assert!(parse("(p)").is_err());
    assert!(parse("(q (f))").is_err());
    assert!(parse("(<= (p) q)").is_err());
}

#[test]
fn comparison_is_total_on_terms() {
    let a: Term = Variable::new(con("x")).into();
    let b: Term = con("x").into();
    let c: Term = con("y").into();
    // Variants order before constants; equal terms compare equal.
    assert_eq!(a.compare(&b), Ordering::Less);
    assert_eq!(b.compare(&a), Ordering::Greater);
    assert_eq!(b.compare(&c), Ordering::Less);
    assert_eq!(c.compare(&b), Ordering::Greater);
    assert_eq!(a.compare(&a), Ordering::Equal);
    // Transitivity on a concrete chain.
    assert_eq!(a.compare(&b), Ordering::Less);
    assert_eq!(b.compare(&c), Ordering::Less);
    assert_eq!(a.compare(&c), Ordering::Less);
}

#[test]
fn comparison_is_total_on_descriptions() {
    let d1 = parse("(p a)").unwrap();
    let d2 = parse("(p a) q").unwrap();
    let d3 = parse("(p b)").unwrap();
    assert_eq!(d1.compare(&d2), Ordering::Less);
    assert_eq!(d2.compare(&d1), Ordering::Greater);
    assert_eq!(d1.compare(&d3), Ordering::Less);
    assert_eq!(d1.compare(&parse("(p a)").unwrap()), Ordering::Equal);
}

#[test]
fn names_are_exposed() {
    let d = parse("(p a) q").unwrap();
    match (&d.clauses[0], &d.clauses[1]) {
        (SentenceClause(rel), SentenceClause(prop)) => {
            assert_eq!(rel.name(), &con("p"));
            assert_eq!(prop.name(), &con("q"));
        }
        other => panic!("unexpected clauses {:?}", other),
    }
    let t: Term = Variable::new(con("x")).into();
    assert_eq!(t.name(), &con("x"));
}

#[test]
fn clone_preserves_structure() {
    let d = parse("(<= (p ?x) (q ?x) (not (r ?x)))").unwrap();
    let d2 = d.clone();
    assert_eq!(d, d2);
    assert_eq!(d.render(), d2.render());
}
