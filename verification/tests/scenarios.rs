use gdl_parser::Clause::SentenceClause;
use gdl_parser::Literal::{NotLit, RelLit};
use gdl_parser::Sentence::{PropSentence, RelSentence};
use gdl_parser::{parse, Constant, Description, Distinct, Not, Proposition, Relation, Variable};

fn con(name: &str) -> Constant {
    Constant::new(name.to_string())
}

#[test]
fn relation_clause_parses_and_renders() {
    let d = parse("(p a b)").unwrap();
    let expected = Description::new(vec![SentenceClause(RelSentence(Relation::new(
        con("p"),
        vec![con("a").into(), con("b").into()],
    )))]);
    assert_eq!(d, expected);
    assert_eq!(d.render(), "(p a b)".to_string());
}

#[test]
fn bare_token_is_a_proposition() {
    let d = parse("p").unwrap();
    let expected = Description::new(vec![SentenceClause(PropSentence(Proposition::new(con(
        "p",
    ))))]);
    assert_eq!(d, expected);
    assert_eq!(d.render(), "p".to_string());
}

#[test]
fn rule_with_negated_body_literal() {
    let d = parse("(<= (p ?x) (q ?x) (not (r ?x)))").unwrap();
    assert_eq!(d.clauses.len(), 1);
    match &d.clauses[0] {
        gdl_parser::Clause::RuleClause(r) => {
            let x = || Variable::new(con("x")).into();
            assert_eq!(
                r.head,
                RelSentence(Relation::new(con("p"), vec![x()]))
            );
            assert_eq!(r.body.len(), 2);
            assert_eq!(r.body[0], RelLit(Relation::new(con("q"), vec![x()])));
            assert_eq!(
                r.body[1],
                NotLit(Not::new(Box::new(RelLit(Relation::new(con("r"), vec![x()])))))
            );
        }
        other => panic!("expected a rule clause, got {:?}", other),
    }
}

#[test]
fn distinct_inside_a_rule_body() {
    let d = parse("(<= p (distinct ?x ?y))").unwrap();
    match &d.clauses[0] {
        gdl_parser::Clause::RuleClause(r) => {
            assert_eq!(r.body.len(), 1);
            assert_eq!(
                r.body[0],
                gdl_parser::Literal::DistinctLit(Distinct::new(
                    Variable::new(con("x")).into(),
                    Variable::new(con("y")).into(),
                ))
            );
        }
        other => panic!("expected a rule clause, got {:?}", other),
    }
}

#[test]
fn unbalanced_parenthesis_is_a_syntax_error() {
    assert!(parse("(p").is_err());
}

#[test]
fn comment_lines_are_whitespace() {
    let with_comment = parse("; comment\n(p a)").unwrap();
    let without = parse("(p a)").unwrap();
    assert_eq!(with_comment, without);
}
