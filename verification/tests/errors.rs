use gdl_parser::parse;

#[test]
fn malformed_inputs_are_rejected() {
    let bad = [
        "(p",            // unterminated relation
        ")",             // stray closing parenthesis
        "(p a",          // missing closing parenthesis
        "?",             // bare sigil, empty variable name
        "?x",            // a variable is not a sentence
        "(p)",           // relation without arguments
        "(<= p)",        // rule without body literals
        "(<=)",          // rule without head
        "(or p)",        // a disjunction is not a clause
        "not",           // reserved keyword as a proposition
        "(not p)",       // a negation is not a clause
        "((a) b)",       // a relation name must be a constant
        "(p ?)",         // empty variable name in term position
        "(<= (p ?x) (distinct ?x))",   // inequality needs two terms
        "(<= (p ?x) (distinct a b c))", // inequality takes exactly two terms
        "(<= (p ?x) (or))",            // disjunction needs a literal
        "(p <= q)",      // keyword misused in term position
    ];
    for src in bad.iter() {
        assert!(parse(src).is_err(), "expected a syntax error for {:?}", src);
    }
}

#[test]
fn errors_carry_a_position_and_message() {
    let e = parse("(p a").unwrap_err();
    assert!(!e.message.is_empty());
    assert!(e.pos <= 4);

    let e = parse("xyz )").unwrap_err();
    assert_eq!(e.pos, 4);
}

#[test]
fn empty_input_is_an_empty_description() {
    let d = parse("").unwrap();
    assert_eq!(d.clauses.len(), 0);
    assert_eq!(d.render(), "".to_string());

    let d = parse(" \t\n; nothing but a comment").unwrap();
    assert_eq!(d.clauses.len(), 0);
}

#[test]
fn unicode_names_survive_a_round_trip() {
    let d = parse("(märke ?värde)").unwrap();
    assert_eq!(d.render(), "(märke ?värde)".to_string());
    assert_eq!(parse(&d.render()).unwrap(), d);
}
