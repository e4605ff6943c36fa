use gdl_parser::visitor::{visit, visit_term, Visitor};
use gdl_parser::{parse, Constant, Distinct, Function, Not, Or, Proposition, Relation, Rule,
                 Sentence, Term, Variable};

/// Records the order in which hooks fire.
struct Recorder {
    events: Vec<String>,
}

impl Visitor for Recorder {
    fn visit_description(&mut self, _d: &mut gdl_parser::Description) {
        self.events.push("description".to_string());
    }

    fn visit_clause(&mut self, _c: &mut gdl_parser::Clause) {
        self.events.push("clause".to_string());
    }

    fn visit_rule(&mut self, _r: &mut Rule) {
        self.events.push("rule".to_string());
    }

    fn visit_sentence(&mut self, _s: &mut Sentence) {
        self.events.push("sentence".to_string());
    }

    fn visit_proposition(&mut self, p: &mut Proposition) {
        self.events.push(format!("proposition {}", p.name.name));
    }

    fn visit_relation(&mut self, r: &mut Relation) {
        self.events.push(format!("relation {}", r.name.name));
    }

    fn visit_literal(&mut self, _l: &mut gdl_parser::Literal) {
        self.events.push("literal".to_string());
    }

    fn visit_term(&mut self, _t: &mut Term) {
        self.events.push("term".to_string());
    }

    fn visit_constant(&mut self, c: &mut Constant) {
        self.events.push(format!("constant {}", c.name));
    }

    fn visit_or(&mut self, _o: &mut Or) {
        self.events.push("or".to_string());
    }

    fn visit_not(&mut self, _n: &mut Not) {
        self.events.push("not".to_string());
    }

    fn visit_distinct(&mut self, _d: &mut Distinct) {
        self.events.push("distinct".to_string());
    }

    fn visit_variable(&mut self, v: &mut Variable) {
        self.events.push(format!("variable {}", v.name.name));
    }

    fn visit_function(&mut self, f: &mut Function) {
        self.events.push(format!("function {}", f.name.name));
    }
}

#[test]
fn traversal_is_post_order() {
    let mut d = parse("(p (f ?x))").unwrap();
    let mut rec = Recorder { events: Vec::new() };
    visit(&mut d, &mut rec);
    let expected = vec![
        "constant p".to_string(),
        "constant f".to_string(),
        "constant x".to_string(),
        "variable x".to_string(),
        "term".to_string(),
        "function f".to_string(),
        "term".to_string(),
        "relation p".to_string(),
        "sentence".to_string(),
        "clause".to_string(),
        "description".to_string(),
    ];
    assert_eq!(rec.events, expected);
}

#[test]
fn traversal_covers_rules_and_literals() {
    let mut d = parse("(<= p (not q) (or r (distinct ?x a)))").unwrap();
    let mut rec = Recorder { events: Vec::new() };
    visit(&mut d, &mut rec);
    let expected = vec![
        "constant p".to_string(),
        "proposition p".to_string(),
        "sentence".to_string(),
        "constant q".to_string(),
        "proposition q".to_string(),
        "literal".to_string(),
        "not".to_string(),
        "literal".to_string(),
        "constant r".to_string(),
        "proposition r".to_string(),
        "literal".to_string(),
        "constant x".to_string(),
        "variable x".to_string(),
        "term".to_string(),
        "constant a".to_string(),
        "term".to_string(),
        "distinct".to_string(),
        "literal".to_string(),
        "or".to_string(),
        "literal".to_string(),
        "rule".to_string(),
        "clause".to_string(),
        "description".to_string(),
    ];
    assert_eq!(rec.events, expected);
}

/// Renames every constant in place.
struct Renamer;

impl Visitor for Renamer {
    fn visit_constant(&mut self, c: &mut Constant) {
        let mut renamed = c.name.clone();
        renamed.push('2');
        c.name = renamed;
    }
}

#[test]
fn hooks_can_rewrite_in_place() {
    let mut d = parse("(<= (p ?x) (q ?x))").unwrap();
    visit(&mut d, &mut Renamer);
    assert_eq!(d.render(), "(<= (p2 ?x2) (q2 ?x2))".to_string());
}

#[test]
fn traversal_can_start_below_the_root() {
    let mut t: Term = Function::new(
        Constant::new("f".to_string()),
        vec![Constant::new("a".to_string()).into()],
    )
    .into();
    let mut rec = Recorder { events: Vec::new() };
    visit_term(&mut t, &mut rec);
    let expected = vec![
        "constant f".to_string(),
        "constant a".to_string(),
        "term".to_string(),
        "function f".to_string(),
        "term".to_string(),
    ];
    assert_eq!(rec.events, expected);
}
