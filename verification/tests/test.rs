use gdl_parser::Sentence::{PropSentence, RelSentence};
use gdl_parser::{Constant, Proposition, Relation};

#[test]
fn test_to_string() {
    let sentence = PropSentence(Proposition::new(Constant::new("p".to_string())));
    assert_eq!(sentence.render(), "p".to_string());

    let sentence = RelSentence(Relation::new(
        Constant::new("p".to_string()),
        vec![
            Constant::new("a".to_string()).into(),
            Constant::new("b".to_string()).into(),
        ],
    ));
    assert_eq!(sentence.render(), "(p a b)".to_string());
}
