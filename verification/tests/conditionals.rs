use afrs::bindings::Bindings;
use afrs::conditionals::expression::{Expression, Operator};
use afrs::conditionals::lexer::{tokenize, Token};
use afrs::conditionals::parser::parse_tokens;
use afrs::conditionals::{eval, parse, validate, ConditionalParser, EvalError, ParseError};

fn bind(pairs: &[(&str, bool)]) -> Bindings {
    let mut map = Bindings::new();
    for (name, value) in pairs {
        map.insert(name.to_string(), *value);
    }
    map
}

fn shape(e: &Expression) -> String {
    match e {
        Expression::Variable(name) => name.clone(),
        Expression::BinaryOp(Operator::And, l, r) => format!("({} & {})", shape(l), shape(r)),
        Expression::BinaryOp(Operator::Or, l, r) => format!("({} | {})", shape(l), shape(r)),
    }
}

fn shape_of(text: &str) -> String {
    shape(&parse(text).unwrap())
}

fn value_of(text: &str, pairs: &[(&str, bool)]) -> bool {
    eval(parse(text).unwrap(), &bind(pairs)).unwrap()
}

#[test]
fn it_works() {
    let map = bind(&[("A", true), ("B", false), ("C", false), ("D", false)]);
    let keys: Vec<&str> = vec!["A", "B", "C", "D"];
    // The grammar has its two connectives as the words `and` and `or` only.
    // A bar is a character that belongs to no symbol, like any other sign,
    // so the text with the bar is refused and the word is written instead.
    assert!(ConditionalParser::parse("A | C").is_err());
    let parser = ConditionalParser::parse("A or C").unwrap();
    println!("{:?}", parser);
    let valid = validate(ConditionalParser::parse("A or C").unwrap(), keys);
    println!("Validate: {:?}", valid);
    assert!(valid);
    let result = eval(parser, &map);
    println!("Result: {:?}", result);
    assert_eq!(result.unwrap(), true);
}

#[test]
fn tokenize_splits_words_and_parentheses() {
    let tokens = tokenize("(alpha AND b_1)or\tC").unwrap();
    let shown: Vec<String> = tokens
        .iter()
        .map(|t| match t {
            Token::Open => "(".to_string(),
            Token::Close => ")".to_string(),
            Token::And => "AND".to_string(),
            Token::Or => "OR".to_string(),
            Token::Name(n) => format!("<{}>", n),
        })
        .collect();
    assert_eq!(shown, vec!["(", "<alpha>", "AND", "<b_1>", ")", "OR", "<C>"]);
}

#[test]
fn tokenize_takes_words_as_long_as_they_go() {
    let tokens = tokenize("android or orange").unwrap();
    assert_eq!(tokens.len(), 3);
    assert!(matches!(&tokens[0], Token::Name(n) if n == "android"));
    assert!(matches!(&tokens[1], Token::Or));
    assert!(matches!(&tokens[2], Token::Name(n) if n == "orange"));
}

#[test]
fn tokenize_refuses_unknown_characters() {
    assert!(tokenize("A & B").is_none());
    assert!(tokenize("A | B").is_none());
    assert!(tokenize("A - B").is_none());
    assert!(tokenize("caf\u{e9}").is_none());
    assert!(tokenize("A and \u{4e2d}").is_none());
}

#[test]
fn tokenize_of_blank_text_is_empty() {
    assert_eq!(tokenize("").unwrap().len(), 0);
    assert_eq!(tokenize(" \t\r\n ").unwrap().len(), 0);
}

#[test]
fn parse_single_variable() {
    assert_eq!(shape_of("A"), "A");
    assert_eq!(shape_of("  some_name_42  "), "some_name_42");
}

#[test]
fn parse_and_binds_tighter_than_or() {
    assert_eq!(shape_of("A and B or C"), "((A & B) | C)");
    assert_eq!(shape_of("A or B and C"), "(A | (B & C))");
    assert_eq!(shape_of("A or B and C or D"), "((A | (B & C)) | D)");
}

#[test]
fn parse_is_left_associative() {
    assert_eq!(shape_of("A and B and C"), "((A & B) & C)");
    assert_eq!(shape_of("A or B or C"), "((A | B) | C)");
}

#[test]
fn parse_parentheses_force_grouping() {
    assert_eq!(shape_of("A and (B or C)"), "(A & (B | C))");
    assert_eq!(shape_of("(A or B) and C"), "((A | B) & C)");
    assert_eq!(shape_of("((A))"), "A");
    assert_eq!(shape_of("A or (B or C)"), "(A | (B | C))");
    assert_eq!(shape_of("(A)and(B)"), "(A & B)");
}

#[test]
fn parse_keywords_in_any_case() {
    assert_eq!(shape_of("A AND B"), "(A & B)");
    assert_eq!(shape_of("A And B oR C"), "((A & B) | C)");
    assert_eq!(shape_of("a OR b"), "(a | b)");
}

#[test]
fn parse_fails_on_malformed_text() {
    for text in [
        "", "   ", "A and", "and A", "A or", "or", "and", "A B", "A and or B", "(A", "A)", "()",
        "(A and B", "A and B)", "A and (B or )", "A | C", "A & B", "A and B!", ")A(",
    ] {
        let r = parse(text);
        assert!(r.is_err(), "{:?} parsed", text);
        assert_eq!(r.unwrap_err().reason, "Unable to parse conditional");
    }
}

#[test]
fn parse_does_not_check_names() {
    assert_eq!(shape_of("nobody and declared_this"), "(nobody & declared_this)");
}

#[test]
fn validate_accepts_declared_names_only() {
    assert!(validate(parse("A and (B or C)").unwrap(), vec!["A", "B", "C"]));
    assert!(validate(parse("A and (B or C)").unwrap(), vec!["C", "B", "A", "D"]));
    assert!(!validate(parse("A and (B or C)").unwrap(), vec!["A", "B"]));
    assert!(!validate(parse("A and (B or C)").unwrap(), vec![]));
    assert!(!validate(parse("A").unwrap(), vec!["a"]));
    assert!(validate(parse("A or A or A").unwrap(), vec!["A"]));
}

#[test]
fn validate_looks_at_every_leaf() {
    assert!(!validate(parse("X and A").unwrap(), vec!["A"]));
    assert!(!validate(parse("A and X").unwrap(), vec!["A"]));
    assert!(!validate(parse("A or (A and (A or X))").unwrap(), vec!["A"]));
}

#[test]
fn eval_left_associative_chains() {
    assert_eq!(value_of("A and B and C", &[("A", true), ("B", true), ("C", false)]), false);
    assert_eq!(value_of("A or B or C", &[("A", false), ("B", false), ("C", true)]), true);
    assert_eq!(value_of("A and B and C", &[("A", true), ("B", true), ("C", true)]), true);
    assert_eq!(value_of("A or B or C", &[("A", false), ("B", false), ("C", false)]), false);
}

#[test]
fn eval_precedence() {
    assert_eq!(value_of("A and B or C", &[("A", false), ("B", true), ("C", true)]), true);
    assert_eq!(value_of("A or B and C", &[("A", true), ("B", false), ("C", false)]), true);
    assert_eq!(value_of("A and (B or C)", &[("A", false), ("B", true), ("C", true)]), false);
    assert_eq!(value_of("(A or B) and C", &[("A", true), ("B", false), ("C", false)]), false);
}

#[test]
fn eval_truth_tables() {
    for a in [false, true] {
        for b in [false, true] {
            assert_eq!(value_of("A and B", &[("A", a), ("B", b)]), a & b);
            assert_eq!(value_of("A or B", &[("A", a), ("B", b)]), a | b);
        }
        assert_eq!(value_of("A", &[("A", a)]), a);
    }
}

#[test]
fn eval_fails_on_a_missing_binding() {
    let r = eval(parse("A and B").unwrap(), &bind(&[("A", true)]));
    assert_eq!(r.unwrap_err().reason, "Conditional names a variable that has no value");
    // Both sides are evaluated: a missing name fails whatever the other side is.
    assert!(eval(parse("A or B").unwrap(), &bind(&[("A", true)])).is_err());
    assert!(eval(parse("B or A").unwrap(), &bind(&[("A", true)])).is_err());
    assert!(eval(parse("A").unwrap(), &bind(&[])).is_err());
}

#[test]
fn bindings_last_write_wins() {
    let mut map = Bindings::new();
    assert_eq!(map.len(), 0);
    assert_eq!(map.get("A"), None);
    map.insert("A".to_string(), true);
    map.insert("A".to_string(), false);
    map.insert("B".to_string(), true);
    assert_eq!(map.len(), 2);
    assert_eq!(map.get("A"), Some(false));
    assert_eq!(map.get("B"), Some(true));
}

#[test]
fn errors_as_text() {
    let p = ParseError { reason: "Unable to parse conditional".to_string() };
    assert_eq!(p.to_string(), "ParseError: Unable to parse conditional");
    let e = EvalError { reason: "no value".to_string() };
    assert_eq!(e.to_string(), "EvalError: no value");
}

#[test]
fn operator_combine() {
    assert_eq!(Operator::And.combine(true, false), false);
    assert_eq!(Operator::And.combine(true, true), true);
    assert_eq!(Operator::Or.combine(true, false), true);
    assert_eq!(Operator::Or.combine(false, false), false);
}

#[test]
fn parse_tokens_reads_a_whole_sequence() {
    let tokens = tokenize("A and (B or C)").unwrap();
    assert_eq!(shape(&parse_tokens(&tokens).unwrap()), "(A & (B | C))");
    assert!(tokens[1].is_and());
    assert!(!tokens[1].is_or());
    assert!(tokens[4].is_or());
    assert!(tokens[6].is_close());
    assert!(!tokens[2].is_close());
    let tokens = tokenize("A and (B or C))").unwrap();
    assert!(parse_tokens(&tokens).is_none());
    assert!(parse_tokens(&Vec::new()).is_none());
}

#[test]
fn names_are_words_that_spell_no_keyword() {
    assert!(parse("and").is_err());
    assert!(parse("OR").is_err());
    assert_eq!(shape_of("band or ore"), "(band | ore)");
    assert_eq!(shape_of("_ and __1"), "(_ & __1)");
    assert_eq!(shape_of("0 or 1"), "(0 | 1)");
}

#[test]
fn validate_needs_every_name_in_the_text_declared() {
    // The names in the text are exactly the names at the leaves.
    let text = "alpha and (beta or alpha) and gamma";
    assert!(validate(parse(text).unwrap(), vec!["alpha", "beta", "gamma"]));
    assert!(!validate(parse(text).unwrap(), vec!["alpha", "beta"]));
    assert!(!validate(parse(text).unwrap(), vec!["alpha", "gamma"]));
    assert!(!validate(parse(text).unwrap(), vec!["beta", "gamma"]));
}
