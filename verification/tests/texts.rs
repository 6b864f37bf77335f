use flowlang::lexer::{TokenName, TokenStream};
use flowlang::parser::Parser;
use flowlang::procedure::lookup;
use flowlang::procedure::ProcedureKind;
use flowlang::text::{
    begins_with, characters, integer_text, joined, natural_text, precedes, read_integer,
    same_text, text_between,
};

fn kinds(input: &str) -> Vec<TokenName> {
    TokenStream::new(input.to_string()).unwrap().tokens.iter().map(|t| t.name).collect()
}

#[test]
fn names_are_normalized_to_upper_case() {
    let stream = TokenStream::new("#main() void print ($abc)".to_string()).unwrap();
    let tree = Parser::new_from_stream(stream).parse_program().unwrap();
    let flow = &tree.params[0];
    assert_eq!(flow.value, "#MAIN");
    assert_eq!(flow.params[0].value, "void");
    assert_eq!(flow.params[1].value, "PRINT");
    assert_eq!(flow.params[1].params[0].value, "$ABC");
}

#[test]
fn characters_are_classified() {
    assert_eq!(kinds(" \t\n\r"), vec![]);
    assert_eq!(kinds("\u{0}\u{7}"), vec![]);
    assert_eq!(kinds("0123456789"), vec![TokenName::Number]);
    assert_eq!(kinds("x1"), vec![TokenName::Word]);
    assert_eq!(kinds("1x"), vec![TokenName::Word]);
    assert_eq!(kinds("_"), vec![TokenName::Word]);
    assert_eq!(kinds("+"), vec![TokenName::Operator]);
    assert_eq!(kinds("&|"), vec![TokenName::Operator, TokenName::Operator]);
    assert_eq!(kinds("[]"), vec![TokenName::Bracket, TokenName::Bracket]);
}

#[test]
fn a_leading_minus_begins_a_number() {
    let stream = TokenStream::new("3 -5 - 1".to_string()).unwrap();
    let tokens: Vec<(TokenName, String)> =
        stream.tokens.iter().map(|t| (t.name, t.value.clone())).collect();
    assert_eq!(
        tokens,
        vec![
            (TokenName::Number, "3".to_string()),
            (TokenName::Number, "-5".to_string()),
            (TokenName::Number, "-".to_string()),
            (TokenName::Number, "1".to_string()),
        ]
    );
}

#[test]
fn lexemes_hold_their_characters_in_order() {
    let stream = TokenStream::new("alpha \"be ta\"".to_string()).unwrap();
    assert_eq!(stream.tokens[0].value, "alpha");
    assert_eq!(stream.tokens[1].value, "\"be ta\"");
}

#[test]
fn texts_are_split_and_joined() {
    assert_eq!(characters("a\u{e9}c"), vec!['a', '\u{e9}', 'c']);
    assert_eq!(text_between(&vec!['a', 'b', 'c', 'd'], 1, 3), "bc");
    assert_eq!(text_between(&vec!['a', 'b'], 1, 1), "");
    assert_eq!(joined("ab", "cd"), "abcd");
}

#[test]
fn texts_are_compared() {
    assert!(same_text("abc", "abc"));
    assert!(!same_text("abc", "abd"));
    assert!(!same_text("abc", "ab"));
    assert!(begins_with("$name", "$"));
    assert!(!begins_with("name", "$"));
    assert!(!begins_with("", "$"));
    assert!(precedes("a", "b"));
    assert!(precedes("a", "ab"));
    assert!(!precedes("b", "a"));
    assert!(!precedes("a", "a"));
}

#[test]
fn integers_are_written_in_decimal() {
    assert_eq!(integer_text(0), "0");
    assert_eq!(integer_text(-1), "-1");
    assert_eq!(integer_text(1234567890), "1234567890");
    assert_eq!(integer_text(i64::MAX), "9223372036854775807");
    assert_eq!(integer_text(i64::MIN), "-9223372036854775808");
    assert_eq!(natural_text(0), "0");
    assert_eq!(natural_text(907), "907");
}

#[test]
fn integers_are_read_from_decimal() {
    assert_eq!(read_integer("0"), Some(0));
    assert_eq!(read_integer("-0"), Some(0));
    assert_eq!(read_integer("+12"), Some(12));
    assert_eq!(read_integer("-12"), Some(-12));
    assert_eq!(read_integer("007"), Some(7));
    assert_eq!(read_integer(" 7"), None);
    assert_eq!(read_integer("7.0"), None);
    assert_eq!(read_integer(""), None);
    assert_eq!(read_integer("+"), None);
}

#[test]
fn procedure_names() {
    assert_eq!(lookup("IF"), Some(ProcedureKind::If));
    assert_eq!(lookup("if"), None);
    assert_eq!(lookup("AT"), Some(ProcedureKind::At));
    assert_eq!(lookup("SUM"), Some(ProcedureKind::Sum));
    assert_eq!(lookup("RAND"), Some(ProcedureKind::Rand));
}
