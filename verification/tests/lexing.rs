use flowlang::lexer::{LexError, Lexer, Spec, Specs, Token, TokenName, TokenStream};

fn tokens_of(input: &str) -> Vec<(TokenName, String, usize)> {
    let stream = TokenStream::new(input.to_string()).unwrap();
    stream.tokens.iter().map(|t| (t.name, t.value.clone(), t.at)).collect()
}

#[test]
fn one_plus_one() {
    assert_eq!(
        tokens_of("1 + 1"),
        vec![
            (TokenName::Number, "1".to_string(), 0),
            (TokenName::Operator, "+".to_string(), 2),
            (TokenName::Number, "1".to_string(), 4),
        ]
    );
}

#[test]
fn a_call_with_a_sum() {
    assert_eq!(
        tokens_of("log_2(45 + 5)"),
        vec![
            (TokenName::Word, "log_2".to_string(), 0),
            (TokenName::Bracket, "(".to_string(), 5),
            (TokenName::Number, "45".to_string(), 6),
            (TokenName::Operator, "+".to_string(), 9),
            (TokenName::Number, "5".to_string(), 11),
            (TokenName::Bracket, ")".to_string(), 12),
        ]
    );
}

#[test]
fn sigils_commas_and_texts() {
    assert_eq!(
        tokens_of("#main($a, \"b c\")"),
        vec![
            (TokenName::Word, "#main".to_string(), 0),
            (TokenName::Bracket, "(".to_string(), 5),
            (TokenName::Word, "$a".to_string(), 6),
            (TokenName::Comma, ",".to_string(), 8),
            (TokenName::String, "\"b c\"".to_string(), 10),
            (TokenName::Bracket, ")".to_string(), 15),
        ]
    );
}

#[test]
fn decimal_fractions_are_numbers() {
    assert_eq!(
        tokens_of("1.5 .25"),
        vec![
            (TokenName::Number, "1.5".to_string(), 0),
            (TokenName::Number, ".25".to_string(), 4),
        ]
    );
}

#[test]
fn empty_input_has_no_tokens() {
    assert_eq!(tokens_of(""), vec![]);
    assert_eq!(tokens_of("  \n\t "), vec![]);
}

#[test]
fn trailing_whitespace_ends_the_input() {
    assert_eq!(tokens_of("ab  "), vec![(TokenName::Word, "ab".to_string(), 0)]);
}

#[test]
fn a_character_of_no_kind_is_an_error() {
    assert_eq!(TokenStream::new("1 ? 2".to_string()).err(), Some(LexError { at: 2, character: '?' }));
    assert_eq!(TokenStream::new("{".to_string()).err(), Some(LexError { at: 0, character: '{' }));
}

#[test]
fn random_access() {
    let stream = TokenStream::new("a + b".to_string()).unwrap();
    assert_eq!(stream.len(), 3);
    assert_eq!(stream.get(1), Some(Token::new(TokenName::Operator, "+".to_string(), 3)));
    assert_eq!(stream.get(3), None);
}

#[test]
fn token_offset_is_position_less_length() {
    let token = Token::new(TokenName::Word, "abc".to_string(), 10);
    assert_eq!(token.at, 7);
    assert_eq!(token.value, "abc");
    let clamped = Token::new(TokenName::Word, "abc".to_string(), 1);
    assert_eq!(clamped.at, 0);
}

#[test]
fn token_text_and_prefix() {
    let token = Token::new(TokenName::Word, "#main".to_string(), 5);
    assert!(token.starts_with("#"));
    assert!(!token.starts_with("$"));
    assert!(token.starts_with(""));
    assert_eq!(token.to_string(), "0 Word #main");
}

#[test]
fn matching_bracket_counts_round_brackets_only() {
    let stream = TokenStream::new("f(a, (b + c), [d)) x".to_string()).unwrap();
    // f ( a , ( b + c ) , [ d ) ) x
    // 0 1 2 3 4 5 6 7 8 9 10 11 12 13 14
    assert_eq!(stream.search_idx_of_closed_bracer(1), Some(12));
    assert_eq!(stream.search_idx_of_closed_bracer(4), Some(8));
}

#[test]
fn unmatched_bracket_has_no_match() {
    let stream = TokenStream::new("f(a, (b)".to_string()).unwrap();
    assert_eq!(stream.search_idx_of_closed_bracer(1), None);
    assert_eq!(stream.search_idx_of_closed_bracer(4), Some(6));
    assert_eq!(stream.search_idx_of_closed_bracer(40), None);
}

#[test]
fn a_classifier_stays_rejected_until_reset() {
    let mut spec = Spec::new(TokenName::Number);
    assert!(spec.accepted);
    spec.decide('1', "");
    assert!(spec.accepted);
    spec.decide('a', "1");
    assert!(!spec.accepted);
    spec.decide('2', "1a");
    assert!(!spec.accepted);
    spec.reset();
    assert!(spec.accepted);
}

#[test]
fn classifiers_decide_at_the_first_character_none_takes() {
    let mut specs = Specs::new();
    assert_eq!(specs.decide('4', ""), Ok(None));
    assert_eq!(specs.decide('5', "4"), Ok(None));
    let decision = specs.decide(' ', "45").unwrap().unwrap();
    assert_eq!(decision.token_name, TokenName::Number);
    specs.reset();
    assert_eq!(specs.decide('a', ""), Ok(None));
    let decision = specs.decide('(', "a").unwrap().unwrap();
    assert_eq!(decision.token_name, TokenName::Word);
}

#[test]
fn classifiers_report_a_character_that_starts_nothing() {
    let mut specs = Specs::new();
    assert_eq!(specs.decide('?', ""), Err('?'));
}

#[test]
fn unicode_letters_and_spaces() {
    assert_eq!(
        tokens_of("\u{e9}t\u{e9}\u{a0}+"),
        vec![
            (TokenName::Word, "\u{e9}t\u{e9}".to_string(), 0),
            (TokenName::Operator, "+".to_string(), 4),
        ]
    );
}

#[test]
fn tokens_come_one_by_one() {
    let mut lexer = Lexer::new("ab + 1 ".to_string());
    assert_eq!(lexer.next(), Ok(Some(Token::new(TokenName::Word, "ab".to_string(), 2))));
    assert_eq!(lexer.next(), Ok(Some(Token::new(TokenName::Operator, "+".to_string(), 4))));
    assert_eq!(lexer.next(), Ok(Some(Token::new(TokenName::Number, "1".to_string(), 6))));
    assert_eq!(lexer.next(), Ok(None));
    assert_eq!(lexer.next(), Ok(None));
}

#[test]
fn the_tokenizer_stays_at_a_character_of_no_kind() {
    let mut lexer = Lexer::new("a ?".to_string());
    assert_eq!(lexer.next(), Ok(Some(Token::new(TokenName::Word, "a".to_string(), 1))));
    assert_eq!(lexer.next(), Err(LexError { at: 2, character: '?' }));
    assert_eq!(lexer.next(), Err(LexError { at: 2, character: '?' }));
}
