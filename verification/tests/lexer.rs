use scriptlex::is_skip;
use scriptlex::lex;
use scriptlex::Lexer;
use scriptlex::Token;

#[test]
fn empty_input_is_only_eof() {
    assert_eq!(lex(""), vec![Token::Eof]);
}

#[test]
fn whitespace_only_input_is_only_eof() {
    assert_eq!(lex(" \t\n  \n\t"), vec![Token::Eof]);
    assert_eq!(lex(" "), vec![Token::Eof]);
    assert_eq!(lex("\n"), vec![Token::Eof]);
}

#[test]
fn is_skip_accepts_exactly_space_tab_newline() {
    assert!(is_skip(' '));
    assert!(is_skip('\t'));
    assert!(is_skip('\n'));
    assert!(!is_skip('a'));
    assert!(!is_skip('\r'));
    assert!(!is_skip('0'));
}

#[test]
fn every_keyword_scans_to_its_token() {
    let table = vec![
        ("true", Token::True),
        ("maybe", Token::Maybe),
        ("false", Token::False),
        ("if", Token::If),
        ("else", Token::Else),
        ("elif", Token::ElseIf),
        ("for", Token::For),
        ("while", Token::While),
        ("loop", Token::Loop),
        ("not", Token::Not),
        ("and", Token::And),
        ("or", Token::Or),
        ("of", Token::Of),
        ("end", Token::End),
        ("break", Token::Break),
        ("class", Token::Class),
        ("func", Token::Function),
        ("pub", Token::Public),
        ("import", Token::Import),
    ];
    for (spelling, token) in table {
        assert_eq!(lex(spelling), vec![token, Token::Eof], "keyword {}", spelling);
    }
}

#[test]
fn non_keyword_word_is_identifier_with_spelling_preserved() {
    assert_eq!(
        lex("foo"),
        vec![Token::Identifier("foo".to_string()), Token::Eof]
    );
    assert_eq!(
        lex("truex"),
        vec![Token::Identifier("truex".to_string()), Token::Eof]
    );
    assert_eq!(
        lex("iff"),
        vec![Token::Identifier("iff".to_string()), Token::Eof]
    );
    assert_eq!(
        lex("Import"),
        vec![Token::Identifier("Import".to_string()), Token::Eof]
    );
}

#[test]
fn identifier_may_contain_digits_after_a_letter() {
    assert_eq!(
        lex("ab12"),
        vec![Token::Identifier("ab12".to_string()), Token::Eof]
    );
}

#[test]
fn integer_literal_scans_to_number() {
    let tokens = lex("123");
    assert_eq!(
        tokens,
        vec![Token::Number("123".to_string()), Token::Eof]
    );
    match &tokens[0] {
        Token::Number(spelling) => {
            let value: f32 = spelling.parse().unwrap();
            assert_eq!(value, 123.0);
        }
        other => panic!("expected a number, got {:?}", other),
    }
}

#[test]
fn fractional_literal_scans_to_number() {
    let tokens = lex("12.5");
    assert_eq!(
        tokens,
        vec![Token::Number("12.5".to_string()), Token::Eof]
    );
    match &tokens[0] {
        Token::Number(spelling) => {
            let value: f32 = spelling.parse().unwrap();
            assert_eq!(value, 12.5);
        }
        other => panic!("expected a number, got {:?}", other),
    }
}

#[test]
fn second_decimal_point_aborts_the_number() {
    assert_eq!(
        lex("1.2.3"),
        vec![Token::Unknown, Token::Number("3".to_string()), Token::Eof]
    );
}

#[test]
fn trailing_decimal_point_stays_in_the_spelling() {
    assert_eq!(
        lex("12."),
        vec![Token::Number("12.".to_string()), Token::Eof]
    );
}

#[test]
fn compound_assignment_is_a_single_token() {
    assert_eq!(lex("+="), vec![Token::AssignAdd, Token::Eof]);
}

#[test]
fn every_operator_spelling_scans_to_its_token() {
    let table = vec![
        ("=", Token::Assign),
        ("+", Token::Add),
        ("-", Token::Sub),
        ("*", Token::Mul),
        ("/", Token::Div),
        ("^", Token::Pow),
        ("+=", Token::AssignAdd),
        ("-=", Token::AssignSub),
        ("*=", Token::AssignMul),
        ("^=", Token::AssignPow),
        ("/=", Token::AssignDiv),
        ("==", Token::Equals),
        ("!=", Token::NotEquals),
        ("->", Token::Returns),
    ];
    for (spelling, token) in table {
        assert_eq!(lex(spelling), vec![token, Token::Eof], "operator {}", spelling);
    }
}

#[test]
fn punctuation_characters_scan_one_by_one() {
    assert_eq!(
        lex("(){}[]<>:,."),
        vec![
            Token::LParen,
            Token::RParen,
            Token::LBrace,
            Token::RBrace,
            Token::LSqBrace,
            Token::RSqBrace,
            Token::LessThan,
            Token::GreaterThan,
            Token::Colon,
            Token::Comma,
            Token::Dot,
            Token::Eof,
        ]
    );
}

#[test]
fn string_literal_in_single_quotes() {
    assert_eq!(
        lex("'hello'"),
        vec![Token::String("hello".to_string()), Token::Eof]
    );
}

#[test]
fn string_literal_in_double_quotes() {
    assert_eq!(
        lex("\"hi\""),
        vec![Token::String("hi".to_string()), Token::Eof]
    );
}

#[test]
fn string_delimiters_must_match() {
    assert_eq!(
        lex("\"a'b\""),
        vec![Token::String("a'b".to_string()), Token::Eof]
    );
}

#[test]
fn unterminated_string_runs_to_end_of_input() {
    assert_eq!(
        lex("'abc"),
        vec![Token::String("abc".to_string()), Token::Eof]
    );
}

#[test]
fn empty_string_literal_has_empty_payload() {
    assert_eq!(
        lex("''"),
        vec![Token::String("".to_string()), Token::Eof]
    );
}

#[test]
fn operator_between_identifiers_without_spaces() {
    assert_eq!(
        lex("x==y"),
        vec![
            Token::Identifier("x".to_string()),
            Token::Equals,
            Token::Identifier("y".to_string()),
            Token::Eof,
        ]
    );
}

#[test]
fn operator_run_stops_at_the_next_identifier() {
    assert_eq!(
        lex("a+b"),
        vec![
            Token::Identifier("a".to_string()),
            Token::Add,
            Token::Identifier("b".to_string()),
            Token::Eof,
        ]
    );
}

#[test]
fn greedy_operator_run_absorbs_trailing_whitespace() {
    // The operator run stops only at an alphabetic character, so the
    // space after `=` is folded into the run, which then fails to
    // classify.
    assert_eq!(
        lex("a = b"),
        vec![
            Token::Identifier("a".to_string()),
            Token::Unknown,
            Token::Identifier("b".to_string()),
            Token::Eof,
        ]
    );
}

#[test]
fn character_after_a_number_is_consumed() {
    // The dispatcher consumes one further character after the number
    // scanner returns, so the `+` between the literals is discarded.
    assert_eq!(
        lex("12+3"),
        vec![
            Token::Number("12".to_string()),
            Token::Number("3".to_string()),
            Token::Eof,
        ]
    );
}

#[test]
fn unclassifiable_character_is_unknown() {
    assert_eq!(lex(";"), vec![Token::Unknown, Token::Eof]);
    assert_eq!(lex("#"), vec![Token::Unknown, Token::Eof]);
}

#[test]
fn mixed_statement_scans_in_order() {
    assert_eq!(
        lex("if x: y()"),
        vec![
            Token::If,
            Token::Identifier("x".to_string()),
            Token::Colon,
            Token::Identifier("y".to_string()),
            Token::LParen,
            Token::RParen,
            Token::Eof,
        ]
    );
}

#[test]
fn output_ends_with_exactly_one_eof() {
    for source in ["", "  ", "x", "1.2.3", "'a", "a+b", "func f() -> x end"] {
        let tokens = lex(source);
        assert!(!tokens.is_empty());
        assert_eq!(*tokens.last().unwrap(), Token::Eof, "input {:?}", source);
        for token in &tokens[..tokens.len() - 1] {
            assert_ne!(*token, Token::Eof, "input {:?}", source);
        }
    }
}

#[test]
fn next_token_after_eof_yields_eof_again() {
    let mut lexer = Lexer::new("x");
    assert_eq!(lexer.next_token(), Token::Identifier("x".to_string()));
    assert_eq!(lexer.next_token(), Token::Eof);
    assert_eq!(lexer.next_token(), Token::Eof);
    assert_eq!(lexer.next_token(), Token::Eof);
}

#[test]
fn sub_scanners_can_be_driven_directly() {
    let mut lexer = Lexer::new("+=rest");
    assert_eq!(lexer.read_multiple(), Token::AssignAdd);

    let mut lexer = Lexer::new("abc'x");
    assert_eq!(
        lexer.read_string(&'\''),
        Token::String("abc".to_string())
    );

    let mut lexer = Lexer::new("42 ");
    assert_eq!(lexer.read_number(), Token::Number("42".to_string()));

    let mut lexer = Lexer::new("while2 ");
    assert_eq!(
        lexer.read_identifier(),
        Token::Identifier("while2".to_string())
    );
}
