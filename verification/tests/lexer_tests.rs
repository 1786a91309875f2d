use treewalk::ast::Value;
use treewalk::lexer::{tokenize, LexError, Token, Type};

fn kinds(source: &str) -> Vec<Type> {
    tokenize(source).unwrap().iter().map(|t| t.kind).collect()
}

fn text(token: &Token) -> String {
    match &token.value {
        Value::String(s) => s.clone(),
        other => panic!("no text: {:?}", other),
    }
}

fn number(token: &Token) -> f64 {
    match &token.value {
        Value::Number(bits) => f64::from_bits(*bits),
        other => panic!("no number: {:?}", other),
    }
}

#[test]
fn let_statement_tokens() {
    let tokens = tokenize("let x = 10;").unwrap();
    assert_eq!(
        tokens.iter().map(|t| t.kind).collect::<Vec<Type>>(),
        vec![Type::Let, Type::Identifier, Type::Equals, Type::Number, Type::Semi, Type::EOF]
    );
    assert_eq!(text(&tokens[0]), "let");
    assert_eq!(text(&tokens[1]), "x");
    assert_eq!(text(&tokens[2]), "=");
    assert_eq!(number(&tokens[3]), 10.0);
    assert_eq!(text(&tokens[4]), ";");
    assert_eq!(text(&tokens[5]), "\0");
}

#[test]
fn empty_source_is_just_the_end_marker() {
    assert_eq!(kinds(""), vec![Type::EOF]);
    assert_eq!(kinds("  \n \n"), vec![Type::EOF]);
}

#[test]
fn single_character_symbols() {
    assert_eq!(
        kinds("+ - * / % = ( ) { } [ ] , : ; ."),
        vec![
            Type::Operator,
            Type::Operator,
            Type::Operator,
            Type::Operator,
            Type::Operator,
            Type::Equals,
            Type::OpenParen,
            Type::CloseParen,
            Type::OpenBrace,
            Type::CloseBrace,
            Type::OpenBracket,
            Type::CloseBracket,
            Type::Comma,
            Type::Colon,
            Type::Semi,
            Type::Dot,
            Type::EOF
        ]
    );
}

#[test]
fn lookahead_symbols() {
    assert_eq!(
        kinds("> >= < <= ! != . .. ..="),
        vec![
            Type::GreaterThan,
            Type::GreaterEqual,
            Type::LessThan,
            Type::LessEqual,
            Type::Not,
            Type::NotEqual,
            Type::Dot,
            Type::Interval,
            Type::InclusiveInterval,
            Type::EOF
        ]
    );
    let tokens = tokenize("..=").unwrap();
    assert_eq!(text(&tokens[0]), "..=");
    let tokens = tokenize("...").unwrap();
    assert_eq!(
        tokens.iter().map(|t| t.kind).collect::<Vec<Type>>(),
        vec![Type::Interval, Type::Dot, Type::EOF]
    );
}

#[test]
fn keywords_and_identifiers() {
    assert_eq!(
        kinds("let const fn for in if else while lets iff"),
        vec![
            Type::Let,
            Type::Const,
            Type::Fn,
            Type::For,
            Type::In,
            Type::If,
            Type::Else,
            Type::While,
            Type::Identifier,
            Type::Identifier,
            Type::EOF
        ]
    );
}

#[test]
fn a_word_runs_to_the_next_operator() {
    let tokens = tokenize("get_current_time()").unwrap();
    assert_eq!(text(&tokens[0]), "get_current_time");
    assert_eq!(tokens[1].kind, Type::OpenParen);
    let tokens = tokenize("a1\"b c").unwrap();
    assert_eq!(text(&tokens[0]), "a1\"b");
    assert_eq!(text(&tokens[1]), "c");
}

#[test]
fn numbers_end_at_operators_and_spaces() {
    let tokens = tokenize("1+22*3").unwrap();
    assert_eq!(
        tokens.iter().map(|t| t.kind).collect::<Vec<Type>>(),
        vec![Type::Number, Type::Operator, Type::Number, Type::Operator, Type::Number, Type::EOF]
    );
    assert_eq!(number(&tokens[0]), 1.0);
    assert_eq!(number(&tokens[2]), 22.0);
    assert_eq!(number(&tokens[4]), 3.0);
}

#[test]
fn a_number_is_the_nearest_double() {
    let tokens = tokenize("9007199254740993").unwrap();
    assert_eq!(number(&tokens[0]), 9007199254740992.0);
    let tokens = tokenize("0012").unwrap();
    assert_eq!(number(&tokens[0]), 12.0);
    let tokens = tokenize(&"9".repeat(400)).unwrap();
    assert_eq!(number(&tokens[0]), f64::INFINITY);
    let tokens = tokenize("123456789012345678901234567890").unwrap();
    assert_eq!(number(&tokens[0]), 123456789012345678901234567890.0);
}

#[test]
fn a_letter_inside_a_number_is_an_error() {
    assert_eq!(tokenize("12a"), Err(LexError { position: 2, character: 'a' }));
    assert_eq!(tokenize("x = 7\"").unwrap_err(), LexError { position: 5, character: '"' });
}

#[test]
fn string_literals_keep_their_quotes() {
    let tokens = tokenize("\"abc\"").unwrap();
    assert_eq!(tokens[0].kind, Type::String);
    assert_eq!(text(&tokens[0]), "\"abc\"");
    assert_eq!(tokens[1].kind, Type::EOF);
}

#[test]
fn a_string_stops_at_a_space() {
    assert_eq!(tokenize("\"ab cd\""), Err(LexError { position: 2, character: 'b' }));
    assert_eq!(tokenize("\"ab\\n\""), Err(LexError { position: 2, character: 'b' }));
    assert_eq!(tokenize("\"ab"), Err(LexError { position: 2, character: 'b' }));
}

#[test]
fn a_lone_quote_is_a_string() {
    let tokens = tokenize("\" x").unwrap();
    assert_eq!(tokens[0].kind, Type::String);
    assert_eq!(text(&tokens[0]), "\"");
    assert_eq!(tokens[1].kind, Type::Identifier);
}

#[test]
fn unknown_characters_are_errors() {
    assert_eq!(tokenize("a # b"), Err(LexError { position: 2, character: '#' }));
    assert_eq!(tokenize("\t"), Err(LexError { position: 0, character: '\t' }));
    assert_eq!(tokenize("x = 1 ?"), Err(LexError { position: 6, character: '?' }));
}

#[test]
fn positions_count_characters() {
    assert_eq!(tokenize("é = ?"), Err(LexError { position: 4, character: '?' }));
    let tokens = tokenize("éa b").unwrap();
    assert_eq!(text(&tokens[0]), "éa");
    assert_eq!(text(&tokens[1]), "b");
    let tokens = tokenize("aé").unwrap();
    assert_eq!(text(&tokens[0]), "a");
    assert_eq!(text(&tokens[1]), "é");
    assert_eq!(tokens[2].kind, Type::EOF);
}

#[test]
fn only_spaces_and_line_feeds_are_blank() {
    assert_eq!(tokenize("a\rb").unwrap().len(), 2);
    assert_eq!(text(&tokenize("a\tb").unwrap()[0]), "a\tb");
    assert_eq!(tokenize("a \r"), Err(LexError { position: 2, character: '\r' }));
}

#[test]
fn a_space_joins_token_sequences() {
    for (first, second) in [("let x", "= 10;"), ("f(1", ")"), ("\"", "\"a\""), ("", "x"), ("a.", ".=")] {
        let mut expected = tokenize(first).unwrap();
        expected.pop();
        expected.extend(tokenize(second).unwrap());
        assert_eq!(tokenize(&format!("{} {}", first, second)).unwrap(), expected);
    }
}

#[test]
fn only_the_last_token_is_the_end_marker() {
    let tokens = tokenize("let x = { a: 1, b: \"s\" }; f(x)(1).y[2] ..= >= != !").unwrap();
    let last = tokens.len() - 1;
    for (i, token) in tokens.iter().enumerate() {
        assert_eq!(token.kind == Type::EOF, i == last);
    }
}
