use dppc::lexer::Lexer;
use dppc::token::LexError;
use dppc::token::Token;
use dppc::token::TokenType;

fn lex(src: &str) -> Vec<Token> {
    let mut lexer = Lexer::new(src.to_string());
    lexer.tokenize().expect("input should tokenize")
}

fn lex_err(src: &str) -> LexError {
    let mut lexer = Lexer::new(src.to_string());
    lexer.tokenize().expect_err("input should fail to tokenize")
}

fn tok(kind: TokenType, value: &str, line: usize, column: usize) -> Token {
    Token { token_type: kind, value: value.to_string(), line, column }
}

#[test]
fn tokenize_declaration_with_initializer() {
    let tokens = lex("x: int = 1 + 2;");
    let expected = vec![
        tok(TokenType::Identifier, "x", 1, 0),
        tok(TokenType::Separator, ":", 1, 1),
        tok(TokenType::Identifier, "int", 1, 3),
        tok(TokenType::Operator, "=", 1, 7),
        tok(TokenType::Literal, "1", 1, 9),
        tok(TokenType::Operator, "+", 1, 11),
        tok(TokenType::Literal, "2", 1, 13),
        tok(TokenType::Separator, ";", 1, 14),
        tok(TokenType::Separator, "EOF", 1, 15),
    ];
    assert_eq!(tokens, expected);
}

#[test]
fn tokenize_unterminated_string_fails() {
    let err = lex_err("\"abc");
    assert_eq!(err, LexError::UnterminatedString { position: 0 });
}

#[test]
fn tokenize_unexpected_character_fails() {
    let err = lex_err("x @ y");
    assert_eq!(err, LexError::UnexpectedCharacter { character: '@', position: 2 });
}

#[test]
fn tokenize_keywords_and_identifiers() {
    let tokens = lex("fn let if else while return foo _bar");
    let kinds: Vec<TokenType> = tokens.iter().map(|t| t.token_type).collect();
    assert_eq!(
        kinds,
        vec![
            TokenType::Keyword,
            TokenType::Keyword,
            TokenType::Keyword,
            TokenType::Keyword,
            TokenType::Keyword,
            TokenType::Keyword,
            TokenType::Identifier,
            TokenType::Identifier,
            TokenType::Separator,
        ]
    );
    assert_eq!(tokens[6].value, "foo");
    assert_eq!(tokens[7].value, "_bar");
}

#[test]
fn tokenize_two_character_operators_greedily() {
    let tokens = lex("a==b!=c<=d>=e<f>g");
    let values: Vec<&str> = tokens.iter().map(|t| t.value.as_str()).collect();
    assert_eq!(values, vec!["a", "==", "b", "!=", "c", "<=", "d", ">=", "e", "<", "f", ">", "g", "EOF"]);
}

#[test]
fn tokenize_line_comment_produces_no_token() {
    let tokens = lex("1 // a comment\n2");
    assert_eq!(tokens[0], tok(TokenType::Literal, "1", 1, 0));
    assert_eq!(tokens[1], tok(TokenType::Literal, "2", 2, 15));
    assert_eq!(tokens[2], tok(TokenType::Separator, "EOF", 2, 16));
}

#[test]
fn tokenize_arrow_as_one_separator() {
    let tokens = lex("a -> b - c");
    let expected = vec![
        tok(TokenType::Identifier, "a", 1, 0),
        tok(TokenType::Separator, "->", 1, 2),
        tok(TokenType::Identifier, "b", 1, 5),
        tok(TokenType::Operator, "-", 1, 7),
        tok(TokenType::Identifier, "c", 1, 9),
        tok(TokenType::Separator, "EOF", 1, 10),
    ];
    assert_eq!(tokens, expected);
}

#[test]
fn tokenize_division_operator() {
    let tokens = lex("a / b");
    assert_eq!(tokens[1], tok(TokenType::Operator, "/", 1, 2));
}

#[test]
fn tokenize_string_literal_keeps_quotes() {
    let tokens = lex("\"hi\";");
    assert_eq!(tokens[0], tok(TokenType::Literal, "\"hi\"", 1, 0));
    assert_eq!(tokens[1], tok(TokenType::Separator, ";", 1, 4));
}

#[test]
fn tokenize_string_with_newline_advances_line() {
    let tokens = lex("\"a\nb\" x");
    assert_eq!(tokens[0], tok(TokenType::Literal, "\"a\nb\"", 2, 0));
    assert_eq!(tokens[1].line, 2);
}

#[test]
fn tokenize_fractional_number() {
    let tokens = lex("3.14;");
    assert_eq!(tokens[0], tok(TokenType::Literal, "3.14", 1, 0));
}

#[test]
fn tokenize_dot_without_following_digit_is_rejected() {
    let err = lex_err("1.");
    assert_eq!(err, LexError::UnexpectedCharacter { character: '.', position: 1 });
}

#[test]
fn tokenize_empty_input_gives_only_eof() {
    let tokens = lex("");
    assert_eq!(tokens, vec![tok(TokenType::Separator, "EOF", 1, 0)]);
}
