use dppc::ast::ASTNode;
use dppc::lexer::Lexer;
use dppc::parser::ParseError;
use dppc::parser::Parser;
use dppc::token::Token;
use dppc::token::TokenType;

fn lex(src: &str) -> Vec<Token> {
    let mut lexer = Lexer::new(src.to_string());
    lexer.tokenize().expect("input should tokenize")
}

fn parser_for(src: &str) -> Parser {
    Parser::new(lex(src))
}

fn ident(name: &str) -> ASTNode {
    ASTNode::Identifier(name.to_string())
}

fn lit(value: &str) -> ASTNode {
    ASTNode::Literal(value.to_string())
}

fn binop(left: ASTNode, op: &str, right: ASTNode) -> ASTNode {
    ASTNode::BinaryOperation { left: Box::new(left), operator: op.to_string(), right: Box::new(right) }
}

#[test]
fn multiplication_binds_tighter_than_addition() {
    let mut parser = parser_for("1 + 2 * 3;");
    let expr = parser.parse_expression().expect("expression should parse");
    assert_eq!(expr, binop(lit("1"), "+", binop(lit("2"), "*", lit("3"))));
}

#[test]
fn assignment_is_right_associative() {
    let mut parser = parser_for("a = b = c;");
    let expr = parser.parse_expression().expect("expression should parse");
    assert_eq!(expr, binop(ident("a"), "=", binop(ident("b"), "=", ident("c"))));
}

#[test]
fn assignment_to_literal_fails() {
    let mut parser = parser_for("1 = 2;");
    let err = parser.parse_expression().expect_err("assignment to a literal must fail");
    assert_eq!(err, ParseError::InvalidAssignmentTarget);
}

#[test]
fn missing_arrow_is_named() {
    let mut parser = parser_for("fn f() int { }");
    let err = parser.parse().expect_err("the arrow is required");
    assert_eq!(
        err,
        ParseError::Expected { token_type: TokenType::Separator, value: "->".to_string() }
    );
}

#[test]
fn missing_return_type_fails() {
    let mut parser = parser_for("fn f() -> { }");
    let err = parser.parse().expect_err("the return type is required");
    assert_eq!(err, ParseError::ExpectedIdentifier);
}

#[test]
fn return_statement_is_not_in_the_grammar() {
    // `return` is a reserved word but no statement rule accepts it, so a
    // body holding one fails where an expression was expected.
    let mut parser = parser_for("fn f() -> int { return; }");
    let err = parser.parse().expect_err("return is reserved but unparsable");
    assert_eq!(err, ParseError::ExpectedExpression);
}

#[test]
fn function_declaration_parses_from_source() {
    let mut parser = parser_for("fn f(y: bool) -> int { }");
    let program = parser.parse().expect("function declaration should parse");
    assert_eq!(
        program,
        ASTNode::Program(vec![ASTNode::FunctionDeclaration {
            name: "f".to_string(),
            parameters: vec![ASTNode::VariableDeclaration {
                name: "y".to_string(),
                var_type: Box::new(ASTNode::Type("bool".to_string())),
                initializer: None,
            }],
            return_type: Box::new(ASTNode::Type("int".to_string())),
            body: Box::new(ASTNode::Block(vec![])),
        }])
    );
}

#[test]
fn parsing_is_deterministic_on_the_same_tokens() {
    let first = parser_for("x = 1 + 2 * (3 - 4);").parse_expression();
    let second = parser_for("x = 1 + 2 * (3 - 4);").parse_expression();
    assert_eq!(first, second);
}

#[test]
fn parsing_ignores_token_positions() {
    // Line and column play no part in the grammar: shifting every
    // position leaves the parse unchanged.
    let tokens = lex("x = 1 + 2 * (3 - 4);");
    let shifted: Vec<Token> = tokens
        .iter()
        .map(|t| Token { token_type: t.token_type, value: t.value.clone(), line: t.line + 7, column: t.column + 100 })
        .collect();
    let first = Parser::new(tokens).parse_expression();
    let second = Parser::new(shifted).parse_expression();
    assert_eq!(first, second);
}

#[test]
fn left_associative_chains_nest_leftward() {
    let mut parser = parser_for("1 - 2 - 3;");
    let expr = parser.parse_expression().expect("expression should parse");
    assert_eq!(expr, binop(binop(lit("1"), "-", lit("2")), "-", lit("3")));
}

#[test]
fn unary_operators_nest() {
    let mut parser = parser_for("!-x;");
    let expr = parser.parse_expression().expect("expression should parse");
    assert_eq!(
        expr,
        ASTNode::UnaryOperation {
            operator: "!".to_string(),
            operand: Box::new(ASTNode::UnaryOperation {
                operator: "-".to_string(),
                operand: Box::new(ident("x")),
            }),
        }
    );
}

#[test]
fn parentheses_override_precedence() {
    let mut parser = parser_for("(1 + 2) * 3;");
    let expr = parser.parse_expression().expect("expression should parse");
    assert_eq!(expr, binop(binop(lit("1"), "+", lit("2")), "*", lit("3")));
}

#[test]
fn variable_declaration_parses_after_let() {
    let mut parser = parser_for("let x: int = 5;");
    assert!(parser.match_token(TokenType::Keyword, "let"));
    let decl = parser.parse_variable_declaration().expect("declaration should parse");
    assert_eq!(
        decl,
        ASTNode::VariableDeclaration {
            name: "x".to_string(),
            var_type: Box::new(ASTNode::Type("int".to_string())),
            initializer: Some(Box::new(lit("5"))),
        }
    );
}

#[test]
fn variable_declaration_without_initializer() {
    let mut parser = parser_for("let x: int;");
    assert!(parser.match_token(TokenType::Keyword, "let"));
    let decl = parser.parse_variable_declaration().expect("declaration should parse");
    assert_eq!(
        decl,
        ASTNode::VariableDeclaration {
            name: "x".to_string(),
            var_type: Box::new(ASTNode::Type("int".to_string())),
            initializer: None,
        }
    );
}

#[test]
fn whole_parse_stops_at_the_eof_marker() {
    let mut parser = parser_for("let x: int;");
    let program = parser.parse().expect("lexed input should parse");
    assert_eq!(
        program,
        ASTNode::Program(vec![ASTNode::VariableDeclaration {
            name: "x".to_string(),
            var_type: Box::new(ASTNode::Type("int".to_string())),
            initializer: None,
        }])
    );
}

#[test]
fn whole_parse_succeeds_without_the_eof_marker() {
    let mut tokens = lex("let x: int;");
    tokens.pop();
    let mut parser = Parser::new(tokens);
    let program = parser.parse().expect("program should parse");
    assert_eq!(
        program,
        ASTNode::Program(vec![ASTNode::VariableDeclaration {
            name: "x".to_string(),
            var_type: Box::new(ASTNode::Type("int".to_string())),
            initializer: None,
        }])
    );
}

#[test]
fn declaration_requires_a_keyword() {
    let mut parser = parser_for("1;");
    let err = parser.parse().expect_err("a literal is not a declaration");
    assert_eq!(err, ParseError::ExpectedDeclaration);
}

#[test]
fn let_must_be_followed_by_an_identifier() {
    let mut parser = parser_for("let 1: int;");
    let err = parser.parse().expect_err("a literal cannot be declared");
    assert_eq!(err, ParseError::ExpectedIdentifier);
}

#[test]
fn missing_semicolon_is_named() {
    let mut parser = parser_for("a = b");
    let err = parser.parse_expression_statement().expect_err("the statement is unterminated");
    assert_eq!(
        err,
        ParseError::Expected { token_type: TokenType::Separator, value: ";".to_string() }
    );
}

#[test]
fn empty_expression_fails() {
    let mut parser = parser_for(";");
    let err = parser.parse_expression().expect_err("a separator starts no expression");
    assert_eq!(err, ParseError::ExpectedExpression);
}

#[test]
fn function_declaration_parses_from_hand_built_tokens() {
    // With the "->" separator supplied directly, the full grammar rule for
    // function declarations is exercised end to end.
    let t = |k: TokenType, v: &str| Token { token_type: k, value: v.to_string(), line: 1, column: 0 };
    let tokens = vec![
        t(TokenType::Keyword, "fn"),
        t(TokenType::Identifier, "f"),
        t(TokenType::Separator, "("),
        t(TokenType::Identifier, "y"),
        t(TokenType::Separator, ":"),
        t(TokenType::Identifier, "bool"),
        t(TokenType::Separator, ")"),
        t(TokenType::Separator, "->"),
        t(TokenType::Identifier, "int"),
        t(TokenType::Separator, "{"),
        t(TokenType::Separator, "}"),
    ];
    let mut parser = Parser::new(tokens);
    let program = parser.parse().expect("program should parse");
    assert_eq!(
        program,
        ASTNode::Program(vec![ASTNode::FunctionDeclaration {
            name: "f".to_string(),
            parameters: vec![ASTNode::VariableDeclaration {
                name: "y".to_string(),
                var_type: Box::new(ASTNode::Type("bool".to_string())),
                initializer: None,
            }],
            return_type: Box::new(ASTNode::Type("int".to_string())),
            body: Box::new(ASTNode::Block(vec![])),
        }])
    );
}
