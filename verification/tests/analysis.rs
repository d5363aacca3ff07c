use dppc::ast::ASTNode;
use dppc::optimizer::optimize_ast;
use dppc::semantic::semantic_analysis;
use dppc::semantic::SemanticError;
use dppc::symtab::generate_symbol_table;
use dppc::symtab::SymbolTable;

fn ident(name: &str) -> ASTNode {
    ASTNode::Identifier(name.to_string())
}

fn var_decl(name: &str, ty: &str) -> ASTNode {
    ASTNode::VariableDeclaration {
        name: name.to_string(),
        var_type: Box::new(ASTNode::Type(ty.to_string())),
        initializer: None,
    }
}

fn sample_program() -> ASTNode {
    // let x: int;  fn f(y: bool) -> int { }
    ASTNode::Program(vec![
        var_decl("x", "int"),
        ASTNode::FunctionDeclaration {
            name: "f".to_string(),
            parameters: vec![var_decl("y", "bool")],
            return_type: Box::new(ASTNode::Type("int".to_string())),
            body: Box::new(ASTNode::Block(vec![])),
        },
    ])
}

#[test]
fn symbol_table_round_trip() {
    let table = generate_symbol_table(&sample_program());
    assert_eq!(table.get(&"x".to_string()), Some("int".to_string()));
    assert_eq!(table.get(&"f".to_string()), Some("fn(bool) -> int".to_string()));
    assert_eq!(table.get(&"y".to_string()), None);
    assert_eq!(table.entry_count(), 2);
}

#[test]
fn function_signature_joins_parameter_types_with_commas() {
    let program = ASTNode::Program(vec![ASTNode::FunctionDeclaration {
        name: "g".to_string(),
        parameters: vec![var_decl("a", "int"), var_decl("b", "bool"), var_decl("c", "str")],
        return_type: Box::new(ASTNode::Type("bool".to_string())),
        body: Box::new(ASTNode::Block(vec![])),
    }]);
    let table = generate_symbol_table(&program);
    assert_eq!(table.get(&"g".to_string()), Some("fn(int, bool, str) -> bool".to_string()));
}

#[test]
fn function_without_type_node_gets_void_return() {
    let program = ASTNode::Program(vec![ASTNode::FunctionDeclaration {
        name: "h".to_string(),
        parameters: vec![],
        return_type: Box::new(ASTNode::Literal("?".to_string())),
        body: Box::new(ASTNode::Block(vec![])),
    }]);
    let table = generate_symbol_table(&program);
    assert_eq!(table.get(&"h".to_string()), Some("fn() -> void".to_string()));
}

#[test]
fn last_declaration_wins_on_a_name_collision() {
    let program = ASTNode::Program(vec![var_decl("x", "int"), var_decl("x", "bool")]);
    let table = generate_symbol_table(&program);
    assert_eq!(table.get(&"x".to_string()), Some("bool".to_string()));
}

#[test]
fn semantic_check_flags_the_first_undeclared_identifier() {
    // The statement `print(z);`: the grammar has no call syntax, so the
    // call is modeled as a unary application whose operator symbol is the
    // callee, wrapped as an expression statement; the traversal descends
    // the wrapper and reaches `z` first.
    let program = ASTNode::Program(vec![ASTNode::Expression(Box::new(
        ASTNode::UnaryOperation {
            operator: "print".to_string(),
            operand: Box::new(ident("z")),
        },
    ))]);
    let table = SymbolTable::new();
    let err = semantic_analysis(&program, &table).expect_err("z is undeclared");
    assert_eq!(err, SemanticError::UndefinedVariable { name: "z".to_string() });
}

#[test]
fn semantic_check_reaches_initializers() {
    let program = ASTNode::Program(vec![ASTNode::VariableDeclaration {
        name: "w".to_string(),
        var_type: Box::new(ASTNode::Type("int".to_string())),
        initializer: Some(Box::new(ident("q"))),
    }]);
    let table = SymbolTable::new();
    let err = semantic_analysis(&program, &table).expect_err("q is undeclared");
    assert_eq!(err, SemanticError::UndefinedVariable { name: "q".to_string() });
}

#[test]
fn semantic_check_accepts_declared_identifiers() {
    let program = ASTNode::Program(vec![ASTNode::BinaryOperation {
        left: Box::new(ident("x")),
        operator: "+".to_string(),
        right: Box::new(ident("y")),
    }]);
    let mut table = SymbolTable::new();
    table.insert("x".to_string(), "int".to_string());
    table.insert("y".to_string(), "int".to_string());
    assert_eq!(semantic_analysis(&program, &table), Ok(()));
}

#[test]
fn semantic_check_reads_left_before_right() {
    let program = ASTNode::Program(vec![ASTNode::BinaryOperation {
        left: Box::new(ident("a")),
        operator: "+".to_string(),
        right: Box::new(ident("b")),
    }]);
    let table = SymbolTable::new();
    let err = semantic_analysis(&program, &table).expect_err("both sides are undeclared");
    assert_eq!(err, SemanticError::UndefinedVariable { name: "a".to_string() });
}

#[test]
fn symbol_table_includes_body_declarations() {
    let program = ASTNode::Program(vec![ASTNode::FunctionDeclaration {
        name: "g".to_string(),
        parameters: vec![],
        return_type: Box::new(ASTNode::Type("int".to_string())),
        body: Box::new(ASTNode::Block(vec![var_decl("a", "int")])),
    }]);
    let table = generate_symbol_table(&program);
    assert_eq!(table.get(&"g".to_string()), Some("fn() -> int".to_string()));
    assert_eq!(table.get(&"a".to_string()), Some("int".to_string()));
    assert_eq!(table.entry_count(), 2);
}

#[test]
fn body_declaration_of_the_same_name_wins_over_the_function() {
    let program = ASTNode::Program(vec![ASTNode::FunctionDeclaration {
        name: "x".to_string(),
        parameters: vec![],
        return_type: Box::new(ASTNode::Type("int".to_string())),
        body: Box::new(ASTNode::Block(vec![var_decl("x", "bool")])),
    }]);
    let table = generate_symbol_table(&program);
    assert_eq!(table.get(&"x".to_string()), Some("bool".to_string()));
}

#[test]
fn optimizer_is_the_identity() {
    let mut tree = sample_program();
    optimize_ast(&mut tree);
    assert_eq!(tree, sample_program());
}

#[test]
fn optimizer_is_idempotent() {
    let mut once = sample_program();
    optimize_ast(&mut once);
    let mut twice = sample_program();
    optimize_ast(&mut twice);
    optimize_ast(&mut twice);
    assert_eq!(once, twice);
}
