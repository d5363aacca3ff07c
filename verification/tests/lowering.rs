use dppc::ast::ASTNode;
use dppc::codegen::generate_target_code;
use dppc::ir::generate_ir;
use dppc::ir::IrInstr;

fn lit(value: &str) -> ASTNode {
    ASTNode::Literal(value.to_string())
}

fn binop(left: ASTNode, op: &str, right: ASTNode) -> ASTNode {
    ASTNode::BinaryOperation { left: Box::new(left), operator: op.to_string(), right: Box::new(right) }
}

#[test]
fn addition_lowers_to_push_push_operator() {
    // The statement `1 + 2;` lowers to `push 1; push 2; + +` in the
    // textual form, the operator symbol written twice as the two-operand
    // marker; the program and statement wrappers lower through.
    let ir = generate_ir(&ASTNode::Program(vec![ASTNode::Expression(Box::new(binop(
        lit("1"),
        "+",
        lit("2"),
    )))]));
    assert_eq!(
        ir,
        vec![
            IrInstr::Push { value: "1".to_string() },
            IrInstr::Push { value: "2".to_string() },
            IrInstr::BinaryOp { op: "+".to_string() },
        ]
    );
    let rendered: Vec<String> = ir.iter().map(|i| i.render()).collect();
    assert_eq!(rendered, vec!["push 1", "push 2", "+ +"]);
}

#[test]
fn function_declaration_lowers_to_labeled_body() {
    let f = ASTNode::FunctionDeclaration {
        name: "f".to_string(),
        parameters: vec![ASTNode::VariableDeclaration {
            name: "y".to_string(),
            var_type: Box::new(ASTNode::Type("int".to_string())),
            initializer: None,
        }],
        return_type: Box::new(ASTNode::Type("int".to_string())),
        body: Box::new(ASTNode::Block(vec![ASTNode::VariableDeclaration {
            name: "x".to_string(),
            var_type: Box::new(ASTNode::Type("int".to_string())),
            initializer: Some(Box::new(lit("5"))),
        }])),
    };
    let ir = generate_ir(&f);
    assert_eq!(
        ir,
        vec![
            IrInstr::Function { name: "f".to_string() },
            IrInstr::Param { name: "y".to_string() },
            IrInstr::Push { value: "5".to_string() },
            IrInstr::Store { name: "x".to_string() },
            IrInstr::EndFunction,
        ]
    );
}

#[test]
fn variable_declaration_without_initializer_lowers_to_nothing() {
    let decl = ASTNode::VariableDeclaration {
        name: "x".to_string(),
        var_type: Box::new(ASTNode::Type("int".to_string())),
        initializer: None,
    };
    assert_eq!(generate_ir(&decl), vec![]);
}

#[test]
fn program_lowers_its_declarations_in_order() {
    let program = ASTNode::Program(vec![
        ASTNode::VariableDeclaration {
            name: "x".to_string(),
            var_type: Box::new(ASTNode::Type("int".to_string())),
            initializer: Some(Box::new(lit("1"))),
        },
        ASTNode::Expression(Box::new(ASTNode::Identifier("x".to_string()))),
    ]);
    assert_eq!(
        generate_ir(&program),
        vec![
            IrInstr::Push { value: "1".to_string() },
            IrInstr::Store { name: "x".to_string() },
            IrInstr::Load { name: "x".to_string() },
        ]
    );
}

#[test]
fn type_node_lowers_to_nothing() {
    assert_eq!(generate_ir(&ASTNode::Type("int".to_string())), vec![]);
}

#[test]
fn unary_operation_lowers_operand_then_operator() {
    let neg = ASTNode::UnaryOperation { operator: "-".to_string(), operand: Box::new(lit("7")) };
    let ir = generate_ir(&neg);
    assert_eq!(
        ir,
        vec![IrInstr::Push { value: "7".to_string() }, IrInstr::UnaryOp { op: "-".to_string() }]
    );
    assert_eq!(ir[1].render(), "-");
}

#[test]
fn identifier_lowers_to_load() {
    let ir = generate_ir(&ASTNode::Identifier("x".to_string()));
    assert_eq!(ir, vec![IrInstr::Load { name: "x".to_string() }]);
    assert_eq!(ir[0].render(), "load x");
}

#[test]
fn render_prints_the_textual_stream_forms() {
    assert_eq!(IrInstr::Function { name: "f".to_string() }.render(), "function f:");
    assert_eq!(IrInstr::Param { name: "y".to_string() }.render(), "param y");
    assert_eq!(IrInstr::EndFunction.render(), "end_function");
    assert_eq!(IrInstr::Store { name: "x".to_string() }.render(), "store x");
    assert_eq!(IrInstr::BinaryOp { op: "*".to_string() }.render(), "* *");
}

#[test]
fn codegen_emits_function_frame_and_arithmetic() {
    let ir = vec![
        IrInstr::Function { name: "f".to_string() },
        IrInstr::Param { name: "y".to_string() },
        IrInstr::Push { value: "1".to_string() },
        IrInstr::Load { name: "x".to_string() },
        IrInstr::BinaryOp { op: "+".to_string() },
        IrInstr::Store { name: "r".to_string() },
        IrInstr::EndFunction,
    ];
    let lines = generate_target_code(&ir);
    assert_eq!(
        lines,
        vec![
            "f:",
            "    push rbp",
            "    mov rbp, rsp",
            "    push 1",
            "    mov rax, [x]",
            "    push rax",
            "    pop rbx",
            "    pop rax",
            "    add rax, rbx",
            "    push rax",
            "    pop rax",
            "    mov [r], rax",
            "    mov rsp, rbp",
            "    pop rbp",
            "    ret",
        ]
    );
}

#[test]
fn codegen_zeroes_the_remainder_register_before_division() {
    let lines = generate_target_code(&vec![IrInstr::BinaryOp { op: "/".to_string() }]);
    assert_eq!(
        lines,
        vec!["    pop rbx", "    pop rax", "    xor rdx, rdx", "    idiv rbx", "    push rax"]
    );
}

#[test]
fn codegen_ignores_operators_without_a_template() {
    // Assignment and comparison operators reach the generator as operator
    // instructions but have no assembly template; they emit nothing.
    let lines = generate_target_code(&vec![
        IrInstr::BinaryOp { op: "=".to_string() },
        IrInstr::BinaryOp { op: "==".to_string() },
        IrInstr::UnaryOp { op: "!".to_string() },
    ]);
    assert_eq!(lines, Vec::<String>::new());
}

#[test]
fn pipeline_from_source_to_listing() {
    // The whole verified pipeline composes: lex, parse, build the table,
    // check, optimize, lower, and emit the listing.
    let mut lexer = dppc::lexer::Lexer::new("let r: int = 1 + 2;".to_string());
    let tokens = lexer.tokenize().expect("tokenizes");
    let mut parser = dppc::parser::Parser::new(tokens);
    let mut ast = parser.parse().expect("parses");
    let table = dppc::symtab::generate_symbol_table(&ast);
    assert_eq!(table.get(&"r".to_string()), Some("int".to_string()));
    dppc::semantic::semantic_analysis(&ast, &table).expect("checks");
    dppc::optimizer::optimize_ast(&mut ast);
    let ir = generate_ir(&ast);
    assert_eq!(
        ir,
        vec![
            IrInstr::Push { value: "1".to_string() },
            IrInstr::Push { value: "2".to_string() },
            IrInstr::BinaryOp { op: "+".to_string() },
            IrInstr::Store { name: "r".to_string() },
        ]
    );
    let lines = generate_target_code(&ir);
    assert_eq!(
        lines,
        vec![
            "    push 1",
            "    push 2",
            "    pop rbx",
            "    pop rax",
            "    add rax, rbx",
            "    push rax",
            "    pop rax",
            "    mov [r], rax",
        ]
    );
}

#[test]
fn pipeline_from_source_to_ir() {
    // Tokenize and parse an expression, then lower it: the stages compose.
    let mut lexer = dppc::lexer::Lexer::new("x = 1 + 2 * 3;".to_string());
    let tokens = lexer.tokenize().expect("tokenizes");
    let mut parser = dppc::parser::Parser::new(tokens);
    let expr = parser.parse_expression().expect("parses");
    let ir = generate_ir(&expr);
    let rendered: Vec<String> = ir.iter().map(|i| i.render()).collect();
    assert_eq!(rendered, vec!["load x", "push 1", "push 2", "push 3", "* *", "+ +", "= ="]);
}
