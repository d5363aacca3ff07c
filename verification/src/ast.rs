//! The abstract syntax tree and its mathematical view.

use vstd::prelude::*;

verus! {

/// A node of the abstract syntax tree. The tree is strict: every child is
/// owned exclusively by its parent. The root of a full compilation is
/// always `Program`.
#[derive(PartialEq, Debug)]
pub enum ASTNode {
    Program(Vec<ASTNode>),
    FunctionDeclaration {
        name: String,
        parameters: Vec<ASTNode>,
        return_type: Box<ASTNode>,
        body: Box<ASTNode>,
    },
    VariableDeclaration {
        name: String,
        var_type: Box<ASTNode>,
        initializer: Option<Box<ASTNode>>,
    },
    Type(String),
    Block(Vec<ASTNode>),
    Expression(Box<ASTNode>),
    BinaryOperation {
        left: Box<ASTNode>,
        operator: String,
        right: Box<ASTNode>,
    },
    UnaryOperation {
        operator: String,
        operand: Box<ASTNode>,
    },
    Literal(String),
    Identifier(String),
}

/// The mathematical value of an `ASTNode`: the same tree with every string
/// replaced by its character sequence and every node list by a `Seq`.
#[verifier::ext_equal]
pub enum SpecAst {
    Program { decls: Seq<SpecAst> },
    FunctionDeclaration {
        name: Seq<char>,
        parameters: Seq<SpecAst>,
        return_type: Box<SpecAst>,
        body: Box<SpecAst>,
    },
    VariableDeclaration {
        name: Seq<char>,
        var_type: Box<SpecAst>,
        initializer: Option<Box<SpecAst>>,
    },
    Type { name: Seq<char> },
    Block { statements: Seq<SpecAst> },
    Expression { inner: Box<SpecAst> },
    BinaryOperation { left: Box<SpecAst>, operator: Seq<char>, right: Box<SpecAst> },
    UnaryOperation { operator: Seq<char>, operand: Box<SpecAst> },
    Literal { value: Seq<char> },
    Identifier { name: Seq<char> },
}

pub open spec fn view_node(n: ASTNode) -> SpecAst
    decreases n,
{
    match n {
        ASTNode::Program(nodes) => SpecAst::Program { decls: view_nodes(nodes@) },
        ASTNode::FunctionDeclaration { name, parameters, return_type, body } => {
            SpecAst::FunctionDeclaration {
                name: name@,
                parameters: view_nodes(parameters@),
                return_type: Box::new(view_node(*return_type)),
                body: Box::new(view_node(*body)),
            }
        },
        ASTNode::VariableDeclaration { name, var_type, initializer } => {
            SpecAst::VariableDeclaration {
                name: name@,
                var_type: Box::new(view_node(*var_type)),
                initializer: match initializer {
                    Some(init) => Some(Box::new(view_node(*init))),
                    None => None,
                },
            }
        },
        ASTNode::Type(name) => SpecAst::Type { name: name@ },
        ASTNode::Block(statements) => SpecAst::Block { statements: view_nodes(statements@) },
        ASTNode::Expression(inner) => SpecAst::Expression { inner: Box::new(view_node(*inner)) },
        ASTNode::BinaryOperation { left, operator, right } => {
            SpecAst::BinaryOperation {
                left: Box::new(view_node(*left)),
                operator: operator@,
                right: Box::new(view_node(*right)),
            }
        },
        ASTNode::UnaryOperation { operator, operand } => {
            SpecAst::UnaryOperation {
                operator: operator@,
                operand: Box::new(view_node(*operand)),
            }
        },
        ASTNode::Literal(value) => SpecAst::Literal { value: value@ },
        ASTNode::Identifier(name) => SpecAst::Identifier { name: name@ },
    }
}

pub open spec fn view_nodes(s: Seq<ASTNode>) -> Seq<SpecAst>
    decreases s,
{
    if s.len() == 0 {
        Seq::empty()
    } else {
        seq![view_node(s[0])] + view_nodes(s.drop_first())
    }
}

impl View for ASTNode {
    type V = SpecAst;

    open spec fn view(&self) -> SpecAst {
        view_node(*self)
    }
}

/// `view_nodes` is the pointwise lift of `view_node`.
pub proof fn lemma_view_nodes(s: Seq<ASTNode>)
    ensures
        view_nodes(s).len() == s.len(),
        forall|i: int| 0 <= i < s.len() ==> view_nodes(s)[i] == view_node(s[i]),
    decreases s,
{
    if s.len() > 0 {
        lemma_view_nodes(s.drop_first());
    }
}

/// Appending a node to a list appends its view to the list's view.
pub proof fn lemma_view_nodes_push(s: Seq<ASTNode>, n: ASTNode)
    ensures
        view_nodes(s.push(n)) == view_nodes(s).push(view_node(n)),
{
    lemma_view_nodes(s.push(n));
    lemma_view_nodes(s);
    assert(view_nodes(s.push(n)) =~= view_nodes(s).push(view_node(n)));
}

} // verus!
