//! The semantic checker: every referenced identifier must be declared.

use vstd::prelude::*;
use crate::ast::ASTNode;
use crate::ast::SpecAst;
use crate::ast::view_nodes;
use crate::ast::lemma_view_nodes;
use crate::symtab::SymbolTable;

verus! {

/// A failure of the semantic checker; it carries the undeclared name.
#[derive(Clone, PartialEq, Eq, Debug)]
pub enum SemanticError {
    UndefinedVariable { name: String },
}

/// The first undeclared identifier reached by the traversal, or `None` when
/// every reference resolves. Binary operations are checked left then right;
/// an expression-statement wrapper is checked through; a variable
/// declaration's initializer is checked; of a function declaration the
/// body is entered; `Program` and `Block` sequences are checked in order;
/// type references are not identifier references and are not checked.
pub open spec fn sem_node(n: SpecAst, table: Map<Seq<char>, Seq<char>>) -> Option<Seq<char>>
    decreases n,
{
    match n {
        SpecAst::BinaryOperation { left, right, .. } => match sem_node(*left, table) {
            Some(e) => Some(e),
            None => sem_node(*right, table),
        },
        SpecAst::UnaryOperation { operand, .. } => sem_node(*operand, table),
        SpecAst::Expression { inner } => sem_node(*inner, table),
        SpecAst::VariableDeclaration { initializer, .. } => match initializer {
            Some(init) => sem_node(*init, table),
            None => None,
        },
        SpecAst::Identifier { name } => if table.contains_key(name) {
            None
        } else {
            Some(name)
        },
        SpecAst::FunctionDeclaration { body, .. } => sem_node(*body, table),
        SpecAst::Program { decls } => sem_seq(decls, table),
        SpecAst::Block { statements } => sem_seq(statements, table),
        _ => None,
    }
}

pub open spec fn sem_seq(s: Seq<SpecAst>, table: Map<Seq<char>, Seq<char>>) -> Option<Seq<char>>
    decreases s,
{
    if s.len() == 0 {
        None
    } else {
        match sem_node(s[0], table) {
            Some(e) => Some(e),
            None => sem_seq(s.drop_first(), table),
        }
    }
}

/// Checks that every identifier referenced by the tree is a key of the
/// symbol table; fails with the first undeclared name in traversal order.
pub fn semantic_analysis(ast: &ASTNode, symbol_table: &SymbolTable) -> (r: Result<
    (),
    SemanticError,
>)
    ensures
        r is Ok <==> sem_node(ast@, symbol_table@) is None,
        r matches Err(SemanticError::UndefinedVariable { name }) ==> sem_node(
            ast@,
            symbol_table@,
        ) == Some(name@),
{
    sem_visit(ast, symbol_table)
}

fn sem_visit(node: &ASTNode, table: &SymbolTable) -> (r: Result<(), SemanticError>)
    ensures
        r is Ok <==> sem_node(node@, table@) is None,
        r matches Err(SemanticError::UndefinedVariable { name }) ==> sem_node(node@, table@)
            == Some(name@),
    decreases node,
{
    match node {
        ASTNode::BinaryOperation { left, right, .. } => {
            match sem_visit(&**left, table) {
                Ok(()) => sem_visit(&**right, table),
                Err(e) => Err(e),
            }
        },
        ASTNode::UnaryOperation { operand, .. } => sem_visit(&**operand, table),
        ASTNode::Expression(inner) => sem_visit(&**inner, table),
        ASTNode::VariableDeclaration { initializer, .. } => {
            match initializer {
                Some(init) => sem_visit(&**init, table),
                None => Ok(()),
            }
        },
        ASTNode::Identifier(name) => {
            if table.contains_key(name) {
                Ok(())
            } else {
                Err(SemanticError::UndefinedVariable { name: name.clone() })
            }
        },
        ASTNode::FunctionDeclaration { body, .. } => sem_visit(&**body, table),
        ASTNode::Program(nodes) => sem_visit_seq(nodes, table),
        ASTNode::Block(nodes) => sem_visit_seq(nodes, table),
        _ => Ok(()),
    }
}

#[verifier::loop_isolation(false)]
fn sem_visit_seq(nodes: &Vec<ASTNode>, table: &SymbolTable) -> (r: Result<(), SemanticError>)
    ensures
        r is Ok <==> sem_seq(view_nodes(nodes@), table@) is None,
        r matches Err(SemanticError::UndefinedVariable { name }) ==> sem_seq(
            view_nodes(nodes@),
            table@,
        ) == Some(name@),
    decreases nodes@,
{
    let ghost s = view_nodes(nodes@);
    let mut i: usize = 0;
    proof {
        lemma_view_nodes(nodes@);
        assert(s.skip(0int) =~= s);
    }
    while i < nodes.len()
        invariant
            i <= nodes@.len(),
            s == view_nodes(nodes@),
            s.len() == nodes@.len(),
            sem_seq(s.skip(i as int), table@) == sem_seq(s, table@),
        decreases nodes@.len() - i,
    {
        proof {
            lemma_view_nodes(nodes@);
            assert(s.skip(i as int)[0] == s[i as int]);
            assert(s.skip(i as int).drop_first() =~= s.skip(i + 1));
        }
        match sem_visit(&nodes[i], table) {
            Ok(()) => {},
            Err(e) => {
                return Err(e);
            },
        }
        i += 1;
    }
    proof {
        assert(s.skip(nodes@.len() as int) =~= Seq::<SpecAst>::empty());
    }
    Ok(())
}

} // verus!
