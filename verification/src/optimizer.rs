//! The optimization pass.
//!
//! The pass is currently the identity transform: it walks the tree and
//! rewrites every subtree by replacement, changing nothing, as a placeholder
//! for future rewrites such as constant folding. Its contract pins the
//! result to `spec_optimize` of the input, from which idempotence follows.

use vstd::prelude::*;
use crate::ast::ASTNode;
use crate::ast::SpecAst;
use crate::ast::view_nodes;
use crate::ast::lemma_view_nodes_push;

verus! {

/// The mathematical content of the pass: the identity rewrite.
pub open spec fn spec_optimize(a: SpecAst) -> SpecAst {
    a
}

/// Running the pass twice yields the same tree as running it once.
pub proof fn lemma_optimizer_idempotent(a: SpecAst)
    ensures
        spec_optimize(spec_optimize(a)) == spec_optimize(a),
{
}

/// Rewrites the tree in place; the resulting tree is `spec_optimize` of the
/// old one.
pub fn optimize_ast(ast: &mut ASTNode)
    ensures
        final(ast)@ == spec_optimize(old(ast)@),
{
    let mut taken = ASTNode::Program(Vec::new());
    core::mem::swap(ast, &mut taken);
    let rebuilt = optimize_node(&taken);
    *ast = rebuilt;
}

/// Produces the replacement for one subtree: an identical fresh tree.
fn optimize_node(node: &ASTNode) -> (r: ASTNode)
    ensures
        r@ == node@,
    decreases node,
{
    match node {
        ASTNode::Program(nodes) => ASTNode::Program(optimize_nodes(nodes)),
        ASTNode::FunctionDeclaration { name, parameters, return_type, body } => {
            ASTNode::FunctionDeclaration {
                name: name.clone(),
                parameters: optimize_nodes(parameters),
                return_type: Box::new(optimize_node(&**return_type)),
                body: Box::new(optimize_node(&**body)),
            }
        },
        ASTNode::VariableDeclaration { name, var_type, initializer } => {
            ASTNode::VariableDeclaration {
                name: name.clone(),
                var_type: Box::new(optimize_node(&**var_type)),
                initializer: match initializer {
                    Some(init) => Some(Box::new(optimize_node(&**init))),
                    None => None,
                },
            }
        },
        ASTNode::Type(name) => ASTNode::Type(name.clone()),
        ASTNode::Block(nodes) => ASTNode::Block(optimize_nodes(nodes)),
        ASTNode::Expression(inner) => ASTNode::Expression(Box::new(optimize_node(&**inner))),
        ASTNode::BinaryOperation { left, operator, right } => {
            ASTNode::BinaryOperation {
                left: Box::new(optimize_node(&**left)),
                operator: operator.clone(),
                right: Box::new(optimize_node(&**right)),
            }
        },
        ASTNode::UnaryOperation { operator, operand } => {
            ASTNode::UnaryOperation {
                operator: operator.clone(),
                operand: Box::new(optimize_node(&**operand)),
            }
        },
        ASTNode::Literal(value) => ASTNode::Literal(value.clone()),
        ASTNode::Identifier(name) => ASTNode::Identifier(name.clone()),
    }
}

#[verifier::loop_isolation(false)]
fn optimize_nodes(nodes: &Vec<ASTNode>) -> (r: Vec<ASTNode>)
    ensures
        view_nodes(r@) == view_nodes(nodes@),
        r@.len() == nodes@.len(),
    decreases nodes@,
{
    let mut out: Vec<ASTNode> = Vec::new();
    let mut i: usize = 0;
    while i < nodes.len()
        invariant
            i <= nodes@.len(),
            out@.len() == i,
            view_nodes(out@) == view_nodes(nodes@.take(i as int)),
        decreases nodes@.len() - i,
    {
        let rebuilt = optimize_node(&nodes[i]);
        proof {
            lemma_view_nodes_push(out@, rebuilt);
            lemma_view_nodes_push(nodes@.take(i as int), nodes@[i as int]);
            assert(nodes@.take(i + 1) =~= nodes@.take(i as int).push(nodes@[i as int]));
        }
        out.push(rebuilt);
        i += 1;
    }
    proof {
        assert(nodes@.take(nodes@.len() as int) =~= nodes@);
    }
    out
}

} // verus!
