//! Lowering of the abstract syntax tree to a flat stack-machine
//! intermediate representation.
//!
//! The representation is a tagged instruction sequence rather than raw
//! mnemonic text; `render` prints an instruction in the conventional
//! textual form of the stream, in which a binary operator instruction is
//! written as its symbol twice (`+ +`), marking its two operands. A
//! program lowers to the concatenation of its declarations' code, so the
//! whole pipeline composes from source text to a listing.

use vstd::prelude::*;
use crate::ast::ASTNode;
use crate::ast::SpecAst;
use crate::ast::view_nodes;
use crate::ast::lemma_view_nodes;

verus! {

/// One stack-machine instruction.
#[derive(PartialEq, Debug)]
pub enum IrInstr {
    /// A function label.
    Function { name: String },
    /// A formal parameter of the enclosing function.
    Param { name: String },
    /// The end of a function's lowered body.
    EndFunction,
    /// Push a literal's raw text onto the operand stack.
    Push { value: String },
    /// Push the value of a named location.
    Load { name: String },
    /// Pop the stack top into a named location.
    Store { name: String },
    /// Pop two operands, combine them with the operator, push the result.
    BinaryOp { op: String },
    /// Pop one operand, apply the operator, push the result.
    UnaryOp { op: String },
}

/// The mathematical value of an instruction.
pub enum SpecIr {
    Function { name: Seq<char> },
    Param { name: Seq<char> },
    EndFunction,
    Push { value: Seq<char> },
    Load { name: Seq<char> },
    Store { name: Seq<char> },
    BinaryOp { op: Seq<char> },
    UnaryOp { op: Seq<char> },
}

impl View for IrInstr {
    type V = SpecIr;

    open spec fn view(&self) -> SpecIr {
        match self {
            IrInstr::Function { name } => SpecIr::Function { name: name@ },
            IrInstr::Param { name } => SpecIr::Param { name: name@ },
            IrInstr::EndFunction => SpecIr::EndFunction,
            IrInstr::Push { value } => SpecIr::Push { value: value@ },
            IrInstr::Load { name } => SpecIr::Load { name: name@ },
            IrInstr::Store { name } => SpecIr::Store { name: name@ },
            IrInstr::BinaryOp { op } => SpecIr::BinaryOp { op: op@ },
            IrInstr::UnaryOp { op } => SpecIr::UnaryOp { op: op@ },
        }
    }
}

pub open spec fn ir_views(s: Seq<IrInstr>) -> Seq<SpecIr> {
    s.map_values(|i: IrInstr| i@)
}

/// The instructions a node lowers to.
///
/// A function declaration emits its label, one `Param` per formal
/// parameter, the lowered body, and `EndFunction`. A variable declaration
/// with an initializer lowers the initializer and stores it; one without
/// emits nothing. Operations lower left to right, operator last; a literal
/// pushes its raw text; an identifier loads its name. A program or a block
/// lowers its children in order, and an expression-statement wrapper
/// lowers its inner expression. A type reference emits nothing.
pub open spec fn ir_node(n: SpecAst) -> Seq<SpecIr>
    decreases n,
{
    match n {
        SpecAst::FunctionDeclaration { name, parameters, body, .. } => seq![
            SpecIr::Function { name },
        ] + ir_params(parameters) + ir_node(*body) + seq![SpecIr::EndFunction],
        SpecAst::Program { decls } => ir_seq(decls),
        SpecAst::Block { statements } => ir_seq(statements),
        SpecAst::Expression { inner } => ir_node(*inner),
        SpecAst::VariableDeclaration { name, initializer, .. } => match initializer {
            Some(init) => ir_node(*init) + seq![SpecIr::Store { name }],
            None => Seq::empty(),
        },
        SpecAst::BinaryOperation { left, operator, right } => ir_node(*left) + ir_node(*right)
            + seq![SpecIr::BinaryOp { op: operator }],
        SpecAst::UnaryOperation { operator, operand } => ir_node(*operand) + seq![
            SpecIr::UnaryOp { op: operator },
        ],
        SpecAst::Literal { value } => seq![SpecIr::Push { value }],
        SpecAst::Identifier { name } => seq![SpecIr::Load { name }],
        _ => Seq::empty(),
    }
}

pub open spec fn ir_params(s: Seq<SpecAst>) -> Seq<SpecIr>
    decreases s.len(),
{
    if s.len() == 0 {
        Seq::empty()
    } else {
        (match s[0] {
            SpecAst::VariableDeclaration { name, .. } => seq![SpecIr::Param { name }],
            _ => Seq::empty(),
        }) + ir_params(s.drop_first())
    }
}

pub open spec fn ir_seq(s: Seq<SpecAst>) -> Seq<SpecIr>
    decreases s,
{
    if s.len() == 0 {
        Seq::empty()
    } else {
        ir_node(s[0]) + ir_seq(s.drop_first())
    }
}

proof fn lemma_ir_params_snoc(s: Seq<SpecAst>, x: SpecAst)
    ensures
        ir_params(s.push(x)) == ir_params(s) + (match x {
            SpecAst::VariableDeclaration { name, .. } => seq![SpecIr::Param { name }],
            _ => Seq::<SpecIr>::empty(),
        }),
    decreases s.len(),
{
    let tail = (match x {
        SpecAst::VariableDeclaration { name, .. } => seq![SpecIr::Param { name }],
        _ => Seq::<SpecIr>::empty(),
    });
    if s.len() == 0 {
        reveal_with_fuel(ir_params, 3);
        assert(s.push(x)[0] == x);
        assert(s.push(x).drop_first() =~= Seq::<SpecAst>::empty());
        assert(ir_params(s.push(x)) =~= tail);
        assert(ir_params(s) + tail =~= tail);
    } else {
        assert(s.push(x)[0] == s[0]);
        assert(s.push(x).drop_first() =~= s.drop_first().push(x));
        lemma_ir_params_snoc(s.drop_first(), x);
        assert((match s[0] {
            SpecAst::VariableDeclaration { name, .. } => seq![SpecIr::Param { name }],
            _ => Seq::<SpecIr>::empty(),
        }) + (ir_params(s.drop_first()) + tail) =~= ir_params(s) + tail);
    }
}

proof fn lemma_ir_seq_snoc(s: Seq<SpecAst>, x: SpecAst)
    ensures
        ir_seq(s.push(x)) == ir_seq(s) + ir_node(x),
    decreases s.len(),
{
    if s.len() == 0 {
        reveal_with_fuel(ir_seq, 3);
        assert(s.push(x)[0] == x);
        assert(s.push(x).drop_first() =~= Seq::<SpecAst>::empty());
        assert(ir_seq(s.push(x)) =~= ir_node(x));
        assert(ir_seq(s) + ir_node(x) =~= ir_node(x));
    } else {
        assert(s.push(x)[0] == s[0]);
        assert(s.push(x).drop_first() =~= s.drop_first().push(x));
        lemma_ir_seq_snoc(s.drop_first(), x);
        assert(ir_node(s[0]) + (ir_seq(s.drop_first()) + ir_node(x)) =~= ir_seq(s) + ir_node(x));
    }
}

/// Lowers a tree to its instruction sequence.
pub fn generate_ir(ast: &ASTNode) -> (r: Vec<IrInstr>)
    ensures
        ir_views(r@) == ir_node(ast@),
{
    let mut ir: Vec<IrInstr> = Vec::new();
    ir_visit(ast, &mut ir);
    proof {
        assert(ir_views(Seq::<IrInstr>::empty()) =~= Seq::<SpecIr>::empty());
        assert(ir_views(ir@) =~= Seq::<SpecIr>::empty() + ir_node(ast@));
    }
    ir
}

/// Appends the lowering of `node` to `ir`.
#[verifier::loop_isolation(false)]
fn ir_visit(node: &ASTNode, ir: &mut Vec<IrInstr>)
    ensures
        ir_views(final(ir)@) == ir_views(old(ir)@) + ir_node(node@),
    decreases node,
{
    let ghost pre = ir_views(ir@);
    match node {
        ASTNode::FunctionDeclaration { name, parameters, body, .. } => {
            push_instr(ir, IrInstr::Function { name: name.clone() });
            let mut i: usize = 0;
            proof {
                lemma_view_nodes(parameters@);
                assert(view_nodes(parameters@).take(0int) =~= Seq::<SpecAst>::empty());
                assert(ir_views(ir@) =~= pre + seq![SpecIr::Function { name: name@ }] + ir_params(
                    view_nodes(parameters@).take(0int),
                ));
            }
            while i < parameters.len()
                invariant
                    i <= parameters@.len(),
                    ir_views(ir@) == pre + seq![SpecIr::Function { name: name@ }] + ir_params(
                        view_nodes(parameters@).take(i as int),
                    ),
                decreases parameters@.len() - i,
            {
                proof {
                    lemma_view_nodes(parameters@);
                    lemma_ir_params_snoc(
                        view_nodes(parameters@).take(i as int),
                        view_nodes(parameters@)[i as int],
                    );
                    assert(view_nodes(parameters@).take(i + 1) =~= view_nodes(parameters@).take(
                        i as int,
                    ).push(view_nodes(parameters@)[i as int]));
                }
                match &parameters[i] {
                    ASTNode::VariableDeclaration { name: pname, .. } => {
                        push_instr(ir, IrInstr::Param { name: pname.clone() });
                    },
                    _ => {},
                }
                proof {
                    assert(ir_views(ir@) =~= pre + seq![SpecIr::Function { name: name@ }]
                        + ir_params(view_nodes(parameters@).take(i + 1)));
                }
                i += 1;
            }
            proof {
                lemma_view_nodes(parameters@);
                assert(view_nodes(parameters@).take(parameters@.len() as int) =~= view_nodes(
                    parameters@,
                ));
            }
            ir_visit(&**body, ir);
            push_instr(ir, IrInstr::EndFunction);
            proof {
                assert(ir_views(ir@) =~= pre + ir_node(node@));
            }
        },
        ASTNode::Program(nodes) | ASTNode::Block(nodes) => {
            let ghost s = view_nodes(nodes@);
            let mut i: usize = 0;
            proof {
                lemma_view_nodes(nodes@);
                assert(s.take(0int) =~= Seq::<SpecAst>::empty());
                assert(ir_views(ir@) =~= pre + ir_seq(s.take(0int)));
            }
            while i < nodes.len()
                invariant
                    i <= nodes@.len(),
                    s == view_nodes(nodes@),
                    s.len() == nodes@.len(),
                    ir_views(ir@) == pre + ir_seq(s.take(i as int)),
                decreases nodes@.len() - i,
            {
                proof {
                    lemma_view_nodes(nodes@);
                    lemma_ir_seq_snoc(s.take(i as int), s[i as int]);
                    assert(s.take(i + 1) =~= s.take(i as int).push(s[i as int]));
                }
                ir_visit(&nodes[i], ir);
                proof {
                    assert(ir_views(ir@) =~= pre + ir_seq(s.take(i + 1)));
                }
                i += 1;
            }
            proof {
                assert(s.take(nodes@.len() as int) =~= s);
            }
        },
        ASTNode::Expression(inner) => {
            ir_visit(&**inner, ir);
            proof {
                assert(ir_views(ir@) =~= pre + ir_node(node@));
            }
        },
        ASTNode::VariableDeclaration { name, initializer, .. } => {
            match initializer {
                Some(init) => {
                    ir_visit(&**init, ir);
                    push_instr(ir, IrInstr::Store { name: name.clone() });
                    proof {
                        assert(ir_views(ir@) =~= pre + ir_node(node@));
                    }
                },
                None => {
                    proof {
                        assert(ir_views(ir@) =~= pre + ir_node(node@));
                    }
                },
            }
        },
        ASTNode::BinaryOperation { left, operator, right } => {
            ir_visit(&**left, ir);
            ir_visit(&**right, ir);
            push_instr(ir, IrInstr::BinaryOp { op: operator.clone() });
            proof {
                assert(ir_views(ir@) =~= pre + ir_node(node@));
            }
        },
        ASTNode::UnaryOperation { operator, operand } => {
            ir_visit(&**operand, ir);
            push_instr(ir, IrInstr::UnaryOp { op: operator.clone() });
            proof {
                assert(ir_views(ir@) =~= pre + ir_node(node@));
            }
        },
        ASTNode::Literal(value) => {
            push_instr(ir, IrInstr::Push { value: value.clone() });
            proof {
                assert(ir_views(ir@) =~= pre + ir_node(node@));
            }
        },
        ASTNode::Identifier(name) => {
            push_instr(ir, IrInstr::Load { name: name.clone() });
            proof {
                assert(ir_views(ir@) =~= pre + ir_node(node@));
            }
        },
        _ => {
            proof {
                assert(ir_views(ir@) =~= pre + ir_node(node@));
            }
        },
    }
}

fn push_instr(ir: &mut Vec<IrInstr>, instr: IrInstr)
    ensures
        ir_views(final(ir)@) == ir_views(old(ir)@).push(instr@),
        final(ir)@.len() == old(ir)@.len() + 1,
{
    let ghost pre = ir_views(ir@);
    let ghost v = instr@;
    ir.push(instr);
    proof {
        assert(ir_views(ir@) =~= pre.push(v));
    }
}


/// The conventional textual mnemonic of an instruction: a label line for a
/// function, a `param` marker, and operand-carrying forms for the stack
/// operations; a binary operator is written as its symbol twice, marking
/// its two stack operands, and a unary operator once.
pub open spec fn render_spec(i: SpecIr) -> Seq<char> {
    match i {
        SpecIr::Function { name } => "function "@ + name + ":"@,
        SpecIr::Param { name } => "param "@ + name,
        SpecIr::EndFunction => "end_function"@,
        SpecIr::Push { value } => "push "@ + value,
        SpecIr::Load { name } => "load "@ + name,
        SpecIr::Store { name } => "store "@ + name,
        SpecIr::BinaryOp { op } => op + " "@ + op,
        SpecIr::UnaryOp { op } => op,
    }
}

impl IrInstr {
    /// Prints the instruction in its textual mnemonic form.
    pub fn render(&self) -> (r: String)
        ensures
            r@ == render_spec(self@),
    {
        match self {
            IrInstr::Function { name } => {
                let mut s = String::from_str("function ");
                s.append(name.as_str());
                s.append(":");
                s
            },
            IrInstr::Param { name } => {
                let mut s = String::from_str("param ");
                s.append(name.as_str());
                s
            },
            IrInstr::EndFunction => String::from_str("end_function"),
            IrInstr::Push { value } => {
                let mut s = String::from_str("push ");
                s.append(value.as_str());
                s
            },
            IrInstr::Load { name } => {
                let mut s = String::from_str("load ");
                s.append(name.as_str());
                s
            },
            IrInstr::Store { name } => {
                let mut s = String::from_str("store ");
                s.append(name.as_str());
                s
            },
            IrInstr::BinaryOp { op } => {
                let mut s = op.clone();
                s.append(" ");
                s.append(op.as_str());
                s
            },
            IrInstr::UnaryOp { op } => op.clone(),
        }
    }
}

} // verus!
