//! Translation of the instruction sequence into a target assembly listing.
//!
//! Each instruction maps deterministically to a fixed template over a
//! two-register evaluation model: an accumulator (`rax`) and one scratch
//! register (`rbx`) simulate the operand stack. Function boundaries emit a
//! standard frame-pointer prologue and epilogue. An instruction with no
//! template — a parameter marker, or an operator other than the four
//! arithmetic ones — emits nothing; that is the accepted behavior, not an
//! error.

use vstd::prelude::*;
use crate::ir::IrInstr;
use crate::ir::SpecIr;
use crate::ir::ir_views;

verus! {

pub open spec fn line_views(s: Seq<String>) -> Seq<Seq<char>> {
    s.map_values(|x: String| x@)
}

/// The assembly lines emitted for one instruction.
pub open spec fn lines_for(instr: SpecIr) -> Seq<Seq<char>> {
    match instr {
        SpecIr::Function { name } => seq![
            name + ":"@,
            "    push rbp"@,
            "    mov rbp, rsp"@,
        ],
        SpecIr::EndFunction => seq!["    mov rsp, rbp"@, "    pop rbp"@, "    ret"@],
        SpecIr::Param { .. } => Seq::empty(),
        SpecIr::Push { value } => seq!["    push "@ + value],
        SpecIr::Load { name } => seq!["    mov rax, ["@ + name + "]"@, "    push rax"@],
        SpecIr::Store { name } => seq!["    pop rax"@, "    mov ["@ + name + "], rax"@],
        SpecIr::BinaryOp { op } => arith_template(op),
        SpecIr::UnaryOp { op } => arith_template(op),
    }
}

/// The pop-combine-push template shared by the four arithmetic operators;
/// any other operator symbol emits nothing.
pub open spec fn arith_template(op: Seq<char>) -> Seq<Seq<char>> {
    if op == "+"@ {
        seq!["    pop rbx"@, "    pop rax"@, "    add rax, rbx"@, "    push rax"@]
    } else if op == "-"@ {
        seq!["    pop rbx"@, "    pop rax"@, "    sub rax, rbx"@, "    push rax"@]
    } else if op == "*"@ {
        seq!["    pop rbx"@, "    pop rax"@, "    imul rax, rbx"@, "    push rax"@]
    } else if op == "/"@ {
        seq![
            "    pop rbx"@,
            "    pop rax"@,
            "    xor rdx, rdx"@,
            "    idiv rbx"@,
            "    push rax"@,
        ]
    } else {
        Seq::empty()
    }
}

/// The listing for a whole instruction sequence, in order.
pub open spec fn listing_seq(ir: Seq<SpecIr>) -> Seq<Seq<char>>
    decreases ir.len(),
{
    if ir.len() == 0 {
        Seq::empty()
    } else {
        lines_for(ir[0]) + listing_seq(ir.drop_first())
    }
}

proof fn lemma_listing_snoc(s: Seq<SpecIr>, x: SpecIr)
    ensures
        listing_seq(s.push(x)) == listing_seq(s) + lines_for(x),
    decreases s.len(),
{
    if s.len() == 0 {
        reveal_with_fuel(listing_seq, 3);
        assert(s.push(x)[0] == x);
        assert(s.push(x).drop_first() =~= Seq::<SpecIr>::empty());
        assert(listing_seq(s.push(x)) =~= lines_for(x));
        assert(listing_seq(s) + lines_for(x) =~= lines_for(x));
    } else {
        assert(s.push(x)[0] == s[0]);
        assert(s.push(x).drop_first() =~= s.drop_first().push(x));
        lemma_listing_snoc(s.drop_first(), x);
        assert(lines_for(s[0]) + (listing_seq(s.drop_first()) + lines_for(x)) =~= listing_seq(s) + lines_for(
            x,
        ));
    }
}

/// Whether a String holds the same characters as a literal.
fn str_is(s: &String, lit: &str) -> (r: bool)
    ensures
        r == (s@ == lit@),
{
    *s == lit.to_owned()
}

fn push_line(out: &mut Vec<String>, line: String)
    ensures
        line_views(final(out)@) == line_views(old(out)@).push(line@),
{
    let ghost pre = line_views(out@);
    let ghost v = line@;
    out.push(line);
    proof {
        assert(line_views(out@) =~= pre.push(v));
    }
}

fn push_lit(out: &mut Vec<String>, lit: &str)
    ensures
        line_views(final(out)@) == line_views(old(out)@).push(lit@),
{
    push_line(out, lit.to_owned());
}

/// Emits the pop-combine-push template for an operator symbol; an operator
/// with no template emits nothing.
fn emit_arith(out: &mut Vec<String>, op: &String)
    ensures
        line_views(final(out)@) == line_views(old(out)@) + arith_template(op@),
{
    let ghost pre = line_views(out@);
    if str_is(op, "+") {
        push_lit(out, "    pop rbx");
        push_lit(out, "    pop rax");
        push_lit(out, "    add rax, rbx");
        push_lit(out, "    push rax");
    } else if str_is(op, "-") {
        push_lit(out, "    pop rbx");
        push_lit(out, "    pop rax");
        push_lit(out, "    sub rax, rbx");
        push_lit(out, "    push rax");
    } else if str_is(op, "*") {
        push_lit(out, "    pop rbx");
        push_lit(out, "    pop rax");
        push_lit(out, "    imul rax, rbx");
        push_lit(out, "    push rax");
    } else if str_is(op, "/") {
        push_lit(out, "    pop rbx");
        push_lit(out, "    pop rax");
        push_lit(out, "    xor rdx, rdx");
        push_lit(out, "    idiv rbx");
        push_lit(out, "    push rax");
    }
    proof {
        assert(line_views(out@) =~= pre + arith_template(op@));
    }
}

/// Translates the instruction sequence into its assembly listing.
#[verifier::loop_isolation(false)]
pub fn generate_target_code(ir: &Vec<IrInstr>) -> (r: Vec<String>)
    ensures
        line_views(r@) == listing_seq(ir_views(ir@)),
{
    let ghost s = ir_views(ir@);
    let mut out: Vec<String> = Vec::new();
    let mut i: usize = 0;
    proof {
        assert(line_views(out@) =~= Seq::<Seq<char>>::empty());
        assert(s.take(0int) =~= Seq::<SpecIr>::empty());
    }
    while i < ir.len()
        invariant
            i <= ir@.len(),
            s == ir_views(ir@),
            s.len() == ir@.len(),
            line_views(out@) == listing_seq(s.take(i as int)),
        decreases ir@.len() - i,
    {
        let ghost pre = line_views(out@);
        proof {
            lemma_listing_snoc(s.take(i as int), s[i as int]);
            assert(s.take(i + 1) =~= s.take(i as int).push(s[i as int]));
            assert(s[i as int] == ir@[i as int]@);
        }
        match &ir[i] {
            IrInstr::Function { name } => {
                let mut label = name.clone();
                label.append(":");
                push_line(&mut out, label);
                push_lit(&mut out, "    push rbp");
                push_lit(&mut out, "    mov rbp, rsp");
            },
            IrInstr::EndFunction => {
                push_lit(&mut out, "    mov rsp, rbp");
                push_lit(&mut out, "    pop rbp");
                push_lit(&mut out, "    ret");
            },
            IrInstr::Param { .. } => {},
            IrInstr::Push { value } => {
                let mut line = String::from_str("    push ");
                line.append(value.as_str());
                push_line(&mut out, line);
            },
            IrInstr::Load { name } => {
                let mut line = String::from_str("    mov rax, [");
                line.append(name.as_str());
                line.append("]");
                push_line(&mut out, line);
                push_lit(&mut out, "    push rax");
            },
            IrInstr::Store { name } => {
                push_lit(&mut out, "    pop rax");
                let mut line = String::from_str("    mov [");
                line.append(name.as_str());
                line.append("], rax");
                push_line(&mut out, line);
            },
            IrInstr::BinaryOp { op } => {
                emit_arith(&mut out, op);
            },
            IrInstr::UnaryOp { op } => {
                emit_arith(&mut out, op);
            },
        }
        proof {
            assert(line_views(out@) =~= pre + lines_for(s[i as int]));
            assert(line_views(out@) =~= listing_seq(s.take(i + 1)));
        }
        i += 1;
    }
    proof {
        assert(s.take(ir@.len() as int) =~= s);
    }
    out
}

} // verus!
