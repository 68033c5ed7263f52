//! The machine-level laws of the generated code: what running the
//! emitted blocks does to the hardware stack pointer and the stack.

use vstd::prelude::*;
use crate::labels::cmp_label_text;
use crate::machine::{
    jump_taken, lemma_run_concat, mach_wf, reg_addr, run_flat, run_from, run_jmp, sp_of, wrap16,
    Comp, InstrV, Jmp, Mach,
};
use crate::labels::static_symbol_text;
use crate::parser::{MathCommand, MemorySegment};
use crate::writer::{
    binary_math_instrs, boot_head_instrs, if_goto_instrs, inc_sp_instrs, is_comparison,
    is_dynamic_seg, math_instrs, pop_instrs, push_instrs, rem, seg_reg, unary_math_instrs,
};

verus! {

/// A binary operator in the sense of the arithmetic micro-protocol:
/// it consumes two stack cells and produces one.
pub open spec fn is_binary_math(c: MathCommand) -> bool {
    c == MathCommand::Add || c == MathCommand::Subtract || c == MathCommand::And || c
        == MathCommand::Or
}

/// A unary operator: it rewrites the stack top in place.
pub open spec fn is_unary_math(c: MathCommand) -> bool {
    c == MathCommand::Negate || c == MathCommand::Not
}

/// The combining computation a binary operator compiles to.
pub open spec fn binop_comp(c: MathCommand) -> Comp {
    match c {
        MathCommand::Add => Comp::CDPlusM,
        MathCommand::Subtract => Comp::CDMinusM,
        MathCommand::And => Comp::CDAndM,
        MathCommand::Or => Comp::CDOrM,
        _ => Comp::CZero,
    }
}

/// The machine word a binary operator leaves for operands `x` (below)
/// and `y` (top).
pub open spec fn binary_result(c: MathCommand, x: u16, y: u16) -> u16 {
    match c {
        MathCommand::Add => wrap16(x + y),
        MathCommand::Subtract => wrap16(x - y),
        MathCommand::And => x & y,
        MathCommand::Or => x | y,
        _ => 0,
    }
}

/// The machine word a unary operator leaves for operand `x`.
pub open spec fn unary_result(c: MathCommand, x: u16) -> u16 {
    match c {
        MathCommand::Negate => wrap16(0 - x),
        MathCommand::Not => x ^ 0xFFFF,
        _ => 0,
    }
}

/// Wrapping is the identity on machine words.
pub proof fn lemma_wrap16_id(n: int)
    requires
        0 <= n < 0x10000,
    ensures
        wrap16(n) == n,
{
}

/// Running the core of a binary operator block from a state with the
/// stack pointer above the dedicated cells leaves the combined value
/// at the cell below the two operands and the stack pointer cell two
/// below its old value.
proof fn lemma_binary_block(op: Comp, c: MathCommand, m: Mach, env: Map<Seq<char>, u16>)
    requires
        is_binary_math(c),
        op == binop_comp(c),
        mach_wf(m),
        16 <= sp_of(m),
    ensures
        ({
            let s = sp_of(m) as int;
            let m2 = run_flat(binary_math_instrs(op), m, env);
            &&& mach_wf(m2)
            &&& m2.ram[0] == s - 2
            &&& m2.ram[s - 2] == binary_result(c, m.ram[s - 2], m.ram[s - 1])
            &&& (forall|k: int|
                0 <= k < 0x10000 && k != 0 && k != 13 && k != s - 2 ==> m2.ram[k] == #[trigger] m
                    .ram[k])
        }),
{
    let s = sp_of(m) as int;
    reveal_with_fuel(run_from, 25);
    lemma_wrap16_id(s - 1);
    lemma_wrap16_id(s - 2);
    let m2 = run_flat(binary_math_instrs(op), m, env);
    assert(mach_wf(m2) && m2.ram[0] == s - 2 && m2.ram[s - 2] == binary_result(
        c,
        m.ram[s - 2],
        m.ram[s - 1],
    ) && (forall|k: int|
        0 <= k < 0x10000 && k != 0 && k != 13 && k != s - 2 ==> m2.ram[k] == #[trigger] m.ram[
            k
        ]));
}

/// Law: for every valid binary arithmetic command, running the
/// emitted block moves the hardware stack pointer down by exactly
/// one cell, and the operator's result stands at the new stack top.
pub proof fn lemma_binary_math_sp_delta(
    c: MathCommand,
    idx: nat,
    m: Mach,
    env: Map<Seq<char>, u16>,
)
    requires
        is_binary_math(c),
        mach_wf(m),
        16 <= sp_of(m),
    ensures
        ({
            let m2 = run_flat(math_instrs(c, idx), m, env);
            &&& mach_wf(m2)
            &&& sp_of(m2) == sp_of(m) - 1
            &&& m2.ram[sp_of(m) - 2] == binary_result(
                c,
                m.ram[sp_of(m) - 2],
                m.ram[sp_of(m) - 1],
            )
        }),
{
    let s = sp_of(m) as int;
    let op = binop_comp(c);
    let hdr: Seq<InstrV> = match c {
        MathCommand::Add => seq![rem("add"@)],
        MathCommand::Subtract => seq![rem("sub"@)],
        MathCommand::And => seq![rem("and"@)],
        _ => seq![rem("or"@)],
    };
    assert(math_instrs(c, idx) =~= (hdr + binary_math_instrs(op)) + inc_sp_instrs());
    lemma_run_concat(hdr + binary_math_instrs(op), inc_sp_instrs(), m, env);
    lemma_run_concat(hdr, binary_math_instrs(op), m, env);
    assert(run_flat(hdr, m, env) == m) by {
        reveal_with_fuel(run_from, 3);
    }
    lemma_binary_block(op, c, m, env);
    let mb = run_flat(binary_math_instrs(op), m, env);
    assert(run_flat(inc_sp_instrs(), mb, env).ram[0] == s - 1) by {
        reveal_with_fuel(run_from, 4);
        lemma_wrap16_id(s - 1);
        lemma_wrap16_id(s - 2);
    }
    assert(run_flat(inc_sp_instrs(), mb, env).ram[s - 2] == mb.ram[s - 2]) by {
        reveal_with_fuel(run_from, 4);
    }
    assert(mach_wf(run_flat(inc_sp_instrs(), mb, env))) by {
        reveal_with_fuel(run_from, 4);
    }
}

/// Law: for every valid unary arithmetic command, running the emitted
/// block leaves the hardware stack pointer unchanged, and the
/// operator's result stands at the stack top.
pub proof fn lemma_unary_math_sp_delta(
    c: MathCommand,
    idx: nat,
    m: Mach,
    env: Map<Seq<char>, u16>,
)
    requires
        is_unary_math(c),
        mach_wf(m),
        16 <= sp_of(m),
    ensures
        ({
            let m2 = run_flat(math_instrs(c, idx), m, env);
            &&& mach_wf(m2)
            &&& sp_of(m2) == sp_of(m)
            &&& m2.ram[sp_of(m) - 1] == unary_result(c, m.ram[sp_of(m) - 1])
        }),
{
    let s = sp_of(m) as int;
    reveal_with_fuel(run_from, 10);
    lemma_wrap16_id(s - 1);
    let m2 = run_flat(math_instrs(c, idx), m, env);
    if c == MathCommand::Negate {
        assert(sp_of(m2) == sp_of(m) && m2.ram[s - 1] == unary_result(c, m.ram[s - 1])
            && mach_wf(m2));
    } else {
        assert(sp_of(m2) == sp_of(m) && m2.ram[s - 1] == unary_result(c, m.ram[s - 1])
            && mach_wf(m2));
    }
}

/// The jump condition a comparison operator branches on.
pub open spec fn cmp_jmp(c: MathCommand) -> Jmp {
    match c {
        MathCommand::EqualTo => Jmp::Jeq,
        MathCommand::GreaterThan => Jmp::Jgt,
        MathCommand::LessThan => Jmp::Jlt,
        _ => Jmp::JmpNone,
    }
}

/// The label kind prefix of a comparison's true branch.
pub open spec fn cmp_yes(c: MathCommand) -> Seq<char> {
    match c {
        MathCommand::EqualTo => "EQ"@,
        MathCommand::GreaterThan => "GT"@,
        MathCommand::LessThan => "LT"@,
        _ => ""@,
    }
}

/// The label kind prefix of a comparison's false branch.
pub open spec fn cmp_no(c: MathCommand) -> Seq<char> {
    match c {
        MathCommand::EqualTo => "NEQ"@,
        MathCommand::GreaterThan => "NGT"@,
        MathCommand::LessThan => "NLT"@,
        _ => ""@,
    }
}

/// The two branches of a comparison block, proved separately: the
/// path through the true branch.
#[verifier::rlimit(100)]
#[verifier::spinoff_prover]
proof fn lemma_cmp_block_taken(
    hdr: Seq<char>,
    yes: Seq<char>,
    no: Seq<char>,
    j: Jmp,
    idx: nat,
    m: Mach,
    env: Map<Seq<char>, u16>,
)
    requires
        mach_wf(m),
        16 <= sp_of(m),
        env.contains_key(cmp_label_text(yes, idx)),
        env.contains_key(cmp_label_text("END"@, idx)),
        env[cmp_label_text(yes, idx)] == 17,
        env[cmp_label_text("END"@, idx)] == 35,
        jump_taken(j, wrap16(m.ram[sp_of(m) - 2] - m.ram[sp_of(m) - 1])),
    ensures
        ({
            let s = sp_of(m) as int;
            let r = run_jmp(
                seq![rem(hdr)] + crate::writer::cmp_math_instrs(yes, no, j, idx),
                m,
                env,
                0,
                45,
            );
            &&& r is Some
            &&& mach_wf(r.unwrap())
            &&& sp_of(r.unwrap()) == sp_of(m) - 1
            &&& r.unwrap().ram[s - 2] == 0xFFFFu16
        }),
{
    let s = sp_of(m) as int;
    let x = m.ram[s - 2];
    let y = m.ram[s - 1];
    let diff = wrap16(x - y);
    let p = seq![rem(hdr)] + crate::writer::cmp_math_instrs(yes, no, j, idx);
    lemma_wrap16_id(s - 1);
    lemma_wrap16_id(s - 2);
    let ram1 = m.ram.update(13, y);
    let m_a = Mach { a: 17, d: diff, ram: ram1 };
    assert(run_jmp(p, m, env, 0, 45) == run_jmp(p, m_a, env, 17, 30)) by {
        reveal_with_fuel(run_jmp, 16);
    }
    let ram2 = ram1.update(0, (s - 1) as u16).update(0, (s - 2) as u16).update(s - 2, 0xFFFFu16);
    let m_b = Mach { a: 35, d: 0xFFFFu16, ram: ram2 };
    assert(run_jmp(p, m_a, env, 17, 30) == run_jmp(p, m_b, env, 35, 20)) by {
        reveal_with_fuel(run_jmp, 11);
    }
    let m_c = Mach { a: 0, d: 0xFFFFu16, ram: ram2.update(0, (s - 1) as u16) };
    assert(run_jmp(p, m_b, env, 35, 20) == Some(m_c)) by {
        reveal_with_fuel(run_jmp, 5);
    }
}

/// The path through the false branch.
#[verifier::rlimit(100)]
#[verifier::spinoff_prover]
proof fn lemma_cmp_block_untaken(
    hdr: Seq<char>,
    yes: Seq<char>,
    no: Seq<char>,
    j: Jmp,
    idx: nat,
    m: Mach,
    env: Map<Seq<char>, u16>,
)
    requires
        mach_wf(m),
        16 <= sp_of(m),
        env.contains_key(cmp_label_text(no, idx)),
        env.contains_key(cmp_label_text("END"@, idx)),
        env[cmp_label_text(no, idx)] == 27,
        env[cmp_label_text("END"@, idx)] == 35,
        !jump_taken(j, wrap16(m.ram[sp_of(m) - 2] - m.ram[sp_of(m) - 1])),
    ensures
        ({
            let s = sp_of(m) as int;
            let r = run_jmp(
                seq![rem(hdr)] + crate::writer::cmp_math_instrs(yes, no, j, idx),
                m,
                env,
                0,
                45,
            );
            &&& r is Some
            &&& mach_wf(r.unwrap())
            &&& sp_of(r.unwrap()) == sp_of(m) - 1
            &&& r.unwrap().ram[s - 2] == 0u16
        }),
{
    let s = sp_of(m) as int;
    let x = m.ram[s - 2];
    let y = m.ram[s - 1];
    let diff = wrap16(x - y);
    let p = seq![rem(hdr)] + crate::writer::cmp_math_instrs(yes, no, j, idx);
    lemma_wrap16_id(s - 1);
    lemma_wrap16_id(s - 2);
    let ram1 = m.ram.update(13, y);
    let m_a = Mach { a: 27, d: diff, ram: ram1 };
    assert(run_jmp(p, m, env, 0, 45) == run_jmp(p, m_a, env, 27, 28)) by {
        reveal_with_fuel(run_jmp, 18);
    }
    let ram2 = ram1.update(0, (s - 1) as u16).update(0, (s - 2) as u16).update(s - 2, 0u16);
    let m_b = Mach { a: (s - 2) as u16, d: 0u16, ram: ram2 };
    assert(run_jmp(p, m_a, env, 27, 28) == run_jmp(p, m_b, env, 35, 20)) by {
        reveal_with_fuel(run_jmp, 9);
    }
    let m_c = Mach { a: 0, d: 0u16, ram: ram2.update(0, (s - 1) as u16) };
    assert(run_jmp(p, m_b, env, 35, 20) == Some(m_c)) by {
        reveal_with_fuel(run_jmp, 5);
    }
}

/// Law: for every comparison operator, running the emitted block
/// under an environment that resolves the block's three labels to
/// their own positions terminates, moves the hardware stack pointer
/// down by exactly one cell, and leaves the canonical truth value of
/// the comparison of the two consumed operands at the new stack top.
#[verifier::rlimit(100)]
#[verifier::spinoff_prover]
pub proof fn lemma_comparison_math_sp_delta(
    c: MathCommand,
    idx: nat,
    m: Mach,
    env: Map<Seq<char>, u16>,
)
    requires
        is_comparison(c),
        mach_wf(m),
        16 <= sp_of(m),
        env.contains_key(cmp_label_text(cmp_yes(c), idx)),
        env.contains_key(cmp_label_text(cmp_no(c), idx)),
        env.contains_key(cmp_label_text("END"@, idx)),
        env[cmp_label_text(cmp_yes(c), idx)] == 17,
        env[cmp_label_text(cmp_no(c), idx)] == 27,
        env[cmp_label_text("END"@, idx)] == 35,
    ensures
        ({
            let s = sp_of(m) as int;
            let diff = wrap16(m.ram[s - 2] - m.ram[s - 1]);
            let r = run_jmp(math_instrs(c, idx), m, env, 0, 45);
            &&& r is Some
            &&& mach_wf(r.unwrap())
            &&& sp_of(r.unwrap()) == sp_of(m) - 1
            &&& r.unwrap().ram[s - 2] == (if jump_taken(cmp_jmp(c), diff) {
                0xFFFFu16
            } else {
                0u16
            })
        }),
{
    let s = sp_of(m) as int;
    let diff = wrap16(m.ram[s - 2] - m.ram[s - 1]);
    let hdr: Seq<char> = match c {
        MathCommand::EqualTo => "eq"@,
        MathCommand::GreaterThan => "gt"@,
        _ => "lt"@,
    };
    assert(math_instrs(c, idx) == seq![rem(hdr)] + crate::writer::cmp_math_instrs(
        cmp_yes(c),
        cmp_no(c),
        cmp_jmp(c),
        idx,
    ));
    if jump_taken(cmp_jmp(c), diff) {
        lemma_cmp_block_taken(hdr, cmp_yes(c), cmp_no(c), cmp_jmp(c), idx, m, env);
    } else {
        lemma_cmp_block_untaken(hdr, cmp_yes(c), cmp_no(c), cmp_jmp(c), idx, m, env);
    }
}

/// The value a push block loads: the addressed cell's content for a
/// backed segment, the index itself for the constant segment.
pub open spec fn push_value(
    seg: MemorySegment,
    idx: u16,
    ns: Seq<char>,
    m: Mach,
    env: Map<Seq<char>, u16>,
) -> u16 {
    if is_dynamic_seg(seg) {
        m.ram[wrap16(idx + m.ram[reg_addr(seg_reg(seg)) as int]) as int]
    } else if seg == MemorySegment::Static {
        m.ram[env[static_symbol_text(ns, idx as nat)] as int]
    } else if seg == MemorySegment::Constant {
        idx
    } else {
        let base: u16 = if seg == MemorySegment::Pointer {
            3
        } else {
            5
        };
        m.ram[wrap16(idx + base) as int]
    }
}

/// The address a pop block stores to.
pub open spec fn pop_dest(
    seg: MemorySegment,
    idx: u16,
    ns: Seq<char>,
    m: Mach,
    env: Map<Seq<char>, u16>,
) -> u16 {
    if is_dynamic_seg(seg) {
        wrap16(idx + m.ram[reg_addr(seg_reg(seg)) as int])
    } else if seg == MemorySegment::Static {
        env[static_symbol_text(ns, idx as nat)]
    } else {
        let base: u16 = if seg == MemorySegment::Pointer {
            3
        } else {
            5
        };
        wrap16(idx + base)
    }
}

/// Law: for every push command, running the emitted block moves the
/// hardware stack pointer up by exactly one cell, and the pushed
/// value stands at the old stack top position.
#[verifier::rlimit(100)]
#[verifier::spinoff_prover]
pub proof fn lemma_push_sp_delta(
    seg: MemorySegment,
    idx: u16,
    ns: Seq<char>,
    m: Mach,
    env: Map<Seq<char>, u16>,
)
    requires
        mach_wf(m),
        16 <= sp_of(m) < 0xFFFF,
    ensures
        ({
            let m2 = run_flat(push_instrs(seg, idx, ns), m, env);
            &&& mach_wf(m2)
            &&& sp_of(m2) == sp_of(m) + 1
            &&& m2.ram[sp_of(m) as int] == push_value(seg, idx, ns, m, env)
        }),
{
    let s = sp_of(m) as int;
    reveal_with_fuel(run_from, 14);
    lemma_wrap16_id(s + 1);
    let m2 = run_flat(push_instrs(seg, idx, ns), m, env);
    match seg {
        MemorySegment::Argument => {
            assert(mach_wf(m2) && sp_of(m2) == s + 1 && m2.ram[s] == push_value(
                seg,
                idx,
                ns,
                m,
                env,
            ));
        },
        MemorySegment::Local => {
            assert(mach_wf(m2) && sp_of(m2) == s + 1 && m2.ram[s] == push_value(
                seg,
                idx,
                ns,
                m,
                env,
            ));
        },
        MemorySegment::This => {
            assert(mach_wf(m2) && sp_of(m2) == s + 1 && m2.ram[s] == push_value(
                seg,
                idx,
                ns,
                m,
                env,
            ));
        },
        MemorySegment::That => {
            assert(mach_wf(m2) && sp_of(m2) == s + 1 && m2.ram[s] == push_value(
                seg,
                idx,
                ns,
                m,
                env,
            ));
        },
        MemorySegment::Static => {
            assert(mach_wf(m2) && sp_of(m2) == s + 1 && m2.ram[s] == push_value(
                seg,
                idx,
                ns,
                m,
                env,
            ));
        },
        MemorySegment::Constant => {
            assert(mach_wf(m2) && sp_of(m2) == s + 1 && m2.ram[s] == push_value(
                seg,
                idx,
                ns,
                m,
                env,
            ));
        },
        MemorySegment::Pointer => {
            assert(mach_wf(m2) && sp_of(m2) == s + 1 && m2.ram[s] == push_value(
                seg,
                idx,
                ns,
                m,
                env,
            ));
        },
        MemorySegment::Temp => {
            assert(mach_wf(m2) && sp_of(m2) == s + 1 && m2.ram[s] == push_value(
                seg,
                idx,
                ns,
                m,
                env,
            ));
        },
    }
}

/// Law: for every pop command into a real segment, running the
/// emitted block moves the hardware stack pointer down by exactly one
/// cell, and the popped value stands at the destination address.
#[verifier::rlimit(100)]
#[verifier::spinoff_prover]
pub proof fn lemma_pop_sp_delta(
    seg: MemorySegment,
    idx: u16,
    ns: Seq<char>,
    m: Mach,
    env: Map<Seq<char>, u16>,
)
    requires
        seg != MemorySegment::Constant,
        mach_wf(m),
        16 <= sp_of(m),
        pop_dest(seg, idx, ns, m, env) != 0,
    ensures
        ({
            let m2 = run_flat(pop_instrs(seg, idx, ns), m, env);
            &&& mach_wf(m2)
            &&& sp_of(m2) == sp_of(m) - 1
            &&& m2.ram[pop_dest(seg, idx, ns, m, env) as int] == m.ram[sp_of(m) - 1]
        }),
{
    let s = sp_of(m) as int;
    reveal_with_fuel(run_from, 18);
    lemma_wrap16_id(s - 1);
    let m2 = run_flat(pop_instrs(seg, idx, ns), m, env);
    let dst = pop_dest(seg, idx, ns, m, env);
    match seg {
        MemorySegment::Argument => {
            assert(mach_wf(m2) && sp_of(m2) == s - 1 && m2.ram[dst as int] == m.ram[s - 1]);
        },
        MemorySegment::Local => {
            assert(mach_wf(m2) && sp_of(m2) == s - 1 && m2.ram[dst as int] == m.ram[s - 1]);
        },
        MemorySegment::This => {
            assert(mach_wf(m2) && sp_of(m2) == s - 1 && m2.ram[dst as int] == m.ram[s - 1]);
        },
        MemorySegment::That => {
            assert(mach_wf(m2) && sp_of(m2) == s - 1 && m2.ram[dst as int] == m.ram[s - 1]);
        },
        MemorySegment::Static => {
            assert(mach_wf(m2) && sp_of(m2) == s - 1 && m2.ram[dst as int] == m.ram[s - 1]);
        },
        MemorySegment::Constant => {
            assert(false);
        },
        MemorySegment::Pointer => {
            assert(mach_wf(m2) && sp_of(m2) == s - 1 && m2.ram[dst as int] == m.ram[s - 1]);
        },
        MemorySegment::Temp => {
            assert(mach_wf(m2) && sp_of(m2) == s - 1 && m2.ram[dst as int] == m.ram[s - 1]);
        },
    }
}

/// Law: the bootstrap block sets the hardware stack pointer to the
/// fixed stack base with its very first instructions, before the
/// synthetic call of the entry point is reached.
pub proof fn lemma_boot_head_sets_sp(m: Mach, env: Map<Seq<char>, u16>)
    requires
        mach_wf(m),
    ensures
        ({
            let m2 = run_flat(boot_head_instrs(), m, env);
            &&& mach_wf(m2)
            &&& sp_of(m2) == 256
        }),
{
    reveal_with_fuel(run_from, 23);
}

/// Law: a conditional branch pops the top of the stack
/// unconditionally, before the test, whether or not the jump is then
/// taken.
pub proof fn lemma_if_goto_pops(label: Seq<char>, m: Mach, env: Map<Seq<char>, u16>)
    requires
        mach_wf(m),
        1 <= sp_of(m),
    ensures
        ({
            let m2 = run_flat(if_goto_instrs(label), m, env);
            &&& mach_wf(m2)
            &&& sp_of(m2) == sp_of(m) - 1
        }),
{
    let s = sp_of(m) as int;
    reveal_with_fuel(run_from, 10);
    lemma_wrap16_id(s - 1);
}

} // verus!
