//! The target machine: its instruction forms, the exact text each
//! instruction is written as, and a semantics for straight-line
//! instruction sequences.
//!
//! The writer's contracts pin its output down to the rendering of
//! concrete instruction sequences; the lemmas here say what running
//! those sequences does to the machine, in particular to the hardware
//! stack pointer held in memory cell 0.

use vstd::prelude::*;
use crate::text::dec_text;

verus! {

/// The dedicated memory cells the generated code addresses by name.
#[derive(Clone, Copy, PartialEq, Eq, Structural, Debug)]
pub enum Reg {
    Sp,
    Lcl,
    Arg,
    This,
    That,
    R13,
    R14,
}

/// The destination of a compute instruction (only single destinations
/// are ever emitted).
#[derive(Clone, Copy, PartialEq, Eq, Structural, Debug)]
pub enum Dest {
    DestNone,
    DestM,
    DestD,
    DestA,
}

/// The computed expression of a compute instruction.
#[derive(Clone, Copy, PartialEq, Eq, Structural, Debug)]
pub enum Comp {
    CZero,
    CNegOne,
    CD,
    CA,
    CM,
    CNotM,
    CNegM,
    CNegA,
    CDPlusOne,
    CDMinusOne,
    CMPlusOne,
    CMMinusOne,
    CDPlusM,
    CDMinusM,
    CDAndM,
    CDOrM,
    CDPlusA,
    CDMinusA,
}

/// The jump condition of a compute instruction.
#[derive(Clone, Copy, PartialEq, Eq, Structural, Debug)]
pub enum Jmp {
    JmpNone,
    Jgt,
    Jeq,
    Jlt,
    Jne,
    Jump,
}

/// The target of an address instruction.
pub enum Target {
    Fixed(Reg),
    Num(u16),
    Symbol(String),
}

/// One line of emitted assembly.
pub enum Instr {
    Addr(Target),
    C(Dest, Comp, Jmp),
    Lbl(String),
    Rem(String),
}

/// Spec-level counterpart of `Target`, with symbols as character
/// sequences.
pub enum TargetV {
    Fixed(Reg),
    Num(u16),
    Symbol(Seq<char>),
}

/// Spec-level counterpart of `Instr`.
pub enum InstrV {
    Addr(TargetV),
    C(Dest, Comp, Jmp),
    Lbl(Seq<char>),
    Rem(Seq<char>),
}

impl View for Target {
    type V = TargetV;

    open spec fn view(&self) -> TargetV {
        match self {
            Target::Fixed(r) => TargetV::Fixed(*r),
            Target::Num(n) => TargetV::Num(*n),
            Target::Symbol(s) => TargetV::Symbol(s@),
        }
    }
}

impl View for Instr {
    type V = InstrV;

    open spec fn view(&self) -> InstrV {
        match self {
            Instr::Addr(t) => InstrV::Addr(t@),
            Instr::C(d, c, j) => InstrV::C(*d, *c, *j),
            Instr::Lbl(s) => InstrV::Lbl(s@),
            Instr::Rem(s) => InstrV::Rem(s@),
        }
    }
}

/// The views of a sequence of instructions.
pub open spec fn views_of(s: Seq<Instr>) -> Seq<InstrV> {
    s.map_values(|i: Instr| i@)
}

/// The name of a dedicated cell, as written in an address instruction.
pub open spec fn reg_text(r: Reg) -> Seq<char> {
    match r {
        Reg::Sp => "SP"@,
        Reg::Lcl => "LCL"@,
        Reg::Arg => "ARG"@,
        Reg::This => "THIS"@,
        Reg::That => "THAT"@,
        Reg::R13 => "R13"@,
        Reg::R14 => "R14"@,
    }
}

/// The text of a destination, including the `=` separator.
pub open spec fn dest_text(d: Dest) -> Seq<char> {
    match d {
        Dest::DestNone => Seq::empty(),
        Dest::DestM => "M="@,
        Dest::DestD => "D="@,
        Dest::DestA => "A="@,
    }
}

/// The text of a computed expression.
pub open spec fn comp_text(c: Comp) -> Seq<char> {
    match c {
        Comp::CZero => "0"@,
        Comp::CNegOne => "-1"@,
        Comp::CD => "D"@,
        Comp::CA => "A"@,
        Comp::CM => "M"@,
        Comp::CNotM => "!M"@,
        Comp::CNegM => "-M"@,
        Comp::CNegA => "-A"@,
        Comp::CDPlusOne => "D+1"@,
        Comp::CDMinusOne => "D-1"@,
        Comp::CMPlusOne => "M+1"@,
        Comp::CMMinusOne => "M-1"@,
        Comp::CDPlusM => "D+M"@,
        Comp::CDMinusM => "D-M"@,
        Comp::CDAndM => "D&M"@,
        Comp::CDOrM => "D|M"@,
        Comp::CDPlusA => "D+A"@,
        Comp::CDMinusA => "D-A"@,
    }
}

/// The text of a jump condition, including the `;` separator.
pub open spec fn jmp_text(j: Jmp) -> Seq<char> {
    match j {
        Jmp::JmpNone => Seq::empty(),
        Jmp::Jgt => ";JGT"@,
        Jmp::Jeq => ";JEQ"@,
        Jmp::Jlt => ";JLT"@,
        Jmp::Jne => ";JNE"@,
        Jmp::Jump => ";JMP"@,
    }
}

/// The text of an address-instruction target.
pub open spec fn target_text(t: TargetV) -> Seq<char> {
    match t {
        TargetV::Fixed(r) => reg_text(r),
        TargetV::Num(n) => dec_text(n as nat),
        TargetV::Symbol(s) => s,
    }
}

/// The newline-terminated line an instruction is written as.
pub open spec fn render(i: InstrV) -> Seq<char> {
    match i {
        InstrV::Addr(t) => "@"@ + target_text(t) + "\n"@,
        InstrV::C(d, c, j) => dest_text(d) + comp_text(c) + jmp_text(j) + "\n"@,
        InstrV::Lbl(s) => "("@ + s + ")"@ + "\n"@,
        InstrV::Rem(s) => "// "@ + s + "\n"@,
    }
}

/// The text of a whole instruction sequence.
pub open spec fn render_seq(p: Seq<InstrV>) -> Seq<char>
    decreases p.len(),
{
    if p.len() == 0 {
        Seq::empty()
    } else {
        render(p[0]) + render_seq(p.drop_first())
    }
}

/// The machine: the address register, the data register, and the
/// 65536-cell memory.  Cell 0 holds the hardware stack pointer.
pub struct Mach {
    pub a: u16,
    pub d: u16,
    pub ram: Seq<u16>,
}

/// The memory has its full extent.
pub open spec fn mach_wf(m: Mach) -> bool {
    m.ram.len() == 0x10000
}

/// The hardware stack pointer.
pub open spec fn sp_of(m: Mach) -> u16 {
    m.ram[0]
}

/// The address of a dedicated cell.
pub open spec fn reg_addr(r: Reg) -> u16 {
    match r {
        Reg::Sp => 0,
        Reg::Lcl => 1,
        Reg::Arg => 2,
        Reg::This => 3,
        Reg::That => 4,
        Reg::R13 => 13,
        Reg::R14 => 14,
    }
}

/// Reduction of a value to the machine's 16-bit word.
pub open spec fn wrap16(n: int) -> u16 {
    (((n % 0x10000) + 0x10000) % 0x10000) as u16
}

/// The memory cell the address register selects.
pub open spec fn sel(m: Mach) -> u16 {
    m.ram[m.a as int]
}

/// The value of a computed expression in state `m`.
pub open spec fn eval_comp(c: Comp, m: Mach) -> u16 {
    match c {
        Comp::CZero => 0,
        Comp::CNegOne => 0xFFFF,
        Comp::CD => m.d,
        Comp::CA => m.a,
        Comp::CM => sel(m),
        Comp::CNotM => sel(m) ^ 0xFFFF,
        Comp::CNegM => wrap16(0 - sel(m)),
        Comp::CNegA => wrap16(0 - m.a),
        Comp::CDPlusOne => wrap16(m.d + 1),
        Comp::CDMinusOne => wrap16(m.d - 1),
        Comp::CMPlusOne => wrap16(sel(m) + 1),
        Comp::CMMinusOne => wrap16(sel(m) - 1),
        Comp::CDPlusM => wrap16(m.d + sel(m)),
        Comp::CDMinusM => wrap16(m.d - sel(m)),
        Comp::CDAndM => m.d & sel(m),
        Comp::CDOrM => m.d | sel(m),
        Comp::CDPlusA => wrap16(m.d + m.a),
        Comp::CDMinusA => wrap16(m.d - m.a),
    }
}

/// Writing `v` to the given destination.
pub open spec fn store(dst: Dest, v: u16, m: Mach) -> Mach {
    match dst {
        Dest::DestNone => m,
        Dest::DestM => Mach { ram: m.ram.update(m.a as int, v), ..m },
        Dest::DestD => Mach { d: v, ..m },
        Dest::DestA => Mach { a: v, ..m },
    }
}

/// The value an address-instruction target resolves to, under an
/// environment binding symbols to addresses.
pub open spec fn target_val(t: TargetV, env: Map<Seq<char>, u16>) -> u16 {
    match t {
        TargetV::Fixed(r) => reg_addr(r),
        TargetV::Num(n) => n,
        TargetV::Symbol(s) => env[s],
    }
}

/// One instruction of a straight-line block: labels and comments are
/// inert, and no jump is taken.
pub open spec fn step_flat(i: InstrV, m: Mach, env: Map<Seq<char>, u16>) -> Mach {
    match i {
        InstrV::Addr(t) => Mach { a: target_val(t, env), ..m },
        InstrV::C(d, c, _) => store(d, eval_comp(c, m), m),
        InstrV::Lbl(_) => m,
        InstrV::Rem(_) => m,
    }
}

/// Running a straight-line block from instruction `k` on.
pub open spec fn run_from(p: Seq<InstrV>, k: int, m: Mach, env: Map<Seq<char>, u16>) -> Mach
    decreases p.len() - k,
    when 0 <= k <= p.len()
{
    if k >= p.len() {
        m
    } else {
        run_from(p, k + 1, step_flat(p[k], m, env), env)
    }
}

/// Running a whole straight-line block.
pub open spec fn run_flat(p: Seq<InstrV>, m: Mach, env: Map<Seq<char>, u16>) -> Mach {
    run_from(p, 0, m, env)
}

/// A machine word read as a two's-complement signed value.
pub open spec fn as_signed(v: u16) -> int {
    if v >= 0x8000 {
        v - 0x10000
    } else {
        v as int
    }
}

/// Whether a jump condition holds of the computed value.
pub open spec fn jump_taken(j: Jmp, v: u16) -> bool {
    match j {
        Jmp::JmpNone => false,
        Jmp::Jgt => as_signed(v) > 0,
        Jmp::Jeq => v == 0,
        Jmp::Jlt => as_signed(v) < 0,
        Jmp::Jne => v != 0,
        Jmp::Jump => true,
    }
}

/// Running a block with jumps: every line, labels included, occupies
/// one position; a taken jump continues at the position the address
/// register holds.  `None` means the fuel ran out or the jump left
/// the block.
pub open spec fn run_jmp(
    p: Seq<InstrV>,
    m: Mach,
    env: Map<Seq<char>, u16>,
    pc: int,
    fuel: nat,
) -> Option<Mach>
    decreases fuel,
{
    if pc >= p.len() {
        Some(m)
    } else if pc < 0 || fuel == 0 {
        None
    } else {
        match p[pc] {
            InstrV::C(d, c, j) => {
                let v = eval_comp(c, m);
                let m2 = store(d, v, m);
                if jump_taken(j, v) {
                    run_jmp(p, m2, env, m2.a as int, (fuel - 1) as nat)
                } else {
                    run_jmp(p, m2, env, pc + 1, (fuel - 1) as nat)
                }
            },
            _ => run_jmp(p, step_flat(p[pc], m, env), env, pc + 1, (fuel - 1) as nat),
        }
    }
}

/// Running a concatenation runs the two halves in order.
pub proof fn lemma_run_concat(p: Seq<InstrV>, q: Seq<InstrV>, m: Mach, env: Map<Seq<char>, u16>)
    ensures
        run_flat(p + q, m, env) == run_flat(q, run_flat(p, m, env), env),
    decreases p.len(),
{
    if p.len() == 0 {
        assert(p + q =~= q);
        assert(run_flat(p, m, env) == m);
    } else {
        assert((p + q)[0] == p[0]);
        assert(p.drop_first() + q =~= (p + q).drop_first());
        lemma_run_shift(p + q, m, env);
        lemma_run_shift(p, m, env);
        lemma_run_concat(p.drop_first(), q, step_flat(p[0], m, env), env);
    }
}

/// Running from the front is one step followed by running the rest.
pub proof fn lemma_run_shift(p: Seq<InstrV>, m: Mach, env: Map<Seq<char>, u16>)
    requires
        p.len() > 0,
    ensures
        run_flat(p, m, env) == run_flat(p.drop_first(), step_flat(p[0], m, env), env),
{
    lemma_run_from_drop(p, 1, step_flat(p[0], m, env), env);
}

/// Running `p` from index `k >= 1` equals running `p` without its
/// first instruction from `k - 1`.
proof fn lemma_run_from_drop(p: Seq<InstrV>, k: int, m: Mach, env: Map<Seq<char>, u16>)
    requires
        1 <= k <= p.len(),
    ensures
        run_from(p, k, m, env) == run_from(p.drop_first(), k - 1, m, env),
    decreases p.len() - k,
{
    if k < p.len() {
        assert(p.drop_first()[k - 1] == p[k]);
        lemma_run_from_drop(p, k + 1, step_flat(p[k], m, env), env);
    }
}

/// Rendering distributes over extending a sequence by one instruction.
pub proof fn lemma_render_seq_push(p: Seq<InstrV>, i: InstrV)
    ensures
        render_seq(p.push(i)) == render_seq(p) + render(i),
    decreases p.len(),
{
    if p.len() == 0 {
        assert(p.push(i).drop_first() =~= Seq::<InstrV>::empty());
        assert(p.push(i)[0] == i);
        assert(render_seq(Seq::<InstrV>::empty()) == Seq::<char>::empty());
        assert(render_seq(p.push(i)) == render(i) + Seq::<char>::empty());
        assert(render(i) + Seq::<char>::empty() =~= render(i));
        assert(render_seq(p) =~= Seq::<char>::empty());
        assert(render_seq(p) + render(i) =~= render(i));
    } else {
        lemma_render_seq_push(p.drop_first(), i);
        assert(p.push(i).drop_first() =~= p.drop_first().push(i));
        assert(p.push(i)[0] == p[0]);
        assert(render_seq(p.push(i)) == render(p[0]) + render_seq(p.drop_first().push(i)));
        assert((render(p[0]) + render_seq(p.drop_first())) + render(i) =~= render(p[0]) + (
        render_seq(p.drop_first()) + render(i)));
    }
}

/// Rendering distributes over concatenation.
pub proof fn lemma_render_seq_concat(a: Seq<InstrV>, b: Seq<InstrV>)
    ensures
        render_seq(a + b) == render_seq(a) + render_seq(b),
    decreases b.len(),
{
    if b.len() == 0 {
        assert(a + b =~= a);
        assert(render_seq(a) + render_seq(b) =~= render_seq(a));
    } else {
        lemma_render_seq_concat(a, b.drop_last());
        lemma_render_seq_push(a + b.drop_last(), b.last());
        assert((a + b.drop_last()).push(b.last()) =~= a + b);
        lemma_render_seq_push(b.drop_last(), b.last());
        assert(b.drop_last().push(b.last()) =~= b);
        assert((render_seq(a) + render_seq(b.drop_last())) + render(b.last()) =~= render_seq(a) + (
        render_seq(b.drop_last()) + render(b.last())));
    }
}

} // verus!
