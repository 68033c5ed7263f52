//! The code generator: one method per command category, each appending
//! one exactly specified block of assembly text to the output buffer.

use vstd::prelude::*;
use crate::labels::{
    cmp_label_text, make_cmp_label, make_return_label, return_label_text,
    static_symbol_text, make_static_symbol,
};
use crate::machine::{
    render, render_seq, views_of, lemma_render_seq_concat, lemma_render_seq_push, Comp, Dest,
    Instr, InstrV, Jmp, Reg, Target, TargetV,
};
use crate::parser::{MathCommand, MemoryCommand, MemorySegment, TranslateError};
use crate::text::{dec_text, usize_to_string};
use vstd::string::{StringExecFns, StrSliceExecFns};

verus! {

/// The generator's abstract state: the text emitted so far, the
/// per-file scoping strings, and the two monotonically increasing
/// counters that keep synthesized labels unique.
pub struct GenState {
    pub output: Seq<char>,
    pub namespace: Seq<char>,
    pub current_function: Seq<char>,
    pub jump_index: nat,
    pub return_index: nat,
}

/// An address instruction on a dedicated cell.
pub open spec fn a_reg(r: Reg) -> InstrV {
    InstrV::Addr(TargetV::Fixed(r))
}

/// An address instruction on a numeric constant.
pub open spec fn a_num(n: u16) -> InstrV {
    InstrV::Addr(TargetV::Num(n))
}

/// An address instruction on a symbol.
pub open spec fn a_sym(s: Seq<char>) -> InstrV {
    InstrV::Addr(TargetV::Symbol(s))
}

/// A compute instruction without a jump.
pub open spec fn c_ins(d: Dest, c: Comp) -> InstrV {
    InstrV::C(d, c, Jmp::JmpNone)
}

/// A jump instruction.
pub open spec fn j_ins(c: Comp, j: Jmp) -> InstrV {
    InstrV::C(Dest::DestNone, c, j)
}

/// A comment line.
pub open spec fn rem(s: Seq<char>) -> InstrV {
    InstrV::Rem(s)
}

/// The two instructions that advance the stack pointer by one.
pub open spec fn inc_sp_instrs() -> Seq<InstrV> {
    seq![a_reg(Reg::Sp), c_ins(Dest::DestM, Comp::CMPlusOne)]
}

/// The two instructions that retreat the stack pointer by one.
pub open spec fn dec_sp_instrs() -> Seq<InstrV> {
    seq![a_reg(Reg::Sp), c_ins(Dest::DestM, Comp::CMMinusOne)]
}

/// The three instructions that store the data register at the stack
/// top.
pub open spec fn dreg_to_stack_instrs() -> Seq<InstrV> {
    seq![a_reg(Reg::Sp), c_ins(Dest::DestA, Comp::CM), c_ins(Dest::DestM, Comp::CD)]
}

/// The instructions that copy the value below the stack pointer to the
/// address held in the given scratch cell.
pub open spec fn copy_head_instrs(cell: Reg) -> Seq<InstrV> {
    seq![
        a_reg(Reg::Sp),
        c_ins(Dest::DestA, Comp::CMMinusOne),
        c_ins(Dest::DestD, Comp::CM),
        a_reg(cell),
        c_ins(Dest::DestA, Comp::CM),
        c_ins(Dest::DestM, Comp::CD),
    ]
}

/// The generator.  It owns the output buffer; commands are handed to
/// its `write_*` methods one at a time, in source order.
pub struct Writer {
    /// The assembly text emitted so far.
    pub output: String,
    /// The namespace of the current compilation unit, used for static
    /// symbols.
    pub namespace: String,
    /// The most recently declared function, used to scope branch
    /// labels; empty while no function is active.
    pub current_function: String,
    /// Counts emitted comparison blocks.
    pub jump_index: usize,
    /// Counts emitted call sites.
    pub return_index: usize,
}

impl View for Writer {
    type V = GenState;

    open spec fn view(&self) -> GenState {
        GenState {
            output: self.output@,
            namespace: self.namespace@,
            current_function: self.current_function@,
            jump_index: self.jump_index as nat,
            return_index: self.return_index as nat,
        }
    }
}

impl Writer {
    /// A fresh generator for the given namespace, with empty output
    /// and both counters at zero.
    pub fn new(namespace: &str) -> (r: Writer)
        ensures
            r@.output == Seq::<char>::empty(),
            r@.namespace == namespace@,
            r@.current_function == Seq::<char>::empty(),
            r@.jump_index == 0,
            r@.return_index == 0,
    {
        Writer {
            output: String::new(),
            namespace: String::from_str(namespace),
            jump_index: 0,
            current_function: String::new(),
            return_index: 0,
        }
    }

    /// Appends one newline-terminated line to the output.
    pub fn writeln(&mut self, content: &str)
        ensures
            final(self)@ == (GenState {
                output: old(self)@.output + content@ + "\n"@,
                ..old(self)@
            }),
    {
        self.output.append(content);
        self.output.append("\n");
    }

    /// Appends the rendering of one instruction to the output.
    fn emit(&mut self, i: &Instr)
        ensures
            final(self)@ == (GenState { output: old(self)@.output + render(i@), ..old(self)@ }),
    {
        match i {
            Instr::Addr(t) => {
                let mut line = String::from_str("@");
                match t {
                    Target::Fixed(r) => {
                        line.append(reg_name(*r));
                    },
                    Target::Num(n) => {
                        let digits = usize_to_string(*n as usize);
                        line.append(digits.as_str());
                    },
                    Target::Symbol(s) => {
                        line.append(s.as_str());
                    },
                }
                self.writeln(line.as_str());
                proof {
                    assert(final(self)@.output =~= old(self)@.output + render(i@));
                }
            },
            Instr::C(d, c, j) => {
                let mut line = String::from_str(dest_name(*d));
                line.append(comp_name(*c));
                line.append(jmp_name(*j));
                self.writeln(line.as_str());
                proof {
                    assert(final(self)@.output =~= old(self)@.output + render(i@));
                }
            },
            Instr::Lbl(s) => {
                let mut line = String::from_str("(");
                line.append(s.as_str());
                line.append(")");
                self.writeln(line.as_str());
                proof {
                    assert(final(self)@.output =~= old(self)@.output + render(i@));
                }
            },
            Instr::Rem(s) => {
                let mut line = String::from_str("// ");
                line.append(s.as_str());
                self.writeln(line.as_str());
                proof {
                    assert(final(self)@.output =~= old(self)@.output + render(i@));
                }
            },
        }
    }

    /// Appends the rendering of a whole instruction sequence.
    fn emit_all(&mut self, instrs: &Vec<Instr>)
        ensures
            final(self)@ == (GenState {
                output: old(self)@.output + render_seq(views_of(instrs@)),
                ..old(self)@
            }),
    {
        let ghost vs = views_of(instrs@);
        let mut k: usize = 0;
        proof {
            assert(vs.take(0) =~= Seq::<InstrV>::empty());
            assert(old(self)@.output + render_seq(vs.take(0)) =~= old(self)@.output);
        }
        while k < instrs.len()
            invariant
                0 <= k <= instrs.len(),
                vs == views_of(instrs@),
                vs.len() == instrs@.len(),
                self@ == (GenState {
                    output: old(self)@.output + render_seq(vs.take(k as int)),
                    ..old(self)@
                }),
            decreases instrs.len() - k,
        {
            self.emit(&instrs[k]);
            proof {
                assert(vs[k as int] == instrs@[k as int]@);
                assert(vs.take(k as int + 1) =~= vs.take(k as int).push(vs[k as int]));
                lemma_render_seq_push(vs.take(k as int), vs[k as int]);
                assert((old(self)@.output + render_seq(vs.take(k as int))) + render(
                    vs[k as int],
                ) =~= old(self)@.output + (render_seq(vs.take(k as int)) + render(vs[k as int])));
            }
            k = k + 1;
        }
        proof {
            assert(vs.take(instrs@.len() as int) =~= vs);
        }
    }

    /// Advances the stack pointer by one cell.
    fn write_inc_sp(&mut self)
        ensures
            final(self)@ == (GenState {
                output: old(self)@.output + render_seq(inc_sp_instrs()),
                ..old(self)@
            }),
    {
        let mut v: Vec<Instr> = Vec::new();
        v.push(Instr::Addr(Target::Fixed(Reg::Sp)));
        v.push(Instr::C(Dest::DestM, Comp::CMPlusOne, Jmp::JmpNone));
        proof {
            assert(views_of(v@) =~= inc_sp_instrs());
        }
        self.emit_all(&v);
    }

    /// Retreats the stack pointer by one cell.
    fn write_dec_sp(&mut self)
        ensures
            final(self)@ == (GenState {
                output: old(self)@.output + render_seq(dec_sp_instrs()),
                ..old(self)@
            }),
    {
        let mut v: Vec<Instr> = Vec::new();
        v.push(Instr::Addr(Target::Fixed(Reg::Sp)));
        v.push(Instr::C(Dest::DestM, Comp::CMMinusOne, Jmp::JmpNone));
        proof {
            assert(views_of(v@) =~= dec_sp_instrs());
        }
        self.emit_all(&v);
    }

    /// Stores the data register into the cell the stack pointer
    /// addresses.
    fn write_dreg_to_stack(&mut self)
        ensures
            final(self)@ == (GenState {
                output: old(self)@.output + render_seq(dreg_to_stack_instrs()),
                ..old(self)@
            }),
    {
        let mut v: Vec<Instr> = Vec::new();
        v.push(Instr::Addr(Target::Fixed(Reg::Sp)));
        v.push(Instr::C(Dest::DestA, Comp::CM, Jmp::JmpNone));
        v.push(Instr::C(Dest::DestM, Comp::CD, Jmp::JmpNone));
        proof {
            assert(views_of(v@) =~= dreg_to_stack_instrs());
        }
        self.emit_all(&v);
    }

    /// Copies the top stack item to the address held in the named
    /// scratch cell.
    fn write_copy_stack_head_indirect(&mut self, register: Reg)
        ensures
            final(self)@ == (GenState {
                output: old(self)@.output + render_seq(copy_head_instrs(register)),
                ..old(self)@
            }),
    {
        let mut v: Vec<Instr> = Vec::new();
        v.push(Instr::Addr(Target::Fixed(Reg::Sp)));
        v.push(Instr::C(Dest::DestA, Comp::CMMinusOne, Jmp::JmpNone));
        v.push(Instr::C(Dest::DestD, Comp::CM, Jmp::JmpNone));
        v.push(Instr::Addr(Target::Fixed(register)));
        v.push(Instr::C(Dest::DestA, Comp::CM, Jmp::JmpNone));
        v.push(Instr::C(Dest::DestM, Comp::CD, Jmp::JmpNone));
        proof {
            assert(views_of(v@) =~= copy_head_instrs(register));
        }
        self.emit_all(&v);
    }
}

/// The core of a binary operator block: move the top operand to the
/// scratch cell, load the operand below it, combine, and store the
/// result at the cell that becomes the new stack top.
pub open spec fn binary_math_instrs(op: Comp) -> Seq<InstrV> {
    seq![
        a_reg(Reg::Sp),
        c_ins(Dest::DestA, Comp::CMMinusOne),
        c_ins(Dest::DestD, Comp::CM),
        a_reg(Reg::R13),
        c_ins(Dest::DestM, Comp::CD),
        a_reg(Reg::Sp),
        c_ins(Dest::DestD, Comp::CMMinusOne),
        c_ins(Dest::DestD, Comp::CDMinusOne),
        c_ins(Dest::DestA, Comp::CD),
        c_ins(Dest::DestD, Comp::CM),
        a_reg(Reg::R13),
        c_ins(Dest::DestD, op),
        c_ins(Dest::DestM, Comp::CD),
        a_reg(Reg::Sp),
        c_ins(Dest::DestM, Comp::CMMinusOne),
        c_ins(Dest::DestM, Comp::CMMinusOne),
        a_reg(Reg::R13),
        c_ins(Dest::DestD, Comp::CM),
        a_reg(Reg::Sp),
        c_ins(Dest::DestA, Comp::CM),
        c_ins(Dest::DestM, Comp::CD),
    ]
}

/// A unary operator block: rewrite the top cell in place.
pub open spec fn unary_math_instrs(op: Comp) -> Seq<InstrV> {
    seq![
        a_reg(Reg::Sp),
        c_ins(Dest::DestA, Comp::CMMinusOne),
        c_ins(Dest::DestD, op),
        a_reg(Reg::Sp),
        c_ins(Dest::DestA, Comp::CMMinusOne),
        c_ins(Dest::DestM, Comp::CD),
    ]
}

/// A comparison block: compute the signed difference of the two top
/// operands, branch on it, and write the canonical true or false value
/// to the result cell.  `yes` and `no` are the label kind prefixes,
/// `j` the jump condition, `idx` the label counter value in force.
pub open spec fn cmp_math_instrs(yes: Seq<char>, no: Seq<char>, j: Jmp, idx: nat) -> Seq<
    InstrV,
> {
    seq![
        a_reg(Reg::Sp),
        c_ins(Dest::DestA, Comp::CMMinusOne),
        c_ins(Dest::DestD, Comp::CM),
        a_reg(Reg::R13),
        c_ins(Dest::DestM, Comp::CD),
        a_reg(Reg::Sp),
        c_ins(Dest::DestD, Comp::CMMinusOne),
        c_ins(Dest::DestD, Comp::CDMinusOne),
        c_ins(Dest::DestA, Comp::CD),
        c_ins(Dest::DestD, Comp::CM),
        a_reg(Reg::R13),
        c_ins(Dest::DestD, Comp::CDMinusM),
        a_sym(cmp_label_text(yes, idx)),
        j_ins(Comp::CD, j),
        a_sym(cmp_label_text(no, idx)),
        j_ins(Comp::CZero, Jmp::Jump),
        InstrV::Lbl(cmp_label_text(yes, idx)),
        c_ins(Dest::DestD, Comp::CNegOne),
        a_reg(Reg::Sp),
        c_ins(Dest::DestM, Comp::CMMinusOne),
        c_ins(Dest::DestM, Comp::CMMinusOne),
        a_reg(Reg::Sp),
        c_ins(Dest::DestA, Comp::CM),
        c_ins(Dest::DestM, Comp::CD),
        a_sym(cmp_label_text("END"@, idx)),
        j_ins(Comp::CZero, Jmp::Jump),
        InstrV::Lbl(cmp_label_text(no, idx)),
        c_ins(Dest::DestD, Comp::CZero),
        a_reg(Reg::Sp),
        c_ins(Dest::DestM, Comp::CMMinusOne),
        c_ins(Dest::DestM, Comp::CMMinusOne),
        a_reg(Reg::Sp),
        c_ins(Dest::DestA, Comp::CM),
        c_ins(Dest::DestM, Comp::CD),
        InstrV::Lbl(cmp_label_text("END"@, idx)),
        a_reg(Reg::Sp),
        c_ins(Dest::DestM, Comp::CMPlusOne),
    ]
}

/// Whether an operator is one of the three comparisons, which consume
/// one label counter value each.
pub open spec fn is_comparison(c: MathCommand) -> bool {
    c == MathCommand::EqualTo || c == MathCommand::GreaterThan || c == MathCommand::LessThan
}

/// How far one arithmetic command advances the label counter.
pub open spec fn jump_bump(c: MathCommand) -> nat {
    if is_comparison(c) {
        1
    } else {
        0
    }
}

/// The whole block an arithmetic command emits, under label counter
/// value `idx`.
pub open spec fn math_instrs(c: MathCommand, idx: nat) -> Seq<InstrV> {
    match c {
        MathCommand::Add => seq![rem("add"@)] + binary_math_instrs(Comp::CDPlusM)
            + inc_sp_instrs(),
        MathCommand::Subtract => seq![rem("sub"@)] + binary_math_instrs(Comp::CDMinusM)
            + inc_sp_instrs(),
        MathCommand::And => seq![rem("and"@)] + binary_math_instrs(Comp::CDAndM)
            + inc_sp_instrs(),
        MathCommand::Or => seq![rem("or"@)] + binary_math_instrs(Comp::CDOrM) + inc_sp_instrs(),
        MathCommand::Negate => seq![rem("negate"@)] + unary_math_instrs(Comp::CNegM),
        MathCommand::Not => seq![rem("logical not"@)] + unary_math_instrs(Comp::CNotM),
        MathCommand::EqualTo => seq![rem("eq"@)] + cmp_math_instrs("EQ"@, "NEQ"@, Jmp::Jeq, idx),
        MathCommand::GreaterThan => seq![rem("gt"@)] + cmp_math_instrs(
            "GT"@,
            "NGT"@,
            Jmp::Jgt,
            idx,
        ),
        MathCommand::LessThan => seq![rem("lt"@)] + cmp_math_instrs("LT"@, "NLT"@, Jmp::Jlt, idx),
    }
}

impl Writer {
    /// Emits the comment header and core of a binary operator block,
    /// followed by the stack pointer adjustment.
    fn emit_binary_math(&mut self, header: &'static str, op: Comp)
        ensures
            final(self)@ == (GenState {
                output: old(self)@.output + render_seq(
                    seq![rem(header@)] + binary_math_instrs(op) + inc_sp_instrs(),
                ),
                ..old(self)@
            }),
    {
        let mut v: Vec<Instr> = Vec::new();
        v.push(Instr::Rem(String::from_str(header)));
        v.push(Instr::Addr(Target::Fixed(Reg::Sp)));
        v.push(Instr::C(Dest::DestA, Comp::CMMinusOne, Jmp::JmpNone));
        v.push(Instr::C(Dest::DestD, Comp::CM, Jmp::JmpNone));
        v.push(Instr::Addr(Target::Fixed(Reg::R13)));
        v.push(Instr::C(Dest::DestM, Comp::CD, Jmp::JmpNone));
        v.push(Instr::Addr(Target::Fixed(Reg::Sp)));
        v.push(Instr::C(Dest::DestD, Comp::CMMinusOne, Jmp::JmpNone));
        v.push(Instr::C(Dest::DestD, Comp::CDMinusOne, Jmp::JmpNone));
        v.push(Instr::C(Dest::DestA, Comp::CD, Jmp::JmpNone));
        v.push(Instr::C(Dest::DestD, Comp::CM, Jmp::JmpNone));
        v.push(Instr::Addr(Target::Fixed(Reg::R13)));
        v.push(Instr::C(Dest::DestD, op, Jmp::JmpNone));
        v.push(Instr::C(Dest::DestM, Comp::CD, Jmp::JmpNone));
        v.push(Instr::Addr(Target::Fixed(Reg::Sp)));
        v.push(Instr::C(Dest::DestM, Comp::CMMinusOne, Jmp::JmpNone));
        v.push(Instr::C(Dest::DestM, Comp::CMMinusOne, Jmp::JmpNone));
        v.push(Instr::Addr(Target::Fixed(Reg::R13)));
        v.push(Instr::C(Dest::DestD, Comp::CM, Jmp::JmpNone));
        v.push(Instr::Addr(Target::Fixed(Reg::Sp)));
        v.push(Instr::C(Dest::DestA, Comp::CM, Jmp::JmpNone));
        v.push(Instr::C(Dest::DestM, Comp::CD, Jmp::JmpNone));
        let ghost head = seq![rem(header@)] + binary_math_instrs(op);
        proof {
            assert(views_of(v@) =~= head);
        }
        self.emit_all(&v);
        self.write_inc_sp();
        proof {
            lemma_render_seq_concat(head, inc_sp_instrs());
            assert(head + inc_sp_instrs() =~= seq![rem(header@)] + binary_math_instrs(op)
                + inc_sp_instrs());
            assert((old(self)@.output + render_seq(head)) + render_seq(inc_sp_instrs())
                =~= old(self)@.output + (render_seq(head) + render_seq(inc_sp_instrs())));
        }
    }

    /// Emits the comment header and body of a unary operator block.
    fn emit_unary_math(&mut self, header: &'static str, op: Comp)
        ensures
            final(self)@ == (GenState {
                output: old(self)@.output + render_seq(
                    seq![rem(header@)] + unary_math_instrs(op),
                ),
                ..old(self)@
            }),
    {
        let mut v: Vec<Instr> = Vec::new();
        v.push(Instr::Rem(String::from_str(header)));
        v.push(Instr::Addr(Target::Fixed(Reg::Sp)));
        v.push(Instr::C(Dest::DestA, Comp::CMMinusOne, Jmp::JmpNone));
        v.push(Instr::C(Dest::DestD, op, Jmp::JmpNone));
        v.push(Instr::Addr(Target::Fixed(Reg::Sp)));
        v.push(Instr::C(Dest::DestA, Comp::CMMinusOne, Jmp::JmpNone));
        v.push(Instr::C(Dest::DestM, Comp::CD, Jmp::JmpNone));
        proof {
            assert(views_of(v@) =~= seq![rem(header@)] + unary_math_instrs(op));
        }
        self.emit_all(&v);
    }

    /// Emits the comment header and body of a comparison block, and
    /// consumes one label counter value.
    fn emit_cmp_math(&mut self, header: &'static str, yes: &'static str, no: &'static str, j: Jmp)
        requires
            old(self).jump_index < usize::MAX,
        ensures
            final(self)@ == (GenState {
                output: old(self)@.output + render_seq(
                    seq![rem(header@)] + cmp_math_instrs(yes@, no@, j, old(self)@.jump_index),
                ),
                jump_index: old(self)@.jump_index + 1,
                ..old(self)@
            }),
    {
        let yes_l = make_cmp_label(yes, self.jump_index);
        let no_l = make_cmp_label(no, self.jump_index);
        let end_l = make_cmp_label("END", self.jump_index);
        let ghost idx = self.jump_index as nat;
        let mut v: Vec<Instr> = Vec::new();
        v.push(Instr::Rem(String::from_str(header)));
        v.push(Instr::Addr(Target::Fixed(Reg::Sp)));
        v.push(Instr::C(Dest::DestA, Comp::CMMinusOne, Jmp::JmpNone));
        v.push(Instr::C(Dest::DestD, Comp::CM, Jmp::JmpNone));
        v.push(Instr::Addr(Target::Fixed(Reg::R13)));
        v.push(Instr::C(Dest::DestM, Comp::CD, Jmp::JmpNone));
        v.push(Instr::Addr(Target::Fixed(Reg::Sp)));
        v.push(Instr::C(Dest::DestD, Comp::CMMinusOne, Jmp::JmpNone));
        v.push(Instr::C(Dest::DestD, Comp::CDMinusOne, Jmp::JmpNone));
        v.push(Instr::C(Dest::DestA, Comp::CD, Jmp::JmpNone));
        v.push(Instr::C(Dest::DestD, Comp::CM, Jmp::JmpNone));
        v.push(Instr::Addr(Target::Fixed(Reg::R13)));
        v.push(Instr::C(Dest::DestD, Comp::CDMinusM, Jmp::JmpNone));
        v.push(Instr::Addr(Target::Symbol(yes_l.clone())));
        v.push(Instr::C(Dest::DestNone, Comp::CD, j));
        v.push(Instr::Addr(Target::Symbol(no_l.clone())));
        v.push(Instr::C(Dest::DestNone, Comp::CZero, Jmp::Jump));
        v.push(Instr::Lbl(yes_l));
        v.push(Instr::C(Dest::DestD, Comp::CNegOne, Jmp::JmpNone));
        v.push(Instr::Addr(Target::Fixed(Reg::Sp)));
        v.push(Instr::C(Dest::DestM, Comp::CMMinusOne, Jmp::JmpNone));
        v.push(Instr::C(Dest::DestM, Comp::CMMinusOne, Jmp::JmpNone));
        v.push(Instr::Addr(Target::Fixed(Reg::Sp)));
        v.push(Instr::C(Dest::DestA, Comp::CM, Jmp::JmpNone));
        v.push(Instr::C(Dest::DestM, Comp::CD, Jmp::JmpNone));
        v.push(Instr::Addr(Target::Symbol(end_l.clone())));
        v.push(Instr::C(Dest::DestNone, Comp::CZero, Jmp::Jump));
        v.push(Instr::Lbl(no_l));
        v.push(Instr::C(Dest::DestD, Comp::CZero, Jmp::JmpNone));
        v.push(Instr::Addr(Target::Fixed(Reg::Sp)));
        v.push(Instr::C(Dest::DestM, Comp::CMMinusOne, Jmp::JmpNone));
        v.push(Instr::C(Dest::DestM, Comp::CMMinusOne, Jmp::JmpNone));
        v.push(Instr::Addr(Target::Fixed(Reg::Sp)));
        v.push(Instr::C(Dest::DestA, Comp::CM, Jmp::JmpNone));
        v.push(Instr::C(Dest::DestM, Comp::CD, Jmp::JmpNone));
        v.push(Instr::Lbl(end_l));
        v.push(Instr::Addr(Target::Fixed(Reg::Sp)));
        v.push(Instr::C(Dest::DestM, Comp::CMPlusOne, Jmp::JmpNone));
        proof {
            assert(views_of(v@) =~= seq![rem(header@)] + cmp_math_instrs(yes@, no@, j, idx));
        }
        self.jump_index = self.jump_index + 1;
        self.emit_all(&v);
    }

    /// Emits the block of one arithmetic or logical command.  A
    /// comparison consumes one label counter value; no other generator
    /// state changes.
    pub fn write_math(&mut self, command: MathCommand)
        requires
            old(self).jump_index < usize::MAX,
        ensures
            final(self)@ == (GenState {
                output: old(self)@.output + render_seq(
                    math_instrs(command, old(self)@.jump_index),
                ),
                jump_index: old(self)@.jump_index + jump_bump(command),
                ..old(self)@
            }),
    {
        match command {
            MathCommand::Add => self.emit_binary_math("add", Comp::CDPlusM),
            MathCommand::Subtract => self.emit_binary_math("sub", Comp::CDMinusM),
            MathCommand::And => self.emit_binary_math("and", Comp::CDAndM),
            MathCommand::Or => self.emit_binary_math("or", Comp::CDOrM),
            MathCommand::Negate => self.emit_unary_math("negate", Comp::CNegM),
            MathCommand::Not => self.emit_unary_math("logical not", Comp::CNotM),
            MathCommand::EqualTo => self.emit_cmp_math("eq", "EQ", "NEQ", Jmp::Jeq),
            MathCommand::GreaterThan => self.emit_cmp_math("gt", "GT", "NGT", Jmp::Jgt),
            MathCommand::LessThan => self.emit_cmp_math("lt", "LT", "NLT", Jmp::Jlt),
        }
    }
}

/// The dedicated cell that holds a dynamic segment's base address.
pub open spec fn seg_reg(seg: MemorySegment) -> Reg {
    match seg {
        MemorySegment::Argument => Reg::Arg,
        MemorySegment::Local => Reg::Lcl,
        MemorySegment::This => Reg::This,
        MemorySegment::That => Reg::That,
        _ => Reg::Sp,
    }
}

/// Whether a segment's base lives in a dedicated cell re-based on
/// every call.
pub open spec fn is_dynamic_seg(seg: MemorySegment) -> bool {
    seg == MemorySegment::Argument || seg == MemorySegment::Local || seg == MemorySegment::This
        || seg == MemorySegment::That
}

/// The comment header of a push block.
pub open spec fn push_comment(seg: MemorySegment, idx: nat) -> Seq<char> {
    match seg {
        MemorySegment::Argument => "push arg "@ + dec_text(idx),
        MemorySegment::Local => "push local "@ + dec_text(idx),
        MemorySegment::Static => "push static "@ + dec_text(idx),
        MemorySegment::Constant => "push constant "@ + dec_text(idx),
        MemorySegment::This => "push this "@ + dec_text(idx),
        MemorySegment::That => "push that "@ + dec_text(idx),
        MemorySegment::Pointer => "push pointer "@ + dec_text(idx),
        MemorySegment::Temp => "push temp "@ + dec_text(idx),
    }
}

/// The comment header of a pop block.
pub open spec fn pop_comment(seg: MemorySegment, idx: nat) -> Seq<char> {
    match seg {
        MemorySegment::Argument => "pop argument "@ + dec_text(idx),
        MemorySegment::Local => "pop local "@ + dec_text(idx),
        MemorySegment::Static => "pop static "@ + dec_text(idx),
        MemorySegment::Constant => "pop constant "@ + dec_text(idx),
        MemorySegment::This => "pop this "@ + dec_text(idx),
        MemorySegment::That => "pop that "@ + dec_text(idx),
        MemorySegment::Pointer => "pop pointer "@ + dec_text(idx),
        MemorySegment::Temp => "pop temp "@ + dec_text(idx),
    }
}

/// The block a push command emits: compute the source value into the
/// data register, store it at the stack top, advance the stack
/// pointer.
pub open spec fn push_instrs(seg: MemorySegment, idx: u16, ns: Seq<char>) -> Seq<InstrV> {
    if is_dynamic_seg(seg) {
        seq![
            rem(push_comment(seg, idx as nat)),
            a_num(idx),
            c_ins(Dest::DestD, Comp::CA),
            a_reg(seg_reg(seg)),
            c_ins(Dest::DestA, Comp::CDPlusM),
            c_ins(Dest::DestD, Comp::CM),
        ] + dreg_to_stack_instrs() + inc_sp_instrs()
    } else if seg == MemorySegment::Static {
        seq![
            rem(push_comment(seg, idx as nat)),
            a_sym(static_symbol_text(ns, idx as nat)),
            c_ins(Dest::DestD, Comp::CM),
        ] + dreg_to_stack_instrs() + inc_sp_instrs()
    } else if seg == MemorySegment::Constant {
        seq![rem(push_comment(seg, idx as nat)), a_num(idx), c_ins(Dest::DestD, Comp::CA)]
            + dreg_to_stack_instrs() + inc_sp_instrs()
    } else {
        // pointer and temp: a fixed base plus the index
        let base: u16 = if seg == MemorySegment::Pointer {
            3
        } else {
            5
        };
        seq![
            rem(push_comment(seg, idx as nat)),
            a_num(idx),
            c_ins(Dest::DestD, Comp::CA),
            a_num(base),
            c_ins(Dest::DestA, Comp::CDPlusA),
            c_ins(Dest::DestD, Comp::CM),
        ] + dreg_to_stack_instrs() + inc_sp_instrs()
    }
}

/// The block a pop command emits: compute the destination address into
/// the scratch cell, copy the top stack item to it, retreat the stack
/// pointer.  A pop never targets the constant segment.
pub open spec fn pop_instrs(seg: MemorySegment, idx: u16, ns: Seq<char>) -> Seq<InstrV> {
    if is_dynamic_seg(seg) {
        seq![
            rem(pop_comment(seg, idx as nat)),
            a_num(idx),
            c_ins(Dest::DestD, Comp::CA),
            a_reg(seg_reg(seg)),
            c_ins(Dest::DestD, Comp::CDPlusM),
            a_reg(Reg::R13),
            c_ins(Dest::DestM, Comp::CD),
        ] + copy_head_instrs(Reg::R13) + dec_sp_instrs()
    } else if seg == MemorySegment::Static {
        seq![
            rem(pop_comment(seg, idx as nat)),
            a_reg(Reg::Sp),
            c_ins(Dest::DestA, Comp::CMMinusOne),
            c_ins(Dest::DestD, Comp::CM),
            a_sym(static_symbol_text(ns, idx as nat)),
            c_ins(Dest::DestM, Comp::CD),
        ] + dec_sp_instrs()
    } else if seg == MemorySegment::Constant {
        Seq::empty()
    } else {
        let base: u16 = if seg == MemorySegment::Pointer {
            3
        } else {
            5
        };
        seq![
            rem(pop_comment(seg, idx as nat)),
            a_num(idx),
            c_ins(Dest::DestD, Comp::CA),
            a_num(base),
            c_ins(Dest::DestD, Comp::CDPlusA),
            a_reg(Reg::R13),
            c_ins(Dest::DestM, Comp::CD),
        ] + copy_head_instrs(Reg::R13) + dec_sp_instrs()
    }
}

/// The block a memory-access command emits.
pub open spec fn push_pop_instrs(
    command: MemoryCommand,
    seg: MemorySegment,
    idx: u16,
    ns: Seq<char>,
) -> Seq<InstrV> {
    match command {
        MemoryCommand::Push => push_instrs(seg, idx, ns),
        MemoryCommand::Pop => pop_instrs(seg, idx, ns),
    }
}

impl Writer {
    /// Emits the address computation of a push from a dynamic segment,
    /// then the store and the stack pointer advance.
    fn emit_push_dynamic(&mut self, prefix: &'static str, r: Reg, index: usize)
        requires
            index < 32768,
        ensures
            final(self)@ == (GenState {
                output: old(self)@.output + render_seq(
                    seq![
                        rem(prefix@ + dec_text(index as nat)),
                        a_num(index as u16),
                        c_ins(Dest::DestD, Comp::CA),
                        a_reg(r),
                        c_ins(Dest::DestA, Comp::CDPlusM),
                        c_ins(Dest::DestD, Comp::CM),
                    ] + dreg_to_stack_instrs() + inc_sp_instrs(),
                ),
                ..old(self)@
            }),
    {
        let mut header = String::from_str(prefix);
        let digits = usize_to_string(index);
        header.append(digits.as_str());
        let mut v: Vec<Instr> = Vec::new();
        v.push(Instr::Rem(header));
        v.push(Instr::Addr(Target::Num(index as u16)));
        v.push(Instr::C(Dest::DestD, Comp::CA, Jmp::JmpNone));
        v.push(Instr::Addr(Target::Fixed(r)));
        v.push(Instr::C(Dest::DestA, Comp::CDPlusM, Jmp::JmpNone));
        v.push(Instr::C(Dest::DestD, Comp::CM, Jmp::JmpNone));
        let ghost head = seq![
            rem(prefix@ + dec_text(index as nat)),
            a_num(index as u16),
            c_ins(Dest::DestD, Comp::CA),
            a_reg(r),
            c_ins(Dest::DestA, Comp::CDPlusM),
            c_ins(Dest::DestD, Comp::CM),
        ];
        proof {
            assert(views_of(v@) =~= head);
        }
        self.emit_all(&v);
        self.write_dreg_to_stack();
        self.write_inc_sp();
        proof {
            lemma_render_seq_concat(head, dreg_to_stack_instrs());
            lemma_render_seq_concat(head + dreg_to_stack_instrs(), inc_sp_instrs());
            assert(final(self)@.output =~= old(self)@.output + render_seq(
                (head + dreg_to_stack_instrs()) + inc_sp_instrs(),
            ));
            assert((head + dreg_to_stack_instrs()) + inc_sp_instrs() =~= head
                + dreg_to_stack_instrs() + inc_sp_instrs());
        }
    }

    /// Emits the address computation of a push from a fixed-offset
    /// segment, then the store and the stack pointer advance.
    fn emit_push_fixed(&mut self, prefix: &'static str, base: u16, index: usize)
        requires
            index < 32768,
        ensures
            final(self)@ == (GenState {
                output: old(self)@.output + render_seq(
                    seq![
                        rem(prefix@ + dec_text(index as nat)),
                        a_num(index as u16),
                        c_ins(Dest::DestD, Comp::CA),
                        a_num(base),
                        c_ins(Dest::DestA, Comp::CDPlusA),
                        c_ins(Dest::DestD, Comp::CM),
                    ] + dreg_to_stack_instrs() + inc_sp_instrs(),
                ),
                ..old(self)@
            }),
    {
        let mut header = String::from_str(prefix);
        let digits = usize_to_string(index);
        header.append(digits.as_str());
        let mut v: Vec<Instr> = Vec::new();
        v.push(Instr::Rem(header));
        v.push(Instr::Addr(Target::Num(index as u16)));
        v.push(Instr::C(Dest::DestD, Comp::CA, Jmp::JmpNone));
        v.push(Instr::Addr(Target::Num(base)));
        v.push(Instr::C(Dest::DestA, Comp::CDPlusA, Jmp::JmpNone));
        v.push(Instr::C(Dest::DestD, Comp::CM, Jmp::JmpNone));
        let ghost head = seq![
            rem(prefix@ + dec_text(index as nat)),
            a_num(index as u16),
            c_ins(Dest::DestD, Comp::CA),
            a_num(base),
            c_ins(Dest::DestA, Comp::CDPlusA),
            c_ins(Dest::DestD, Comp::CM),
        ];
        proof {
            assert(views_of(v@) =~= head);
        }
        self.emit_all(&v);
        self.write_dreg_to_stack();
        self.write_inc_sp();
        proof {
            lemma_render_seq_concat(head, dreg_to_stack_instrs());
            lemma_render_seq_concat(head + dreg_to_stack_instrs(), inc_sp_instrs());
            assert(final(self)@.output =~= old(self)@.output + render_seq(
                (head + dreg_to_stack_instrs()) + inc_sp_instrs(),
            ));
            assert((head + dreg_to_stack_instrs()) + inc_sp_instrs() =~= head
                + dreg_to_stack_instrs() + inc_sp_instrs());
        }
    }

    /// Emits the address computation of a pop into a dynamic segment,
    /// then the copy and the stack pointer retreat.
    fn emit_pop_dynamic(&mut self, prefix: &'static str, r: Reg, index: usize)
        requires
            index < 32768,
        ensures
            final(self)@ == (GenState {
                output: old(self)@.output + render_seq(
                    seq![
                        rem(prefix@ + dec_text(index as nat)),
                        a_num(index as u16),
                        c_ins(Dest::DestD, Comp::CA),
                        a_reg(r),
                        c_ins(Dest::DestD, Comp::CDPlusM),
                        a_reg(Reg::R13),
                        c_ins(Dest::DestM, Comp::CD),
                    ] + copy_head_instrs(Reg::R13) + dec_sp_instrs(),
                ),
                ..old(self)@
            }),
    {
        let mut header = String::from_str(prefix);
        let digits = usize_to_string(index);
        header.append(digits.as_str());
        let mut v: Vec<Instr> = Vec::new();
        v.push(Instr::Rem(header));
        v.push(Instr::Addr(Target::Num(index as u16)));
        v.push(Instr::C(Dest::DestD, Comp::CA, Jmp::JmpNone));
        v.push(Instr::Addr(Target::Fixed(r)));
        v.push(Instr::C(Dest::DestD, Comp::CDPlusM, Jmp::JmpNone));
        v.push(Instr::Addr(Target::Fixed(Reg::R13)));
        v.push(Instr::C(Dest::DestM, Comp::CD, Jmp::JmpNone));
        let ghost head = seq![
            rem(prefix@ + dec_text(index as nat)),
            a_num(index as u16),
            c_ins(Dest::DestD, Comp::CA),
            a_reg(r),
            c_ins(Dest::DestD, Comp::CDPlusM),
            a_reg(Reg::R13),
            c_ins(Dest::DestM, Comp::CD),
        ];
        proof {
            assert(views_of(v@) =~= head);
        }
        self.emit_all(&v);
        self.write_copy_stack_head_indirect(Reg::R13);
        self.write_dec_sp();
        proof {
            lemma_render_seq_concat(head, copy_head_instrs(Reg::R13));
            lemma_render_seq_concat(head + copy_head_instrs(Reg::R13), dec_sp_instrs());
            assert(final(self)@.output =~= old(self)@.output + render_seq(
                (head + copy_head_instrs(Reg::R13)) + dec_sp_instrs(),
            ));
            assert((head + copy_head_instrs(Reg::R13)) + dec_sp_instrs() =~= head
                + copy_head_instrs(Reg::R13) + dec_sp_instrs());
        }
    }

    /// Emits the address computation of a pop into a fixed-offset
    /// segment, then the copy and the stack pointer retreat.
    fn emit_pop_fixed(&mut self, prefix: &'static str, base: u16, index: usize)
        requires
            index < 32768,
        ensures
            final(self)@ == (GenState {
                output: old(self)@.output + render_seq(
                    seq![
                        rem(prefix@ + dec_text(index as nat)),
                        a_num(index as u16),
                        c_ins(Dest::DestD, Comp::CA),
                        a_num(base),
                        c_ins(Dest::DestD, Comp::CDPlusA),
                        a_reg(Reg::R13),
                        c_ins(Dest::DestM, Comp::CD),
                    ] + copy_head_instrs(Reg::R13) + dec_sp_instrs(),
                ),
                ..old(self)@
            }),
    {
        let mut header = String::from_str(prefix);
        let digits = usize_to_string(index);
        header.append(digits.as_str());
        let mut v: Vec<Instr> = Vec::new();
        v.push(Instr::Rem(header));
        v.push(Instr::Addr(Target::Num(index as u16)));
        v.push(Instr::C(Dest::DestD, Comp::CA, Jmp::JmpNone));
        v.push(Instr::Addr(Target::Num(base)));
        v.push(Instr::C(Dest::DestD, Comp::CDPlusA, Jmp::JmpNone));
        v.push(Instr::Addr(Target::Fixed(Reg::R13)));
        v.push(Instr::C(Dest::DestM, Comp::CD, Jmp::JmpNone));
        let ghost head = seq![
            rem(prefix@ + dec_text(index as nat)),
            a_num(index as u16),
            c_ins(Dest::DestD, Comp::CA),
            a_num(base),
            c_ins(Dest::DestD, Comp::CDPlusA),
            a_reg(Reg::R13),
            c_ins(Dest::DestM, Comp::CD),
        ];
        proof {
            assert(views_of(v@) =~= head);
        }
        self.emit_all(&v);
        self.write_copy_stack_head_indirect(Reg::R13);
        self.write_dec_sp();
        proof {
            lemma_render_seq_concat(head, copy_head_instrs(Reg::R13));
            lemma_render_seq_concat(head + copy_head_instrs(Reg::R13), dec_sp_instrs());
            assert(final(self)@.output =~= old(self)@.output + render_seq(
                (head + copy_head_instrs(Reg::R13)) + dec_sp_instrs(),
            ));
            assert((head + copy_head_instrs(Reg::R13)) + dec_sp_instrs() =~= head
                + copy_head_instrs(Reg::R13) + dec_sp_instrs());
        }
    }

    /// Emits the block of one memory-access command.  Popping to the
    /// constant segment is rejected at generation time with
    /// `InvalidTarget` and leaves the generator unchanged; every other
    /// combination succeeds.
    pub fn write_push_pop(&mut self, command: MemoryCommand, segment: MemorySegment, index: usize)
        -> (r: Result<(), TranslateError>)
        requires
            index < 32768,
        ensures
            r is Err <==> (command == MemoryCommand::Pop && segment == MemorySegment::Constant),
            r matches Err(e) ==> e matches TranslateError::InvalidTarget(l) && l@
                == Seq::<char>::empty() && final(self)@ == old(self)@,
            r is Ok ==> final(self)@ == (GenState {
                output: old(self)@.output + render_seq(
                    push_pop_instrs(command, segment, index as u16, old(self)@.namespace),
                ),
                ..old(self)@
            }),
    {
        match command {
            MemoryCommand::Push => {
                match segment {
                    MemorySegment::Argument => self.emit_push_dynamic("push arg ", Reg::Arg, index),
                    MemorySegment::Local => self.emit_push_dynamic("push local ", Reg::Lcl, index),
                    MemorySegment::This => self.emit_push_dynamic("push this ", Reg::This, index),
                    MemorySegment::That => self.emit_push_dynamic("push that ", Reg::That, index),
                    MemorySegment::Pointer => self.emit_push_fixed("push pointer ", 3, index),
                    MemorySegment::Temp => self.emit_push_fixed("push temp ", 5, index),
                    MemorySegment::Static => {
                        let mut header = String::from_str("push static ");
                        let digits = usize_to_string(index);
                        header.append(digits.as_str());
                        let sym = make_static_symbol(self.namespace.as_str(), index);
                        let mut v: Vec<Instr> = Vec::new();
                        v.push(Instr::Rem(header));
                        v.push(Instr::Addr(Target::Symbol(sym)));
                        v.push(Instr::C(Dest::DestD, Comp::CM, Jmp::JmpNone));
                        let ghost head = seq![
                            rem(push_comment(segment, index as nat)),
                            a_sym(static_symbol_text(old(self)@.namespace, index as nat)),
                            c_ins(Dest::DestD, Comp::CM),
                        ];
                        proof {
                            assert(views_of(v@) =~= head);
                        }
                        self.emit_all(&v);
                        self.write_dreg_to_stack();
                        self.write_inc_sp();
                        proof {
                            lemma_render_seq_concat(head, dreg_to_stack_instrs());
                            lemma_render_seq_concat(head + dreg_to_stack_instrs(), inc_sp_instrs());
                            assert(final(self)@.output =~= old(self)@.output + render_seq(
                                (head + dreg_to_stack_instrs()) + inc_sp_instrs(),
                            ));
                            assert((head + dreg_to_stack_instrs()) + inc_sp_instrs() =~= head
                                + dreg_to_stack_instrs() + inc_sp_instrs());
                        }
                    },
                    MemorySegment::Constant => {
                        let mut header = String::from_str("push constant ");
                        let digits = usize_to_string(index);
                        header.append(digits.as_str());
                        let mut v: Vec<Instr> = Vec::new();
                        v.push(Instr::Rem(header));
                        v.push(Instr::Addr(Target::Num(index as u16)));
                        v.push(Instr::C(Dest::DestD, Comp::CA, Jmp::JmpNone));
                        let ghost head = seq![
                            rem(push_comment(segment, index as nat)),
                            a_num(index as u16),
                            c_ins(Dest::DestD, Comp::CA),
                        ];
                        proof {
                            assert(views_of(v@) =~= head);
                        }
                        self.emit_all(&v);
                        self.write_dreg_to_stack();
                        self.write_inc_sp();
                        proof {
                            lemma_render_seq_concat(head, dreg_to_stack_instrs());
                            lemma_render_seq_concat(head + dreg_to_stack_instrs(), inc_sp_instrs());
                            assert(final(self)@.output =~= old(self)@.output + render_seq(
                                (head + dreg_to_stack_instrs()) + inc_sp_instrs(),
                            ));
                            assert((head + dreg_to_stack_instrs()) + inc_sp_instrs() =~= head
                                + dreg_to_stack_instrs() + inc_sp_instrs());
                        }
                    },
                }
                Ok(())
            },
            MemoryCommand::Pop => {
                match segment {
                    MemorySegment::Constant => {
                        return Err(TranslateError::InvalidTarget(String::new()));
                    },
                    MemorySegment::Argument => self.emit_pop_dynamic(
                        "pop argument ",
                        Reg::Arg,
                        index,
                    ),
                    MemorySegment::Local => self.emit_pop_dynamic("pop local ", Reg::Lcl, index),
                    MemorySegment::This => self.emit_pop_dynamic("pop this ", Reg::This, index),
                    MemorySegment::That => self.emit_pop_dynamic("pop that ", Reg::That, index),
                    MemorySegment::Pointer => self.emit_pop_fixed("pop pointer ", 3, index),
                    MemorySegment::Temp => self.emit_pop_fixed("pop temp ", 5, index),
                    MemorySegment::Static => {
                        let mut header = String::from_str("pop static ");
                        let digits = usize_to_string(index);
                        header.append(digits.as_str());
                        let sym = make_static_symbol(self.namespace.as_str(), index);
                        let mut v: Vec<Instr> = Vec::new();
                        v.push(Instr::Rem(header));
                        v.push(Instr::Addr(Target::Fixed(Reg::Sp)));
                        v.push(Instr::C(Dest::DestA, Comp::CMMinusOne, Jmp::JmpNone));
                        v.push(Instr::C(Dest::DestD, Comp::CM, Jmp::JmpNone));
                        v.push(Instr::Addr(Target::Symbol(sym)));
                        v.push(Instr::C(Dest::DestM, Comp::CD, Jmp::JmpNone));
                        let ghost head = seq![
                            rem(pop_comment(segment, index as nat)),
                            a_reg(Reg::Sp),
                            c_ins(Dest::DestA, Comp::CMMinusOne),
                            c_ins(Dest::DestD, Comp::CM),
                            a_sym(static_symbol_text(old(self)@.namespace, index as nat)),
                            c_ins(Dest::DestM, Comp::CD),
                        ];
                        proof {
                            assert(views_of(v@) =~= head);
                        }
                        self.emit_all(&v);
                        self.write_dec_sp();
                        proof {
                            lemma_render_seq_concat(head, dec_sp_instrs());
                            assert(final(self)@.output =~= old(self)@.output + render_seq(
                                head + dec_sp_instrs(),
                            ));
                        }
                    },
                }
                Ok(())
            },
        }
    }
}

/// The block of a conditional branch: pop the top of the stack, then
/// jump to the label when the popped value is non-zero.
pub open spec fn if_goto_instrs(label: Seq<char>) -> Seq<InstrV> {
    seq![
        rem("if-goto "@ + label),
        a_reg(Reg::Sp),
        c_ins(Dest::DestA, Comp::CMMinusOne),
        c_ins(Dest::DestD, Comp::CM),
        a_reg(Reg::Sp),
        c_ins(Dest::DestM, Comp::CMMinusOne),
        a_sym(label),
        j_ins(Comp::CD, Jmp::Jne),
    ]
}

/// The block of an unconditional branch.
pub open spec fn goto_instrs(label: Seq<char>) -> Seq<InstrV> {
    seq![rem("goto "@ + label), a_sym(label), j_ins(Comp::CZero, Jmp::Jump)]
}

/// The block of a label declaration.
pub open spec fn label_instrs(label: Seq<char>) -> Seq<InstrV> {
    seq![rem("label "@ + label), InstrV::Lbl(label)]
}

/// The zero-initialization of one local slot.
pub open spec fn init_local_instrs() -> Seq<InstrV> {
    seq![
        rem("init local"@),
        a_num(0),
        c_ins(Dest::DestD, Comp::CA),
        a_reg(Reg::Sp),
        c_ins(Dest::DestA, Comp::CM),
        c_ins(Dest::DestM, Comp::CD),
        a_reg(Reg::Sp),
        c_ins(Dest::DestM, Comp::CMPlusOne),
    ]
}

/// The zero-initialization of `n` local slots.
pub open spec fn init_locals_instrs(n: nat) -> Seq<InstrV>
    decreases n,
{
    if n == 0 {
        Seq::empty()
    } else {
        init_locals_instrs((n - 1) as nat) + init_local_instrs()
    }
}

/// The block of a function declaration: the global entry label, then
/// one zero push per declared local.
pub open spec fn function_instrs(name: Seq<char>, n: nat) -> Seq<InstrV> {
    seq![rem("function "@ + name + " "@ + dec_text(n)), InstrV::Lbl(name)]
        + init_locals_instrs(n)
}

/// The block of a call site under call counter value `ret_idx`: push
/// the return address and the four saved bases, re-base the argument
/// and local segments, jump to the callee, and declare the return
/// label.
pub open spec fn call_instrs(name: Seq<char>, ns: Seq<char>, ret_idx: nat, num_args: u16) -> Seq<
    InstrV,
> {
    seq![
        a_sym(return_label_text(name, ns, ret_idx)),
        c_ins(Dest::DestD, Comp::CA),
        a_reg(Reg::Sp),
        c_ins(Dest::DestA, Comp::CM),
        c_ins(Dest::DestM, Comp::CD),
        a_reg(Reg::Sp),
        c_ins(Dest::DestM, Comp::CMPlusOne),
        a_reg(Reg::Lcl),
        c_ins(Dest::DestD, Comp::CM),
        a_reg(Reg::Sp),
        c_ins(Dest::DestA, Comp::CM),
        c_ins(Dest::DestM, Comp::CD),
        a_reg(Reg::Sp),
        c_ins(Dest::DestM, Comp::CMPlusOne),
        a_reg(Reg::Arg),
        c_ins(Dest::DestD, Comp::CM),
        a_reg(Reg::Sp),
        c_ins(Dest::DestA, Comp::CM),
        c_ins(Dest::DestM, Comp::CD),
        a_reg(Reg::Sp),
        c_ins(Dest::DestM, Comp::CMPlusOne),
        a_reg(Reg::This),
        c_ins(Dest::DestD, Comp::CM),
        a_reg(Reg::Sp),
        c_ins(Dest::DestA, Comp::CM),
        c_ins(Dest::DestM, Comp::CD),
        a_reg(Reg::Sp),
        c_ins(Dest::DestM, Comp::CMPlusOne),
        a_reg(Reg::That),
        c_ins(Dest::DestD, Comp::CM),
        a_reg(Reg::Sp),
        c_ins(Dest::DestA, Comp::CM),
        c_ins(Dest::DestM, Comp::CD),
        a_reg(Reg::Sp),
        c_ins(Dest::DestM, Comp::CMPlusOne),
        a_reg(Reg::Sp),
        c_ins(Dest::DestD, Comp::CM),
        a_num(num_args),
        c_ins(Dest::DestD, Comp::CDMinusA),
        a_num(5),
        c_ins(Dest::DestD, Comp::CDMinusA),
        a_reg(Reg::Arg),
        c_ins(Dest::DestM, Comp::CD),
        a_reg(Reg::Sp),
        c_ins(Dest::DestD, Comp::CM),
        a_reg(Reg::Lcl),
        c_ins(Dest::DestM, Comp::CD),
        rem("goto "@ + name),
        a_sym(name),
        j_ins(Comp::CZero, Jmp::Jump),
        InstrV::Lbl(return_label_text(name, ns, ret_idx)),
    ]
}

/// The block of a function return: snapshot the frame base, recover
/// the return address, place the return value, restore the caller's
/// stack pointer and segment bases, and jump back.
pub open spec fn return_instrs() -> Seq<InstrV> {
    seq![
        rem("return"@),
        rem("Store the base of the current frame in R13"@),
        a_reg(Reg::Lcl),
        c_ins(Dest::DestD, Comp::CM),
        a_reg(Reg::R13),
        c_ins(Dest::DestM, Comp::CD),
        rem("Store the return-address in R14"@),
        a_reg(Reg::R13),
        c_ins(Dest::DestD, Comp::CM),
        a_num(5),
        c_ins(Dest::DestA, Comp::CDMinusA),
        c_ins(Dest::DestD, Comp::CM),
        a_reg(Reg::R14),
        c_ins(Dest::DestM, Comp::CD),
        rem("Put the return value on top of the caller's stack"@),
        a_reg(Reg::Sp),
        c_ins(Dest::DestA, Comp::CMMinusOne),
        c_ins(Dest::DestD, Comp::CM),
        a_reg(Reg::Arg),
        c_ins(Dest::DestA, Comp::CM),
        c_ins(Dest::DestM, Comp::CD),
        rem("Restore SP of caller"@),
        a_reg(Reg::Arg),
        c_ins(Dest::DestD, Comp::CM),
        a_reg(Reg::Sp),
        c_ins(Dest::DestM, Comp::CDPlusOne),
        rem("Restore THAT of caller"@),
        a_reg(Reg::R13),
        c_ins(Dest::DestD, Comp::CM),
        a_num(1),
        c_ins(Dest::DestD, Comp::CDMinusA),
        c_ins(Dest::DestA, Comp::CD),
        c_ins(Dest::DestD, Comp::CM),
        a_reg(Reg::That),
        c_ins(Dest::DestM, Comp::CD),
        rem("Restore THIS of caller"@),
        a_reg(Reg::R13),
        c_ins(Dest::DestD, Comp::CM),
        a_num(2),
        c_ins(Dest::DestD, Comp::CDMinusA),
        c_ins(Dest::DestA, Comp::CD),
        c_ins(Dest::DestD, Comp::CM),
        a_reg(Reg::This),
        c_ins(Dest::DestM, Comp::CD),
        rem("Restore ARG of caller"@),
        a_reg(Reg::R13),
        c_ins(Dest::DestD, Comp::CM),
        a_num(3),
        c_ins(Dest::DestD, Comp::CDMinusA),
        c_ins(Dest::DestA, Comp::CD),
        c_ins(Dest::DestD, Comp::CM),
        a_reg(Reg::Arg),
        c_ins(Dest::DestM, Comp::CD),
        rem("Restore LCL of caller"@),
        a_reg(Reg::R13),
        c_ins(Dest::DestD, Comp::CM),
        a_num(4),
        c_ins(Dest::DestD, Comp::CDMinusA),
        c_ins(Dest::DestA, Comp::CD),
        c_ins(Dest::DestD, Comp::CM),
        a_reg(Reg::Lcl),
        c_ins(Dest::DestM, Comp::CD),
        rem("Goto return address"@),
        a_reg(Reg::R14),
        c_ins(Dest::DestA, Comp::CM),
        j_ins(Comp::CZero, Jmp::Jump),
    ]
}

/// The head of the bootstrap block: set the stack pointer to the fixed
/// stack base and the four segment bases to distinguishable sentinel
/// values.
pub open spec fn boot_head_instrs() -> Seq<InstrV> {
    seq![
        a_num(256),
        c_ins(Dest::DestD, Comp::CA),
        a_reg(Reg::Sp),
        c_ins(Dest::DestM, Comp::CD),
        a_num(1),
        c_ins(Dest::DestD, Comp::CNegA),
        a_reg(Reg::Lcl),
        c_ins(Dest::DestM, Comp::CD),
        a_num(2),
        c_ins(Dest::DestD, Comp::CNegA),
        a_reg(Reg::Arg),
        c_ins(Dest::DestM, Comp::CD),
        a_num(3),
        c_ins(Dest::DestD, Comp::CNegA),
        a_reg(Reg::This),
        c_ins(Dest::DestM, Comp::CD),
        a_num(4),
        c_ins(Dest::DestD, Comp::CNegA),
        a_reg(Reg::That),
        c_ins(Dest::DestM, Comp::CD),
    ]
}

/// The whole bootstrap block: stack pointer initialization followed by
/// a synthetic call of the program entry point with no arguments.
pub open spec fn boot_instrs(ns: Seq<char>, ret_idx: nat) -> Seq<InstrV> {
    boot_head_instrs() + call_instrs("Sys.init"@, ns, ret_idx, 0)
}

impl Writer {
    /// Emits the block of a conditional branch to an already scoped
    /// label: the top of the stack is popped unconditionally, then the
    /// jump is taken when it was non-zero.
    pub fn write_if(&mut self, label: &str)
        ensures
            final(self)@ == (GenState {
                output: old(self)@.output + render_seq(if_goto_instrs(label@)),
                ..old(self)@
            }),
    {
        let mut header = String::from_str("if-goto ");
        header.append(label);
        let mut v: Vec<Instr> = Vec::new();
        v.push(Instr::Rem(header));
        v.push(Instr::Addr(Target::Fixed(Reg::Sp)));
        v.push(Instr::C(Dest::DestA, Comp::CMMinusOne, Jmp::JmpNone));
        v.push(Instr::C(Dest::DestD, Comp::CM, Jmp::JmpNone));
        v.push(Instr::Addr(Target::Fixed(Reg::Sp)));
        v.push(Instr::C(Dest::DestM, Comp::CMMinusOne, Jmp::JmpNone));
        v.push(Instr::Addr(Target::Symbol(String::from_str(label))));
        v.push(Instr::C(Dest::DestNone, Comp::CD, Jmp::Jne));
        proof {
            assert(views_of(v@) =~= if_goto_instrs(label@));
        }
        self.emit_all(&v);
    }

    /// Emits the block of an unconditional branch to an already scoped
    /// label.
    pub fn write_goto(&mut self, label: &str)
        ensures
            final(self)@ == (GenState {
                output: old(self)@.output + render_seq(goto_instrs(label@)),
                ..old(self)@
            }),
    {
        let mut header = String::from_str("goto ");
        header.append(label);
        let mut v: Vec<Instr> = Vec::new();
        v.push(Instr::Rem(header));
        v.push(Instr::Addr(Target::Symbol(String::from_str(label))));
        v.push(Instr::C(Dest::DestNone, Comp::CZero, Jmp::Jump));
        proof {
            assert(views_of(v@) =~= goto_instrs(label@));
        }
        self.emit_all(&v);
    }

    /// Emits the declaration of an already scoped label.
    pub fn write_label(&mut self, label: &str)
        ensures
            final(self)@ == (GenState {
                output: old(self)@.output + render_seq(label_instrs(label@)),
                ..old(self)@
            }),
    {
        let mut header = String::from_str("label ");
        header.append(label);
        let mut v: Vec<Instr> = Vec::new();
        v.push(Instr::Rem(header));
        v.push(Instr::Lbl(String::from_str(label)));
        proof {
            assert(views_of(v@) =~= label_instrs(label@));
        }
        self.emit_all(&v);
    }

    /// Emits a function declaration: records the name for branch-label
    /// scoping, declares the global entry label, and zero-initializes
    /// the declared local slots.
    pub fn write_function(&mut self, name: &str, num_locals: usize)
        ensures
            final(self)@ == (GenState {
                output: old(self)@.output + render_seq(
                    function_instrs(name@, num_locals as nat),
                ),
                current_function: name@,
                ..old(self)@
            }),
    {
        self.current_function = String::from_str(name);
        let mut header = String::from_str("function ");
        header.append(name);
        header.append(" ");
        let digits = usize_to_string(num_locals);
        header.append(digits.as_str());
        let mut v: Vec<Instr> = Vec::new();
        v.push(Instr::Rem(header));
        v.push(Instr::Lbl(String::from_str(name)));
        let ghost head = seq![
            rem("function "@ + name@ + " "@ + dec_text(num_locals as nat)),
            InstrV::Lbl(name@),
        ];
        proof {
            assert(views_of(v@) =~= head);
        }
        self.emit_all(&v);
        let ghost base = self@;
        let mut k: usize = 0;
        proof {
            assert(init_locals_instrs(0) =~= Seq::<InstrV>::empty());
            assert(base.output + render_seq(init_locals_instrs(0)) =~= base.output);
        }
        while k < num_locals
            invariant
                0 <= k <= num_locals,
                self@ == (GenState {
                    output: base.output + render_seq(init_locals_instrs(k as nat)),
                    ..base
                }),
            decreases num_locals - k,
        {
            let mut w: Vec<Instr> = Vec::new();
            w.push(Instr::Rem(String::from_str("init local")));
            w.push(Instr::Addr(Target::Num(0)));
            w.push(Instr::C(Dest::DestD, Comp::CA, Jmp::JmpNone));
            w.push(Instr::Addr(Target::Fixed(Reg::Sp)));
            w.push(Instr::C(Dest::DestA, Comp::CM, Jmp::JmpNone));
            w.push(Instr::C(Dest::DestM, Comp::CD, Jmp::JmpNone));
            w.push(Instr::Addr(Target::Fixed(Reg::Sp)));
            w.push(Instr::C(Dest::DestM, Comp::CMPlusOne, Jmp::JmpNone));
            proof {
                assert(views_of(w@) =~= init_local_instrs());
            }
            self.emit_all(&w);
            proof {
                lemma_render_seq_concat(init_locals_instrs(k as nat), init_local_instrs());
                assert(init_locals_instrs(k as nat + 1) == init_locals_instrs(k as nat)
                    + init_local_instrs());
                assert((base.output + render_seq(init_locals_instrs(k as nat))) + render_seq(
                    init_local_instrs(),
                ) =~= base.output + (render_seq(init_locals_instrs(k as nat)) + render_seq(
                    init_local_instrs(),
                )));
            }
            k = k + 1;
        }
        proof {
            lemma_render_seq_concat(head, init_locals_instrs(num_locals as nat));
            assert(head + init_locals_instrs(num_locals as nat) =~= function_instrs(
                name@,
                num_locals as nat,
            ));
            assert((old(self)@.output + render_seq(head)) + render_seq(
                init_locals_instrs(num_locals as nat),
            ) =~= old(self)@.output + (render_seq(head) + render_seq(
                init_locals_instrs(num_locals as nat),
            )));
        }
    }

    /// Emits a call site: consumes one call counter value, whose
    /// incremented value stamps the synthesized return label.
    pub fn write_call(&mut self, name: &str, num_args: usize)
        requires
            old(self).return_index < usize::MAX,
            num_args < 32768,
        ensures
            final(self)@ == (GenState {
                output: old(self)@.output + render_seq(
                    call_instrs(
                        name@,
                        old(self)@.namespace,
                        old(self)@.return_index + 1,
                        num_args as u16,
                    ),
                ),
                return_index: old(self)@.return_index + 1,
                ..old(self)@
            }),
    {
        self.return_index = self.return_index + 1;
        let ret = make_return_label(name, self.namespace.as_str(), self.return_index);
        let mut goto_header = String::from_str("goto ");
        goto_header.append(name);
        let mut v: Vec<Instr> = Vec::new();
        v.push(Instr::Addr(Target::Symbol(ret.clone())));
        v.push(Instr::C(Dest::DestD, Comp::CA, Jmp::JmpNone));
        v.push(Instr::Addr(Target::Fixed(Reg::Sp)));
        v.push(Instr::C(Dest::DestA, Comp::CM, Jmp::JmpNone));
        v.push(Instr::C(Dest::DestM, Comp::CD, Jmp::JmpNone));
        v.push(Instr::Addr(Target::Fixed(Reg::Sp)));
        v.push(Instr::C(Dest::DestM, Comp::CMPlusOne, Jmp::JmpNone));
        v.push(Instr::Addr(Target::Fixed(Reg::Lcl)));
        v.push(Instr::C(Dest::DestD, Comp::CM, Jmp::JmpNone));
        v.push(Instr::Addr(Target::Fixed(Reg::Sp)));
        v.push(Instr::C(Dest::DestA, Comp::CM, Jmp::JmpNone));
        v.push(Instr::C(Dest::DestM, Comp::CD, Jmp::JmpNone));
        v.push(Instr::Addr(Target::Fixed(Reg::Sp)));
        v.push(Instr::C(Dest::DestM, Comp::CMPlusOne, Jmp::JmpNone));
        v.push(Instr::Addr(Target::Fixed(Reg::Arg)));
        v.push(Instr::C(Dest::DestD, Comp::CM, Jmp::JmpNone));
        v.push(Instr::Addr(Target::Fixed(Reg::Sp)));
        v.push(Instr::C(Dest::DestA, Comp::CM, Jmp::JmpNone));
        v.push(Instr::C(Dest::DestM, Comp::CD, Jmp::JmpNone));
        v.push(Instr::Addr(Target::Fixed(Reg::Sp)));
        v.push(Instr::C(Dest::DestM, Comp::CMPlusOne, Jmp::JmpNone));
        v.push(Instr::Addr(Target::Fixed(Reg::This)));
        v.push(Instr::C(Dest::DestD, Comp::CM, Jmp::JmpNone));
        v.push(Instr::Addr(Target::Fixed(Reg::Sp)));
        v.push(Instr::C(Dest::DestA, Comp::CM, Jmp::JmpNone));
        v.push(Instr::C(Dest::DestM, Comp::CD, Jmp::JmpNone));
        v.push(Instr::Addr(Target::Fixed(Reg::Sp)));
        v.push(Instr::C(Dest::DestM, Comp::CMPlusOne, Jmp::JmpNone));
        v.push(Instr::Addr(Target::Fixed(Reg::That)));
        v.push(Instr::C(Dest::DestD, Comp::CM, Jmp::JmpNone));
        v.push(Instr::Addr(Target::Fixed(Reg::Sp)));
        v.push(Instr::C(Dest::DestA, Comp::CM, Jmp::JmpNone));
        v.push(Instr::C(Dest::DestM, Comp::CD, Jmp::JmpNone));
        v.push(Instr::Addr(Target::Fixed(Reg::Sp)));
        v.push(Instr::C(Dest::DestM, Comp::CMPlusOne, Jmp::JmpNone));
        v.push(Instr::Addr(Target::Fixed(Reg::Sp)));
        v.push(Instr::C(Dest::DestD, Comp::CM, Jmp::JmpNone));
        v.push(Instr::Addr(Target::Num(num_args as u16)));
        v.push(Instr::C(Dest::DestD, Comp::CDMinusA, Jmp::JmpNone));
        v.push(Instr::Addr(Target::Num(5)));
        v.push(Instr::C(Dest::DestD, Comp::CDMinusA, Jmp::JmpNone));
        v.push(Instr::Addr(Target::Fixed(Reg::Arg)));
        v.push(Instr::C(Dest::DestM, Comp::CD, Jmp::JmpNone));
        v.push(Instr::Addr(Target::Fixed(Reg::Sp)));
        v.push(Instr::C(Dest::DestD, Comp::CM, Jmp::JmpNone));
        v.push(Instr::Addr(Target::Fixed(Reg::Lcl)));
        v.push(Instr::C(Dest::DestM, Comp::CD, Jmp::JmpNone));
        v.push(Instr::Rem(goto_header));
        v.push(Instr::Addr(Target::Symbol(String::from_str(name))));
        v.push(Instr::C(Dest::DestNone, Comp::CZero, Jmp::Jump));
        v.push(Instr::Lbl(ret));
        proof {
            assert(views_of(v@) =~= call_instrs(
                name@,
                old(self)@.namespace,
                old(self)@.return_index + 1,
                num_args as u16,
            ));
        }
        self.emit_all(&v);
    }

    /// Emits the return protocol of the current function.
    pub fn write_return(&mut self)
        ensures
            final(self)@ == (GenState {
                output: old(self)@.output + render_seq(return_instrs()),
                ..old(self)@
            }),
    {
        let mut v: Vec<Instr> = Vec::new();
        v.push(Instr::Rem(String::from_str("return")));
        v.push(Instr::Rem(String::from_str("Store the base of the current frame in R13")));
        v.push(Instr::Addr(Target::Fixed(Reg::Lcl)));
        v.push(Instr::C(Dest::DestD, Comp::CM, Jmp::JmpNone));
        v.push(Instr::Addr(Target::Fixed(Reg::R13)));
        v.push(Instr::C(Dest::DestM, Comp::CD, Jmp::JmpNone));
        v.push(Instr::Rem(String::from_str("Store the return-address in R14")));
        v.push(Instr::Addr(Target::Fixed(Reg::R13)));
        v.push(Instr::C(Dest::DestD, Comp::CM, Jmp::JmpNone));
        v.push(Instr::Addr(Target::Num(5)));
        v.push(Instr::C(Dest::DestA, Comp::CDMinusA, Jmp::JmpNone));
        v.push(Instr::C(Dest::DestD, Comp::CM, Jmp::JmpNone));
        v.push(Instr::Addr(Target::Fixed(Reg::R14)));
        v.push(Instr::C(Dest::DestM, Comp::CD, Jmp::JmpNone));
        v.push(Instr::Rem(String::from_str("Put the return value on top of the caller's stack")));
        v.push(Instr::Addr(Target::Fixed(Reg::Sp)));
        v.push(Instr::C(Dest::DestA, Comp::CMMinusOne, Jmp::JmpNone));
        v.push(Instr::C(Dest::DestD, Comp::CM, Jmp::JmpNone));
        v.push(Instr::Addr(Target::Fixed(Reg::Arg)));
        v.push(Instr::C(Dest::DestA, Comp::CM, Jmp::JmpNone));
        v.push(Instr::C(Dest::DestM, Comp::CD, Jmp::JmpNone));
        v.push(Instr::Rem(String::from_str("Restore SP of caller")));
        v.push(Instr::Addr(Target::Fixed(Reg::Arg)));
        v.push(Instr::C(Dest::DestD, Comp::CM, Jmp::JmpNone));
        v.push(Instr::Addr(Target::Fixed(Reg::Sp)));
        v.push(Instr::C(Dest::DestM, Comp::CDPlusOne, Jmp::JmpNone));
        v.push(Instr::Rem(String::from_str("Restore THAT of caller")));
        v.push(Instr::Addr(Target::Fixed(Reg::R13)));
        v.push(Instr::C(Dest::DestD, Comp::CM, Jmp::JmpNone));
        v.push(Instr::Addr(Target::Num(1)));
        v.push(Instr::C(Dest::DestD, Comp::CDMinusA, Jmp::JmpNone));
        v.push(Instr::C(Dest::DestA, Comp::CD, Jmp::JmpNone));
        v.push(Instr::C(Dest::DestD, Comp::CM, Jmp::JmpNone));
        v.push(Instr::Addr(Target::Fixed(Reg::That)));
        v.push(Instr::C(Dest::DestM, Comp::CD, Jmp::JmpNone));
        v.push(Instr::Rem(String::from_str("Restore THIS of caller")));
        v.push(Instr::Addr(Target::Fixed(Reg::R13)));
        v.push(Instr::C(Dest::DestD, Comp::CM, Jmp::JmpNone));
        v.push(Instr::Addr(Target::Num(2)));
        v.push(Instr::C(Dest::DestD, Comp::CDMinusA, Jmp::JmpNone));
        v.push(Instr::C(Dest::DestA, Comp::CD, Jmp::JmpNone));
        v.push(Instr::C(Dest::DestD, Comp::CM, Jmp::JmpNone));
        v.push(Instr::Addr(Target::Fixed(Reg::This)));
        v.push(Instr::C(Dest::DestM, Comp::CD, Jmp::JmpNone));
        v.push(Instr::Rem(String::from_str("Restore ARG of caller")));
        v.push(Instr::Addr(Target::Fixed(Reg::R13)));
        v.push(Instr::C(Dest::DestD, Comp::CM, Jmp::JmpNone));
        v.push(Instr::Addr(Target::Num(3)));
        v.push(Instr::C(Dest::DestD, Comp::CDMinusA, Jmp::JmpNone));
        v.push(Instr::C(Dest::DestA, Comp::CD, Jmp::JmpNone));
        v.push(Instr::C(Dest::DestD, Comp::CM, Jmp::JmpNone));
        v.push(Instr::Addr(Target::Fixed(Reg::Arg)));
        v.push(Instr::C(Dest::DestM, Comp::CD, Jmp::JmpNone));
        v.push(Instr::Rem(String::from_str("Restore LCL of caller")));
        v.push(Instr::Addr(Target::Fixed(Reg::R13)));
        v.push(Instr::C(Dest::DestD, Comp::CM, Jmp::JmpNone));
        v.push(Instr::Addr(Target::Num(4)));
        v.push(Instr::C(Dest::DestD, Comp::CDMinusA, Jmp::JmpNone));
        v.push(Instr::C(Dest::DestA, Comp::CD, Jmp::JmpNone));
        v.push(Instr::C(Dest::DestD, Comp::CM, Jmp::JmpNone));
        v.push(Instr::Addr(Target::Fixed(Reg::Lcl)));
        v.push(Instr::C(Dest::DestM, Comp::CD, Jmp::JmpNone));
        v.push(Instr::Rem(String::from_str("Goto return address")));
        v.push(Instr::Addr(Target::Fixed(Reg::R14)));
        v.push(Instr::C(Dest::DestA, Comp::CM, Jmp::JmpNone));
        v.push(Instr::C(Dest::DestNone, Comp::CZero, Jmp::Jump));
        proof {
            assert(views_of(v@) =~= return_instrs());
        }
        self.emit_all(&v);
    }

    /// Emits the bootstrap block: initializes the stack pointer to the
    /// fixed stack base, sets the segment bases to sentinel values,
    /// then calls the program entry point through the ordinary call
    /// protocol.
    pub fn write_init(&mut self)
        requires
            old(self).return_index < usize::MAX,
        ensures
            final(self)@ == (GenState {
                output: old(self)@.output + render_seq(
                    boot_instrs(old(self)@.namespace, old(self)@.return_index + 1),
                ),
                return_index: old(self)@.return_index + 1,
                ..old(self)@
            }),
    {
        let mut v: Vec<Instr> = Vec::new();
        v.push(Instr::Addr(Target::Num(256)));
        v.push(Instr::C(Dest::DestD, Comp::CA, Jmp::JmpNone));
        v.push(Instr::Addr(Target::Fixed(Reg::Sp)));
        v.push(Instr::C(Dest::DestM, Comp::CD, Jmp::JmpNone));
        v.push(Instr::Addr(Target::Num(1)));
        v.push(Instr::C(Dest::DestD, Comp::CNegA, Jmp::JmpNone));
        v.push(Instr::Addr(Target::Fixed(Reg::Lcl)));
        v.push(Instr::C(Dest::DestM, Comp::CD, Jmp::JmpNone));
        v.push(Instr::Addr(Target::Num(2)));
        v.push(Instr::C(Dest::DestD, Comp::CNegA, Jmp::JmpNone));
        v.push(Instr::Addr(Target::Fixed(Reg::Arg)));
        v.push(Instr::C(Dest::DestM, Comp::CD, Jmp::JmpNone));
        v.push(Instr::Addr(Target::Num(3)));
        v.push(Instr::C(Dest::DestD, Comp::CNegA, Jmp::JmpNone));
        v.push(Instr::Addr(Target::Fixed(Reg::This)));
        v.push(Instr::C(Dest::DestM, Comp::CD, Jmp::JmpNone));
        v.push(Instr::Addr(Target::Num(4)));
        v.push(Instr::C(Dest::DestD, Comp::CNegA, Jmp::JmpNone));
        v.push(Instr::Addr(Target::Fixed(Reg::That)));
        v.push(Instr::C(Dest::DestM, Comp::CD, Jmp::JmpNone));
        proof {
            assert(views_of(v@) =~= boot_head_instrs());
        }
        self.emit_all(&v);
        self.write_call("Sys.init", 0);
        proof {
            lemma_render_seq_concat(
                boot_head_instrs(),
                call_instrs("Sys.init"@, old(self)@.namespace, old(self)@.return_index + 1, 0),
            );
            assert((old(self)@.output + render_seq(boot_head_instrs())) + render_seq(
                call_instrs("Sys.init"@, old(self)@.namespace, old(self)@.return_index + 1, 0),
            ) =~= old(self)@.output + (render_seq(boot_head_instrs()) + render_seq(
                call_instrs("Sys.init"@, old(self)@.namespace, old(self)@.return_index + 1, 0),
            )));
        }
    }
}

/// The written name of a dedicated cell.
fn reg_name(r: Reg) -> (res: &'static str)
    ensures
        res@ == crate::machine::reg_text(r),
{
    match r {
        Reg::Sp => "SP",
        Reg::Lcl => "LCL",
        Reg::Arg => "ARG",
        Reg::This => "THIS",
        Reg::That => "THAT",
        Reg::R13 => "R13",
        Reg::R14 => "R14",
    }
}

/// The written form of a destination.
fn dest_name(d: Dest) -> (res: &'static str)
    ensures
        res@ == crate::machine::dest_text(d),
{
    let r = match d {
        Dest::DestNone => "",
        Dest::DestM => "M=",
        Dest::DestD => "D=",
        Dest::DestA => "A=",
    };
    proof {
        if d == Dest::DestNone {
            reveal_strlit("");
            assert(r@ =~= crate::machine::dest_text(d));
        }
    }
    r
}

/// The written form of a computed expression.
fn comp_name(c: Comp) -> (res: &'static str)
    ensures
        res@ == crate::machine::comp_text(c),
{
    match c {
        Comp::CZero => "0",
        Comp::CNegOne => "-1",
        Comp::CD => "D",
        Comp::CA => "A",
        Comp::CM => "M",
        Comp::CNotM => "!M",
        Comp::CNegM => "-M",
        Comp::CNegA => "-A",
        Comp::CDPlusOne => "D+1",
        Comp::CDMinusOne => "D-1",
        Comp::CMPlusOne => "M+1",
        Comp::CMMinusOne => "M-1",
        Comp::CDPlusM => "D+M",
        Comp::CDMinusM => "D-M",
        Comp::CDAndM => "D&M",
        Comp::CDOrM => "D|M",
        Comp::CDPlusA => "D+A",
        Comp::CDMinusA => "D-A",
    }
}

/// The written form of a jump condition.
fn jmp_name(j: Jmp) -> (res: &'static str)
    ensures
        res@ == crate::machine::jmp_text(j),
{
    let r = match j {
        Jmp::JmpNone => "",
        Jmp::Jgt => ";JGT",
        Jmp::Jeq => ";JEQ",
        Jmp::Jlt => ";JLT",
        Jmp::Jne => ";JNE",
        Jmp::Jump => ";JMP",
    };
    proof {
        if j == Jmp::JmpNone {
            reveal_strlit("");
            assert(r@ =~= crate::machine::jmp_text(j));
        }
    }
    r
}

} // verus!
