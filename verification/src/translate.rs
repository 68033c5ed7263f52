//! The translation driver: feeds the lines of one compilation unit
//! through the classifier to the generator, in source order, stopping
//! at the first malformed line.

use vstd::prelude::*;
use crate::labels::{make_scoped_label, scoped_label_text};
use crate::machine::render_seq;
use crate::parser::{
    classify_command, first_arg_of, second_arg_of, segment_of, BranchingCommand, CommandType,
    FunctionCommand, MemoryCommand, MemorySegment, Parser, TranslateError,
};
use crate::text::{lemma_lines_from_count, skip_line, split_lines, trimmed};
use crate::writer::{
    call_instrs, function_instrs, goto_instrs, if_goto_instrs, jump_bump, label_instrs,
    math_instrs, push_pop_instrs, return_instrs, GenState, Writer,
};
use vstd::string::{StringExecFns, StrSliceExecFns};

verus! {

/// The generator state a fresh compilation run starts from.
pub open spec fn start_state(ns: Seq<char>) -> GenState {
    GenState {
        output: Seq::empty(),
        namespace: ns,
        current_function: Seq::empty(),
        jump_index: 0,
        return_index: 0,
    }
}

/// A classification or generation error at the specification level,
/// carrying the text it faults.
pub enum GenError {
    InvalidCommand(Seq<char>),
    InvalidOperand(Seq<char>),
    InvalidSegment(Seq<char>),
    InvalidTarget(Seq<char>),
}

/// Whether an executable error value denotes the given specification
/// error.
pub open spec fn err_matches(e: TranslateError, g: GenError) -> bool {
    match (e, g) {
        (TranslateError::InvalidCommand(l), GenError::InvalidCommand(t)) => l@ == t,
        (TranslateError::InvalidOperand(l), GenError::InvalidOperand(t)) => l@ == t,
        (TranslateError::InvalidSegment(l), GenError::InvalidSegment(t)) => l@ == t,
        (TranslateError::InvalidTarget(l), GenError::InvalidTarget(t)) => l@ == t,
        _ => false,
    }
}

/// Whether a run outcome is an error that the executable error value
/// `e` denotes.
pub open spec fn run_failed_with(spec_r: Result<GenState, GenError>, e: TranslateError) -> bool {
    match spec_r {
        Ok(_) => false,
        Err(g) => err_matches(e, g),
    }
}

/// Whether a run outcome is a success whose output text is `out`.
pub open spec fn run_produced(spec_r: Result<GenState, GenError>, out: Seq<char>) -> bool {
    match spec_r {
        Ok(st) => out == st.output,
        Err(_) => false,
    }
}

/// What one trimmed source line does to the generator state: the block
/// it appends and the counters and scoping it updates, or the error
/// that faults the whole run.
pub open spec fn process_line(st: GenState, line: Seq<char>) -> Result<GenState, GenError> {
    if skip_line(line) {
        Ok(st)
    } else {
        match classify_command(line) {
            None => Err(GenError::InvalidCommand(line)),
            Some(CommandType::Math(c)) => Ok(
                GenState {
                    output: st.output + render_seq(math_instrs(c, st.jump_index)),
                    jump_index: st.jump_index + jump_bump(c),
                    ..st
                },
            ),
            Some(CommandType::Memory(mc)) => match first_arg_of(line) {
                None => Err(GenError::InvalidOperand(line)),
                Some(segtok) => match segment_of(segtok) {
                    None => Err(GenError::InvalidSegment(line)),
                    Some(seg) => match second_arg_of(line) {
                        None => Err(GenError::InvalidOperand(line)),
                        Some(idx) => if idx >= 32768 {
                            Err(GenError::InvalidOperand(line))
                        } else if mc == MemoryCommand::Pop && seg == MemorySegment::Constant {
                            Err(GenError::InvalidTarget(line))
                        } else {
                            Ok(
                                GenState {
                                    output: st.output + render_seq(
                                        push_pop_instrs(mc, seg, idx as u16, st.namespace),
                                    ),
                                    ..st
                                },
                            )
                        },
                    },
                },
            },
            Some(CommandType::Branching(bc)) => match first_arg_of(line) {
                None => Err(GenError::InvalidOperand(line)),
                Some(lab) => {
                    let scoped = scoped_label_text(st.current_function, lab);
                    match bc {
                        BranchingCommand::Label => Ok(
                            GenState { output: st.output + render_seq(label_instrs(scoped)), ..st },
                        ),
                        BranchingCommand::Goto => Ok(
                            GenState { output: st.output + render_seq(goto_instrs(scoped)), ..st },
                        ),
                        BranchingCommand::If => Ok(
                            GenState {
                                output: st.output + render_seq(if_goto_instrs(scoped)),
                                ..st
                            },
                        ),
                    }
                },
            },
            Some(CommandType::Function(fc)) => match fc {
                FunctionCommand::Declare => match first_arg_of(line) {
                    None => Err(GenError::InvalidOperand(line)),
                    Some(name) => match second_arg_of(line) {
                        None => Err(GenError::InvalidOperand(line)),
                        Some(n) => Ok(
                            GenState {
                                output: st.output + render_seq(function_instrs(name, n)),
                                current_function: name,
                                ..st
                            },
                        ),
                    },
                },
                FunctionCommand::Call => match first_arg_of(line) {
                    None => Err(GenError::InvalidOperand(line)),
                    Some(name) => match second_arg_of(line) {
                        None => Err(GenError::InvalidOperand(line)),
                        Some(n) => if n >= 32768 {
                            Err(GenError::InvalidOperand(line))
                        } else {
                            Ok(
                                GenState {
                                    output: st.output + render_seq(
                                        call_instrs(
                                            name,
                                            st.namespace,
                                            st.return_index + 1,
                                            n as u16,
                                        ),
                                    ),
                                    return_index: st.return_index + 1,
                                    ..st
                                },
                            )
                        },
                    },
                },
                FunctionCommand::Return => Ok(
                    GenState { output: st.output + render_seq(return_instrs()), ..st },
                ),
            },
        }
    }
}

/// Folds `process_line` over a unit's lines, each first trimmed of
/// surrounding whitespace, stopping at the first error.
pub open spec fn process_lines(st: GenState, lines: Seq<Seq<char>>) -> Result<GenState, GenError>
    decreases lines.len(),
{
    if lines.len() == 0 {
        Ok(st)
    } else {
        match process_line(st, trimmed(lines[0])) {
            Ok(st2) => process_lines(st2, lines.drop_first()),
            Err(e) => Err(e),
        }
    }
}

/// One step of the fold: when the whole run's outcome equals the
/// outcome from state `st` on the lines from `k` on, it is decided by
/// what line `k` does from `st`.
proof fn lemma_process_step(
    st0: GenState,
    st: GenState,
    all: Seq<Seq<char>>,
    k: int,
    line: Seq<char>,
)
    requires
        0 <= k < all.len(),
        trimmed(all[k]) == line,
        process_lines(st0, all) == process_lines(st, all.skip(k)),
    ensures
        process_line(st, line) is Err ==> process_lines(st0, all) == process_line(st, line),
        process_line(st, line) matches Ok(st2) ==> process_lines(st0, all) == process_lines(
            st2,
            all.skip(k + 1),
        ),
{
    assert(all.skip(k).len() == all.len() - k);
    assert(all.skip(k)[0] == all[k]);
    assert(all.skip(k).drop_first() =~= all.skip(k + 1));
}

impl Writer {
    /// Begins a new compilation unit on a shared generator: the
    /// namespace and function scope are per-file and reset, the output
    /// and both label counters persist across the whole run.
    pub fn start_unit(&mut self, namespace: &str)
        ensures
            final(self)@ == (GenState {
                namespace: namespace@,
                current_function: Seq::<char>::empty(),
                ..old(self)@
            }),
    {
        self.namespace = String::from_str(namespace);
        self.current_function = String::new();
    }
}

/// Translates one compilation unit on a shared generator, appending
/// its code to the generator's output.
#[verifier::rlimit(100)]
#[verifier::loop_isolation(false)]
pub fn translate_unit(w: &mut Writer, contents: &str, namespace: &str) -> (r: Result<
    (),
    TranslateError,
>)
    requires
        old(w)@.jump_index + split_lines(contents@).len() <= usize::MAX,
        old(w)@.return_index + split_lines(contents@).len() <= usize::MAX,
    ensures
        ({
            let st0 = GenState {
                namespace: namespace@,
                current_function: Seq::<char>::empty(),
                ..old(w)@
            };
            &&& (r is Ok ==> process_lines(st0, split_lines(contents@)) == Ok::<
                GenState,
                GenError,
            >(final(w)@))
            &&& (r matches Err(e) ==> run_failed_with(
                process_lines(st0, split_lines(contents@)),
                e,
            ))
        }),
{
    let ghost st0 = GenState {
        namespace: namespace@,
        current_function: Seq::<char>::empty(),
        ..old(w)@
    };
    let ghost all = split_lines(contents@);
    w.start_unit(namespace);
    let mut parser = Parser::new(contents);
    let total = parser.lines.len();
    proof {
        assert(all.len() == total as nat);
        assert(all.skip(0) =~= all);
    }
    while parser.pos < total
        invariant
            total == parser.lines.len(),
            parser.lines.deep_view() == all,
            all == split_lines(contents@),
            0 <= parser.pos <= total,
            w@.jump_index <= st0.jump_index + parser.pos,
            w@.return_index <= st0.return_index + parser.pos,
            st0.jump_index + all.len() <= usize::MAX,
            st0.return_index + all.len() <= usize::MAX,
            process_lines(st0, all) == process_lines(w@, all.skip(parser.pos as int)),
        decreases total - parser.pos,
    {
        let ghost pos0 = parser.pos as int;
        let ghost st_in = w@;
        let line = parser.advance();
        proof {
            assert(trimmed(all[pos0]) == line@);
            lemma_process_step(st0, st_in, all, pos0, line@);
        }
        let n = line.unicode_len();
        let skip_this = n == 0 || (n >= 2 && line.as_str().get_char(0) == '/'
            && line.as_str().get_char(1) == '/');
        if !skip_this {
            match Parser::command_type(line.as_str()) {
                Err(e) => {
                    proof {
                        assert(process_line(st_in, line@) == Err::<GenState, GenError>(
                            GenError::InvalidCommand(line@),
                        ));
                        assert(err_matches(e, GenError::InvalidCommand(line@)));
                    }
                    return Err(e);
                },
                Ok(CommandType::Math(c)) => {
                    w.write_math(c);
                },
                Ok(CommandType::Memory(mc)) => {
                    let segtok = match Parser::first_arg(line.as_str()) {
                        Ok(t) => t,
                        Err(e) => {
                            return Err(e);
                        },
                    };
                    let seg = match Parser::segment_type(segtok) {
                        Ok(s) => s,
                        Err(_) => {
                            return Err(TranslateError::InvalidSegment(line));
                        },
                    };
                    let idx = match Parser::second_arg(line.as_str()) {
                        Ok(n2) => n2,
                        Err(e) => {
                            return Err(e);
                        },
                    };
                    if idx >= 32768 {
                        return Err(TranslateError::InvalidOperand(line));
                    }
                    match w.write_push_pop(mc, seg, idx) {
                        Ok(()) => {},
                        Err(_) => {
                            return Err(TranslateError::InvalidTarget(line));
                        },
                    }
                },
                Ok(CommandType::Branching(bc)) => {
                    let lab = match Parser::first_arg(line.as_str()) {
                        Ok(t) => t,
                        Err(e) => {
                            return Err(e);
                        },
                    };
                    let scoped = make_scoped_label(w.current_function.as_str(), lab);
                    match bc {
                        BranchingCommand::Label => w.write_label(scoped.as_str()),
                        BranchingCommand::Goto => w.write_goto(scoped.as_str()),
                        BranchingCommand::If => w.write_if(scoped.as_str()),
                    }
                },
                Ok(CommandType::Function(fc)) => {
                    match fc {
                        FunctionCommand::Declare => {
                            let name = match Parser::first_arg(line.as_str()) {
                                Ok(t) => t,
                                Err(e) => {
                                    return Err(e);
                                },
                            };
                            let n2 = match Parser::second_arg(line.as_str()) {
                                Ok(v) => v,
                                Err(e) => {
                                    return Err(e);
                                },
                            };
                            w.write_function(name, n2);
                        },
                        FunctionCommand::Call => {
                            let name = match Parser::first_arg(line.as_str()) {
                                Ok(t) => t,
                                Err(e) => {
                                    return Err(e);
                                },
                            };
                            let n2 = match Parser::second_arg(line.as_str()) {
                                Ok(v) => v,
                                Err(e) => {
                                    return Err(e);
                                },
                            };
                            if n2 >= 32768 {
                                return Err(TranslateError::InvalidOperand(line));
                            }
                            w.write_call(name, n2);
                        },
                        FunctionCommand::Return => {
                            w.write_return();
                        },
                    }
                },
            }
        }
        proof {
            assert(process_line(st_in, line@) == Ok::<GenState, GenError>(w@));
            assert(process_lines(st_in, all.skip(pos0)) == process_lines(
                w@,
                all.skip(pos0 + 1),
            ));
        }
    }
    proof {
        assert(all.skip(parser.pos as int) =~= Seq::<Seq<char>>::empty());
        assert(process_lines(w@, all.skip(parser.pos as int)) == Ok::<GenState, GenError>(w@));
    }
    Ok(())
}

/// Translates one source text under one namespace, from a fresh
/// generator: the in-memory core of a single-unit compilation.
pub fn parse(contents: &str, namespace: &str) -> (r: Result<String, TranslateError>)
    ensures
        (r matches Ok(out) ==> run_produced(
            process_lines(start_state(namespace@), split_lines(contents@)),
            out@,
        )),
        (r matches Err(e) ==> run_failed_with(
            process_lines(start_state(namespace@), split_lines(contents@)),
            e,
        )),
{
    // measuring the text bounds its line count, so the fresh
    // generator's counters cannot overflow within this unit
    let _total_chars = contents.unicode_len();
    proof {
        lemma_lines_from_count(contents@, 0);
    }
    let mut w = Writer::new(namespace);
    proof {
        assert(w@ == start_state(namespace@));
    }
    match translate_unit(&mut w, contents, namespace) {
        Ok(()) => Ok(w.output),
        Err(e) => Err(e),
    }
}

} // verus!
