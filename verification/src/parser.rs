//! The command classifier: it turns one trimmed source line into a
//! typed command value and extracts its positional arguments.

use vstd::prelude::*;
use crate::text::{
    all_digits, dec_val, nth_token, parse_usize, split_into_lines, split_lines, str_eq, toks,
    trim_str, trimmed,
};
use vstd::string::{StringExecFns, StrSliceExecFns};

verus! {

/// The virtual memory segments a memory-access command may address.
#[derive(Clone, Copy, PartialEq, Eq, Structural, Debug)]
pub enum MemorySegment {
    Argument,
    Local,
    Static,
    Constant,
    This,
    That,
    Pointer,
    Temp,
}

/// The nine arithmetic and logical operators.
#[derive(Clone, Copy, PartialEq, Eq, Structural, Debug)]
pub enum MathCommand {
    Add,
    Subtract,
    Negate,
    EqualTo,
    GreaterThan,
    LessThan,
    And,
    Or,
    Not,
}

/// Push or pop.
#[derive(Clone, Copy, PartialEq, Eq, Structural, Debug)]
pub enum MemoryCommand {
    Push,
    Pop,
}

/// Label declaration, unconditional goto, and conditional if-goto.
#[derive(Clone, Copy, PartialEq, Eq, Structural, Debug)]
pub enum BranchingCommand {
    Label,
    Goto,
    If,
}

/// Function declaration, call, and return.
#[derive(Clone, Copy, PartialEq, Eq, Structural, Debug)]
pub enum FunctionCommand {
    Declare,
    Return,
    Call,
}

/// The category of one source line.
#[derive(Clone, Copy, PartialEq, Eq, Structural, Debug)]
pub enum CommandType {
    Math(MathCommand),
    Memory(MemoryCommand),
    Branching(BranchingCommand),
    Function(FunctionCommand),
}

/// A fatal classification or generation error, carrying the offending
/// line's text.
#[derive(Debug)]
pub enum TranslateError {
    /// The first token is no known mnemonic.
    InvalidCommand(String),
    /// A required argument is missing or is not a usable non-negative
    /// integer.
    InvalidOperand(String),
    /// The segment name of a memory-access command is unknown.
    InvalidSegment(String),
    /// A pop targets the constant segment.
    InvalidTarget(String),
}

/// The command denoted by a mnemonic token, if any.
pub open spec fn mnemonic_command(t: Seq<char>) -> Option<CommandType> {
    if t == "add"@ {
        Some(CommandType::Math(MathCommand::Add))
    } else if t == "sub"@ {
        Some(CommandType::Math(MathCommand::Subtract))
    } else if t == "neg"@ {
        Some(CommandType::Math(MathCommand::Negate))
    } else if t == "eq"@ {
        Some(CommandType::Math(MathCommand::EqualTo))
    } else if t == "gt"@ {
        Some(CommandType::Math(MathCommand::GreaterThan))
    } else if t == "lt"@ {
        Some(CommandType::Math(MathCommand::LessThan))
    } else if t == "and"@ {
        Some(CommandType::Math(MathCommand::And))
    } else if t == "or"@ {
        Some(CommandType::Math(MathCommand::Or))
    } else if t == "not"@ {
        Some(CommandType::Math(MathCommand::Not))
    } else if t == "push"@ {
        Some(CommandType::Memory(MemoryCommand::Push))
    } else if t == "pop"@ {
        Some(CommandType::Memory(MemoryCommand::Pop))
    } else if t == "label"@ {
        Some(CommandType::Branching(BranchingCommand::Label))
    } else if t == "goto"@ {
        Some(CommandType::Branching(BranchingCommand::Goto))
    } else if t == "if-goto"@ {
        Some(CommandType::Branching(BranchingCommand::If))
    } else if t == "function"@ {
        Some(CommandType::Function(FunctionCommand::Declare))
    } else if t == "call"@ {
        Some(CommandType::Function(FunctionCommand::Call))
    } else if t == "return"@ {
        Some(CommandType::Function(FunctionCommand::Return))
    } else {
        None
    }
}

/// The category of a line: the command its first token denotes.
pub open spec fn classify_command(line: Seq<char>) -> Option<CommandType> {
    if toks(line).len() == 0 {
        None
    } else {
        mnemonic_command(toks(line)[0])
    }
}

/// The segment denoted by a segment-name token, if any.
pub open spec fn segment_of(t: Seq<char>) -> Option<MemorySegment> {
    if t == "argument"@ {
        Some(MemorySegment::Argument)
    } else if t == "local"@ {
        Some(MemorySegment::Local)
    } else if t == "static"@ {
        Some(MemorySegment::Static)
    } else if t == "constant"@ {
        Some(MemorySegment::Constant)
    } else if t == "this"@ {
        Some(MemorySegment::This)
    } else if t == "that"@ {
        Some(MemorySegment::That)
    } else if t == "pointer"@ {
        Some(MemorySegment::Pointer)
    } else if t == "temp"@ {
        Some(MemorySegment::Temp)
    } else {
        None
    }
}

/// The second token of a line, when present.
pub open spec fn first_arg_of(line: Seq<char>) -> Option<Seq<char>> {
    if toks(line).len() >= 2 {
        Some(toks(line)[1])
    } else {
        None
    }
}

/// The third token of a line read as a non-negative integer, when
/// present, numeric, and within machine range.
pub open spec fn second_arg_of(line: Seq<char>) -> Option<nat> {
    if toks(line).len() >= 3 && toks(line)[2].len() >= 1 && all_digits(toks(line)[2]) && dec_val(
        toks(line)[2],
    ) <= usize::MAX {
        Some(dec_val(toks(line)[2]))
    } else {
        None
    }
}

/// Feeds the lines of one source text to its user, one at a time.
pub struct Parser {
    /// The lines of the source text.
    pub lines: Vec<String>,
    /// How many lines have been consumed.
    pub pos: usize,
}

impl Parser {
    /// Splits a source text into lines to be served in order.
    pub fn new(file_contents: &str) -> (r: Parser)
        ensures
            r.lines.deep_view() == split_lines(file_contents@),
            r.pos == 0,
    {
        Parser { lines: split_into_lines(file_contents), pos: 0 }
    }

    /// Whether another line is available.
    pub fn has_more_commands(&self) -> (r: bool)
        ensures
            r == (self.pos < self.lines.len()),
    {
        self.pos < self.lines.len()
    }

    /// Returns the next line, trimmed of surrounding whitespace.
    pub fn advance(&mut self) -> (r: String)
        requires
            old(self).pos < old(self).lines.len(),
        ensures
            final(self).lines == old(self).lines,
            final(self).pos == old(self).pos + 1,
            r@ == trimmed(old(self).lines.deep_view()[old(self).pos as int]),
    {
        let line = trim_str(self.lines[self.pos].as_str());
        let owned = String::from_str(line);
        self.pos = self.pos + 1;
        proof {
            assert(old(self).lines.deep_view()[old(self).pos as int] == old(self).lines@[old(
                self,
            ).pos as int]@);
        }
        owned
    }

    /// Classifies one source line by its first token.
    pub fn command_type(line: &str) -> (r: Result<CommandType, TranslateError>)
        ensures
            r is Ok <==> classify_command(line@) is Some,
            r matches Ok(c) ==> classify_command(line@) == Some(c),
            r matches Err(e) ==> e matches TranslateError::InvalidCommand(l) && l@ == line@,
    {
        let tok = nth_token(line, 0);
        match tok {
            None => Err(TranslateError::InvalidCommand(String::from_str(line))),
            Some(t) => {
                if str_eq(t, "add") {
                    Ok(CommandType::Math(MathCommand::Add))
                } else if str_eq(t, "sub") {
                    Ok(CommandType::Math(MathCommand::Subtract))
                } else if str_eq(t, "neg") {
                    Ok(CommandType::Math(MathCommand::Negate))
                } else if str_eq(t, "eq") {
                    Ok(CommandType::Math(MathCommand::EqualTo))
                } else if str_eq(t, "gt") {
                    Ok(CommandType::Math(MathCommand::GreaterThan))
                } else if str_eq(t, "lt") {
                    Ok(CommandType::Math(MathCommand::LessThan))
                } else if str_eq(t, "and") {
                    Ok(CommandType::Math(MathCommand::And))
                } else if str_eq(t, "or") {
                    Ok(CommandType::Math(MathCommand::Or))
                } else if str_eq(t, "not") {
                    Ok(CommandType::Math(MathCommand::Not))
                } else if str_eq(t, "push") {
                    Ok(CommandType::Memory(MemoryCommand::Push))
                } else if str_eq(t, "pop") {
                    Ok(CommandType::Memory(MemoryCommand::Pop))
                } else if str_eq(t, "label") {
                    Ok(CommandType::Branching(BranchingCommand::Label))
                } else if str_eq(t, "goto") {
                    Ok(CommandType::Branching(BranchingCommand::Goto))
                } else if str_eq(t, "if-goto") {
                    Ok(CommandType::Branching(BranchingCommand::If))
                } else if str_eq(t, "function") {
                    Ok(CommandType::Function(FunctionCommand::Declare))
                } else if str_eq(t, "call") {
                    Ok(CommandType::Function(FunctionCommand::Call))
                } else if str_eq(t, "return") {
                    Ok(CommandType::Function(FunctionCommand::Return))
                } else {
                    Err(TranslateError::InvalidCommand(String::from_str(line)))
                }
            },
        }
    }

    /// Maps a segment-name token to its segment.
    pub fn segment_type(segment: &str) -> (r: Result<MemorySegment, TranslateError>)
        ensures
            r is Ok <==> segment_of(segment@) is Some,
            r matches Ok(s) ==> segment_of(segment@) == Some(s),
            r matches Err(e) ==> e matches TranslateError::InvalidSegment(l) && l@ == segment@,
    {
        if str_eq(segment, "argument") {
            Ok(MemorySegment::Argument)
        } else if str_eq(segment, "local") {
            Ok(MemorySegment::Local)
        } else if str_eq(segment, "static") {
            Ok(MemorySegment::Static)
        } else if str_eq(segment, "constant") {
            Ok(MemorySegment::Constant)
        } else if str_eq(segment, "this") {
            Ok(MemorySegment::This)
        } else if str_eq(segment, "that") {
            Ok(MemorySegment::That)
        } else if str_eq(segment, "pointer") {
            Ok(MemorySegment::Pointer)
        } else if str_eq(segment, "temp") {
            Ok(MemorySegment::Temp)
        } else {
            Err(TranslateError::InvalidSegment(String::from_str(segment)))
        }
    }

    /// The required first argument of a command line.
    pub fn first_arg<'a>(line: &'a str) -> (r: Result<&'a str, TranslateError>)
        ensures
            r is Ok <==> first_arg_of(line@) is Some,
            r matches Ok(t) ==> first_arg_of(line@) == Some(t@),
            r matches Err(e) ==> e matches TranslateError::InvalidOperand(l) && l@ == line@,
    {
        match nth_token(line, 1) {
            Some(t) => Ok(t),
            None => Err(TranslateError::InvalidOperand(String::from_str(line))),
        }
    }

    /// The required second argument of a command line, as a
    /// non-negative integer.
    pub fn second_arg(line: &str) -> (r: Result<usize, TranslateError>)
        ensures
            r is Ok <==> second_arg_of(line@) is Some,
            r matches Ok(n) ==> second_arg_of(line@) == Some(n as nat),
            r matches Err(e) ==> e matches TranslateError::InvalidOperand(l) && l@ == line@,
    {
        match nth_token(line, 2) {
            Some(t) => {
                match parse_usize(t) {
                    Some(n) => Ok(n),
                    None => Err(TranslateError::InvalidOperand(String::from_str(line))),
                }
            },
            None => Err(TranslateError::InvalidOperand(String::from_str(line))),
        }
    }
}

} // verus!
