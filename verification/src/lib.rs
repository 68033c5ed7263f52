//! A translator for a stack-based intermediate language, targeting the
//! symbolic assembly of a small 16-bit accumulator machine, together with
//! the table-driven helpers of the downstream assembler.
//!
//! The translator consumes one source text per compilation unit and emits
//! newline-terminated assembly lines.  Every emitted label is globally
//! unique across a multi-file run: user branch labels are scoped by the
//! enclosing function, compiler-synthesized labels carry monotonically
//! increasing counters.

pub mod asm_parser;
pub mod code;
pub mod labels;
pub mod laws;
pub mod machine;
pub mod parser;
pub mod symbol_table;
pub mod text;
pub mod translate;
pub mod writer;
