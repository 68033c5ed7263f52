//! The two-pass assembler: a first pass binds each declared label to
//! its instruction address, a second pass encodes every instruction as
//! a 16-character binary line, allocating an address for each new
//! variable symbol.

use vstd::prelude::*;
use crate::code::{comp, comp_code, dest, dest_code, has_comp_key, jump, jump_code};
use crate::symbol_table::SymbolTable;
use crate::text::{
    all_digits, dec_text, dec_val, digit_str, digit_char, parse_usize, skip_line,
    split_into_lines, split_lines, trim_str, trimmed, usize_to_string,
};
use vstd::string::{StringExecFns, StrSliceExecFns};

verus! {

/// The three instruction forms of the assembly source.
#[derive(Clone, Copy, PartialEq, Eq, Structural, Debug)]
pub enum CommandType {
    /// `@xxx`, a load of a literal or symbolic address.
    ACommand,
    /// `dest=comp;jump`, a compute instruction.
    CCommand,
    /// `(xxx)`, a label declaration.
    LCommand,
}

/// A fatal assembly error, carrying the offending text.
#[derive(Debug)]
pub enum AsmError {
    /// A line that is no recognizable instruction.
    UnknownInstruction(String),
    /// An address that parses neither as a literal nor to a bound
    /// numeric symbol within machine range.
    InvalidSymbol(String),
    /// An unrecognized destination mnemonic.
    InvalidDest(String),
    /// An unrecognized computation mnemonic.
    InvalidComp(String),
    /// An unrecognized jump mnemonic.
    InvalidJump(String),
}

/// Spec-level counterpart of `AsmError`.
pub enum AsmErrV {
    Unknown(Seq<char>),
    Symbol(Seq<char>),
    DestTok(Seq<char>),
    CompTok(Seq<char>),
    JumpTok(Seq<char>),
}

/// Whether an executable assembly error denotes the given
/// specification error.
pub open spec fn asm_err_matches(e: AsmError, g: AsmErrV) -> bool {
    match (e, g) {
        (AsmError::UnknownInstruction(l), AsmErrV::Unknown(t)) => l@ == t,
        (AsmError::InvalidSymbol(l), AsmErrV::Symbol(t)) => l@ == t,
        (AsmError::InvalidDest(l), AsmErrV::DestTok(t)) => l@ == t,
        (AsmError::InvalidComp(l), AsmErrV::CompTok(t)) => l@ == t,
        (AsmError::InvalidJump(l), AsmErrV::JumpTok(t)) => l@ == t,
        _ => false,
    }
}

/// The instruction form of a source line, if it has one: an `@` line,
/// a parenthesized label, or a line holding a computation mnemonic.
pub open spec fn classify_asm(line: Seq<char>) -> Option<CommandType> {
    if trimmed(line).len() > 0 && trimmed(line)[0] == '@' {
        Some(CommandType::ACommand)
    } else if trimmed(line).len() > 0 && trimmed(line)[0] == '(' {
        Some(CommandType::LCommand)
    } else if has_comp_key(line) {
        Some(CommandType::CCommand)
    } else {
        None
    }
}

/// The first index at or after `i` holding no `@`.
pub open spec fn skip_at(s: Seq<char>, i: int) -> int
    decreases s.len() - i,
    when 0 <= i <= s.len()
{
    if i >= s.len() {
        i
    } else if s[i] == '@' {
        skip_at(s, i + 1)
    } else {
        i
    }
}

/// The first index at or before `j` with only `@` from it to `j`.
pub open spec fn rskip_at(s: Seq<char>, j: int) -> int
    decreases j,
    when 0 <= j <= s.len()
{
    if j <= 0 {
        0
    } else if s[j - 1] == '@' {
        rskip_at(s, j - 1)
    } else {
        j
    }
}

/// `s` with every leading and trailing `@` removed.
pub open spec fn strip_at_text(s: Seq<char>) -> Seq<char> {
    let a = skip_at(s, 0);
    if a == s.len() {
        Seq::empty()
    } else {
        s.subrange(a, rskip_at(s, s.len() as int))
    }
}

/// A parenthesis character.
pub open spec fn is_paren(c: char) -> bool {
    c == '(' || c == ')'
}

/// The first index at or after `i` holding no parenthesis.
pub open spec fn skip_paren(s: Seq<char>, i: int) -> int
    decreases s.len() - i,
    when 0 <= i <= s.len()
{
    if i >= s.len() {
        i
    } else if is_paren(s[i]) {
        skip_paren(s, i + 1)
    } else {
        i
    }
}

/// The first index at or before `j` with only parentheses from it to
/// `j`.
pub open spec fn rskip_paren(s: Seq<char>, j: int) -> int
    decreases j,
    when 0 <= j <= s.len()
{
    if j <= 0 {
        0
    } else if is_paren(s[j - 1]) {
        rskip_paren(s, j - 1)
    } else {
        j
    }
}

/// `s` with every leading and trailing parenthesis removed.
pub open spec fn strip_paren_text(s: Seq<char>) -> Seq<char> {
    let a = skip_paren(s, 0);
    if a == s.len() {
        Seq::empty()
    } else {
        s.subrange(a, rskip_paren(s, s.len() as int))
    }
}

/// An ASCII letter.
pub open spec fn is_alpha_char(c: char) -> bool {
    (65 <= c as u32 <= 90) || (97 <= c as u32 <= 122)
}

/// A symbol is a literal address when it holds no letter.
pub open spec fn is_literal_text(s: Seq<char>) -> bool {
    forall|k: int| 0 <= k < s.len() ==> !is_alpha_char(#[trigger] s[k])
}

/// A field separator of a compute instruction.
pub open spec fn is_field_sep(c: char) -> bool {
    c == '=' || c == ';'
}

/// The index of the first field separator at or after `i`.
pub open spec fn field_end(s: Seq<char>, i: int) -> int
    decreases s.len() - i,
    when 0 <= i <= s.len()
{
    if i >= s.len() {
        i
    } else if is_field_sep(s[i]) {
        i
    } else {
        field_end(s, i + 1)
    }
}

pub proof fn lemma_field_end(s: Seq<char>, i: int)
    requires
        0 <= i <= s.len(),
    ensures
        i <= field_end(s, i) <= s.len(),
    decreases s.len() - i,
{
    if i < s.len() && !is_field_sep(s[i]) {
        lemma_field_end(s, i + 1);
    }
}

/// The fields of a compute instruction from index `i` on: the pieces
/// between separators, empty pieces kept.
pub open spec fn fields_from(s: Seq<char>, i: int) -> Seq<Seq<char>>
    decreases s.len() - i,
    when 0 <= i <= s.len()
    via fields_from_decreases
{
    let k = field_end(s, i);
    if k >= s.len() {
        seq![s.subrange(i, s.len() as int)]
    } else {
        seq![s.subrange(i, k)] + fields_from(s, k + 1)
    }
}

#[via_fn]
proof fn fields_from_decreases(s: Seq<char>, i: int) {
    lemma_field_end(s, i);
}

/// Whether `c` occurs in `s`.
pub open spec fn has_char(s: Seq<char>, c: char) -> bool {
    exists|k: int| 0 <= k < s.len() && s[k] == c
}

/// The dest, comp and jump tokens of a compute instruction: its
/// fields, with `null` supplied for an absent dest or jump.
pub open spec fn c_tokens(line: Seq<char>) -> Seq<Seq<char>> {
    let fs = fields_from(line, 0);
    let with_dest = if !has_char(line, '=') {
        seq!["null"@] + fs
    } else {
        fs
    };
    if !has_char(line, ';') {
        with_dest.insert(2, "null"@)
    } else {
        with_dest
    }
}

/// The `width`-digit binary rendering of `n`, most significant bit
/// first.
pub open spec fn bin_text(n: nat, width: nat) -> Seq<char>
    decreases width,
{
    if width == 0 {
        Seq::empty()
    } else {
        bin_text(n / 2, (width - 1) as nat).push(digit_char(n % 2))
    }
}

/// Renders `n` as a `width`-digit binary string.
pub fn bin_string(n: usize, width: usize) -> (r: String)
    ensures
        r@ == bin_text(n as nat, width as nat),
    decreases width,
{
    if width == 0 {
        let r = String::new();
        proof {
            assert(r@ =~= bin_text(n as nat, 0));
        }
        r
    } else {
        let mut s = bin_string(n / 2, width - 1);
        s.append(digit_str(n % 2));
        proof {
            assert(s@ =~= bin_text(n as nat, width as nat));
        }
        s
    }
}

/// Strips every leading and trailing `@` from a line.
fn strip_at(s: &str) -> (r: &str)
    ensures
        r@ == strip_at_text(s@),
{
    let n = s.unicode_len();
    let mut i: usize = 0;
    while i < n && s.get_char(i) == '@'
        invariant
            n == s@.len(),
            0 <= i <= n,
            skip_at(s@, 0) == skip_at(s@, i as int),
        decreases n - i,
    {
        i = i + 1;
    }
    if i == n {
        return s.substring_char(n, n);
    }
    let mut j: usize = n;
    while j > i && s.get_char(j - 1) == '@'
        invariant
            n == s@.len(),
            0 <= i < j <= n,
            skip_at(s@, 0) == i as int,
            s@[i as int] != '@',
            rskip_at(s@, n as int) == rskip_at(s@, j as int),
        decreases j,
    {
        j = j - 1;
    }
    s.substring_char(i, j)
}

/// Strips every leading and trailing parenthesis from a line.
fn strip_parens(s: &str) -> (r: &str)
    ensures
        r@ == strip_paren_text(s@),
{
    let n = s.unicode_len();
    let mut i: usize = 0;
    while i < n && (s.get_char(i) == '(' || s.get_char(i) == ')')
        invariant
            n == s@.len(),
            0 <= i <= n,
            skip_paren(s@, 0) == skip_paren(s@, i as int),
        decreases n - i,
    {
        i = i + 1;
    }
    if i == n {
        return s.substring_char(n, n);
    }
    let mut j: usize = n;
    while j > i && (s.get_char(j - 1) == '(' || s.get_char(j - 1) == ')')
        invariant
            n == s@.len(),
            0 <= i < j <= n,
            skip_paren(s@, 0) == i as int,
            !is_paren(s@[i as int]),
            rskip_paren(s@, n as int) == rskip_paren(s@, j as int),
        decreases j,
    {
        j = j - 1;
    }
    s.substring_char(i, j)
}

/// Whether `c` occurs in `s`.
fn contains_char(s: &str, c: char) -> (r: bool)
    ensures
        r == has_char(s@, c),
{
    let n = s.unicode_len();
    let mut i: usize = 0;
    while i < n
        invariant
            n == s@.len(),
            0 <= i <= n,
            forall|k: int| 0 <= k < i ==> s@[k] != c,
        decreases n - i,
    {
        if s.get_char(i) == c {
            return true;
        }
        i = i + 1;
    }
    false
}

/// The fields of a compute instruction from `from` on.
fn fields_exec(s: &str, from: usize, n: usize) -> (r: Vec<String>)
    requires
        from <= n,
        n == s@.len(),
    ensures
        r.deep_view() == fields_from(s@, from as int),
    decreases n - from,
{
    let mut k: usize = from;
    while k < n && !(s.get_char(k) == '=' || s.get_char(k) == ';')
        invariant
            n == s@.len(),
            from <= k <= n,
            field_end(s@, from as int) == field_end(s@, k as int),
        decreases n - k,
    {
        k = k + 1;
    }
    let piece = String::from_str(s.substring_char(from, k));
    if k >= n {
        let mut v: Vec<String> = Vec::new();
        v.push(piece);
        proof {
            assert(v.deep_view() =~= fields_from(s@, from as int));
        }
        v
    } else {
        let mut v: Vec<String> = Vec::new();
        v.push(piece);
        let mut rest = fields_exec(s, k + 1, n);
        let ghost head = v.deep_view();
        let ghost tail = rest.deep_view();
        v.append(&mut rest);
        proof {
            assert(v.deep_view() =~= head + tail);
            assert(v.deep_view() =~= fields_from(s@, from as int));
        }
        v
    }
}

/// The state of the assembler's second pass: the symbol bindings, the
/// next free variable slot, and the binary text emitted so far.
pub struct AsmState {
    pub table: Map<Seq<char>, Seq<char>>,
    pub var_counter: nat,
    pub out: Seq<char>,
}

/// What the first pass does with the lines from the front of `lines`:
/// bind each declared label to the address of the instruction that
/// follows it.
pub open spec fn labels_pass(
    lines: Seq<Seq<char>>,
    table: Map<Seq<char>, Seq<char>>,
    counter: nat,
) -> Result<Map<Seq<char>, Seq<char>>, AsmErrV>
    decreases lines.len(),
{
    if lines.len() == 0 {
        Ok(table)
    } else {
        let line = trimmed(lines[0]);
        if skip_line(line) {
            labels_pass(lines.drop_first(), table, counter)
        } else {
            match classify_asm(line) {
                None => Err(AsmErrV::Unknown(line)),
                Some(CommandType::LCommand) => labels_pass(
                    lines.drop_first(),
                    table.insert(strip_paren_text(line), dec_text(counter)),
                    counter,
                ),
                Some(_) => labels_pass(lines.drop_first(), table, counter + 1),
            }
        }
    }
}

/// What an address instruction does: emit the 16-bit binary form of a
/// literal address, or of the symbol's bound value, binding a fresh
/// variable address first when the symbol is new.
pub open spec fn encode_a(st: AsmState, line: Seq<char>) -> Result<AsmState, AsmErrV> {
    let sym = strip_at_text(line);
    if is_literal_text(sym) {
        if sym.len() >= 1 && all_digits(sym) && dec_val(sym) <= 65535 {
            Ok(AsmState { out: st.out + bin_text(dec_val(sym), 16) + "\n"@, ..st })
        } else {
            Err(AsmErrV::Symbol(line))
        }
    } else {
        let known = st.table.contains_key(sym);
        let table2 = if known {
            st.table
        } else {
            st.table.insert(sym, dec_text(16 + st.var_counter))
        };
        let vc2: nat = if known {
            st.var_counter
        } else {
            st.var_counter + 1
        };
        let valtext = table2[sym];
        if valtext.len() >= 1 && all_digits(valtext) && dec_val(valtext) <= 65535 {
            Ok(
                AsmState {
                    table: table2,
                    var_counter: vc2,
                    out: st.out + bin_text(dec_val(valtext), 16) + "\n"@,
                },
            )
        } else {
            Err(AsmErrV::Symbol(line))
        }
    }
}

/// What a compute instruction does: encode its three fields through
/// the fixed tables.
pub open spec fn encode_c(st: AsmState, line: Seq<char>) -> Result<AsmState, AsmErrV> {
    let ts = c_tokens(line);
    match dest_code(ts[0]) {
        None => Err(AsmErrV::DestTok(ts[0])),
        Some(d) => match comp_code(ts[1]) {
            None => Err(AsmErrV::CompTok(ts[1])),
            Some(c) => match jump_code(ts[2]) {
                None => Err(AsmErrV::JumpTok(ts[2])),
                Some(j) => Ok(
                    AsmState { out: st.out + "111"@ + c + d + j + "\n"@, ..st },
                ),
            },
        },
    }
}

/// What one trimmed line does to the second pass's state.
pub open spec fn asm_line(st: AsmState, line: Seq<char>) -> Result<AsmState, AsmErrV> {
    if skip_line(line) {
        Ok(st)
    } else {
        match classify_asm(line) {
            None => Err(AsmErrV::Unknown(line)),
            Some(CommandType::LCommand) => Ok(st),
            Some(CommandType::ACommand) => encode_a(st, line),
            Some(CommandType::CCommand) => encode_c(st, line),
        }
    }
}

/// The second pass, folded over the lines from the front of `lines`.
pub open spec fn asm_pass(st: AsmState, lines: Seq<Seq<char>>) -> Result<AsmState, AsmErrV>
    decreases lines.len(),
{
    if lines.len() == 0 {
        Ok(st)
    } else {
        match asm_line(st, trimmed(lines[0])) {
            Ok(st2) => asm_pass(st2, lines.drop_first()),
            Err(e) => Err(e),
        }
    }
}

/// Both passes over one source text, starting from the given symbol
/// bindings.
pub open spec fn asm_run(
    table0: Map<Seq<char>, Seq<char>>,
    lines: Seq<Seq<char>>,
) -> Result<AsmState, AsmErrV> {
    match labels_pass(lines, table0, 0) {
        Err(e) => Err(e),
        Ok(m1) => asm_pass(AsmState { table: m1, var_counter: 0, out: Seq::empty() }, lines),
    }
}

/// Whether an assembly outcome is an error that the executable error
/// value `e` denotes.
pub open spec fn asm_failed_with(res: Result<AsmState, AsmErrV>, e: AsmError) -> bool {
    match res {
        Ok(_) => false,
        Err(g) => asm_err_matches(e, g),
    }
}

/// Whether an assembly outcome is a success with output text `out`
/// and final symbol bindings `table`.
pub open spec fn asm_produced(
    res: Result<AsmState, AsmErrV>,
    out: Seq<char>,
    table: Map<Seq<char>, Seq<char>>,
) -> bool {
    match res {
        Ok(st) => out == st.out && table == st.table,
        Err(_) => false,
    }
}

/// Whether a first-pass outcome is an error that `e` denotes.
pub open spec fn labels_failed_with(
    res: Result<Map<Seq<char>, Seq<char>>, AsmErrV>,
    e: AsmError,
) -> bool {
    match res {
        Ok(_) => false,
        Err(g) => asm_err_matches(e, g),
    }
}

/// One step of the first pass.
proof fn lemma_labels_step(
    all: Seq<Seq<char>>,
    k: int,
    table0: Map<Seq<char>, Seq<char>>,
    table: Map<Seq<char>, Seq<char>>,
    counter: nat,
    line: Seq<char>,
)
    requires
        0 <= k < all.len(),
        trimmed(all[k]) == line,
        labels_pass(all, table0, 0) == labels_pass(all.skip(k), table, counter),
    ensures
        skip_line(line) ==> labels_pass(all, table0, 0) == labels_pass(
            all.skip(k + 1),
            table,
            counter,
        ),
        !skip_line(line) && classify_asm(line) is None ==> labels_pass(all, table0, 0) == Err::<
            Map<Seq<char>, Seq<char>>,
            AsmErrV,
        >(AsmErrV::Unknown(line)),
        !skip_line(line) && classify_asm(line) == Some(CommandType::LCommand)
            ==> labels_pass(all, table0, 0) == labels_pass(
            all.skip(k + 1),
            table.insert(strip_paren_text(line), dec_text(counter)),
            counter,
        ),
        !skip_line(line) && (classify_asm(line) == Some(CommandType::ACommand)
            || classify_asm(line) == Some(CommandType::CCommand)) ==> labels_pass(
            all,
            table0,
            0,
        ) == labels_pass(all.skip(k + 1), table, counter + 1),
{
    assert(all.skip(k).len() == all.len() - k);
    assert(all.skip(k)[0] == all[k]);
    assert(all.skip(k).drop_first() =~= all.skip(k + 1));
}

/// One step of the second pass.
proof fn lemma_asm_step(
    all: Seq<Seq<char>>,
    k: int,
    st1: AsmState,
    st: AsmState,
    line: Seq<char>,
)
    requires
        0 <= k < all.len(),
        trimmed(all[k]) == line,
        asm_pass(st1, all) == asm_pass(st, all.skip(k)),
    ensures
        asm_line(st, line) is Err ==> asm_pass(st1, all) == asm_line(st, line),
        asm_line(st, line) matches Ok(st2) ==> asm_pass(st1, all) == asm_pass(
            st2,
            all.skip(k + 1),
        ),
{
    assert(all.skip(k).len() == all.len() - k);
    assert(all.skip(k)[0] == all[k]);
    assert(all.skip(k).drop_first() =~= all.skip(k + 1));
}

/// A separator occurring at `k` bounds the end of the field starting
/// at `i`.
proof fn lemma_field_end_le(s: Seq<char>, i: int, k: int)
    requires
        0 <= i <= k < s.len(),
        is_field_sep(s[k]),
    ensures
        field_end(s, i) <= k,
    decreases k - i,
{
    if i < k && !is_field_sep(s[i]) {
        lemma_field_end_le(s, i + 1, k);
    }
}

/// A separator at or after `i` splits the rest into at least two
/// fields.
proof fn lemma_fields_ge2(s: Seq<char>, i: int, k: int)
    requires
        0 <= i <= k < s.len(),
        is_field_sep(s[k]),
    ensures
        fields_from(s, i).len() >= 2,
{
    lemma_field_end_le(s, i, k);
    lemma_field_end(s, i);
    let e = field_end(s, i);
    assert(e < s.len());
    lemma_field_end(s, e + 1);
    assert(fields_from(s, i) == seq![s.subrange(i, e)] + fields_from(s, e + 1));
    assert(fields_from(s, e + 1).len() >= 1);
}

/// A line holding a separator splits into at least two fields.
proof fn lemma_fields_two(s: Seq<char>)
    requires
        has_char(s, '=') || has_char(s, ';'),
    ensures
        fields_from(s, 0).len() >= 2,
{
    let k = if has_char(s, '=') {
        choose|k: int| 0 <= k < s.len() && s[k] == '='
    } else {
        choose|k: int| 0 <= k < s.len() && s[k] == ';'
    };
    assert(0 <= k < s.len() && is_field_sep(s[k]));
    lemma_fields_ge2(s, 0, k);
}

/// A line holding both separators splits into at least three fields.
proof fn lemma_fields_three(s: Seq<char>)
    requires
        has_char(s, '='),
        has_char(s, ';'),
    ensures
        fields_from(s, 0).len() >= 3,
{
    let k1 = choose|k: int| 0 <= k < s.len() && s[k] == '=';
    let k2 = choose|k: int| 0 <= k < s.len() && s[k] == ';';
    assert(k1 != k2);
    lemma_field_end_le(s, 0, k1);
    lemma_field_end_le(s, 0, k2);
    lemma_field_end(s, 0);
    let e = field_end(s, 0);
    assert(e < s.len());
    assert(fields_from(s, 0) == seq![s.subrange(0, e)] + fields_from(s, e + 1));
    if e + 1 <= k1 {
        lemma_fields_ge2(s, e + 1, k1);
    } else {
        assert(e + 1 <= k2);
        lemma_fields_ge2(s, e + 1, k2);
    }
}

/// The assembler: a symbol table shared by its two passes.
pub struct Parser {
    /// The symbol bindings: predefined cells, labels, variables.
    pub symbol_table: SymbolTable,
}

impl Parser {
    /// Whether a symbol is a literal address: it holds no letter.
    fn is_literal(s: &str) -> (r: bool)
        ensures
            r == is_literal_text(s@),
    {
        let n = s.unicode_len();
        let mut i: usize = 0;
        while i < n
            invariant
                n == s@.len(),
                0 <= i <= n,
                forall|k: int| 0 <= k < i ==> !is_alpha_char(#[trigger] s@[k]),
            decreases n - i,
        {
            let c = s.get_char(i) as u32;
            if (65 <= c && c <= 90) || (97 <= c && c <= 122) {
                return false;
            }
            i = i + 1;
        }
        true
    }

    /// An assembler whose table holds the predefined symbols.
    pub fn new() -> (r: Parser)
        ensures
            r.symbol_table.wf(),
            r.symbol_table@ == crate::symbol_table::initial_symbols(),
    {
        Parser { symbol_table: SymbolTable::new() }
    }

    /// Classifies one source line by its form.
    pub fn command_type(line: &str) -> (r: Option<CommandType>)
        ensures
            r == classify_asm(line@),
    {
        let t = trim_str(line);
        if t.unicode_len() > 0 && t.get_char(0) == '@' {
            Some(CommandType::ACommand)
        } else if t.unicode_len() > 0 && t.get_char(0) == '(' {
            Some(CommandType::LCommand)
        } else if crate::code::contains_comp(line) {
            Some(CommandType::CCommand)
        } else {
            None
        }
    }

    /// The first pass: binds every declared label to the address of
    /// the instruction that follows it.
    #[verifier::loop_isolation(false)]
    pub fn resolve_labels(&mut self, input: &str) -> (r: Result<(), AsmError>)
        requires
            old(self).symbol_table.wf(),
        ensures
            final(self).symbol_table.wf(),
            r is Ok ==> labels_pass(split_lines(input@), old(self).symbol_table@, 0) == Ok::<
                Map<Seq<char>, Seq<char>>,
                AsmErrV,
            >(final(self).symbol_table@),
            r matches Err(e) ==> labels_failed_with(
                labels_pass(split_lines(input@), old(self).symbol_table@, 0),
                e,
            ),
    {
        let ghost table0 = self.symbol_table@;
        let ghost all = split_lines(input@);
        let lines = split_into_lines(input);
        let total = lines.len();
        let mut counter: usize = 0;
        let mut i: usize = 0;
        proof {
            assert(all.skip(0) =~= all);
        }
        while i < total
            invariant
                total == lines.len(),
                lines.deep_view() == all,
                0 <= i <= total,
                counter <= i,
                self.symbol_table.wf(),
                labels_pass(all, table0, 0) == labels_pass(
                    all.skip(i as int),
                    self.symbol_table@,
                    counter as nat,
                ),
            decreases total - i,
        {
            let ghost k = i as int;
            let ghost table_in = self.symbol_table@;
            let ghost counter_in = counter as nat;
            let line = trim_str(lines[i].as_str());
            proof {
                assert(lines.deep_view()[k] == lines@[k]@);
                assert(trimmed(all[k]) == line@);
                lemma_labels_step(all, k, table0, table_in, counter_in, line@);
            }
            let n = line.unicode_len();
            let skip_this = n == 0 || (n >= 2 && line.get_char(0) == '/' && line.get_char(1)
                == '/');
            if !skip_this {
                match Parser::command_type(line) {
                    None => {
                        return Err(AsmError::UnknownInstruction(String::from_str(line)));
                    },
                    Some(CommandType::LCommand) => {
                        let sym = strip_parens(line);
                        let val = usize_to_string(counter);
                        self.symbol_table.add_entry(sym, val.as_str());
                    },
                    Some(_) => {
                        counter = counter + 1;
                    },
                }
            }
            i = i + 1;
        }
        proof {
            assert(all.skip(i as int) =~= Seq::<Seq<char>>::empty());
        }
        Ok(())
    }

    /// Both passes: resolves labels, then encodes every instruction as
    /// one 16-character binary line, allocating addresses from 16 on
    /// for variable symbols.
    #[verifier::rlimit(100)]
    #[verifier::loop_isolation(false)]
    pub fn parse(&mut self, input: &str) -> (r: Result<String, AsmError>)
        requires
            old(self).symbol_table.wf(),
            split_lines(input@).len() + 16 <= usize::MAX,
        ensures
            final(self).symbol_table.wf(),
            r matches Ok(out) ==> asm_produced(
                asm_run(old(self).symbol_table@, split_lines(input@)),
                out@,
                final(self).symbol_table@,
            ),
            r matches Err(e) ==> asm_failed_with(
                asm_run(old(self).symbol_table@, split_lines(input@)),
                e,
            ),
    {
        let ghost table0 = self.symbol_table@;
        let ghost all = split_lines(input@);
        match self.resolve_labels(input) {
            Err(e) => {
                return Err(e);
            },
            Ok(()) => {},
        }
        let ghost st1 = AsmState {
            table: self.symbol_table@,
            var_counter: 0,
            out: Seq::empty(),
        };
        let lines = split_into_lines(input);
        let total = lines.len();
        let mut out = String::new();
        let mut var_counter: usize = 0;
        let mut i: usize = 0;
        proof {
            assert(all.skip(0) =~= all);
            assert(asm_pass(st1, all.skip(0)) == asm_pass(st1, all));
        }
        while i < total
            invariant
                total == lines.len(),
                lines.deep_view() == all,
                0 <= i <= total,
                var_counter <= i,
                self.symbol_table.wf(),
                asm_pass(st1, all) == asm_pass(
                    AsmState {
                        table: self.symbol_table@,
                        var_counter: var_counter as nat,
                        out: out@,
                    },
                    all.skip(i as int),
                ),
            decreases total - i,
        {
            let ghost k = i as int;
            let ghost st_in = AsmState {
                table: self.symbol_table@,
                var_counter: var_counter as nat,
                out: out@,
            };
            let line = trim_str(lines[i].as_str());
            proof {
                assert(lines.deep_view()[k] == lines@[k]@);
                assert(trimmed(all[k]) == line@);
                lemma_asm_step(all, k, st1, st_in, line@);
            }
            let n = line.unicode_len();
            let skip_this = n == 0 || (n >= 2 && line.get_char(0) == '/' && line.get_char(1)
                == '/');
            if !skip_this {
                match Parser::command_type(line) {
                    None => {
                        proof {
                            assert(asm_line(st_in, line@) == Err::<AsmState, AsmErrV>(
                                AsmErrV::Unknown(line@),
                            ));
                        }
                        return Err(AsmError::UnknownInstruction(String::from_str(line)));
                    },
                    Some(CommandType::LCommand) => {},
                    Some(CommandType::ACommand) => {
                        let sym = strip_at(line);
                        if Parser::is_literal(sym) {
                            let parsed = parse_usize(sym);
                            match parsed {
                                Some(v) => {
                                    if v <= 65535 {
                                        let bin = bin_string(v, 16);
                                        out.append(bin.as_str());
                                        out.append("\n");
                                    } else {
                                        return Err(AsmError::InvalidSymbol(String::from_str(
                                            line,
                                        )));
                                    }
                                },
                                None => {
                                    return Err(AsmError::InvalidSymbol(String::from_str(line)));
                                },
                            }
                        } else {
                            if !self.symbol_table.contains(sym) {
                                let val = usize_to_string(16 + var_counter);
                                self.symbol_table.add_entry(sym, val.as_str());
                                var_counter = var_counter + 1;
                            }
                            let addr = String::from_str(self.symbol_table.get_addr(sym));
                            let parsed = parse_usize(addr.as_str());
                            match parsed {
                                Some(v) => {
                                    if v <= 65535 {
                                        let bin = bin_string(v, 16);
                                        out.append(bin.as_str());
                                        out.append("\n");
                                    } else {
                                        return Err(AsmError::InvalidSymbol(String::from_str(
                                            line,
                                        )));
                                    }
                                },
                                None => {
                                    return Err(AsmError::InvalidSymbol(String::from_str(line)));
                                },
                            }
                        }
                    },
                    Some(CommandType::CCommand) => {
                        let ln = line.unicode_len();
                        let mut ts = fields_exec(line, 0, ln);
                        proof {
                            if has_char(line@, '=') && has_char(line@, ';') {
                                lemma_fields_three(line@);
                            } else if has_char(line@, '=') || has_char(line@, ';') {
                                lemma_fields_two(line@);
                            }
                        }
                        if !contains_char(line, '=') {
                            ts.insert(0, String::from_str("null"));
                        }
                        if !contains_char(line, ';') {
                            ts.insert(2, String::from_str("null"));
                        }
                        proof {
                            assert(ts.deep_view() =~= c_tokens(line@));
                            assert(ts@.len() >= 3);
                        }
                        let d = match dest(ts[0].as_str()) {
                            Some(v) => v,
                            None => {
                                return Err(AsmError::InvalidDest(ts[0].clone()));
                            },
                        };
                        let c = match comp(ts[1].as_str()) {
                            Some(v) => v,
                            None => {
                                return Err(AsmError::InvalidComp(ts[1].clone()));
                            },
                        };
                        let j = match jump(ts[2].as_str()) {
                            Some(v) => v,
                            None => {
                                return Err(AsmError::InvalidJump(ts[2].clone()));
                            },
                        };
                        out.append("111");
                        out.append(c);
                        out.append(d);
                        out.append(j);
                        out.append("\n");
                    },
                }
            }
            proof {
                assert(asm_line(st_in, line@) == Ok::<AsmState, AsmErrV>(
                    AsmState {
                        table: self.symbol_table@,
                        var_counter: var_counter as nat,
                        out: out@,
                    },
                ));
            }
            i = i + 1;
        }
        proof {
            assert(all.skip(i as int) =~= Seq::<Seq<char>>::empty());
        }
        Ok(out)
    }
}

} // verus!
