//! Character-level utilities shared by the parsers and the code writer:
//! whitespace handling, tokenization, trimming, and the decimal rendering
//! of counters that keeps synthesized labels unique.

use vstd::prelude::*;

verus! {

/// The whitespace characters that separate fields of a source line.
pub open spec fn is_space_char(c: char) -> bool {
    c == ' ' || c == '\t' || c == '\r' || c == '\n'
}

/// Executable mirror of `is_space_char`.
pub fn is_space(c: char) -> (r: bool)
    ensures
        r == is_space_char(c),
{
    c == ' ' || c == '\t' || c == '\r' || c == '\n'
}

/// A decimal digit.
pub open spec fn is_digit(c: char) -> bool {
    48 <= c as u32 <= 57
}

/// The numeric value of a decimal digit.
pub open spec fn digit_val(c: char) -> nat {
    (c as u32 - 48) as nat
}

/// All characters of `s` are decimal digits.
pub open spec fn all_digits(s: Seq<char>) -> bool {
    forall|k: int| 0 <= k < s.len() ==> is_digit(#[trigger] s[k])
}

/// The value of a sequence of decimal digits, most significant first.
pub open spec fn dec_val(s: Seq<char>) -> nat
    decreases s.len(),
{
    if s.len() == 0 {
        0
    } else {
        dec_val(s.drop_last()) * 10 + digit_val(s.last())
    }
}

/// The digit character for `n < 10`.
pub open spec fn digit_char(n: nat) -> char {
    if n == 0 {
        '0'
    } else if n == 1 {
        '1'
    } else if n == 2 {
        '2'
    } else if n == 3 {
        '3'
    } else if n == 4 {
        '4'
    } else if n == 5 {
        '5'
    } else if n == 6 {
        '6'
    } else if n == 7 {
        '7'
    } else if n == 8 {
        '8'
    } else {
        '9'
    }
}

/// The canonical decimal rendering of `n`, without leading zeros.
pub open spec fn dec_text(n: nat) -> Seq<char>
    decreases n,
{
    if n < 10 {
        seq![digit_char(n)]
    } else {
        dec_text(n / 10).push(digit_char(n % 10))
    }
}

/// The canonical rendering consists of digits, is non-empty, and reads
/// back to the number it was made from.
pub proof fn lemma_dec_text_val(n: nat)
    ensures
        dec_text(n).len() >= 1,
        all_digits(dec_text(n)),
        dec_val(dec_text(n)) == n,
    decreases n,
{
    if n < 10 {
        let s = dec_text(n);
        assert(s =~= seq![digit_char(n)]);
        assert(s.drop_last() =~= Seq::<char>::empty());
        assert(dec_val(Seq::<char>::empty()) == 0);
        assert(dec_val(s) == dec_val(s.drop_last()) * 10 + digit_val(s.last()));
        assert(s.last() == digit_char(n));
    } else {
        lemma_dec_text_val(n / 10);
        let pre = dec_text(n / 10);
        let whole = pre.push(digit_char(n % 10));
        assert(whole.drop_last() =~= pre);
        assert(whole.last() == digit_char(n % 10));
        assert(dec_val(whole) == dec_val(pre) * 10 + digit_val(digit_char(n % 10)));
        assert(digit_val(digit_char(n % 10)) == n % 10);
        assert((n / 10) * 10 + n % 10 == n) by (nonlinear_arith);
        assert(forall|k: int|
            0 <= k < whole.len() ==> is_digit(#[trigger] whole[k]));
    }
}

/// Distinct numbers have distinct decimal renderings.
pub proof fn lemma_dec_text_injective(a: nat, b: nat)
    requires
        dec_text(a) == dec_text(b),
    ensures
        a == b,
{
    lemma_dec_text_val(a);
    lemma_dec_text_val(b);
}

/// The first index at or after `i` holding a non-space character
/// (or the end of `s`).
pub open spec fn skip_spaces(s: Seq<char>, i: int) -> int
    decreases s.len() - i,
    when 0 <= i <= s.len()
{
    if i >= s.len() {
        i
    } else if is_space_char(s[i]) {
        skip_spaces(s, i + 1)
    } else {
        i
    }
}

pub proof fn lemma_skip_spaces(s: Seq<char>, i: int)
    requires
        0 <= i <= s.len(),
    ensures
        i <= skip_spaces(s, i) <= s.len(),
        skip_spaces(s, i) < s.len() ==> !is_space_char(s[skip_spaces(s, i)]),
    decreases s.len() - i,
{
    if i < s.len() && is_space_char(s[i]) {
        lemma_skip_spaces(s, i + 1);
    }
}

/// The end (exclusive) of the token that starts at `i`.
pub open spec fn tok_end(s: Seq<char>, i: int) -> int
    decreases s.len() - i,
    when 0 <= i <= s.len()
{
    if i >= s.len() {
        i
    } else if is_space_char(s[i]) {
        i
    } else {
        tok_end(s, i + 1)
    }
}

pub proof fn lemma_tok_end(s: Seq<char>, i: int)
    requires
        0 <= i <= s.len(),
    ensures
        i <= tok_end(s, i) <= s.len(),
        tok_end(s, i) < s.len() ==> is_space_char(s[tok_end(s, i)]),
        i < s.len() && !is_space_char(s[i]) ==> tok_end(s, i) > i,
    decreases s.len() - i,
{
    if i < s.len() && !is_space_char(s[i]) {
        lemma_tok_end(s, i + 1);
    }
}

/// The whitespace-separated tokens of `s`, starting from index `i`.
pub open spec fn toks_from(s: Seq<char>, i: int) -> Seq<Seq<char>>
    decreases s.len() - i,
    when 0 <= i <= s.len()
    via toks_from_decreases
{
    let a = skip_spaces(s, i);
    if a >= s.len() {
        Seq::empty()
    } else {
        seq![s.subrange(a, tok_end(s, a))] + toks_from(s, tok_end(s, a))
    }
}

#[via_fn]
proof fn toks_from_decreases(s: Seq<char>, i: int) {
    lemma_skip_spaces(s, i);
    let a = skip_spaces(s, i);
    if a < s.len() {
        lemma_tok_end(s, a);
    }
}

/// The whitespace-separated tokens of a whole line.
pub open spec fn toks(s: Seq<char>) -> Seq<Seq<char>> {
    toks_from(s, 0)
}

/// The first index at or before `j` such that every character of `s`
/// from that index up to `j` is a space.
pub open spec fn rskip_spaces(s: Seq<char>, j: int) -> int
    decreases j,
    when 0 <= j <= s.len()
{
    if j <= 0 {
        0
    } else if is_space_char(s[j - 1]) {
        rskip_spaces(s, j - 1)
    } else {
        j
    }
}

/// A source line is ignored when it is blank or starts with a comment
/// marker.
pub open spec fn skip_line(line: Seq<char>) -> bool {
    line.len() == 0 || (line.len() >= 2 && line[0] == '/' && line[1] == '/')
}

/// `s` with leading and trailing whitespace removed.
pub open spec fn trimmed(s: Seq<char>) -> Seq<char> {
    let a = skip_spaces(s, 0);
    if a == s.len() {
        Seq::empty()
    } else {
        s.subrange(a, rskip_spaces(s, s.len() as int))
    }
}

/// The lines of `s` from index `i` on: maximal segments between newline
/// characters, the final line ending being optional.
pub open spec fn lines_from(s: Seq<char>, i: int) -> Seq<Seq<char>>
    decreases s.len() - i,
    when 0 <= i <= s.len()
    via lines_from_decreases
{
    if i >= s.len() {
        Seq::empty()
    } else {
        let k = line_end(s, i);
        if k >= s.len() {
            seq![s.subrange(i, s.len() as int)]
        } else {
            seq![s.subrange(i, k)] + lines_from(s, k + 1)
        }
    }
}

#[via_fn]
proof fn lines_from_decreases(s: Seq<char>, i: int) {
    if i < s.len() {
        lemma_line_end(s, i);
    }
}

/// The lines of a whole source text.
pub open spec fn split_lines(s: Seq<char>) -> Seq<Seq<char>> {
    lines_from(s, 0)
}

/// A text of `n` characters splits into at most `n` lines.
pub proof fn lemma_lines_from_count(s: Seq<char>, i: int)
    requires
        0 <= i <= s.len(),
    ensures
        lines_from(s, i).len() <= s.len() - i,
    decreases s.len() - i,
{
    if i < s.len() {
        lemma_line_end(s, i);
        let k = line_end(s, i);
        if k < s.len() {
            lemma_lines_from_count(s, k + 1);
        }
    }
}

/// The index of the first newline at or after `i` (or the end of `s`).
pub open spec fn line_end(s: Seq<char>, i: int) -> int
    decreases s.len() - i,
    when 0 <= i <= s.len()
{
    if i >= s.len() {
        i
    } else if s[i] == '\n' {
        i
    } else {
        line_end(s, i + 1)
    }
}

pub proof fn lemma_line_end(s: Seq<char>, i: int)
    requires
        0 <= i <= s.len(),
    ensures
        i <= line_end(s, i) <= s.len(),
        line_end(s, i) < s.len() ==> s[line_end(s, i)] == '\n',
    decreases s.len() - i,
{
    if i < s.len() && s[i] != '\n' {
        lemma_line_end(s, i + 1);
    }
}

/// Character-for-character equality of two string slices.
pub fn str_eq(a: &str, b: &str) -> (r: bool)
    ensures
        r == (a@ == b@),
{
    let n = a.unicode_len();
    if n != b.unicode_len() {
        assert(a@.len() != b@.len());
        return false;
    }
    let mut i: usize = 0;
    while i < n
        invariant
            n == a@.len() == b@.len(),
            0 <= i <= n,
            forall|k: int| 0 <= k < i ==> a@[k] == b@[k],
        decreases n - i,
    {
        if a.get_char(i) != b.get_char(i) {
            return false;
        }
        i = i + 1;
    }
    proof {
        assert(a@ =~= b@);
    }
    true
}

/// `s` with leading and trailing whitespace removed.
pub fn trim_str<'a>(s: &'a str) -> (r: &'a str)
    ensures
        r@ == trimmed(s@),
{
    let n = s.unicode_len();
    let mut i: usize = 0;
    while i < n && is_space(s.get_char(i))
        invariant
            n == s@.len(),
            0 <= i <= n,
            skip_spaces(s@, 0) == skip_spaces(s@, i as int),
        decreases n - i,
    {
        i = i + 1;
    }
    if i == n {
        return s.substring_char(n, n);
    }
    let mut j: usize = n;
    while j > i && is_space(s.get_char(j - 1))
        invariant
            n == s@.len(),
            0 <= i < j <= n,
            skip_spaces(s@, 0) == i as int,
            !is_space_char(s@[i as int]),
            rskip_spaces(s@, n as int) == rskip_spaces(s@, j as int),
        decreases j,
    {
        j = j - 1;
    }
    s.substring_char(i, j)
}

/// The `n`-th whitespace-separated token of `line`, if it exists.
pub fn nth_token<'a>(line: &'a str, n: usize) -> (r: Option<&'a str>)
    ensures
        match r {
            Some(t) => n < toks(line@).len() && t@ == toks(line@)[n as int],
            None => n >= toks(line@).len(),
        },
{
    let len = line.unicode_len();
    let mut i: usize = 0;
    let mut count: usize = 0;
    loop
        invariant
            len == line@.len(),
            0 <= i <= len,
            count <= n,
            count as int <= toks(line@).len(),
            toks_from(line@, i as int) =~= toks(line@).skip(count as int),
        decreases len - i + (n - count),
    {
        // skip the spaces before the next token
        let ghost i0 = i as int;
        while i < len && is_space(line.get_char(i))
            invariant
                len == line@.len(),
                0 <= i0 <= i <= len,
                skip_spaces(line@, i0) == skip_spaces(line@, i as int),
            decreases len - i,
        {
            i = i + 1;
        }
        proof {
            lemma_skip_spaces(line@, i as int);
        }
        if i >= len {
            assert(toks_from(line@, i as int) =~= Seq::<Seq<char>>::empty());
            assert(toks(line@).skip(count as int).len() == 0);
            return None;
        }
        // find the end of the token
        let start = i;
        let mut j: usize = i;
        while j < len && !is_space(line.get_char(j))
            invariant
                len == line@.len(),
                start <= j <= len,
                tok_end(line@, start as int) == tok_end(line@, j as int),
            decreases len - j,
        {
            j = j + 1;
        }
        proof {
            lemma_tok_end(line@, start as int);
            assert(skip_spaces(line@, start as int) == start as int);
            assert(toks_from(line@, start as int) =~= seq![
                line@.subrange(start as int, j as int),
            ] + toks_from(line@, j as int));
        }
        proof {
            assert(skip_spaces(line@, i0) == i as int);
            assert(toks_from(line@, i0) =~= toks_from(line@, start as int));
            assert(toks(line@).skip(count as int).len() >= 1);
            assert(toks(line@).skip(count as int).len() == toks(line@).len() - count as int);
            assert(toks(line@).len() > count as int);
            assert(toks(line@).skip(count as int)[0] == toks(line@)[count as int]);
            assert(toks(line@)[count as int] == line@.subrange(start as int, j as int));
        }
        if count == n {
            let t = line.substring_char(start, j);
            return Some(t);
        }
        proof {
            assert(toks_from(line@, j as int) =~= toks_from(line@, i0).drop_first());
            assert(toks(line@).skip(count as int).drop_first() =~= toks(line@).skip(
                count as int + 1,
            ));
        }
        count = count + 1;
        i = j;
    }
}

/// The number denoted by a non-empty string of decimal digits, if it is
/// one and fits in `usize`.
pub fn parse_usize(t: &str) -> (r: Option<usize>)
    ensures
        match r {
            Some(v) => t@.len() >= 1 && all_digits(t@) && dec_val(t@) == v,
            None => t@.len() == 0 || !all_digits(t@) || dec_val(t@) > usize::MAX,
        },
{
    let len = t.unicode_len();
    if len == 0 {
        return None;
    }
    let mut acc: usize = 0;
    let mut i: usize = 0;
    while i < len
        invariant
            len == t@.len(),
            0 <= i <= len,
            all_digits(t@.subrange(0, i as int)),
            acc == dec_val(t@.subrange(0, i as int)),
        decreases len - i,
    {
        let c = t.get_char(i);
        let cu = c as u32;
        if cu < 48 || cu > 57 {
            assert(!is_digit(t@[i as int]));
            return None;
        }
        let d = (cu - 48) as usize;
        if acc > (usize::MAX - d) / 10 {
            proof {
                assert(acc * 10 + d > usize::MAX) by (nonlinear_arith)
                    requires
                        acc > (usize::MAX - d) / 10,
                        d <= 9,
                ;
                lemma_dec_val_grows(t@, i as int + 1);
                assert(t@.subrange(0, i as int + 1).drop_last() =~= t@.subrange(0, i as int));
                assert(t@.subrange(0, i as int + 1).last() == t@[i as int]);
            }
            return None;
        }
        proof {
            assert(t@.subrange(0, i as int + 1).drop_last() =~= t@.subrange(0, i as int));
            assert(t@.subrange(0, i as int + 1).last() == t@[i as int]);
        }
        acc = acc * 10 + d;
        i = i + 1;
    }
    proof {
        assert(t@.subrange(0, len as int) =~= t@);
    }
    Some(acc)
}

/// Extending a digit string never decreases its value: the value of a
/// prefix bounds the value of the whole from below.
pub proof fn lemma_dec_val_grows(s: Seq<char>, i: int)
    requires
        0 <= i <= s.len(),
    ensures
        dec_val(s.subrange(0, i)) <= dec_val(s),
    decreases s.len() - i,
{
    if i < s.len() {
        lemma_dec_val_grows(s, i + 1);
        let a = s.subrange(0, i);
        let b = s.subrange(0, i + 1);
        assert(b.drop_last() =~= a);
        assert(dec_val(b) == dec_val(a) * 10 + digit_val(b.last()));
        assert(dec_val(a) * 10 >= dec_val(a)) by (nonlinear_arith);
    } else {
        assert(s.subrange(0, i) =~= s);
    }
}

/// The digit character for `m = n % 10`, as a string slice.
pub(crate) fn digit_str(m: usize) -> (r: &'static str)
    requires
        m < 10,
    ensures
        r@ == seq![digit_char(m as nat)],
{
    proof {
        reveal_strlit("0");
        reveal_strlit("1");
        reveal_strlit("2");
        reveal_strlit("3");
        reveal_strlit("4");
        reveal_strlit("5");
        reveal_strlit("6");
        reveal_strlit("7");
        reveal_strlit("8");
        reveal_strlit("9");
    }
    let r = if m == 0 {
        "0"
    } else if m == 1 {
        "1"
    } else if m == 2 {
        "2"
    } else if m == 3 {
        "3"
    } else if m == 4 {
        "4"
    } else if m == 5 {
        "5"
    } else if m == 6 {
        "6"
    } else if m == 7 {
        "7"
    } else if m == 8 {
        "8"
    } else {
        "9"
    };
    proof {
        assert(r@ =~= seq![digit_char(m as nat)]);
    }
    r
}

/// Splits a source text into its lines.
pub fn split_into_lines(s: &str) -> (r: Vec<String>)
    ensures
        r.deep_view() == split_lines(s@),
{
    let len = s.unicode_len();
    let mut r: Vec<String> = Vec::new();
    let mut pos: usize = 0;
    proof {
        assert(r.deep_view() =~= Seq::<Seq<char>>::empty());
    }
    while pos < len
        invariant
            len == s@.len(),
            0 <= pos <= len,
            r.deep_view() + lines_from(s@, pos as int) =~= split_lines(s@),
        decreases len - pos,
    {
        let ghost p0 = pos as int;
        let start = pos;
        let mut k: usize = pos;
        while k < len && s.get_char(k) != '\n'
            invariant
                len == s@.len(),
                start <= k <= len,
                line_end(s@, start as int) == line_end(s@, k as int),
            decreases len - k,
        {
            k = k + 1;
        }
        proof {
            lemma_line_end(s@, start as int);
            assert(line_end(s@, start as int) == k as int);
        }
        let piece = String::from_str(s.substring_char(start, k));
        let ghost old_r = r.deep_view();
        r.push(piece);
        proof {
            assert(r.deep_view() =~= old_r.push(s@.subrange(start as int, k as int)));
        }
        if k >= len {
            pos = len;
            proof {
                assert(lines_from(s@, p0) =~= seq![s@.subrange(p0, len as int)]);
                assert(lines_from(s@, len as int) =~= Seq::<Seq<char>>::empty());
                assert(r.deep_view() + lines_from(s@, pos as int) =~= split_lines(s@));
            }
        } else {
            pos = k + 1;
            proof {
                assert(lines_from(s@, p0) =~= seq![s@.subrange(p0, k as int)] + lines_from(
                    s@,
                    k as int + 1,
                ));
                assert(r.deep_view() + lines_from(s@, pos as int) =~= split_lines(s@));
            }
        }
    }
    proof {
        assert(lines_from(s@, pos as int) =~= Seq::<Seq<char>>::empty());
        assert(r.deep_view() =~= split_lines(s@));
    }
    r
}

/// The canonical decimal rendering of `n`.
pub fn usize_to_string(n: usize) -> (r: String)
    ensures
        r@ == dec_text(n as nat),
    decreases n,
{
    if n < 10 {
        let mut s = String::new();
        s.append(digit_str(n));
        proof {
            assert(s@ =~= dec_text(n as nat));
        }
        s
    } else {
        let mut s = usize_to_string(n / 10);
        s.append(digit_str(n % 10));
        proof {
            assert(s@ =~= dec_text(n as nat));
        }
        s
    }
}

} // verus!
