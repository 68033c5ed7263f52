//! The assembler's fixed code tables: the binary encodings of the
//! destination, computation and jump fields of a compute instruction.

use vstd::prelude::*;
use crate::text::str_eq;
use vstd::string::StrSliceExecFns;

verus! {

/// The binary encoding of a destination mnemonic, if it is one.
pub open spec fn dest_code(k: Seq<char>) -> Option<Seq<char>> {
    if k == "null"@ {
        Some("000"@)
    } else if k == "M"@ {
        Some("001"@)
    } else if k == "D"@ {
        Some("010"@)
    } else if k == "MD"@ {
        Some("011"@)
    } else if k == "A"@ {
        Some("100"@)
    } else if k == "AM"@ {
        Some("101"@)
    } else if k == "AD"@ {
        Some("110"@)
    } else if k == "AMD"@ {
        Some("111"@)
    } else {
        None
    }
}

/// The binary encoding of a jump mnemonic, if it is one.
pub open spec fn jump_code(k: Seq<char>) -> Option<Seq<char>> {
    if k == "null"@ {
        Some("000"@)
    } else if k == "JGT"@ {
        Some("001"@)
    } else if k == "JEQ"@ {
        Some("010"@)
    } else if k == "JGE"@ {
        Some("011"@)
    } else if k == "JLT"@ {
        Some("100"@)
    } else if k == "JNE"@ {
        Some("101"@)
    } else if k == "JLE"@ {
        Some("110"@)
    } else if k == "JMP"@ {
        Some("111"@)
    } else {
        None
    }
}

/// The binary encoding of a computation mnemonic, if it is one.
pub open spec fn comp_code(k: Seq<char>) -> Option<Seq<char>> {
    if k == "0"@ {
        Some("0101010"@)
    } else if k == "1"@ {
        Some("0111111"@)
    } else if k == "-1"@ {
        Some("0111010"@)
    } else if k == "D"@ {
        Some("0001100"@)
    } else if k == "A"@ {
        Some("0110000"@)
    } else if k == "!D"@ {
        Some("0001101"@)
    } else if k == "!A"@ {
        Some("0110001"@)
    } else if k == "-D"@ {
        Some("0001111"@)
    } else if k == "-A"@ {
        Some("0110011"@)
    } else if k == "D+1"@ {
        Some("0011111"@)
    } else if k == "A+1"@ {
        Some("0110111"@)
    } else if k == "D-1"@ {
        Some("0001110"@)
    } else if k == "A-1"@ {
        Some("0110010"@)
    } else if k == "D+A"@ {
        Some("0000010"@)
    } else if k == "D-A"@ {
        Some("0010011"@)
    } else if k == "A-D"@ {
        Some("0000111"@)
    } else if k == "D&A"@ {
        Some("0000000"@)
    } else if k == "D|A"@ {
        Some("0010101"@)
    } else if k == "M"@ {
        Some("1110000"@)
    } else if k == "!M"@ {
        Some("1110001"@)
    } else if k == "-M"@ {
        Some("1110011"@)
    } else if k == "M+1"@ {
        Some("1110111"@)
    } else if k == "M-1"@ {
        Some("1110010"@)
    } else if k == "D+M"@ {
        Some("1000010"@)
    } else if k == "D-M"@ {
        Some("1010011"@)
    } else if k == "M-D"@ {
        Some("1000111"@)
    } else if k == "D&M"@ {
        Some("1000000"@)
    } else if k == "D|M"@ {
        Some("1010101"@)
    } else {
        None
    }
}

/// `p` occurs in `s` as a contiguous substring.
pub open spec fn has_sub(s: Seq<char>, p: Seq<char>) -> bool {
    exists|i: int| 0 <= i && i + p.len() <= s.len() && #[trigger] s.subrange(i, i + p.len()) == p
}

/// A line contains some computation mnemonic as a substring.
pub open spec fn has_comp_key(s: Seq<char>) -> bool {
    ||| has_sub(s, "0"@)
    ||| has_sub(s, "1"@)
    ||| has_sub(s, "-1"@)
    ||| has_sub(s, "D"@)
    ||| has_sub(s, "A"@)
    ||| has_sub(s, "!D"@)
    ||| has_sub(s, "!A"@)
    ||| has_sub(s, "-D"@)
    ||| has_sub(s, "-A"@)
    ||| has_sub(s, "D+1"@)
    ||| has_sub(s, "A+1"@)
    ||| has_sub(s, "D-1"@)
    ||| has_sub(s, "A-1"@)
    ||| has_sub(s, "D+A"@)
    ||| has_sub(s, "D-A"@)
    ||| has_sub(s, "A-D"@)
    ||| has_sub(s, "D&A"@)
    ||| has_sub(s, "D|A"@)
    ||| has_sub(s, "M"@)
    ||| has_sub(s, "!M"@)
    ||| has_sub(s, "-M"@)
    ||| has_sub(s, "M+1"@)
    ||| has_sub(s, "M-1"@)
    ||| has_sub(s, "D+M"@)
    ||| has_sub(s, "D-M"@)
    ||| has_sub(s, "M-D"@)
    ||| has_sub(s, "D&M"@)
    ||| has_sub(s, "D|M"@)
}

/// Whether the characters of `hay` starting at `i` spell out `needle`.
fn match_at(hay: &str, needle: &str, i: usize) -> (r: bool)
    requires
        i + needle@.len() <= hay@.len() <= usize::MAX,
    ensures
        r == (hay@.subrange(i as int, i as int + needle@.len()) == needle@),
{
    let m = needle.unicode_len();
    let mut j: usize = 0;
    while j < m
        invariant
            m == needle@.len(),
            i + m <= hay@.len() <= usize::MAX,
            0 <= j <= m,
            forall|k: int| 0 <= k < j ==> hay@[i + k] == needle@[k],
        decreases m - j,
    {
        if hay.get_char(i + j) != needle.get_char(j) {
            proof {
                let sub = hay@.subrange(i as int, i as int + needle@.len());
                assert(sub[j as int] == hay@[i + j]);
                assert(sub[j as int] != needle@[j as int]);
            }
            return false;
        }
        j = j + 1;
    }
    proof {
        assert(hay@.subrange(i as int, i as int + needle@.len()) =~= needle@);
    }
    true
}

/// Whether `needle` occurs in `hay` as a contiguous substring.
fn contains_sub(hay: &str, needle: &str) -> (r: bool)
    ensures
        r == has_sub(hay@, needle@),
{
    let n = hay.unicode_len();
    let m = needle.unicode_len();
    if m > n {
        proof {
            assert(!has_sub(hay@, needle@));
        }
        return false;
    }
    if m == 0 {
        proof {
            let zero: int = 0;
            assert(hay@.subrange(zero, zero + needle@.len()) =~= needle@);
            assert(has_sub(hay@, needle@));
        }
        return true;
    }
    let mut i: usize = 0;
    while i <= n - m
        invariant
            n == hay@.len(),
            m == needle@.len(),
            1 <= m <= n,
            0 <= i <= n - m + 1,
            forall|k: int|
                0 <= k < i ==> #[trigger] hay@.subrange(k, k + needle@.len()) != needle@,
        decreases n - m + 1 - i,
    {
        if match_at(hay, needle, i) {
            return true;
        }
        i = i + 1;
    }
    proof {
        assert forall|k: int| 0 <= k && k + needle@.len() <= hay@.len() implies #[trigger] hay@
            .subrange(k, k + needle@.len()) != needle@ by {
            assert(k < i);
        }
    }
    false
}

/// Looks up a destination mnemonic in the fixed table.
pub fn dest(key: &str) -> (r: Option<&'static str>)
    ensures
        match r {
            Some(v) => dest_code(key@) == Some(v@),
            None => dest_code(key@) is None,
        },
{
    if str_eq(key, "null") {
        Some("000")
    } else if str_eq(key, "M") {
        Some("001")
    } else if str_eq(key, "D") {
        Some("010")
    } else if str_eq(key, "MD") {
        Some("011")
    } else if str_eq(key, "A") {
        Some("100")
    } else if str_eq(key, "AM") {
        Some("101")
    } else if str_eq(key, "AD") {
        Some("110")
    } else if str_eq(key, "AMD") {
        Some("111")
    } else {
        None
    }
}

/// Looks up a jump mnemonic in the fixed table.
pub fn jump(key: &str) -> (r: Option<&'static str>)
    ensures
        match r {
            Some(v) => jump_code(key@) == Some(v@),
            None => jump_code(key@) is None,
        },
{
    if str_eq(key, "null") {
        Some("000")
    } else if str_eq(key, "JGT") {
        Some("001")
    } else if str_eq(key, "JEQ") {
        Some("010")
    } else if str_eq(key, "JGE") {
        Some("011")
    } else if str_eq(key, "JLT") {
        Some("100")
    } else if str_eq(key, "JNE") {
        Some("101")
    } else if str_eq(key, "JLE") {
        Some("110")
    } else if str_eq(key, "JMP") {
        Some("111")
    } else {
        None
    }
}

/// Looks up a computation mnemonic in the fixed table.
pub fn comp(key: &str) -> (r: Option<&'static str>)
    ensures
        match r {
            Some(v) => comp_code(key@) == Some(v@),
            None => comp_code(key@) is None,
        },
{
    if str_eq(key, "0") {
        Some("0101010")
    } else if str_eq(key, "1") {
        Some("0111111")
    } else if str_eq(key, "-1") {
        Some("0111010")
    } else if str_eq(key, "D") {
        Some("0001100")
    } else if str_eq(key, "A") {
        Some("0110000")
    } else if str_eq(key, "!D") {
        Some("0001101")
    } else if str_eq(key, "!A") {
        Some("0110001")
    } else if str_eq(key, "-D") {
        Some("0001111")
    } else if str_eq(key, "-A") {
        Some("0110011")
    } else if str_eq(key, "D+1") {
        Some("0011111")
    } else if str_eq(key, "A+1") {
        Some("0110111")
    } else if str_eq(key, "D-1") {
        Some("0001110")
    } else if str_eq(key, "A-1") {
        Some("0110010")
    } else if str_eq(key, "D+A") {
        Some("0000010")
    } else if str_eq(key, "D-A") {
        Some("0010011")
    } else if str_eq(key, "A-D") {
        Some("0000111")
    } else if str_eq(key, "D&A") {
        Some("0000000")
    } else if str_eq(key, "D|A") {
        Some("0010101")
    } else if str_eq(key, "M") {
        Some("1110000")
    } else if str_eq(key, "!M") {
        Some("1110001")
    } else if str_eq(key, "-M") {
        Some("1110011")
    } else if str_eq(key, "M+1") {
        Some("1110111")
    } else if str_eq(key, "M-1") {
        Some("1110010")
    } else if str_eq(key, "D+M") {
        Some("1000010")
    } else if str_eq(key, "D-M") {
        Some("1010011")
    } else if str_eq(key, "M-D") {
        Some("1000111")
    } else if str_eq(key, "D&M") {
        Some("1000000")
    } else if str_eq(key, "D|M") {
        Some("1010101")
    } else {
        None
    }
}

/// Whether a line holds any computation mnemonic, the assembler's test
/// for a compute instruction.
pub fn contains_comp(line: &str) -> (r: bool)
    ensures
        r == has_comp_key(line@),
{
    if contains_sub(line, "0") {
        return true;
    }
    if contains_sub(line, "1") {
        return true;
    }
    if contains_sub(line, "-1") {
        return true;
    }
    if contains_sub(line, "D") {
        return true;
    }
    if contains_sub(line, "A") {
        return true;
    }
    if contains_sub(line, "!D") {
        return true;
    }
    if contains_sub(line, "!A") {
        return true;
    }
    if contains_sub(line, "-D") {
        return true;
    }
    if contains_sub(line, "-A") {
        return true;
    }
    if contains_sub(line, "D+1") {
        return true;
    }
    if contains_sub(line, "A+1") {
        return true;
    }
    if contains_sub(line, "D-1") {
        return true;
    }
    if contains_sub(line, "A-1") {
        return true;
    }
    if contains_sub(line, "D+A") {
        return true;
    }
    if contains_sub(line, "D-A") {
        return true;
    }
    if contains_sub(line, "A-D") {
        return true;
    }
    if contains_sub(line, "D&A") {
        return true;
    }
    if contains_sub(line, "D|A") {
        return true;
    }
    if contains_sub(line, "M") {
        return true;
    }
    if contains_sub(line, "!M") {
        return true;
    }
    if contains_sub(line, "-M") {
        return true;
    }
    if contains_sub(line, "M+1") {
        return true;
    }
    if contains_sub(line, "M-1") {
        return true;
    }
    if contains_sub(line, "D+M") {
        return true;
    }
    if contains_sub(line, "D-M") {
        return true;
    }
    if contains_sub(line, "M-D") {
        return true;
    }
    if contains_sub(line, "D&M") {
        return true;
    }
    if contains_sub(line, "D|M") {
        return true;
    }
    false
}

} // verus!
