//! Construction of every symbol the generator synthesizes — scoped
//! branch labels, per-namespace static symbols, comparison labels and
//! call return labels — together with the laws that make them collision
//! free.

use vstd::prelude::*;
use crate::text::{dec_text, lemma_dec_text_injective, usize_to_string};
use vstd::string::{StringExecFns, StrSliceExecFns};

verus! {

/// A user branch label, scoped by the enclosing function: `F$label`
/// when a function is active, the bare label otherwise.
pub open spec fn scoped_label_text(func: Seq<char>, label: Seq<char>) -> Seq<char> {
    if func.len() == 0 {
        label
    } else {
        func + "$"@ + label
    }
}

/// The symbol that addresses static slot `idx` of namespace `ns`.
pub open spec fn static_symbol_text(ns: Seq<char>, idx: nat) -> Seq<char> {
    ns + "."@ + dec_text(idx)
}

/// A synthesized comparison label: a fixed kind prefix, a dot, and the
/// value of the label counter at the comparison.
pub open spec fn cmp_label_text(kind: Seq<char>, idx: nat) -> Seq<char> {
    kind + "."@ + dec_text(idx)
}

/// The return-address label of a call site.
pub open spec fn return_label_text(callee: Seq<char>, ns: Seq<char>, idx: nat) -> Seq<char> {
    "AFTER_"@ + callee + "_"@ + ns + "."@ + dec_text(idx)
}

/// Appending the same suffix to different sequences yields different
/// sequences.
pub proof fn lemma_append_right_cancel(x1: Seq<char>, x2: Seq<char>, s: Seq<char>)
    requires
        x1 + s == x2 + s,
    ensures
        x1 == x2,
{
    assert((x1 + s).len() == x1.len() + s.len());
    assert((x2 + s).len() == x2.len() + s.len());
    assert(x1.len() == x2.len());
    assert(forall|k: int| 0 <= k < x1.len() ==> #[trigger] x1[k] == (x1 + s)[k]);
    assert(forall|k: int| 0 <= k < x2.len() ==> #[trigger] x2[k] == (x2 + s)[k]);
    assert(x1 =~= x2);
}

/// Appending different suffixes to the same prefix yields different
/// sequences.
pub proof fn lemma_append_left_cancel(p: Seq<char>, s1: Seq<char>, s2: Seq<char>)
    requires
        p + s1 == p + s2,
    ensures
        s1 == s2,
{
    assert((p + s1).len() == p.len() + s1.len());
    assert((p + s2).len() == p.len() + s2.len());
    assert(s1.len() == s2.len());
    assert(forall|k: int|
        0 <= k < s1.len() ==> #[trigger] s1[k] == (p + s1)[p.len() + k]);
    assert(forall|k: int|
        0 <= k < s2.len() ==> #[trigger] s2[k] == (p + s2)[p.len() + k]);
    assert(s1 =~= s2);
}

/// Law: two comparisons of the same kind emitted under different label
/// counter values use different labels, so N comparisons of one kind
/// produce N distinct label pairs.
pub proof fn lemma_cmp_labels_unique(kind: Seq<char>, i: nat, j: nat)
    requires
        i != j,
    ensures
        cmp_label_text(kind, i) != cmp_label_text(kind, j),
{
    if cmp_label_text(kind, i) == cmp_label_text(kind, j) {
        assert((kind + "."@) + dec_text(i) =~= cmp_label_text(kind, i));
        assert((kind + "."@) + dec_text(j) =~= cmp_label_text(kind, j));
        lemma_append_left_cancel(kind + "."@, dec_text(i), dec_text(j));
        lemma_dec_text_injective(i, j);
    }
}

/// Law: two call sites with different call counter values use different
/// return labels, even for the same callee and namespace.
pub proof fn lemma_return_labels_unique(
    callee: Seq<char>,
    ns: Seq<char>,
    i: nat,
    j: nat,
)
    requires
        i != j,
    ensures
        return_label_text(callee, ns, i) != return_label_text(callee, ns, j),
{
    let p = "AFTER_"@ + callee + "_"@ + ns + "."@;
    if return_label_text(callee, ns, i) == return_label_text(callee, ns, j) {
        assert(p + dec_text(i) =~= return_label_text(callee, ns, i));
        assert(p + dec_text(j) =~= return_label_text(callee, ns, j));
        lemma_append_left_cancel(p, dec_text(i), dec_text(j));
        lemma_dec_text_injective(i, j);
    }
}

/// Law: a label declared in one function and the identically named
/// label declared in a different function scope to distinct symbols.
pub proof fn lemma_scoped_labels_distinct(f1: Seq<char>, f2: Seq<char>, label: Seq<char>)
    requires
        f1 != f2,
        f1.len() > 0,
        f2.len() > 0,
    ensures
        scoped_label_text(f1, label) != scoped_label_text(f2, label),
{
    if scoped_label_text(f1, label) == scoped_label_text(f2, label) {
        assert(f1 + ("$"@ + label) =~= scoped_label_text(f1, label));
        assert(f2 + ("$"@ + label) =~= scoped_label_text(f2, label));
        lemma_append_right_cancel(f1, f2, "$"@ + label);
    }
}

/// Law: the same static index referenced from different namespaces
/// addresses distinct symbols.
pub proof fn lemma_static_symbols_distinct(ns1: Seq<char>, ns2: Seq<char>, idx: nat)
    requires
        ns1 != ns2,
    ensures
        static_symbol_text(ns1, idx) != static_symbol_text(ns2, idx),
{
    if static_symbol_text(ns1, idx) == static_symbol_text(ns2, idx) {
        assert(ns1 + ("."@ + dec_text(idx)) =~= static_symbol_text(ns1, idx));
        assert(ns2 + ("."@ + dec_text(idx)) =~= static_symbol_text(ns2, idx));
        lemma_append_right_cancel(ns1, ns2, "."@ + dec_text(idx));
    }
}

/// Builds the scoped form of a user branch label.
pub fn make_scoped_label(func: &str, label: &str) -> (r: String)
    ensures
        r@ == scoped_label_text(func@, label@),
{
    if func.unicode_len() == 0 {
        let r = String::from_str(label);
        proof {
            assert(r@ =~= scoped_label_text(func@, label@));
        }
        r
    } else {
        let mut r = String::from_str(func);
        r.append("$");
        r.append(label);
        proof {
            assert(r@ =~= scoped_label_text(func@, label@));
        }
        r
    }
}

/// Builds the static symbol for `ns` and `idx`.
pub fn make_static_symbol(ns: &str, idx: usize) -> (r: String)
    ensures
        r@ == static_symbol_text(ns@, idx as nat),
{
    let mut r = String::from_str(ns);
    r.append(".");
    let digits = usize_to_string(idx);
    r.append(digits.as_str());
    proof {
        assert(r@ =~= static_symbol_text(ns@, idx as nat));
    }
    r
}

/// Builds a comparison label from its kind prefix and a counter value.
pub fn make_cmp_label(kind: &str, idx: usize) -> (r: String)
    ensures
        r@ == cmp_label_text(kind@, idx as nat),
{
    let mut r = String::from_str(kind);
    r.append(".");
    let digits = usize_to_string(idx);
    r.append(digits.as_str());
    proof {
        assert(r@ =~= cmp_label_text(kind@, idx as nat));
    }
    r
}

/// Builds the return label of a call site.
pub fn make_return_label(callee: &str, ns: &str, idx: usize) -> (r: String)
    ensures
        r@ == return_label_text(callee@, ns@, idx as nat),
{
    let mut r = String::from_str("AFTER_");
    r.append(callee);
    r.append("_");
    r.append(ns);
    r.append(".");
    let digits = usize_to_string(idx);
    r.append(digits.as_str());
    proof {
        assert(r@ =~= return_label_text(callee@, ns@, idx as nat));
    }
    r
}

} // verus!
