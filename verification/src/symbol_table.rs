//! The assembler's symbol table: the predefined cell names plus the
//! entries added for labels and variables, modelled as a map from
//! symbol text to value text.

use vstd::prelude::*;
use crate::text::str_eq;
use vstd::string::{StringExecFns, StrSliceExecFns};

verus! {

/// The map denoted by an association list, later entries overriding
/// earlier ones.
pub open spec fn entries_map(s: Seq<(String, String)>) -> Map<Seq<char>, Seq<char>>
    decreases s.len(),
{
    if s.len() == 0 {
        Map::empty()
    } else {
        entries_map(s.drop_last()).insert(s.last().0@, s.last().1@)
    }
}

/// No two entries share a key.
pub open spec fn keys_unique(s: Seq<(String, String)>) -> bool {
    forall|i: int, j: int| 0 <= i < j < s.len() ==> (#[trigger] s[i]).0@ != (#[trigger] s[j]).0@
}

/// The domain of the denoted map is exactly the keys of the list.
pub proof fn lemma_entries_map_domain(s: Seq<(String, String)>, k: Seq<char>)
    ensures
        entries_map(s).contains_key(k) <==> exists|i: int|
            0 <= i < s.len() && (#[trigger] s[i]).0@ == k,
    decreases s.len(),
{
    if s.len() > 0 {
        lemma_entries_map_domain(s.drop_last(), k);
        if s.last().0@ == k {
            assert(s[s.len() - 1].0@ == k);
        } else {
            if entries_map(s).contains_key(k) {
                let i = choose|i: int| 0 <= i < s.drop_last().len() && (#[trigger] s.drop_last()[
                    i
                ]).0@ == k;
                assert(s[i].0@ == k);
            }
            if exists|i: int| 0 <= i < s.len() && (#[trigger] s[i]).0@ == k {
                let i = choose|i: int| 0 <= i < s.len() && (#[trigger] s[i]).0@ == k;
                assert(i < s.len() - 1);
                assert(s.drop_last()[i].0@ == k);
            }
        }
    }
}

/// With unique keys, the entry at any index gives the map's value at
/// its key.
pub proof fn lemma_entries_map_at(s: Seq<(String, String)>, i: int)
    requires
        keys_unique(s),
        0 <= i < s.len(),
    ensures
        entries_map(s).contains_key(s[i].0@),
        entries_map(s)[s[i].0@] == s[i].1@,
    decreases s.len(),
{
    if i == s.len() - 1 {
        assert(s.last() == s[i]);
    } else {
        assert(keys_unique(s.drop_last())) by {
            assert(forall|a: int, b: int|
                0 <= a < b < s.drop_last().len() ==> (#[trigger] s.drop_last()[a]) == s[a]
                    && (#[trigger] s.drop_last()[b]) == s[b]);
        }
        lemma_entries_map_at(s.drop_last(), i);
        assert(s.drop_last()[i] == s[i]);
        assert(s.last().0@ != s[i].0@);
    }
}

/// Replacing the value at an existing key denotes the same map as a
/// plain insert.
pub proof fn lemma_entries_map_update(s: Seq<(String, String)>, i: int, p: (String, String))
    requires
        keys_unique(s),
        0 <= i < s.len(),
        s[i].0@ == p.0@,
    ensures
        entries_map(s.update(i, p)) == entries_map(s).insert(p.0@, p.1@),
    decreases s.len(),
{
    let su = s.update(i, p);
    if i == s.len() - 1 {
        assert(su.drop_last() =~= s.drop_last());
        assert(su.last() == p);
        assert(entries_map(su) == entries_map(s.drop_last()).insert(p.0@, p.1@));
        assert(entries_map(s.drop_last()).insert(s.last().0@, s.last().1@).insert(p.0@, p.1@)
            =~= entries_map(s.drop_last()).insert(p.0@, p.1@));
    } else {
        assert(keys_unique(s.drop_last())) by {
            assert(forall|a: int, b: int|
                0 <= a < b < s.drop_last().len() ==> (#[trigger] s.drop_last()[a]) == s[a]
                    && (#[trigger] s.drop_last()[b]) == s[b]);
        }
        assert(s.drop_last()[i] == s[i]);
        lemma_entries_map_update(s.drop_last(), i, p);
        assert(su.drop_last() =~= s.drop_last().update(i, p));
        assert(su.last() == s.last());
        assert(entries_map(su) == entries_map(s.drop_last()).insert(p.0@, p.1@).insert(
            s.last().0@,
            s.last().1@,
        ));
        assert(s.last().0@ != p.0@);
        assert(entries_map(s.drop_last()).insert(p.0@, p.1@).insert(s.last().0@, s.last().1@)
            =~= entries_map(s.drop_last()).insert(s.last().0@, s.last().1@).insert(p.0@, p.1@));
    }
}

/// The predefined symbols: the hardware cells, the numbered scratch
/// cells, and the two device bases.
pub open spec fn initial_symbols() -> Map<Seq<char>, Seq<char>> {
    Map::<Seq<char>, Seq<char>>::empty()
        .insert("SP"@, "0"@)
        .insert("LCL"@, "1"@)
        .insert("ARG"@, "2"@)
        .insert("THIS"@, "3"@)
        .insert("THAT"@, "4"@)
        .insert("R0"@, "0"@)
        .insert("R1"@, "1"@)
        .insert("R2"@, "2"@)
        .insert("R3"@, "3"@)
        .insert("R4"@, "4"@)
        .insert("R5"@, "5"@)
        .insert("R6"@, "6"@)
        .insert("R7"@, "7"@)
        .insert("R8"@, "8"@)
        .insert("R9"@, "9"@)
        .insert("R10"@, "10"@)
        .insert("R11"@, "11"@)
        .insert("R13"@, "13"@)
        .insert("R14"@, "14"@)
        .insert("R15"@, "15"@)
        .insert("SCREEN"@, "16384"@)
        .insert("KBD"@, "24567"@)
}

/// The symbol table, denoting a map from symbol text to value text.
pub struct SymbolTable {
    /// The entries, with pairwise distinct keys.
    pub entries: Vec<(String, String)>,
}

impl View for SymbolTable {
    type V = Map<Seq<char>, Seq<char>>;

    open spec fn view(&self) -> Map<Seq<char>, Seq<char>> {
        entries_map(self.entries@)
    }
}

impl SymbolTable {
    /// The table is well formed: no key occurs twice.
    pub open spec fn wf(&self) -> bool {
        keys_unique(self.entries@)
    }

    /// A table holding exactly the predefined symbols.
    pub fn new() -> (r: SymbolTable)
        ensures
            r.wf(),
            r@ == initial_symbols(),
    {
        let mut t = SymbolTable { entries: Vec::new() };
        proof {
            assert(t.entries@ =~= Seq::<(String, String)>::empty());
            assert(t@ =~= Map::<Seq<char>, Seq<char>>::empty());
        }
        t.add_entry("SP", "0");
        t.add_entry("LCL", "1");
        t.add_entry("ARG", "2");
        t.add_entry("THIS", "3");
        t.add_entry("THAT", "4");
        t.add_entry("R0", "0");
        t.add_entry("R1", "1");
        t.add_entry("R2", "2");
        t.add_entry("R3", "3");
        t.add_entry("R4", "4");
        t.add_entry("R5", "5");
        t.add_entry("R6", "6");
        t.add_entry("R7", "7");
        t.add_entry("R8", "8");
        t.add_entry("R9", "9");
        t.add_entry("R10", "10");
        t.add_entry("R11", "11");
        t.add_entry("R13", "13");
        t.add_entry("R14", "14");
        t.add_entry("R15", "15");
        t.add_entry("SCREEN", "16384");
        t.add_entry("KBD", "24567");
        t
    }

    /// The index of the entry holding `key`, if one does.
    fn find(&self, key: &str) -> (r: Option<usize>)
        ensures
            match r {
                Some(i) => i < self.entries@.len() && self.entries@[i as int].0@ == key@,
                None => forall|i: int|
                    0 <= i < self.entries@.len() ==> (#[trigger] self.entries@[i]).0@ != key@,
            },
    {
        let mut i: usize = 0;
        let len = self.entries.len();
        while i < len
            invariant
                len == self.entries@.len(),
                0 <= i <= len,
                forall|k: int| 0 <= k < i ==> (#[trigger] self.entries@[k]).0@ != key@,
            decreases len - i,
        {
            if str_eq(self.entries[i].0.as_str(), key) {
                return Some(i);
            }
            i = i + 1;
        }
        None
    }

    /// Binds `symbol` to `value`, replacing any previous binding.
    pub fn add_entry(&mut self, symbol: &str, value: &str)
        requires
            old(self).wf(),
        ensures
            final(self).wf(),
            final(self)@ == old(self)@.insert(symbol@, value@),
    {
        let pair = (String::from_str(symbol), String::from_str(value));
        match self.find(symbol) {
            Some(i) => {
                let ghost s_old = self.entries@;
                self.entries.set(i, pair);
                proof {
                    lemma_entries_map_update(s_old, i as int, (self.entries@[i as int]));
                    assert forall|a: int, b: int|
                        0 <= a < b < self.entries@.len() implies (#[trigger] self.entries@[a]).0@
                        != (#[trigger] self.entries@[b]).0@ by {
                        assert(s_old[a].0@ != s_old[b].0@);
                    }
                }
            },
            None => {
                let ghost s_old = self.entries@;
                self.entries.push(pair);
                proof {
                    assert(self.entries@.drop_last() =~= s_old);
                    assert(self.entries@.last().0@ == symbol@);
                    assert forall|a: int, b: int|
                        0 <= a < b < self.entries@.len() implies (#[trigger] self.entries@[a]).0@
                        != (#[trigger] self.entries@[b]).0@ by {
                        if b < self.entries@.len() - 1 {
                            assert(s_old[a].0@ != s_old[b].0@);
                        } else {
                            assert(self.entries@[a] == s_old[a]);
                        }
                    }
                }
            },
        }
    }

    /// Whether the table binds `key`.
    pub fn contains(&self, key: &str) -> (r: bool)
        ensures
            r == self@.contains_key(key@),
    {
        proof {
            lemma_entries_map_domain(self.entries@, key@);
        }
        match self.find(key) {
            Some(_) => true,
            None => false,
        }
    }

    /// The value bound to `key`, which must be bound.
    pub fn get_addr(&self, key: &str) -> (r: &str)
        requires
            self.wf(),
            self@.contains_key(key@),
        ensures
            r@ == self@[key@],
    {
        proof {
            lemma_entries_map_domain(self.entries@, key@);
        }
        match self.find(key) {
            Some(i) => {
                proof {
                    lemma_entries_map_at(self.entries@, i as int);
                }
                self.entries[i].1.as_str()
            },
            None => {
                // unreachable: the key is bound
                proof {
                    assert(false);
                }
                ""
            },
        }
    }
}

} // verus!
