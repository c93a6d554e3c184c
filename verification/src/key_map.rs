//! A map that hands out small integer keys for inserted strings.  Keys are
//! never invalidated because nothing is ever removed; one distinguished
//! overflow value, inserted first, is returned when the key space is full.

use vstd::prelude::*;

verus! {

/// A key handed out by a `KeyMap`.  Keys can only be made from indices the
/// map itself produced.
pub trait KeyType: Sized {
    /// The index the key stands for.
    spec fn key_index(&self) -> int;

    /// How many distinct keys the type can represent.
    spec fn spec_max_values() -> int;

    fn new(index: usize) -> (r: Self)
        requires
            index < Self::spec_max_values(),
        ensures
            r.key_index() == index,
    ;

    fn max_values() -> (r: usize)
        ensures
            r == Self::spec_max_values(),
            r >= 1,
    ;

    fn as_index(&self) -> (r: usize)
        requires
            0 <= self.key_index(),
        ensures
            r == self.key_index(),
    ;
}

/// A 16-bit key for the source-file table of the line decoder.
#[derive(Copy, Clone, Debug, Eq, PartialEq, Structural)]
pub struct FileKey(pub u16);

impl KeyType for FileKey {
    open spec fn key_index(&self) -> int {
        self.0 as int
    }

    open spec fn spec_max_values() -> int {
        0x10000
    }

    fn new(index: usize) -> Self {
        FileKey(index as u16)
    }

    fn max_values() -> usize {
        0x10000
    }

    fn as_index(&self) -> usize {
        self.0 as usize
    }
}

/// The first position holding `v`, or the length when none does.
pub open spec fn spec_find_value(s: Seq<Seq<char>>, v: Seq<char>) -> int
    decreases s.len(),
{
    if s.len() == 0 {
        0
    } else if s[0] == v {
        0
    } else {
        1 + spec_find_value(s.drop_first(), v)
    }
}

/// The found position is within bounds exactly when the value occurs, and
/// then holds the value.
pub proof fn lemma_find_value(s: Seq<Seq<char>>, v: Seq<char>)
    ensures
        0 <= spec_find_value(s, v) <= s.len(),
        spec_find_value(s, v) < s.len() ==> s[spec_find_value(s, v)] == v,
    decreases s.len(),
{
    if s.len() > 0 && s[0] != v {
        lemma_find_value(s.drop_first(), v);
    }
}

/// A map from values to dense keys: each inserted value gets the next
/// index, an already-present value gets its existing key, and once the key
/// type is exhausted new values get the overflow key.
pub struct KeyMap<K> {
    by_key: Vec<String>,
    phantom: Option<K>,
}

impl<K: KeyType + Copy> View for KeyMap<K> {
    type V = Seq<Seq<char>>;

    closed spec fn view(&self) -> Seq<Seq<char>> {
        self.by_key@.map_values(|s: String| s@)
    }
}

impl<K: KeyType + Copy> KeyMap<K> {
    /// The map never outgrows its key type.
    pub open spec fn wf(&self) -> bool {
        1 <= self@.len() <= K::spec_max_values()
    }

    /// Creates a map whose overflow value, returned for values inserted
    /// after the key space fills up, occupies the first slot.
    pub fn new(overflow: String) -> (r: Self)
        ensures
            r@ =~= seq![overflow@],
            r.wf(),
    {
        let max = K::max_values();
        let mut by_key: Vec<String> = Vec::new();
        by_key.push(overflow);
        let m = KeyMap { by_key, phantom: None };
        proof {
            assert(m@ =~= seq![overflow@]);
        }
        m
    }

    /// Returns the existing key for an already-present value, or assigns
    /// the next key, or the overflow key once the key space is full.
    pub fn insert(&mut self, value: String) -> (r: K)
        requires
            old(self).wf(),
        ensures
            final(self).wf(),
            0 <= r.key_index() < final(self)@.len(),
            final(self)@.len() >= old(self)@.len(),
            spec_find_value(old(self)@, value@) < old(self)@.len() ==> final(self)@ == old(
                self,
            )@ && r.key_index() == spec_find_value(old(self)@, value@),
            spec_find_value(old(self)@, value@) == old(self)@.len() ==> {
                &&& (old(self)@.len() < K::spec_max_values() ==> final(self)@ == old(
                    self,
                )@.push(value@) && r.key_index() == old(self)@.len())
                &&& (old(self)@.len() >= K::spec_max_values() ==> final(self)@ == old(self)@
                    && r.key_index() == 0)
            },
    {
        let ghost v0 = self@;
        let n = self.by_key.len();
        let mut j: usize = 0;
        proof {
            lemma_find_value(v0, value@);
        }
        while j < n
            invariant
                j <= n,
                n == self.by_key@.len(),
                self@ == v0,
                self.wf(),
                forall|k: int| 0 <= k < j ==> v0[k] != value@,
                spec_find_value(v0, value@) >= j || spec_find_value(v0, value@) == v0.len(),
            decreases n - j,
        {
            if crate::string_eq(&self.by_key[j], &value) {
                proof {
                    lemma_find_value_at(v0, value@, j as int);
                }
                return K::new(j);
            }
            j = j + 1;
            proof {
                lemma_find_value_skip(v0, value@, j as int);
            }
        }
        proof {
            lemma_find_value_skip(v0, value@, n as int);
        }
        if self.by_key.len() < K::max_values() {
            let key = K::new(self.by_key.len());
            self.by_key.push(value);
            proof {
                assert(self@ =~= v0.push(value@));
            }
            key
        } else {
            K::new(0)
        }
    }

    /// The value a key stands for; keys are managed internally and values
    /// are never removed, so a key the map handed out always resolves.
    pub fn get(&self, key: K) -> (r: &String)
        requires
            0 <= key.key_index() < self@.len(),
        ensures
            r@ == self@[key.key_index()],
    {
        &self.by_key[key.as_index()]
    }

    /// The inserted values in key order, without the overflow value.
    pub fn iter(&self) -> (r: Vec<String>)
        requires
            self@.len() >= 1,
        ensures
            r@.map_values(|s: String| s@) == self@.drop_first(),
    {
        let mut values: Vec<String> = Vec::new();
        let n = self.by_key.len();
        let mut j: usize = 1;
        proof {
            assert(values@.map_values(|s: String| s@) =~= self@.drop_first().take(0));
        }
        while j < n
            invariant
                1 <= j <= n,
                n == self.by_key@.len(),
                values@.map_values(|s: String| s@) == self@.drop_first().take(j - 1),
            decreases n - j,
        {
            let ghost pre = values@.map_values(|s: String| s@);
            values.push(self.by_key[j].clone());
            j = j + 1;
            proof {
                assert(values@.map_values(|s: String| s@) =~= pre.push(self@[j - 1]));
                assert(pre.push(self@[j - 1]) =~= self@.drop_first().take(j - 1));
            }
        }
        proof {
            assert(self@.drop_first().take(n - 1) =~= self@.drop_first());
        }
        values
    }
}

/// If the first `j` slots miss the value, the first occurrence is at `j`
/// or later (or absent).
proof fn lemma_find_value_skip(s: Seq<Seq<char>>, v: Seq<char>, j: int)
    requires
        0 <= j <= s.len(),
        forall|k: int| 0 <= k < j ==> s[k] != v,
    ensures
        spec_find_value(s, v) >= j || spec_find_value(s, v) == s.len(),
    decreases j,
{
    lemma_find_value(s, v);
    if j > 0 {
        assert(s[0] != v);
        lemma_find_value_tail(s, v);
        assert forall|k: int| 0 <= k < j - 1 implies s.drop_first()[k] != v by {
            assert(s[k + 1] != v);
        }
        lemma_find_value_skip(s.drop_first(), v, j - 1);
        assert(s.drop_first().len() == s.len() - 1);
    }
}

/// Unfolds one step of the search.
proof fn lemma_find_value_tail(s: Seq<Seq<char>>, v: Seq<char>)
    requires
        s.len() > 0,
        s[0] != v,
    ensures
        spec_find_value(s, v) == 1 + spec_find_value(s.drop_first(), v),
{
}

/// A hit at `j` after `j` misses pins the first occurrence to `j`.
proof fn lemma_find_value_at(s: Seq<Seq<char>>, v: Seq<char>, j: int)
    requires
        0 <= j < s.len(),
        s[j] == v,
        forall|k: int| 0 <= k < j ==> s[k] != v,
    ensures
        spec_find_value(s, v) == j,
    decreases j,
{
    if j > 0 {
        lemma_find_value_tail(s, v);
        assert forall|k: int| 0 <= k < j - 1 implies s.drop_first()[k] != v by {
            assert(s[k + 1] != v);
        }
        lemma_find_value_at(s.drop_first(), v, j - 1);
    }
}

} // verus!
