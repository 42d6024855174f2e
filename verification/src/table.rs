//! The generic indexed-table abstraction shared by the five directive
//! families (WAV, BMP, extended BPM, STOP, EXRANK): a mapping from a
//! two-character identifier to a value, with at most one live value per
//! identifier and a first-definition-wins conflict policy.

use vstd::prelude::*;
use crate::ident::Identifier;
use crate::ident::IDENT_SPACE;

verus! {

/// Looks an identifier code up in an entry sequence; with distinct keys
/// the first match is the only one.
pub open spec fn entries_find<V>(s: Seq<(u16, V)>, k: u16) -> Option<V>
    decreases s.len(),
{
    if s.len() == 0 {
        None
    } else if s[0].0 == k {
        Some(s[0].1)
    } else {
        entries_find(s.drop_first(), k)
    }
}

/// Whether an entry sequence holds a value for an identifier code.
pub open spec fn entries_has_key<V>(s: Seq<(u16, V)>, k: u16) -> bool {
    exists|i: int| 0 <= i < s.len() && s[i].0 == k
}

/// Whether no identifier code appears twice.
pub open spec fn entries_distinct<V>(s: Seq<(u16, V)>) -> bool {
    forall|i: int, j: int| 0 <= i < j < s.len() ==> s[i].0 != s[j].0
}

/// `entries_find` and `entries_has_key` agree, and a find hit returns the
/// value stored at any index carrying that key (when keys are distinct).
pub proof fn lemma_entries_find<V>(s: Seq<(u16, V)>, k: u16)
    ensures
        entries_has_key(s, k) <==> entries_find(s, k) is Some,
        entries_distinct(s) ==> forall|i: int|
            0 <= i < s.len() && s[i].0 == k ==> entries_find(s, k) == Some(s[i].1),
    decreases s.len(),
{
    if s.len() > 0 {
        lemma_entries_find(s.drop_first(), k);
        if s[0].0 != k {
            assert(entries_has_key(s, k) ==> entries_has_key(s.drop_first(), k)) by {
                if entries_has_key(s, k) {
                    let i = choose|i: int| 0 <= i < s.len() && s[i].0 == k;
                    assert(s.drop_first()[i - 1].0 == k);
                }
            }
            assert(entries_has_key(s.drop_first(), k) ==> entries_has_key(s, k)) by {
                if entries_has_key(s.drop_first(), k) {
                    let i = choose|i: int| 0 <= i < s.drop_first().len() && s.drop_first()[i].0
                        == k;
                    assert(s[i + 1].0 == k);
                }
            }
        }
        if entries_distinct(s) {
            assert(entries_distinct(s.drop_first())) by {
                assert(forall|i: int, j: int|
                    0 <= i < j < s.drop_first().len() ==> s.drop_first()[i] == s[i + 1]
                        && s.drop_first()[j] == s[j + 1]);
            }
            assert forall|i: int| 0 <= i < s.len() && s[i].0 == k implies entries_find(s, k)
                == Some(s[i].1) by {
                if s[0].0 == k {
                    assert(i == 0);
                } else {
                    assert(s.drop_first()[i - 1] == s[i]);
                }
            }
        }
    }
}

/// One indexed family table: identifier to value, keys unique, insertion
/// order of the retained (first) definitions preserved.
pub struct IndexedTable<V> {
    entries: Vec<(u16, V)>,
}

impl<V> IndexedTable<V> {
    /// The retained entries, in insertion order.
    pub closed spec fn spec_entries(self) -> Seq<(u16, V)> {
        self.entries@
    }

    /// Key uniqueness and key-space membership.
    pub open spec fn wf(self) -> bool {
        entries_distinct(self.spec_entries()) && forall|i: int|
            0 <= i < self.spec_entries().len() ==> (#[trigger] self.spec_entries()[i]).0
                < IDENT_SPACE
    }

    /// The value stored for an identifier code, if any.
    pub open spec fn spec_get(self, k: u16) -> Option<V> {
        entries_find(self.spec_entries(), k)
    }

    /// An empty table.
    pub fn new() -> (r: IndexedTable<V>)
        ensures
            r.spec_entries() == Seq::<(u16, V)>::empty(),
            r.wf(),
    {
        IndexedTable { entries: Vec::new() }
    }

    /// How many identifiers hold a value.
    pub fn len(&self) -> (r: usize)
        ensures
            r == self.spec_entries().len(),
    {
        self.entries.len()
    }

    /// Looks an identifier up; a miss is not an error of the table, the
    /// caller decides how to treat an unresolved reference.
    pub fn get(&self, id: Identifier) -> (r: Option<&V>)
        requires
            self.wf(),
        ensures
            match r {
                Some(v) => self.spec_get(id@) == Some(*v),
                None => self.spec_get(id@) is None,
            },
    {
        let k = id.code();
        let mut i: usize = 0;
        while i < self.entries.len()
            invariant
                i <= self.entries@.len(),
                self.wf(),
                k == id@,
                forall|j: int| 0 <= j < i ==> (#[trigger] self.entries@[j]).0 != k,
            decreases self.entries@.len() - i,
        {
            if self.entries[i].0 == k {
                proof {
                    lemma_entries_find(self.spec_entries(), k);
                }
                return Some(&self.entries[i].1);
            }
            i = i + 1;
        }
        proof {
            lemma_entries_find(self.spec_entries(), k);
        }
        None
    }

    /// Inserts a definition under the first-definition-wins policy: a
    /// fresh identifier appends its value and returns `true`; an
    /// identifier already present leaves the table unchanged and returns
    /// `false`, which the caller reports as a `DuplicateIndex`.
    pub fn insert(&mut self, id: Identifier, v: V) -> (fresh: bool)
        requires
            old(self).wf(),
            id.wf(),
        ensures
            final(self).wf(),
            fresh == !entries_has_key(old(self).spec_entries(), id@),
            fresh ==> final(self).spec_entries() == old(self).spec_entries().push((id@, v)),
            !fresh ==> *final(self) == *old(self),
    {
        let k = id.code();
        let mut i: usize = 0;
        while i < self.entries.len()
            invariant
                i <= self.entries@.len(),
                self.wf(),
                k == id@,
                *self == *old(self),
                forall|j: int| 0 <= j < i ==> (#[trigger] self.entries@[j]).0 != k,
            decreases self.entries@.len() - i,
        {
            if self.entries[i].0 == k {
                return false;
            }
            i = i + 1;
        }
        self.entries.push((k, v));
        true
    }
}

/// First definition wins: once an identifier is defined, a lookup yields
/// that first value, and a later definition for the same identifier is a
/// conflict (it is discarded and reported, never silently duplicated).
/// Stated over the entry sequences that `insert` produces.
pub proof fn lemma_first_definition_wins<V>(t0: Seq<(u16, V)>, k: u16, v1: V)
    requires
        entries_distinct(t0),
        !entries_has_key(t0, k),
    ensures
        entries_find(t0.push((k, v1)), k) == Some(v1),
        entries_has_key(t0.push((k, v1)), k),
    decreases t0.len(),
{
    let t1 = t0.push((k, v1));
    if t0.len() == 0 {
        assert(t1[0] == (k, v1));
    } else {
        assert(t0[0].0 != k);
        assert(!entries_has_key(t0.drop_first(), k)) by {
            if entries_has_key(t0.drop_first(), k) {
                let i = choose|i: int| 0 <= i < t0.drop_first().len() && t0.drop_first()[i].0 == k;
                assert(t0[i + 1].0 == k);
            }
        }
        assert(entries_distinct(t0.drop_first())) by {
            assert(forall|i: int, j: int|
                0 <= i < j < t0.drop_first().len() ==> t0.drop_first()[i] == t0[i + 1]
                    && t0.drop_first()[j] == t0[j + 1]);
        }
        lemma_first_definition_wins(t0.drop_first(), k, v1);
        assert(t1.drop_first() =~= t0.drop_first().push((k, v1)));
        assert(t1[t1.len() - 1].0 == k);
    }
}

} // verus!
