//! The storage engine: a directory of pastes keyed by short identifiers,
//! and the allocation scheme that derives a fresh identifier from the
//! current instant, widening its precision on each collision.
//!
//! The `Directory` is the engine's view of the storage root: one entry per
//! stored paste, identifiers pairwise distinct. The surrounding
//! application mirrors every change onto one file per entry and preloads
//! the directory from the files present at startup.

use vstd::prelude::*;

use crate::clock::TimeFields;
use crate::codec::base62_of;
use crate::codec::encode_base62;

verus! {

/// Why a storage operation failed.
#[derive(Clone, Copy, Debug, PartialEq, Eq, Structural)]
pub enum StorageError {
    /// No paste is stored under the requested identifier.
    NotFound,
    /// Every candidate identifier for the instant is already taken.
    AllocationExhausted,
}

/// The `k`-th time field of an instant, 0-based, finest first.
pub open spec fn field_at(t: TimeFields, k: int) -> nat {
    if k == 0 {
        t.centis as nat
    } else if k == 1 {
        t.second as nat
    } else if k == 2 {
        t.minute as nat
    } else if k == 3 {
        t.hour as nat
    } else if k == 4 {
        t.day as nat
    } else if k == 5 {
        t.month as nat
    } else {
        t.year as nat
    }
}

/// The numeric key of attempt `k`: the first `k` fields, each written as
/// two zero-padded decimal digits, concatenated finest first and read as
/// one decimal number.
pub open spec fn spec_key(t: TimeFields, k: int) -> nat
    decreases k,
{
    if k <= 0 {
        0
    } else {
        spec_key(t, k - 1) * 100 + field_at(t, k - 1)
    }
}

/// The candidate identifier of attempt `k`.
pub open spec fn candidate(t: TimeFields, k: int) -> Seq<char> {
    base62_of(spec_key(t, k))
}

/// 100 to the `k`-th power: the number of keys over `k` two-digit fields.
pub open spec fn pow100(k: int) -> nat
    decreases k,
{
    if k <= 0 {
        1
    } else {
        100 * pow100(k - 1)
    }
}

proof fn lemma_pow100_values()
    ensures
        pow100(0) == 1,
        pow100(1) == 100,
        pow100(2) == 10_000,
        pow100(3) == 1_000_000,
        pow100(4) == 100_000_000,
        pow100(5) == 10_000_000_000,
        pow100(6) == 1_000_000_000_000,
        pow100(7) == 100_000_000_000_000,
{
    reveal_with_fuel(pow100, 8);
}

/// A key over `k` two-digit fields stays below 100^k; in particular every
/// key of at most seven fields fits in a `u64`.
proof fn lemma_key_bound(t: TimeFields, k: int)
    requires
        t.valid(),
        0 <= k,
    ensures
        spec_key(t, k) < pow100(k),
    decreases k,
{
    if k > 0 {
        lemma_key_bound(t, k - 1);
    }
}

fn field_exec(t: &TimeFields, k: usize) -> (r: u8)
    requires
        k < 7,
    ensures
        r as nat == field_at(*t, k as int),
{
    if k == 0 {
        t.centis
    } else if k == 1 {
        t.second
    } else if k == 2 {
        t.minute
    } else if k == 3 {
        t.hour
    } else if k == 4 {
        t.day
    } else if k == 5 {
        t.month
    } else {
        t.year
    }
}

/// Computes the numeric key of attempt `k` for instant `t` by folding the
/// first `k` fields into a growing decimal accumulator.
pub fn candidate_key(t: &TimeFields, k: usize) -> (r: u64)
    requires
        t.valid(),
        1 <= k <= 7,
    ensures
        r as nat == spec_key(*t, k as int),
{
    let mut acc: u64 = 0;
    let mut i: usize = 0;
    while i < k
        invariant
            t.valid(),
            i <= k <= 7,
            acc as nat == spec_key(*t, i as int),
        decreases k - i,
    {
        proof {
            lemma_key_bound(*t, i as int);
            lemma_pow100_values();
            assert(pow100(i as int) <= 1_000_000_000_000);
        }
        let f = field_exec(t, i);
        acc = acc * 100 + (f as u64);
        i = i + 1;
    }
    acc
}

/// Renders the candidate identifier of attempt `k` for instant `t`.
pub fn candidate_id(t: &TimeFields, k: usize) -> (r: String)
    requires
        t.valid(),
        1 <= k <= 7,
    ensures
        r@ == candidate(*t, k as int),
{
    encode_base62(candidate_key(t, k))
}

/// The first attempt in 1..=7 whose candidate identifier is absent from
/// `m`, starting the search at attempt `k`; 8 when every one is taken.
pub open spec fn first_free_from(m: Map<Seq<char>, Seq<char>>, t: TimeFields, k: int) -> int
    decreases 8 - k,
{
    if k >= 8 {
        8
    } else if !m.contains_key(candidate(t, k)) {
        k
    } else {
        first_free_from(m, t, k + 1)
    }
}

/// The first attempt in 1..=7 whose candidate identifier is absent from
/// `m`, or 8 when every one is taken.
pub open spec fn first_free(m: Map<Seq<char>, Seq<char>>, t: TimeFields) -> int {
    first_free_from(m, t, 1)
}

/// The identifier-to-text map described by a sequence of entries; later
/// entries win, though a directory never repeats an identifier.
pub open spec fn map_of(s: Seq<(Seq<char>, Seq<char>)>) -> Map<Seq<char>, Seq<char>>
    decreases s.len(),
{
    if s.len() == 0 {
        Map::empty()
    } else {
        map_of(s.drop_last()).insert(s.last().0, s.last().1)
    }
}

proof fn lemma_map_of_contains(s: Seq<(Seq<char>, Seq<char>)>, k: Seq<char>)
    ensures
        map_of(s).contains_key(k) <==> exists|i: int| 0 <= i < s.len() && s[i].0 == k,
    decreases s.len(),
{
    if s.len() > 0 {
        lemma_map_of_contains(s.drop_last(), k);
        if s.last().0 == k {
            assert(s[s.len() - 1].0 == k);
        } else if map_of(s).contains_key(k) {
            let i = choose|i: int| 0 <= i < s.drop_last().len() && s.drop_last()[i].0 == k;
            assert(s[i].0 == k);
        } else if exists|i: int| 0 <= i < s.len() && s[i].0 == k {
            let i = choose|i: int| 0 <= i < s.len() && s[i].0 == k;
            assert(s.drop_last()[i].0 == k);
        }
    }
}

proof fn lemma_map_of_index(s: Seq<(Seq<char>, Seq<char>)>, i: int, k: Seq<char>)
    requires
        forall|a: int, b: int| 0 <= a < b < s.len() ==> s[a].0 != s[b].0,
        0 <= i < s.len(),
        s[i].0 == k,
    ensures
        map_of(s).contains_key(k),
        map_of(s)[k] == s[i].1,
    decreases s.len(),
{
    if i == s.len() - 1 {
    } else {
        assert(s.last().0 != k);
        assert(s.drop_last()[i].0 == k);
        lemma_map_of_index(s.drop_last(), i, k);
    }
}

/// The storage engine's view of the storage root: one entry per stored
/// paste, identifiers pairwise distinct.
pub struct Directory {
    entries: Vec<(String, String)>,
}

impl View for Directory {
    type V = Map<Seq<char>, Seq<char>>;

    closed spec fn view(&self) -> Map<Seq<char>, Seq<char>> {
        map_of(self.pairs())
    }
}

impl Directory {
    spec fn pairs(&self) -> Seq<(Seq<char>, Seq<char>)> {
        self.entries@.map_values(|e: (String, String)| (e.0@, e.1@))
    }

    /// No identifier occurs twice.
    pub closed spec fn wf(&self) -> bool {
        forall|a: int, b: int|
            0 <= a < b < self.pairs().len() ==> self.pairs()[a].0 != self.pairs()[b].0
    }

    /// An empty directory.
    pub fn new() -> (d: Directory)
        ensures
            d@ == Map::<Seq<char>, Seq<char>>::empty(),
            d.wf(),
    {
        let d = Directory { entries: Vec::new() };
        proof {
            assert(d.pairs() =~= Seq::<(Seq<char>, Seq<char>)>::empty());
        }
        d
    }

    fn find(&self, id: &String) -> (r: Option<usize>)
        ensures
            match r {
                Some(i) => i < self.pairs().len() && self.pairs()[i as int].0 == id@,
                None => forall|i: int| 0 <= i < self.pairs().len() ==> self.pairs()[i].0 != id@,
            },
    {
        let n = self.entries.len();
        let mut j: usize = 0;
        while j < n
            invariant
                n == self.entries@.len(),
                j <= n,
                forall|i: int| 0 <= i < j ==> self.pairs()[i].0 != id@,
            decreases n - j,
        {
            if self.entries[j].0 == *id {
                return Some(j);
            }
            j = j + 1;
        }
        None
    }

    /// Does the directory hold a paste under `id`?
    pub fn contains(&self, id: &String) -> (r: bool)
        ensures
            r == self@.contains_key(id@),
    {
        proof {
            lemma_map_of_contains(self.pairs(), id@);
        }
        match self.find(id) {
            Some(_) => true,
            None => false,
        }
    }

    /// Fetches the paste stored under `id`; reports `NotFound`, and only
    /// then, when the directory holds nothing under it.
    pub fn load(&self, id: &String) -> (r: Result<String, StorageError>)
        requires
            self.wf(),
        ensures
            match r {
                Ok(text) => self@.contains_key(id@) && text@ == self@[id@],
                Err(e) => e == StorageError::NotFound && !self@.contains_key(id@),
            },
    {
        match self.find(id) {
            Some(i) => {
                proof {
                    lemma_map_of_index(self.pairs(), i as int, id@);
                }
                Ok(self.entries[i].1.clone())
            },
            None => {
                proof {
                    lemma_map_of_contains(self.pairs(), id@);
                }
                Err(StorageError::NotFound)
            },
        }
    }

    /// Stores `text` under a fresh identifier derived from instant `t`:
    /// the first of the seven candidate keys, finest precision first,
    /// whose rendering is not yet taken. When every candidate is taken,
    /// nothing is stored and allocation reports exhaustion.
    pub fn store(&mut self, t: &TimeFields, text: &String) -> (r: Result<String, StorageError>)
        requires
            old(self).wf(),
            t.valid(),
        ensures
            final(self).wf(),
            match r {
                Ok(id) => {
                    &&& 1 <= first_free(old(self)@, *t) <= 7
                    &&& id@ == candidate(*t, first_free(old(self)@, *t))
                    &&& crate::codec::spec_valid_id(id@)
                    &&& !old(self)@.contains_key(id@)
                    &&& final(self)@ == old(self)@.insert(id@, text@)
                },
                Err(e) => {
                    &&& e == StorageError::AllocationExhausted
                    &&& first_free(old(self)@, *t) == 8
                    &&& final(self)@ == old(self)@
                },
            },
    {
        let ghost m = old(self)@;
        let mut k: usize = 1;
        while k <= 7
            invariant
                1 <= k <= 8,
                *self == *old(self),
                old(self).wf(),
                t.valid(),
                first_free(m, *t) == first_free_from(m, *t, k as int),
                m == old(self)@,
            decreases 8 - k,
        {
            let id = candidate_id(t, k);
            if !self.contains(&id) {
                let ghost oldpairs = self.pairs();
                proof {
                    crate::codec::lemma_radix_valid_id(spec_key(*t, k as int), 62);
                    lemma_map_of_contains(oldpairs, id@);
                }
                self.entries.push((id.clone(), text.clone()));
                proof {
                    assert(self.pairs() =~= oldpairs.push((id@, text@)));
                    assert(self.pairs().drop_last() =~= oldpairs);
                    assert(self@ == m.insert(id@, text@));
                }
                return Ok(id);
            }
            k = k + 1;
        }
        Err(StorageError::AllocationExhausted)
    }

    /// Adds a paste restored from existing storage, declining identifiers
    /// already present. Used to preload the directory at startup.
    pub fn add_entry(&mut self, id: String, text: String) -> (r: bool)
        requires
            old(self).wf(),
        ensures
            final(self).wf(),
            r == !old(self)@.contains_key(id@),
            r ==> final(self)@ == old(self)@.insert(id@, text@),
            !r ==> final(self)@ == old(self)@,
    {
        if self.contains(&id) {
            false
        } else {
            let ghost oldpairs = self.pairs();
            let ghost idv = id@;
            let ghost textv = text@;
            proof {
                lemma_map_of_contains(oldpairs, idv);
            }
            self.entries.push((id, text));
            proof {
                assert(self.pairs() =~= oldpairs.push((idv, textv)));
                assert(self.pairs().drop_last() =~= oldpairs);
            }
            true
        }
    }
}

proof fn lemma_first_free_from(m: Map<Seq<char>, Seq<char>>, t: TimeFields, k: int)
    requires
        1 <= k <= 8,
    ensures
        k <= first_free_from(m, t, k) <= 8,
        first_free_from(m, t, k) <= 7 ==> !m.contains_key(
            candidate(t, first_free_from(m, t, k)),
        ),
        forall|j: int| k <= j < first_free_from(m, t, k) ==> m.contains_key(candidate(t, j)),
    decreases 8 - k,
{
    if k < 8 && m.contains_key(candidate(t, k)) {
        lemma_first_free_from(m, t, k + 1);
    }
}

/// What `first_free` picks: an attempt in 1..=8; when it is at most 7 its
/// candidate is free and every finer attempt's candidate is taken, so an
/// allocation takes the shortest identifier still available; 8 says that
/// all seven candidates are taken.
pub proof fn lemma_first_free(m: Map<Seq<char>, Seq<char>>, t: TimeFields)
    ensures
        1 <= first_free(m, t) <= 8,
        first_free(m, t) <= 7 ==> !m.contains_key(candidate(t, first_free(m, t))),
        forall|j: int| 1 <= j < first_free(m, t) ==> m.contains_key(candidate(t, j)),
{
    lemma_first_free_from(m, t, 1);
}

/// Round trip: after a successful store of `text` under a fresh
/// identifier `id`, a load of `id` yields `text` exactly.
pub proof fn lemma_store_round_trip(m: Map<Seq<char>, Seq<char>>, id: Seq<char>, text: Seq<char>)
    requires
        !m.contains_key(id),
    ensures
        m.insert(id, text).contains_key(id),
        m.insert(id, text)[id] == text,
{
}

/// Storing under a fresh identifier touches no other identifier: every
/// other paste keeps its text, and an identifier never issued keeps
/// reporting `NotFound`.
pub proof fn lemma_store_preserves_others(
    m: Map<Seq<char>, Seq<char>>,
    id: Seq<char>,
    text: Seq<char>,
    other: Seq<char>,
)
    requires
        other != id,
    ensures
        m.insert(id, text).contains_key(other) == m.contains_key(other),
        m.contains_key(other) ==> m.insert(id, text)[other] == m[other],
{
}

} // verus!
