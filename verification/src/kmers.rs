//! Frequency tables of fixed-length windows ("k-mers") of a string.

use vstd::prelude::*;
use vstd::string::*;

verus! {

/// The `k` characters of `s` that start at offset `i`.
pub open spec fn window(s: Seq<char>, k: nat, i: int) -> Seq<char> {
    s.subrange(i, i + k)
}

/// The number of windows of length `k` in `s`: one for each offset from `0`
/// to `s.len() - k`, none if `s` is shorter than `k`.
pub open spec fn window_count(s: Seq<char>, k: nat) -> nat {
    if s.len() < k {
        0
    } else {
        (s.len() - k + 1) as nat
    }
}

/// How many of the first `n` windows of `s` equal `w`.
pub open spec fn occurrences(s: Seq<char>, k: nat, w: Seq<char>, n: nat) -> nat
    decreases n,
{
    if n == 0 {
        0
    } else {
        occurrences(s, k, w, (n - 1) as nat) + if window(s, k, n - 1) == w {
            1nat
        } else {
            0nat
        }
    }
}

/// The table of the first `n` windows of `s`: each window that occurs, with
/// the number of its occurrences.
pub open spec fn counts_upto(s: Seq<char>, k: nat, n: nat) -> Map<Seq<char>, nat> {
    Map::new(|w: Seq<char>| occurrences(s, k, w, n) > 0, |w: Seq<char>| occurrences(s, k, w, n))
}

/// The canonical answer to a challenge: every window of length `k` of `s`,
/// with the number of offsets at which it occurs.
pub open spec fn kmer_counts(s: Seq<char>, k: nat) -> Map<Seq<char>, nat> {
    counts_upto(s, k, window_count(s, k))
}

/// The key of the `i`-th entry.
pub open spec fn key_at(entries: Seq<(String, u64)>, i: int) -> Seq<char> {
    entries[i].0@
}

/// No key occurs in two entries.
pub open spec fn distinct_keys(entries: Seq<(String, u64)>) -> bool {
    forall|i: int, j: int|
        0 <= i < j < entries.len() ==> #[trigger] key_at(entries, i) != #[trigger] key_at(
            entries,
            j,
        )
}

/// Some entry has the key `key`.
pub open spec fn has_key(entries: Seq<(String, u64)>, key: Seq<char>) -> bool {
    exists|i: int| 0 <= i < entries.len() && #[trigger] key_at(entries, i) == key
}

/// An entry with the key `key`, if there is one.
pub open spec fn index_of(entries: Seq<(String, u64)>, key: Seq<char>) -> int {
    choose|i: int| 0 <= i < entries.len() && #[trigger] key_at(entries, i) == key
}

/// The mapping that a list of entries stands for.
pub open spec fn table_of(entries: Seq<(String, u64)>) -> Map<Seq<char>, nat> {
    Map::new(
        |key: Seq<char>| has_key(entries, key),
        |key: Seq<char>| entries[index_of(entries, key)].1 as nat,
    )
}

/// A mapping from strings to counts, as an applicant submits it and as the
/// canonical answer is kept.
#[derive(Debug)]
pub struct KmerCounts {
    entries: Vec<(String, u64)>,
}

impl View for KmerCounts {
    type V = Map<Seq<char>, nat>;

    closed spec fn view(&self) -> Map<Seq<char>, nat> {
        table_of(self.entries@)
    }
}

impl KmerCounts {
    #[verifier::type_invariant]
    spec fn well_formed(&self) -> bool {
        distinct_keys(self.entries@)
    }

    /// The empty mapping.
    pub fn new() -> (r: Self)
        ensures
            r@ == Map::<Seq<char>, nat>::empty(),
    {
        let r = KmerCounts { entries: Vec::new() };
        assert(r@ =~= Map::<Seq<char>, nat>::empty());
        r
    }

    /// Where the entry of `key` stands, if there is one.
    fn position(entries: &Vec<(String, u64)>, key: &String) -> (r: Option<usize>)
        ensures
            match r {
                Some(i) => i < entries@.len() && key_at(entries@, i as int) == key@,
                None => !has_key(entries@, key@),
            },
    {
        let mut i: usize = 0;
        while i < entries.len()
            invariant
                i <= entries@.len(),
                forall|j: int| 0 <= j < i ==> #[trigger] key_at(entries@, j) != key@,
            decreases entries@.len() - i,
        {
            if entries[i].0 == *key {
                return Some(i);
            }
            i += 1;
        }
        None
    }

    /// The count stored for `key`.
    pub fn get(&self, key: &String) -> (r: Option<u64>)
        ensures
            r.is_some() == self@.contains_key(key@),
            r matches Some(count) ==> count as nat == self@[key@],
    {
        proof {
            use_type_invariant(self);
        }
        match Self::position(&self.entries, key) {
            Some(i) => {
                assert(has_key(self.entries@, key@));
                Some(self.entries[i].1)
            },
            None => None,
        }
    }
}

impl KmerCounts {
    /// The number of keys.
    pub fn len(&self) -> (r: usize)
        ensures
            self@.dom().finite(),
            r == self@.len(),
    {
        proof {
            use_type_invariant(self);
            lemma_table_len(self.entries@);
        }
        self.entries.len()
    }

    /// Whether the mapping has no key at all.
    pub fn is_empty(&self) -> (r: bool)
        ensures
            r == (self@ == Map::<Seq<char>, nat>::empty()),
    {
        proof {
            use_type_invariant(self);
            lemma_table_len(self.entries@);
            if self.entries@.len() == 0 {
                assert(self@ =~= Map::<Seq<char>, nat>::empty());
            }
        }
        self.entries.len() == 0
    }

    /// Stores `count` for `key`, in place of what was stored for it before.
    pub fn insert(&mut self, key: String, count: u64)
        ensures
            final(self)@ == old(self)@.insert(key@, count as nat),
    {
        proof {
            use_type_invariant(&*self);
        }
        let mut entries: Vec<(String, u64)> = Vec::new();
        core::mem::swap(&mut self.entries, &mut entries);
        let ghost before = entries@;
        match Self::position(&entries, &key) {
            Some(i) => {
                entries.set(i, (key, count));
                proof {
                    lemma_table_update(before, entries@, i as int);
                }
            },
            None => {
                entries.push((key, count));
                proof {
                    lemma_table_push(before, entries@);
                }
            },
        }
        core::mem::swap(&mut self.entries, &mut entries);
    }

    /// Whether every key of `self` is a key of `other` with the same count.
    fn included_in(&self, other: &Self) -> (r: bool)
        ensures
            r == self@.submap_of(other@),
    {
        proof {
            use_type_invariant(self);
            lemma_table_entries(self.entries@);
        }
        let mut i: usize = 0;
        while i < self.entries.len()
            invariant
                i <= self.entries@.len(),
                distinct_keys(self.entries@),
                forall|j: int|
                    0 <= j < i ==> other@.contains_key(#[trigger] key_at(self.entries@, j))
                        && other@[key_at(self.entries@, j)] == self.entries@[j].1 as nat,
            decreases self.entries@.len() - i,
        {
            proof {
                lemma_table_entries(self.entries@);
            }
            let ghost key = key_at(self.entries@, i as int);
            match other.get(&self.entries[i].0) {
                Some(count) => {
                    if count != self.entries[i].1 {
                        assert(self@.contains_key(key) && self@[key] != other@[key]);
                        return false;
                    }
                },
                None => {
                    assert(self@.contains_key(key) && !other@.contains_key(key));
                    return false;
                },
            }
            i += 1;
        }
        proof {
            lemma_table_entries(self.entries@);
            assert forall|key: Seq<char>| self@.contains_key(key) implies other@.contains_key(key)
                && self@[key] == other@[key] by {
                let j = index_of(self.entries@, key);
                assert(key_at(self.entries@, j) == key);
            }
        }
        true
    }

    /// The entries of the mapping, one for each key, in no particular order.
    pub fn pairs(&self) -> (r: Vec<(String, u64)>)
        ensures
            distinct_keys(r@),
            table_of(r@) == self@,
    {
        proof {
            use_type_invariant(self);
        }
        let mut out: Vec<(String, u64)> = Vec::new();
        let mut i: usize = 0;
        while i < self.entries.len()
            invariant
                i <= self.entries@.len(),
                out@.len() == i,
                forall|j: int| 0 <= j < i ==> out@[j] == self.entries@[j],
            decreases self.entries@.len() - i,
        {
            let key = self.entries[i].0.clone();
            out.push((key, self.entries[i].1));
            i += 1;
        }
        assert(out@ =~= self.entries@);
        out
    }

    /// The mapping that comes of storing the pairs one after another, so that
    /// of two pairs with one key the later one stays.
    pub fn from_pairs(pairs: &Vec<(String, u64)>) -> (r: Self)
        ensures
            r@ == stored_in_turn(pairs@),
    {
        let mut out = KmerCounts::new();
        let mut i: usize = 0;
        while i < pairs.len()
            invariant
                i <= pairs@.len(),
                out@ == stored_in_turn(pairs@.take(i as int)),
            decreases pairs@.len() - i,
        {
            let key = pairs[i].0.clone();
            out.insert(key, pairs[i].1);
            proof {
                assert(pairs@.take(i + 1).drop_last() =~= pairs@.take(i as int));
            }
            i += 1;
        }
        assert(pairs@.take(i as int) =~= pairs@);
        out
    }
}

/// What a mapping holds after the pairs were stored in it one after another,
/// starting from the empty mapping.
pub open spec fn stored_in_turn(pairs: Seq<(String, u64)>) -> Map<Seq<char>, nat>
    decreases pairs.len(),
{
    if pairs.len() == 0 {
        Map::empty()
    } else {
        stored_in_turn(pairs.drop_last()).insert(pairs.last().0@, pairs.last().1 as nat)
    }
}

impl Clone for KmerCounts {
    /// A copy with the same keys and counts.
    fn clone(&self) -> (copy: Self)
        ensures
            copy@ == self@,
    {
        let entries = self.pairs();
        KmerCounts { entries }
    }
}

impl PartialEq for KmerCounts {
    /// Two mappings are equal when they have the same keys with the same counts.
    fn eq(&self, other: &Self) -> (r: bool) {
        let forth = self.included_in(other);
        let back = other.included_in(self);
        proof {
            if forth && back {
                assert(self@ =~= other@);
            }
        }
        forth && back
    }
}

impl vstd::std_specs::cmp::PartialEqSpecImpl for KmerCounts {
    open spec fn obeys_eq_spec() -> bool {
        true
    }

    open spec fn eq_spec(&self, other: &Self) -> bool {
        self@ == other@
    }
}

/// The canonical answer to a challenge: slides a window of `k` characters
/// over `challenge_str`, one character at a time, and counts how often each
/// window occurs. A string shorter than `k` has no window and gives the empty
/// mapping.
///
/// With `k == 0` every window is the empty string, which is counted once for
/// each offset; that count has to fit in 64 bits.
pub fn find_kmers(challenge_str: &String, k: usize) -> (soln: KmerCounts)
    requires
        k == 0 ==> challenge_str@.len() < u64::MAX,
    ensures
        soln@ == kmer_counts(challenge_str@, k as nat),
{
    let text = challenge_str.as_str();
    let len = text.unicode_len();
    let mut soln = KmerCounts::new();
    if len < k {
        assert(soln@ =~= kmer_counts(challenge_str@, k as nat));
        return soln;
    }
    let windows: u64 = (len - k) as u64 + 1;
    let mut start_ind: u64 = 0;
    assert(soln@ =~= counts_upto(text@, k as nat, 0));
    while start_ind < windows
        invariant
            text@ == challenge_str@,
            len == text@.len(),
            k <= len,
            windows == len - k + 1,
            start_ind <= windows,
            soln@ == counts_upto(text@, k as nat, start_ind as nat),
        decreases windows - start_ind,
    {
        let from = start_ind as usize;
        let slice = text.substring_char(from, from + k);
        let key = String::from_str(slice);
        proof {
            lemma_occurrences_bound(text@, k as nat, key@, start_ind as nat);
        }
        let count = match soln.get(&key) {
            Some(seen) => seen + 1,
            None => 1,
        };
        soln.insert(key, count);
        assert(soln@ =~= counts_upto(text@, k as nat, (start_ind + 1) as nat));
        start_ind += 1;
    }
    soln
}

/// A window occurs among the first `n` windows exactly when it stands at one
/// of the first `n` offsets.
pub proof fn lemma_occurs_at_an_offset(s: Seq<char>, k: nat, w: Seq<char>, n: nat)
    ensures
        occurrences(s, k, w, n) > 0 <==> exists|i: int| 0 <= i < n && #[trigger] window(s, k, i) == w,
    decreases n,
{
    if n > 0 {
        lemma_occurs_at_an_offset(s, k, w, (n - 1) as nat);
        if occurrences(s, k, w, n) > 0 {
            if window(s, k, n - 1) == w {
                assert(0 <= n - 1 < n && window(s, k, n - 1) == w);
            } else {
                let i = choose|i: int| 0 <= i < n - 1 && #[trigger] window(s, k, i) == w;
                assert(0 <= i < n && window(s, k, i) == w);
            }
        }
        if exists|i: int| 0 <= i < n && #[trigger] window(s, k, i) == w {
            let i = choose|i: int| 0 <= i < n && #[trigger] window(s, k, i) == w;
            if i < n - 1 {
                assert(0 <= i < n - 1 && window(s, k, i) == w);
            }
        }
    }
}

/// The keys of the canonical answer are the windows of the string: each key
/// has `k` characters and stands at some offset, and its count is at least
/// one and at most the number of windows.
pub proof fn lemma_keys_are_windows(s: Seq<char>, k: nat, w: Seq<char>)
    requires
        kmer_counts(s, k).contains_key(w),
    ensures
        w.len() == k,
        exists|i: int| 0 <= i < window_count(s, k) && #[trigger] window(s, k, i) == w,
        1 <= kmer_counts(s, k)[w] <= window_count(s, k),
{
    lemma_occurs_at_an_offset(s, k, w, window_count(s, k));
    lemma_occurrences_bound(s, k, w, window_count(s, k));
    let i = choose|i: int| 0 <= i < window_count(s, k) && #[trigger] window(s, k, i) == w;
    assert(window(s, k, i).len() == k);
}

/// Every window of the string is a key of the canonical answer.
pub proof fn lemma_windows_are_keys(s: Seq<char>, k: nat, i: int)
    requires
        0 <= i < window_count(s, k),
    ensures
        kmer_counts(s, k).contains_key(window(s, k, i)),
{
    lemma_occurs_at_an_offset(s, k, window(s, k, i), window_count(s, k));
}

/// A string shorter than the window has no window: its canonical answer is
/// the empty mapping. Any other string has at least one.
pub proof fn lemma_empty_exactly_when_short(s: Seq<char>, k: nat)
    ensures
        s.len() < k <==> kmer_counts(s, k) == Map::<Seq<char>, nat>::empty(),
{
    if s.len() < k {
        assert(kmer_counts(s, k) =~= Map::<Seq<char>, nat>::empty());
    } else {
        lemma_windows_are_keys(s, k, 0);
    }
}

/// Among the first `n` windows no window occurs more than `n` times.
pub proof fn lemma_occurrences_bound(s: Seq<char>, k: nat, w: Seq<char>, n: nat)
    ensures
        occurrences(s, k, w, n) <= n,
    decreases n,
{
    if n > 0 {
        lemma_occurrences_bound(s, k, w, (n - 1) as nat);
    }
}

/// With distinct keys, each entry is found under its key.
proof fn lemma_table_entries(entries: Seq<(String, u64)>)
    requires
        distinct_keys(entries),
    ensures
        forall|i: int|
            0 <= i < entries.len() ==> table_of(entries).contains_key(
                #[trigger] key_at(entries, i),
            ) && table_of(entries)[key_at(entries, i)] == entries[i].1 as nat,
        forall|key: Seq<char>|
            table_of(entries).contains_key(key) ==> 0 <= index_of(entries, key) < entries.len()
                && key_at(entries, index_of(entries, key)) == key,
{
    assert forall|i: int| 0 <= i < entries.len() implies table_of(entries).contains_key(
        #[trigger] key_at(entries, i),
    ) && table_of(entries)[key_at(entries, i)] == entries[i].1 as nat by {
        let key = key_at(entries, i);
        assert(has_key(entries, key));
        let j = index_of(entries, key);
        assert(key_at(entries, j) == key);
        assert(j == i);
    }
}

/// With distinct keys, the mapping has as many keys as there are entries.
proof fn lemma_table_len(entries: Seq<(String, u64)>)
    requires
        distinct_keys(entries),
    ensures
        table_of(entries).dom().finite(),
        table_of(entries).dom().len() == entries.len(),
    decreases entries.len(),
{
    if entries.len() == 0 {
        assert(table_of(entries).dom() =~= Set::<Seq<char>>::empty());
    } else {
        let front = entries.drop_last();
        let last = entries.len() - 1;
        assert forall|i: int| 0 <= i < front.len() implies key_at(front, i) == key_at(
            entries,
            i,
        ) by {}
        assert(distinct_keys(front)) by {
            assert forall|i: int, j: int| 0 <= i < j < front.len() implies key_at(front, i)
                != key_at(front, j) by {
                assert(key_at(entries, i) != key_at(entries, j));
            }
        }
        lemma_table_len(front);
        let key = key_at(entries, last);
        assert(!table_of(front).dom().contains(key)) by {
            if has_key(front, key) {
                let j = index_of(front, key);
                assert(key_at(entries, j) == key_at(front, j));
                assert(key_at(entries, j) != key_at(entries, last));
            }
        }
        assert(table_of(entries).dom() =~= table_of(front).dom().insert(key)) by {
            assert forall|x: Seq<char>| has_key(entries, x) implies has_key(front, x) || x
                == key by {
                let j = index_of(entries, x);
                if j < last {
                    assert(key_at(front, j) == x);
                }
            }
            assert forall|x: Seq<char>| has_key(front, x) || x == key implies has_key(
                entries,
                x,
            ) by {
                if x == key {
                    assert(key_at(entries, last) == x);
                } else {
                    let j = index_of(front, x);
                    assert(key_at(entries, j) == x);
                }
            }
        }
    }
}

/// Appending an entry with a new key stores its count under that key.
proof fn lemma_table_push(before: Seq<(String, u64)>, after: Seq<(String, u64)>)
    requires
        distinct_keys(before),
        after.len() == before.len() + 1,
        forall|j: int| 0 <= j < before.len() ==> after[j] == before[j],
        !has_key(before, key_at(after, before.len() as int)),
    ensures
        distinct_keys(after),
        table_of(after) == table_of(before).insert(
            key_at(after, before.len() as int),
            after[before.len() as int].1 as nat,
        ),
{
    let last = before.len() as int;
    let key = key_at(after, last);
    assert forall|j: int| 0 <= j < before.len() implies key_at(after, j) == key_at(before, j) by {}
    assert(distinct_keys(after)) by {
        assert forall|i: int, j: int| 0 <= i < j < after.len() implies key_at(after, i) != key_at(
            after,
            j,
        ) by {
            if j < last {
                assert(key_at(before, i) != key_at(before, j));
            } else {
                assert(key_at(before, i) == key_at(after, i));
            }
        }
    }
    lemma_table_entries(before);
    lemma_table_entries(after);
    let goal = table_of(before).insert(key, after[last].1 as nat);
    assert forall|x: Seq<char>| table_of(after).contains_key(x) <==> goal.contains_key(x) by {
        if table_of(after).contains_key(x) {
            let j = index_of(after, x);
            if j < last {
                assert(key_at(before, j) == x);
            }
        }
        if table_of(before).contains_key(x) {
            let j = index_of(before, x);
            assert(key_at(after, j) == x);
        }
        if x == key {
            assert(key_at(after, last) == x);
        }
    }
    assert forall|x: Seq<char>| table_of(after).contains_key(x) implies table_of(after)[x]
        == goal[x] by {
        let j = index_of(after, x);
        assert(key_at(after, j) == x);
        if j < last {
            assert(key_at(before, j) == x);
        }
    }
    assert(table_of(after) =~= goal);
}

/// Replacing the entry of a key by another with the same key stores the new
/// count under it.
proof fn lemma_table_update(before: Seq<(String, u64)>, after: Seq<(String, u64)>, at: int)
    requires
        distinct_keys(before),
        0 <= at < before.len(),
        after.len() == before.len(),
        forall|j: int| 0 <= j < before.len() && j != at ==> after[j] == before[j],
        key_at(after, at) == key_at(before, at),
    ensures
        distinct_keys(after),
        table_of(after) == table_of(before).insert(key_at(after, at), after[at].1 as nat),
{
    let key = key_at(after, at);
    assert forall|j: int| 0 <= j < before.len() implies key_at(after, j) == key_at(before, j) by {}
    assert(distinct_keys(after)) by {
        assert forall|i: int, j: int| 0 <= i < j < after.len() implies key_at(after, i) != key_at(
            after,
            j,
        ) by {
            assert(key_at(before, i) != key_at(before, j));
        }
    }
    lemma_table_entries(before);
    lemma_table_entries(after);
    let goal = table_of(before).insert(key, after[at].1 as nat);
    assert forall|x: Seq<char>| table_of(after).contains_key(x) <==> goal.contains_key(x) by {
        if table_of(after).contains_key(x) {
            let j = index_of(after, x);
            assert(key_at(before, j) == x);
        }
        if table_of(before).contains_key(x) {
            let j = index_of(before, x);
            assert(key_at(after, j) == x);
        }
    }
    assert forall|x: Seq<char>| table_of(after).contains_key(x) implies table_of(after)[x]
        == goal[x] by {
        let j = index_of(after, x);
        assert(key_at(after, j) == x);
        assert(key_at(before, j) == x);
    }
    assert(table_of(after) =~= goal);
}

} // verus!
