//! Bookkeeping of the bounded repair scans: which prefixes a cycle scans,
//! where each prefix's listing resumes, which keys are new, and what a cycle
//! counted.
use crate::agent::args::AgentArgs;
use crate::text::{str_eq, texts};
use crate::time::{MILLIS_PER_DAY, date_text, now_ms, time_part};
use vstd::prelude::*;
use vstd::string::*;

verus! {

/// The structured-packet prefix that gets date partitions scanned first.
pub const STRUCTURED_PACKET_REPAIR_PREFIX: &'static str =
    "structured-intel-packet/schema=structured_intel_packet_v1/";

// ----- keys already seen -------------------------------------------------

/// A set of keys (the object keys a repair cycle has already taken).
#[derive(Debug, Clone, PartialEq, Eq)]
pub struct SeenKeys {
    keys: Vec<String>,
}

impl View for SeenKeys {
    type V = Set<Seq<char>>;

    closed spec fn view(&self) -> Set<Seq<char>> {
        texts(self.keys@).to_set()
    }
}

impl SeenKeys {
    /// The empty set.
    pub fn new() -> (r: SeenKeys)
        ensures
            r@ == Set::<Seq<char>>::empty(),
    {
        let r = SeenKeys { keys: Vec::new() };
        assert(r@ =~= Set::<Seq<char>>::empty());
        r
    }

    /// Whether `key` is in the set.
    pub fn contains(&self, key: &str) -> (r: bool)
        ensures
            r == self@.contains(key@),
    {
        let ghost t = texts(self.keys@);
        let mut i: usize = 0;
        while i < self.keys.len()
            invariant
                t == texts(self.keys@),
                i <= t.len(),
                forall|j: int| 0 <= j < i ==> t[j] != key@,
            decreases t.len() - i,
        {
            if str_eq(self.keys[i].as_str(), key) {
                assert(t[i as int] == key@);
                return true;
            }
            i = i + 1;
        }
        false
    }

    /// Adds `key`; true when it was not in the set before (`HashSet::insert`).
    pub fn insert(&mut self, key: String) -> (r: bool)
        ensures
            r == !old(self)@.contains(key@),
            final(self)@ == old(self)@.insert(key@),
    {
        if self.contains(key.as_str()) {
            assert(old(self)@.insert(key@) =~= old(self)@);
            false
        } else {
            let ghost k = key@;
            self.keys.push(key);
            assert(texts(self.keys@) =~= texts(old(self).keys@).push(k));
            assert forall|x: Seq<char>| #[trigger] self@.contains(x) == old(self)@.insert(k).contains(x) by {
                let t0 = texts(old(self).keys@);
                let t1 = texts(self.keys@);
                if t1.contains(x) {
                    let j = choose|j: int| 0 <= j < t1.len() && #[trigger] t1[j] == x;
                    if j < t0.len() {
                        assert(t0[j] == x);
                    }
                }
                if t0.contains(x) {
                    let j = choose|j: int| 0 <= j < t0.len() && #[trigger] t0[j] == x;
                    assert(t1[j] == x);
                }
                if x == k {
                    assert(t1[t0.len() as int] == x);
                }
            }
            assert(self@ =~= old(self)@.insert(k));
            true
        }
    }
}

/// The keys of `keys` that are neither in `seen` nor earlier in `keys`, in
/// the order they first appear.
pub open spec fn fresh_keys(seen: Set<Seq<char>>, keys: Seq<Seq<char>>) -> Seq<Seq<char>>
    decreases keys.len(),
{
    if keys.len() == 0 {
        seq![]
    } else {
        let init = keys.drop_last();
        let r = fresh_keys(seen, init);
        if seen.contains(keys.last()) || init.contains(keys.last()) {
            r
        } else {
            r.push(keys.last())
        }
    }
}

/// Moves the keys not seen before from `keys` to the result, first-seen
/// order kept, and marks every key of `keys` as seen.
pub fn take_unique_keys(seen: &mut SeenKeys, keys: Vec<String>) -> (r: Vec<String>)
    ensures
        texts(r@) == fresh_keys(old(seen)@, texts(keys@)),
        final(seen)@ == old(seen)@.union(texts(keys@).to_set()),
{
    let ghost t = texts(keys@);
    let ghost s0 = seen@;
    let mut unique_keys: Vec<String> = Vec::new();
    let mut i: usize = 0;
    assert(t.take(0) =~= seq![]);
    assert(s0.union(t.take(0).to_set()) =~= s0);
    while i < keys.len()
        invariant
            t == texts(keys@),
            i <= t.len(),
            texts(unique_keys@) == fresh_keys(s0, t.take(i as int)),
            seen@ == s0.union(t.take(i as int).to_set()),
        decreases t.len() - i,
    {
        let key = keys[i].clone();
        let ghost k = key@;
        assert(t[i as int] == k);
        let ghost before = seen@;
        assert(t.take(i + 1).drop_last() =~= t.take(i as int));
        assert(t.take(i + 1).last() == k);
        assert(before.contains(k) <==> (s0.contains(k) || t.take(i as int).contains(k)));
        if seen.insert(key.clone()) {
            unique_keys.push(key);
            assert(texts(unique_keys@) =~= fresh_keys(s0, t.take(i + 1)));
        } else {
            assert(texts(unique_keys@) =~= fresh_keys(s0, t.take(i + 1)));
        }
        assert(seen@ =~= s0.union(t.take(i + 1).to_set())) by {
            assert forall|x: Seq<char>| t.take(i + 1).contains(x) <==> (t.take(i as int).contains(x) || x == k) by {
                if t.take(i + 1).contains(x) {
                    let j = choose|j: int| 0 <= j < i + 1 && #[trigger] t.take(i + 1)[j] == x;
                    if j < i {
                        assert(t.take(i as int)[j] == x);
                    }
                }
                if t.take(i as int).contains(x) {
                    let j = choose|j: int| 0 <= j < i && #[trigger] t.take(i as int)[j] == x;
                    assert(t.take(i + 1)[j] == x);
                }
                if x == k {
                    assert(t.take(i + 1)[i as int] == x);
                }
            }
        }
        i = i + 1;
    }
    assert(t.take(i as int) =~= t);
    unique_keys
}

/// Taking fresh keys from `a` and then from `b` gives the fresh keys of `a + b`:
/// a key already taken from `a` is not taken again from `b`.
pub proof fn lemma_fresh_keys_concat(seen: Set<Seq<char>>, a: Seq<Seq<char>>, b: Seq<Seq<char>>)
    ensures
        fresh_keys(seen, a) + fresh_keys(seen.union(a.to_set()), b) == fresh_keys(seen, a + b),
    decreases b.len(),
{
    if b.len() == 0 {
        assert(a + b =~= a);
        assert(fresh_keys(seen, a) + seq![] =~= fresh_keys(seen, a));
    } else {
        let b0 = b.drop_last();
        let x = b.last();
        lemma_fresh_keys_concat(seen, a, b0);
        assert((a + b).drop_last() =~= a + b0);
        assert((a + b).last() == x);
        let s2 = seen.union(a.to_set());
        assert((seen.contains(x) || (a + b0).contains(x)) <==> (s2.contains(x) || b0.contains(x))) by {
            if (a + b0).contains(x) {
                let j = choose|j: int| 0 <= j < (a + b0).len() && #[trigger] (a + b0)[j] == x;
                if j < a.len() {
                    assert(a[j] == x);
                } else {
                    assert(b0[j - a.len()] == x);
                }
            }
            if a.contains(x) {
                let j = choose|j: int| 0 <= j < a.len() && #[trigger] a[j] == x;
                assert((a + b0)[j] == x);
            }
            if b0.contains(x) {
                let j = choose|j: int| 0 <= j < b0.len() && #[trigger] b0[j] == x;
                assert((a + b0)[a.len() + j] == x);
            }
        }
        if s2.contains(x) || b0.contains(x) {
        } else {
            assert(fresh_keys(seen, a) + fresh_keys(s2, b0).push(x) =~= (fresh_keys(seen, a)
                + fresh_keys(s2, b0)).push(x));
        }
    }
}

/// A fresh key is never one that was seen before, and no key is taken twice.
pub proof fn lemma_fresh_keys_unique(seen: Set<Seq<char>>, keys: Seq<Seq<char>>)
    ensures
        forall|i: int| 0 <= i < fresh_keys(seen, keys).len() ==> !seen.contains(
            #[trigger] fresh_keys(seen, keys)[i],
        ) && keys.contains(fresh_keys(seen, keys)[i]),
        forall|i: int, j: int|
            0 <= i < j < fresh_keys(seen, keys).len() ==> #[trigger] fresh_keys(seen, keys)[i]
                != #[trigger] fresh_keys(seen, keys)[j],
    decreases keys.len(),
{
    if keys.len() > 0 {
        let init = keys.drop_last();
        lemma_fresh_keys_unique(seen, init);
        let r = fresh_keys(seen, init);
        assert forall|i: int| 0 <= i < r.len() implies keys.contains(#[trigger] r[i]) by {
            let j = choose|j: int| 0 <= j < init.len() && #[trigger] init[j] == r[i];
            assert(keys[j] == r[i]);
        }
        if !(seen.contains(keys.last()) || init.contains(keys.last())) {
            assert(keys[keys.len() - 1] == keys.last());
            assert forall|i: int| 0 <= i < r.len() implies r[i] != keys.last() by {
                assert(init.contains(r[i]));
            }
        }
    }
}

// ----- per-prefix listing cursors ----------------------------------------

/// Where the listing of each prefix resumes: the last key of the previous
/// page, kept while the listing has more pages.
#[derive(Debug, PartialEq, Eq)]
pub struct RepairScanCursors {
    entries: Vec<(String, String)>,
}

spec fn cursor_pairs(entries: Seq<(String, String)>) -> Seq<(Seq<char>, Seq<char>)> {
    entries.map_values(|e: (String, String)| (e.0@, e.1@))
}

spec fn has_prefix_at(entries: Seq<(String, String)>, k: Seq<char>) -> bool {
    exists|i: int| 0 <= i < entries.len() && (#[trigger] entries[i]).0@ == k
}

spec fn prefixes_unique(entries: Seq<(String, String)>) -> bool {
    forall|i: int, j: int|
        0 <= i < entries.len() && 0 <= j < entries.len() && (#[trigger] entries[i]).0@ == (
        #[trigger] entries[j]).0@ ==> i == j
}

spec fn cursor_map(entries: Seq<(String, String)>) -> Map<Seq<char>, Seq<char>> {
    Map::new(
        |k: Seq<char>| has_prefix_at(entries, k),
        |k: Seq<char>|
            entries[choose|i: int| 0 <= i < entries.len() && (#[trigger] entries[i]).0@ == k].1@,
    )
}

impl View for RepairScanCursors {
    type V = Map<Seq<char>, Seq<char>>;

    closed spec fn view(&self) -> Map<Seq<char>, Seq<char>> {
        cursor_map(self.entries@)
    }
}

impl RepairScanCursors {
    #[verifier::type_invariant]
    spec fn inv(&self) -> bool {
        prefixes_unique(self.entries@)
    }

    /// No cursor for any prefix.
    pub fn new() -> (r: RepairScanCursors)
        ensures
            r@ == Map::<Seq<char>, Seq<char>>::empty(),
    {
        let r = RepairScanCursors { entries: Vec::new() };
        assert(r@ =~= Map::<Seq<char>, Seq<char>>::empty());
        r
    }

    fn find(entries: &Vec<(String, String)>, prefix: &str) -> (r: Option<usize>)
        ensures
            match r {
                Some(i) => i < entries@.len() && entries@[i as int].0@ == prefix@,
                None => !has_prefix_at(entries@, prefix@),
            },
    {
        let mut i: usize = 0;
        while i < entries.len()
            invariant
                i <= entries@.len(),
                forall|j: int| 0 <= j < i ==> (#[trigger] entries@[j]).0@ != prefix@,
            decreases entries@.len() - i,
        {
            if str_eq(entries[i].0.as_str(), prefix) {
                return Some(i);
            }
            i = i + 1;
        }
        None
    }

    /// The key after which the listing of `prefix` resumes, if any.
    pub fn start_after(&self, prefix: &str) -> (r: Option<&str>)
        ensures
            match r {
                Some(s) => self@.contains_key(prefix@) && s@ == self@[prefix@],
                None => !self@.contains_key(prefix@),
            },
    {
        proof {
            use_type_invariant(self);
        }
        match Self::find(&self.entries, prefix) {
            Some(i) => {
                proof {
                    let e = self.entries@;
                    assert(has_prefix_at(e, prefix@));
                    let j = choose|j: int| 0 <= j < e.len() && (#[trigger] e[j]).0@ == prefix@;
                    assert(j == i);
                }
                Some(self.entries[i].1.as_str())
            },
            None => None,
        }
    }

    /// Records the outcome of listing one page of `prefix`: a next start key
    /// moves the cursor there, no next key clears it. True when the listing
    /// continues.
    pub fn update_after_page(&mut self, prefix: &str, next_start_after: Option<String>) -> (r: bool)
        ensures
            r == next_start_after is Some,
            final(self)@ == match next_start_after {
                Some(v) => old(self)@.insert(prefix@, v@),
                None => old(self)@.remove(prefix@),
            },
    {
        proof {
            use_type_invariant(&*self);
        }
        let mut entries: Vec<(String, String)> = Vec::new();
        std::mem::swap(&mut entries, &mut self.entries);
        let ghost e0 = entries@;
        let ghost m0 = cursor_map(e0);
        let found = Self::find(&entries, prefix);
        let r = match next_start_after {
            Some(value) => {
                let ghost v = value@;
                match found {
                    Some(i) => {
                        let key = entries[i].0.clone();
                        entries.set(i, (key, value));
                        proof {
                            let e1 = entries@;
                            assert(prefixes_unique(e1)) by {
                                assert forall|a: int, b: int|
                                    0 <= a < e1.len() && 0 <= b < e1.len() && (#[trigger] e1[a]).0@
                                        == (#[trigger] e1[b]).0@ implies a == b by {
                                    assert(e0[a].0@ == e1[a].0@);
                                    assert(e0[b].0@ == e1[b].0@);
                                }
                            }
                            assert forall|k: Seq<char>| #[trigger]
                                has_prefix_at(e1, k) == m0.insert(prefix@, v).contains_key(k) by {
                                if has_prefix_at(e1, k) {
                                    let a = choose|a: int| 0 <= a < e1.len() && (#[trigger] e1[a]).0@ == k;
                                    assert(e0[a].0@ == k);
                                }
                                if has_prefix_at(e0, k) {
                                    let a = choose|a: int| 0 <= a < e0.len() && (#[trigger] e0[a]).0@ == k;
                                    assert(e1[a].0@ == k);
                                }
                                if k == prefix@ {
                                    assert(e1[i as int].0@ == k);
                                }
                            }
                            assert forall|k: Seq<char>| #[trigger]
                                m0.insert(prefix@, v).contains_key(k) implies cursor_map(e1)[k]
                                == m0.insert(prefix@, v)[k] by {
                                assert(has_prefix_at(e1, k));
                                let a = choose|a: int| 0 <= a < e1.len() && (#[trigger] e1[a]).0@ == k;
                                if k == prefix@ {
                                    assert(e1[i as int].0@ == k);
                                    assert(a == i);
                                } else {
                                    let b = choose|b: int| 0 <= b < e0.len() && (#[trigger] e0[b]).0@ == k;
                                    assert(e1[b].0@ == k);
                                    assert(a == b);
                                }
                            }
                            assert(cursor_map(e1) =~= m0.insert(prefix@, v));
                        }
                    },
                    None => {
                        let key = String::from_str(prefix);
                        entries.push((key, value));
                        proof {
                            let e1 = entries@;
                            let n = e0.len() as int;
                            assert(e1[n].0@ == prefix@);
                            assert(prefixes_unique(e1)) by {
                                assert forall|a: int, b: int|
                                    0 <= a < e1.len() && 0 <= b < e1.len() && (#[trigger] e1[a]).0@
                                        == (#[trigger] e1[b]).0@ implies a == b by {
                                    if a < n && b == n {
                                        assert(e0[a].0@ == prefix@);
                                    }
                                    if b < n && a == n {
                                        assert(e0[b].0@ == prefix@);
                                    }
                                }
                            }
                            assert forall|k: Seq<char>| #[trigger]
                                has_prefix_at(e1, k) == m0.insert(prefix@, v).contains_key(k) by {
                                if has_prefix_at(e1, k) {
                                    let a = choose|a: int| 0 <= a < e1.len() && (#[trigger] e1[a]).0@ == k;
                                    if a < n {
                                        assert(e0[a].0@ == k);
                                    }
                                }
                                if has_prefix_at(e0, k) {
                                    let a = choose|a: int| 0 <= a < e0.len() && (#[trigger] e0[a]).0@ == k;
                                    assert(e1[a].0@ == k);
                                }
                            }
                            assert forall|k: Seq<char>| #[trigger]
                                m0.insert(prefix@, v).contains_key(k) implies cursor_map(e1)[k]
                                == m0.insert(prefix@, v)[k] by {
                                assert(has_prefix_at(e1, k));
                                let a = choose|a: int| 0 <= a < e1.len() && (#[trigger] e1[a]).0@ == k;
                                if k == prefix@ {
                                    assert(a == n);
                                } else {
                                    let b = choose|b: int| 0 <= b < e0.len() && (#[trigger] e0[b]).0@ == k;
                                    assert(e1[b].0@ == k);
                                    assert(a == b);
                                }
                            }
                            assert(cursor_map(e1) =~= m0.insert(prefix@, v));
                        }
                    },
                }
                true
            },
            None => {
                match found {
                    Some(i) => {
                        entries.remove(i);
                        proof {
                            let e1 = entries@;
                            let ii = i as int;
                            assert forall|a: int| 0 <= a < e1.len() implies #[trigger] e1[a] == e0[
                                if a < ii {
                                    a
                                } else {
                                    a + 1
                                }] by {}
                            assert(prefixes_unique(e1)) by {
                                assert forall|a: int, b: int|
                                    0 <= a < e1.len() && 0 <= b < e1.len() && (#[trigger] e1[a]).0@
                                        == (#[trigger] e1[b]).0@ implies a == b by {
                                    let a0 = if a < ii { a } else { a + 1 };
                                    let b0 = if b < ii { b } else { b + 1 };
                                    assert(e0[a0].0@ == e0[b0].0@);
                                }
                            }
                            assert forall|k: Seq<char>| #[trigger]
                                has_prefix_at(e1, k) == m0.remove(prefix@).contains_key(k) by {
                                if has_prefix_at(e1, k) {
                                    let a = choose|a: int| 0 <= a < e1.len() && (#[trigger] e1[a]).0@ == k;
                                    let a0 = if a < ii { a } else { a + 1 };
                                    assert(e0[a0].0@ == k);
                                    assert(a0 != ii);
                                }
                                if has_prefix_at(e0, k) && k != prefix@ {
                                    let a = choose|a: int| 0 <= a < e0.len() && (#[trigger] e0[a]).0@ == k;
                                    assert(a != ii);
                                    let a1 = if a < ii { a } else { a - 1 };
                                    assert(e1[a1].0@ == k);
                                }
                            }
                            assert forall|k: Seq<char>| #[trigger]
                                m0.remove(prefix@).contains_key(k) implies cursor_map(e1)[k]
                                == m0.remove(prefix@)[k] by {
                                assert(has_prefix_at(e1, k));
                                let a = choose|a: int| 0 <= a < e1.len() && (#[trigger] e1[a]).0@ == k;
                                let a0 = if a < ii { a } else { a + 1 };
                                let b = choose|b: int| 0 <= b < e0.len() && (#[trigger] e0[b]).0@ == k;
                                assert(e0[a0].0@ == k);
                                assert(a0 == b);
                            }
                            assert(cursor_map(e1) =~= m0.remove(prefix@));
                        }
                    },
                    None => {
                        assert(cursor_map(e0) =~= m0.remove(prefix@));
                    },
                }
                false
            },
        };
        self.entries = entries;
        r
    }
}

impl Default for RepairScanCursors {
    fn default() -> (r: RepairScanCursors)
        ensures
            r@ == Map::<Seq<char>, Seq<char>>::empty(),
    {
        RepairScanCursors::new()
    }
}

/// Reading a prefix's cursor right after a page gives what that page left:
/// its next start key, or none once the listing is exhausted; other
/// prefixes' cursors are untouched.
pub proof fn lemma_cursor_read_after_update(
    m: Map<Seq<char>, Seq<char>>,
    prefix: Seq<char>,
    next: Option<Seq<char>>,
    other: Seq<char>,
)
    requires
        other != prefix,
    ensures
        ({
            let m2 = match next {
                Some(v) => m.insert(prefix, v),
                None => m.remove(prefix),
            };
            &&& (next matches Some(v) ==> m2.contains_key(prefix) && m2[prefix] == v)
            &&& (next is None ==> !m2.contains_key(prefix))
            &&& m2.contains_key(other) == m.contains_key(other)
            &&& (m.contains_key(other) ==> m2[other] == m[other])
        }),
{
}

// ----- prefixes of a repair cycle ---------------------------------------

/// `ts` moved back by `k` days, saturating at the earliest instant.
pub open spec fn partition_ms(ts: int, k: int) -> int {
    if ts - k * MILLIS_PER_DAY < i64::MIN {
        i64::MIN as int
    } else {
        ts - k * MILLIS_PER_DAY
    }
}

/// The date partition `k` days before `ts` under `prefix`.
pub open spec fn recent_partition_prefix(prefix: Seq<char>, ts: int, k: int) -> Seq<char> {
    prefix + "dt="@ + date_text(partition_ms(ts, k)) + seq!['/']
}

/// The recent date partitions scanned before a configured prefix: only the
/// structured-packet prefix has them, newest first.
pub open spec fn prefix_expansion(prefix: Seq<char>, ts: int, days: nat) -> Seq<Seq<char>> {
    if prefix == STRUCTURED_PACKET_REPAIR_PREFIX@ && days > 0 {
        Seq::new(days, |k: int| recent_partition_prefix(prefix, ts, k))
    } else {
        seq![]
    }
}

pub open spec fn expansion(prefixes: Seq<Seq<char>>, ts: int, days: nat) -> Seq<Seq<char>>
    decreases prefixes.len(),
{
    if prefixes.len() == 0 {
        seq![]
    } else {
        expansion(prefixes.drop_last(), ts, days) + prefix_expansion(prefixes.last(), ts, days)
    }
}

/// The prefixes a repair cycle at `ts` scans, in order: the recent date
/// partitions of every expandable prefix, then the configured prefixes,
/// each prefix once.
pub open spec fn repair_prefixes_spec(prefixes: Seq<Seq<char>>, ts: int, days: nat) -> Seq<
    Seq<char>,
> {
    fresh_keys(Set::empty(), expansion(prefixes, ts, days) + prefixes)
}

/// Every key of `keys` that is not in `seen` is taken.
pub proof fn lemma_fresh_keys_complete(seen: Set<Seq<char>>, keys: Seq<Seq<char>>, k: Seq<char>)
    requires
        keys.contains(k),
        !seen.contains(k),
    ensures
        fresh_keys(seen, keys).contains(k),
    decreases keys.len(),
{
    let init = keys.drop_last();
    let r = fresh_keys(seen, init);
    if init.contains(k) {
        lemma_fresh_keys_complete(seen, init, k);
        let j = choose|j: int| 0 <= j < r.len() && r[j] == k;
        if !(seen.contains(keys.last()) || init.contains(keys.last())) {
            assert(r.push(keys.last())[j] == k);
        }
    } else {
        let j = choose|j: int| 0 <= j < keys.len() && keys[j] == k;
        if j < keys.len() - 1 {
            assert(init[j] == k);
        }
        assert(keys.last() == k);
        assert(r.push(k)[r.len() as int] == k);
    }
}

/// The first key is always taken first when nothing was seen before.
proof fn lemma_fresh_keys_first(keys: Seq<Seq<char>>)
    requires
        keys.len() > 0,
    ensures
        fresh_keys(Set::empty(), keys).len() > 0,
        fresh_keys(Set::empty(), keys)[0] == keys[0],
{
    let a = keys.take(1);
    let b = keys.skip(1);
    lemma_fresh_keys_concat(Set::empty(), a, b);
    assert(a + b =~= keys);
    assert(a.drop_last() =~= Seq::<Seq<char>>::empty());
    assert(a.last() == keys[0]);
    assert(fresh_keys(Set::empty(), a.drop_last()) =~= Seq::<Seq<char>>::empty());
    assert(!a.drop_last().contains(a.last()));
    assert(fresh_keys(Set::empty(), a) =~= Seq::<Seq<char>>::empty().push(keys[0]));
}

/// What the recent partitions of the configured prefixes begin with: the
/// newest partition of the structured-packet prefix, when that prefix is
/// configured and partitions are scanned at all.
proof fn lemma_expansion_first(prefixes: Seq<Seq<char>>, ts: int, days: nat)
    ensures
        expansion(prefixes, ts, days).len() > 0 ==> expansion(prefixes, ts, days)[0]
            == recent_partition_prefix(STRUCTURED_PACKET_REPAIR_PREFIX@, ts, 0),
        prefixes.contains(STRUCTURED_PACKET_REPAIR_PREFIX@) && days > 0 ==> expansion(
            prefixes,
            ts,
            days,
        ).len() > 0,
    decreases prefixes.len(),
{
    if prefixes.len() > 0 {
        let init = prefixes.drop_last();
        lemma_expansion_first(init, ts, days);
        if prefixes.contains(STRUCTURED_PACKET_REPAIR_PREFIX@) && prefixes.last()
            != STRUCTURED_PACKET_REPAIR_PREFIX@ {
            let j = choose|j: int|
                0 <= j < prefixes.len() && prefixes[j] == STRUCTURED_PACKET_REPAIR_PREFIX@;
            assert(init[j] == STRUCTURED_PACKET_REPAIR_PREFIX@);
        }
    }
}

/// Every scanned prefix is a configured prefix or a recent date partition
/// of the structured-packet prefix.
proof fn lemma_expansion_members(prefixes: Seq<Seq<char>>, ts: int, days: nat, p: Seq<char>)
    requires
        expansion(prefixes, ts, days).contains(p),
    ensures
        exists|k: int|
            0 <= k < days && p == recent_partition_prefix(STRUCTURED_PACKET_REPAIR_PREFIX@, ts, k),
    decreases prefixes.len(),
{
    let init = prefixes.drop_last();
    let e = expansion(init, ts, days);
    let x = prefix_expansion(prefixes.last(), ts, days);
    let j = choose|j: int| 0 <= j < (e + x).len() && (e + x)[j] == p;
    if j < e.len() {
        assert(e[j] == p);
        lemma_expansion_members(init, ts, days, p);
    } else {
        assert(x[j - e.len()] == p);
        assert(p == recent_partition_prefix(STRUCTURED_PACKET_REPAIR_PREFIX@, ts, j - e.len()));
    }
}

/// The prefixes of a repair cycle: every configured prefix is scanned; no
/// prefix is scanned twice; every scanned prefix is configured or is one of
/// the `days` most recent date partitions of the structured-packet prefix;
/// and when that prefix is configured with recent partitions, its newest
/// partition is scanned first.
pub proof fn lemma_repair_prefixes_laws(prefixes: Seq<Seq<char>>, ts: int, days: nat)
    ensures
        forall|i: int|
            0 <= i < prefixes.len() ==> repair_prefixes_spec(prefixes, ts, days).contains(
                #[trigger] prefixes[i],
            ),
        forall|i: int, j: int|
            0 <= i < j < repair_prefixes_spec(prefixes, ts, days).len() ==> #[trigger] repair_prefixes_spec(
                prefixes,
                ts,
                days,
            )[i] != #[trigger] repair_prefixes_spec(prefixes, ts, days)[j],
        forall|i: int|
            0 <= i < repair_prefixes_spec(prefixes, ts, days).len() ==> prefixes.contains(
                #[trigger] repair_prefixes_spec(prefixes, ts, days)[i],
            ) || exists|k: int|
                0 <= k < days && repair_prefixes_spec(prefixes, ts, days)[i]
                    == recent_partition_prefix(STRUCTURED_PACKET_REPAIR_PREFIX@, ts, k),
        prefixes.contains(STRUCTURED_PACKET_REPAIR_PREFIX@) && days > 0 ==> repair_prefixes_spec(
            prefixes,
            ts,
            days,
        )[0] == recent_partition_prefix(STRUCTURED_PACKET_REPAIR_PREFIX@, ts, 0),
{
    let e = expansion(prefixes, ts, days);
    let all = e + prefixes;
    let r = repair_prefixes_spec(prefixes, ts, days);
    lemma_fresh_keys_unique(Set::empty(), all);
    assert forall|i: int| 0 <= i < prefixes.len() implies r.contains(#[trigger] prefixes[i]) by {
        assert(all[e.len() + i] == prefixes[i]);
        lemma_fresh_keys_complete(Set::empty(), all, prefixes[i]);
    }
    assert forall|i: int| 0 <= i < r.len() implies prefixes.contains(#[trigger] r[i]) || exists|
        k: int,
    |
        0 <= k < days && r[i] == recent_partition_prefix(STRUCTURED_PACKET_REPAIR_PREFIX@, ts, k) by {
        assert(all.contains(r[i]));
        let j = choose|j: int| 0 <= j < all.len() && all[j] == r[i];
        if j < e.len() {
            assert(e[j] == r[i]);
            lemma_expansion_members(prefixes, ts, days, r[i]);
        } else {
            assert(prefixes[j - e.len()] == r[i]);
        }
    }
    lemma_expansion_first(prefixes, ts, days);
    if prefixes.contains(STRUCTURED_PACKET_REPAIR_PREFIX@) && days > 0 {
        assert(all[0] == e[0]);
        lemma_fresh_keys_first(all);
    }
}

/// Appends `prefix` unless it was seen before, and marks it seen.
pub fn push_unique_prefix(prefixes: &mut Vec<String>, seen: &mut SeenKeys, prefix: String)
    ensures
        texts(final(prefixes)@) == texts(old(prefixes)@) + if old(seen)@.contains(prefix@) {
            Seq::<Seq<char>>::empty()
        } else {
            seq![prefix@]
        },
        final(seen)@ == old(seen)@.insert(prefix@),
{
    let ghost p = prefix@;
    if seen.insert(prefix.clone()) {
        prefixes.push(prefix);
        assert(texts(prefixes@) =~= texts(old(prefixes)@) + seq![p]);
    } else {
        assert(texts(prefixes@) =~= texts(old(prefixes)@) + Seq::<Seq<char>>::empty());
    }
}

proof fn lemma_fresh_push(produced: Seq<Seq<char>>, c: Seq<char>)
    ensures
        fresh_keys(Set::empty(), produced.push(c)) == fresh_keys(Set::empty(), produced) + if produced.contains(c) {
            Seq::<Seq<char>>::empty()
        } else {
            seq![c]
        },
        produced.push(c).to_set() == produced.to_set().insert(c),
{
    assert(produced.push(c).drop_last() =~= produced);
    assert(produced.push(c).last() == c);
    assert(fresh_keys(Set::empty(), produced) + Seq::<Seq<char>>::empty() =~= fresh_keys(Set::empty(), produced));
    assert(fresh_keys(Set::empty(), produced).push(c) =~= fresh_keys(Set::empty(), produced) + seq![c]);
    assert forall|x: Seq<char>| #[trigger] produced.push(c).to_set().contains(x) == produced.to_set().insert(c).contains(x) by {
        if produced.push(c).contains(x) {
            let j = choose|j: int| 0 <= j < produced.len() + 1 && #[trigger] produced.push(c)[j] == x;
            if j < produced.len() {
                assert(produced[j] == x);
            }
        }
        if produced.contains(x) {
            let j = choose|j: int| 0 <= j < produced.len() && #[trigger] produced[j] == x;
            assert(produced.push(c)[j] == x);
        }
        if x == c {
            assert(produced.push(c)[produced.len() as int] == x);
        }
    }
    assert(produced.push(c).to_set() =~= produced.to_set().insert(c));
}

fn recent_prefix(prefix: &str, timestamp_ms: i64, k: u32) -> (r: String)
    ensures
        r@ == recent_partition_prefix(prefix@, timestamp_ms as int, k as int),
{
    let offset: i64 = (k as i64) * MILLIS_PER_DAY;
    let part = if timestamp_ms < i64::MIN + offset {
        i64::MIN
    } else {
        timestamp_ms - offset
    };
    let date = time_part(part).event_date;
    let mut r = String::from_str(prefix);
    r.append("dt=");
    r.append(date.as_str());
    r.append("/");
    proof {
        reveal_strlit("/");
        assert("/"@ =~= seq!['/']);
    }
    r
}

/// The prefixes of a repair cycle at `timestamp_ms`: for the structured
/// packet prefix, the `repair_recent_partition_days` most recent date
/// partitions come first (newest first); then every configured prefix;
/// no prefix twice.
pub fn repair_prefixes_for_cycle(args: &AgentArgs, timestamp_ms: i64) -> (r: Vec<String>)
    ensures
        texts(r@) == repair_prefixes_spec(
            texts(args.repair_input_prefixes@),
            timestamp_ms as int,
            args.repair_recent_partition_days as nat,
        ),
{
    let ps = &args.repair_input_prefixes;
    let days = args.repair_recent_partition_days;
    let ghost t = texts(ps@);
    let ghost ts = timestamp_ms as int;
    let ghost dn = days as nat;
    let mut prefixes: Vec<String> = Vec::new();
    let mut seen = SeenKeys::new();
    let ghost mut produced: Seq<Seq<char>> = seq![];
    assert(texts(prefixes@) =~= fresh_keys(Set::empty(), produced));
    assert(seen@ =~= produced.to_set());
    let mut i: usize = 0;
    while i < ps.len()
        invariant
            t == texts(ps@),
            ts == timestamp_ms as int,
            dn == days as nat,
            days == args.repair_recent_partition_days,
            i <= t.len(),
            produced == expansion(t.take(i as int), ts, dn),
            texts(prefixes@) == fresh_keys(Set::empty(), produced),
            seen@ == produced.to_set(),
        decreases t.len() - i,
    {
        let prefix = ps[i].as_str();
        assert(t[i as int] == prefix@);
        assert(t.take(i + 1).drop_last() =~= t.take(i as int));
        assert(t.take(i + 1).last() == prefix@);
        if str_eq(prefix, STRUCTURED_PACKET_REPAIR_PREFIX) && days > 0 {
            let ghost base = produced;
            let mut k: u32 = 0;
            while k < days
                invariant
                    ts == timestamp_ms as int,
                    dn == days as nat,
                    t[i as int] == prefix@,
                    prefix@ == STRUCTURED_PACKET_REPAIR_PREFIX@,
                    0 < days,
                    0 <= k <= days,
                    produced == base + Seq::new(k as nat, |j: int| recent_partition_prefix(prefix@, ts, j)),
                    texts(prefixes@) == fresh_keys(Set::empty(), produced),
                    seen@ == produced.to_set(),
                decreases days - k,
            {
                let recent = recent_prefix(prefix, timestamp_ms, k);
                let ghost c = recent@;
                proof {
                    lemma_fresh_push(produced, c);
                }
                push_unique_prefix(&mut prefixes, &mut seen, recent);
                proof {
                    produced = produced.push(c);
                    assert(produced =~= base + Seq::new((k + 1) as nat, |j: int| recent_partition_prefix(prefix@, ts, j)));
                }
                k = k + 1;
            }
            assert(produced =~= expansion(t.take(i + 1), ts, dn));
        } else {
            assert(expansion(t.take(i + 1), ts, dn) =~= produced);
        }
        i = i + 1;
    }
    assert(t.take(i as int) =~= t);
    let ghost exp = produced;
    let mut i: usize = 0;
    assert(produced =~= exp + t.take(0));
    while i < ps.len()
        invariant
            t == texts(ps@),
            i <= t.len(),
            produced == exp + t.take(i as int),
            texts(prefixes@) == fresh_keys(Set::empty(), produced),
            seen@ == produced.to_set(),
        decreases t.len() - i,
    {
        let prefix = ps[i].clone();
        let ghost c = prefix@;
        assert(t[i as int] == c);
        proof {
            lemma_fresh_push(produced, c);
        }
        push_unique_prefix(&mut prefixes, &mut seen, prefix);
        proof {
            produced = produced.push(c);
            assert(produced =~= exp + t.take(i + 1));
        }
        i = i + 1;
    }
    assert(t.take(i as int) =~= t);
    prefixes
}

// ----- counting a repair cycle ------------------------------------------

/// How one repair key ended.
#[derive(Debug, Clone, Copy, PartialEq, Eq)]
pub enum RepairKeyOutcome {
    Processed,
    SkippedStaleRevision,
    Failed,
}

/// What a repair cycle (or one page of it) counted.
#[derive(Debug, Clone, Copy, PartialEq, Eq)]
pub struct RepairCycleReport {
    pub keys_seen: usize,
    pub keys_processed: usize,
    pub keys_skipped_stale_revision: usize,
    pub keys_failed: usize,
}

impl RepairCycleReport {
    /// Every key seen is counted once as processed, skipped or failed.
    pub open spec fn is_balanced(&self) -> bool {
        self.keys_seen == self.keys_processed + self.keys_skipped_stale_revision + self.keys_failed
    }

    /// Nothing counted.
    pub fn empty() -> (r: RepairCycleReport)
        ensures
            r.keys_seen == 0,
            r.keys_processed == 0,
            r.keys_skipped_stale_revision == 0,
            r.keys_failed == 0,
            r.is_balanced(),
    {
        RepairCycleReport {
            keys_seen: 0,
            keys_processed: 0,
            keys_skipped_stale_revision: 0,
            keys_failed: 0,
        }
    }

    /// Adds the counts of `report` to these.
    pub fn merge(&mut self, report: RepairCycleReport)
        requires
            old(self).keys_seen + report.keys_seen <= usize::MAX,
            old(self).keys_processed + report.keys_processed <= usize::MAX,
            old(self).keys_skipped_stale_revision + report.keys_skipped_stale_revision
                <= usize::MAX,
            old(self).keys_failed + report.keys_failed <= usize::MAX,
        ensures
            final(self).keys_seen == old(self).keys_seen + report.keys_seen,
            final(self).keys_processed == old(self).keys_processed + report.keys_processed,
            final(self).keys_skipped_stale_revision == old(self).keys_skipped_stale_revision
                + report.keys_skipped_stale_revision,
            final(self).keys_failed == old(self).keys_failed + report.keys_failed,
            old(self).is_balanced() && report.is_balanced() ==> final(self).is_balanced(),
    {
        self.keys_seen = self.keys_seen + report.keys_seen;
        self.keys_processed = self.keys_processed + report.keys_processed;
        self.keys_skipped_stale_revision = self.keys_skipped_stale_revision
            + report.keys_skipped_stale_revision;
        self.keys_failed = self.keys_failed + report.keys_failed;
    }

    /// Counts one key and how it ended.
    pub fn record(&mut self, outcome: RepairKeyOutcome)
        requires
            old(self).keys_seen < usize::MAX,
            old(self).is_balanced(),
        ensures
            final(self).keys_seen == old(self).keys_seen + 1,
            final(self).keys_processed == old(self).keys_processed + if outcome
                == RepairKeyOutcome::Processed {
                1int
            } else {
                0int
            },
            final(self).keys_skipped_stale_revision == old(self).keys_skipped_stale_revision + if outcome
                == RepairKeyOutcome::SkippedStaleRevision {
                1int
            } else {
                0int
            },
            final(self).keys_failed == old(self).keys_failed + if outcome == RepairKeyOutcome::Failed {
                1int
            } else {
                0int
            },
            final(self).is_balanced(),
    {
        self.keys_seen = self.keys_seen + 1;
        match outcome {
            RepairKeyOutcome::Processed => {
                self.keys_processed = self.keys_processed + 1;
            },
            RepairKeyOutcome::SkippedStaleRevision => {
                self.keys_skipped_stale_revision = self.keys_skipped_stale_revision + 1;
            },
            RepairKeyOutcome::Failed => {
                self.keys_failed = self.keys_failed + 1;
            },
        }
    }
}

// ----- one listed page -----------------------------------------------------

/// After one page of `prefix` was listed: keeps the keys not seen before,
/// moves the prefix's cursor, and says whether to list another page (the
/// listing continues and the page was not empty).
pub fn after_repair_page(
    cursors: &mut RepairScanCursors,
    seen: &mut SeenKeys,
    prefix: &str,
    page_keys: Vec<String>,
    next_start_after: Option<String>,
) -> (r: (Vec<String>, bool))
    ensures
        texts(r.0@) == fresh_keys(old(seen)@, texts(page_keys@)),
        final(seen)@ == old(seen)@.union(texts(page_keys@).to_set()),
        final(cursors)@ == match next_start_after {
            Some(v) => old(cursors)@.insert(prefix@, v@),
            None => old(cursors)@.remove(prefix@),
        },
        r.1 == (next_start_after is Some && page_keys@.len() > 0),
{
    let page_key_count = page_keys.len();
    let unique = take_unique_keys(seen, page_keys);
    let cursor_continues = cursors.update_after_page(prefix, next_start_after);
    (unique, cursor_continues && page_key_count > 0)
}

// ----- the page-bounded scan of a cycle's prefixes -----------------------

/// Where a repair scan stands: the prefix being listed (an index into the
/// cycle's prefixes) and how many of its pages were listed before the next.
#[derive(Debug, Clone, Copy, PartialEq, Eq)]
pub struct RepairScanState {
    pub prefix_index: usize,
    pub pages_listed: usize,
}

/// What the scan does next.
#[derive(Debug, Clone, PartialEq, Eq)]
pub enum RepairScanAction {
    /// List one page of the prefix at `prefix_index`: at most `max_keys`
    /// keys, after `start_after` when the prefix has a cursor.
    ListPage { prefix_index: usize, max_keys: usize, start_after: Option<String> },
    /// Every prefix was scanned.
    Done,
}

/// The cursor of `prefix`, if it has one.
pub open spec fn cursor_of(m: Map<Seq<char>, Seq<char>>, prefix: Seq<char>) -> Option<Seq<char>> {
    if m.contains_key(prefix) {
        Some(m[prefix])
    } else {
        None
    }
}

pub open spec fn owned_text(o: Option<String>) -> Option<Seq<char>> {
    match o {
        Some(s) => Some(s@),
        None => None,
    }
}

/// `a` lists the first page still to come of prefix `i`: `max_keys` keys
/// per page, from the prefix's cursor in `m`. Past the last prefix, or when
/// no page may be listed at all, the scan is done.
pub open spec fn scan_action_at(
    a: RepairScanAction,
    args: &AgentArgs,
    m: Map<Seq<char>, Seq<char>>,
    prefixes: Seq<Seq<char>>,
    i: int,
) -> bool {
    if i < prefixes.len() && args.repair_max_pages_per_prefix > 0 {
        a matches RepairScanAction::ListPage { prefix_index, max_keys, start_after }
            && prefix_index == i && max_keys == args.repair_max_keys_per_prefix
            && owned_text(start_after) == cursor_of(m, prefixes[i])
    } else {
        a is Done
    }
}

fn owned_cursor(cursors: &RepairScanCursors, prefix: &str) -> (r: Option<String>)
    ensures
        owned_text(r) == cursor_of(cursors@, prefix@),
{
    match cursors.start_after(prefix) {
        Some(s) => Some(String::from_str(s)),
        None => None,
    }
}

fn scan_action(args: &AgentArgs, cursors: &RepairScanCursors, prefixes: &Vec<String>, i: usize) -> (r:
    RepairScanAction)
    ensures
        scan_action_at(r, args, cursors@, texts(prefixes@), i as int),
{
    if i < prefixes.len() && args.repair_max_pages_per_prefix > 0 {
        let start_after = owned_cursor(cursors, prefixes[i].as_str());
        proof {
            assert(texts(prefixes@)[i as int] == prefixes@[i as int]@);
        }
        RepairScanAction::ListPage {
            prefix_index: i,
            max_keys: args.repair_max_keys_per_prefix,
            start_after,
        }
    } else {
        RepairScanAction::Done
    }
}

/// The start of a repair scan over `prefixes`: the first page of the first
/// prefix, from its cursor; or done at once when there is no prefix or no
/// page may be listed.
pub fn repair_scan_start(args: &AgentArgs, cursors: &RepairScanCursors, prefixes: &Vec<String>) -> (r: (
    RepairScanState,
    RepairScanAction,
))
    ensures
        r.0 == (RepairScanState { prefix_index: 0, pages_listed: 0 }),
        scan_action_at(r.1, args, cursors@, texts(prefixes@), 0),
{
    (RepairScanState { prefix_index: 0, pages_listed: 0 }, scan_action(args, cursors, prefixes, 0))
}

/// Whether the scan lists another page of the same prefix after a page:
/// the listing continued, the page held keys, and the page bound leaves room.
pub open spec fn another_page(
    args: &AgentArgs,
    state: RepairScanState,
    page_len: int,
    next_start_after: Option<String>,
) -> bool {
    next_start_after is Some && page_len > 0 && state.pages_listed + 1
        < args.repair_max_pages_per_prefix
}

/// After the page that `state` asked for was listed: keeps the keys not seen
/// before (in first-seen order), moves the prefix's cursor, and decides what
/// comes next. The same prefix is listed again only when its listing
/// continued, the page held keys and fewer than
/// `repair_max_pages_per_prefix` pages will then have been listed; otherwise
/// the scan moves on to the next prefix, or is done after the last. Every
/// listing asks for `repair_max_keys_per_prefix` keys from the prefix's
/// current cursor, and a listing is asked for only while fewer pages than
/// the bound were listed for its prefix.
pub fn repair_scan_after_page(
    args: &AgentArgs,
    prefixes: &Vec<String>,
    cursors: &mut RepairScanCursors,
    seen: &mut SeenKeys,
    state: RepairScanState,
    page_keys: Vec<String>,
    next_start_after: Option<String>,
) -> (r: (RepairScanState, Vec<String>, RepairScanAction))
    requires
        state.prefix_index < prefixes@.len(),
        state.pages_listed < args.repair_max_pages_per_prefix,
    ensures
        texts(r.1@) == fresh_keys(old(seen)@, texts(page_keys@)),
        final(seen)@ == old(seen)@.union(texts(page_keys@).to_set()),
        final(cursors)@ == match next_start_after {
            Some(v) => old(cursors)@.insert(prefixes@[state.prefix_index as int]@, v@),
            None => old(cursors)@.remove(prefixes@[state.prefix_index as int]@),
        },
        another_page(args, state, page_keys@.len() as int, next_start_after) ==> {
            &&& r.0 == (RepairScanState {
                prefix_index: state.prefix_index,
                pages_listed: (state.pages_listed + 1) as usize,
            })
            &&& scan_action_at(
                r.2,
                args,
                final(cursors)@,
                texts(prefixes@),
                state.prefix_index as int,
            )
        },
        !another_page(args, state, page_keys@.len() as int, next_start_after) ==> {
            &&& r.0 == (RepairScanState {
                prefix_index: (state.prefix_index + 1) as usize,
                pages_listed: 0,
            })
            &&& scan_action_at(
                r.2,
                args,
                final(cursors)@,
                texts(prefixes@),
                state.prefix_index + 1,
            )
        },
        r.2 is ListPage ==> r.0.prefix_index < prefixes@.len() && r.0.pages_listed
            < args.repair_max_pages_per_prefix,
{
    let i = state.prefix_index;
    let prefix_count = prefixes.len();
    assert(i < prefix_count);
    let (keys, more) = after_repair_page(cursors, seen, prefixes[i].as_str(), page_keys, next_start_after);
    if more && state.pages_listed + 1 < args.repair_max_pages_per_prefix {
        let next = RepairScanState { prefix_index: i, pages_listed: state.pages_listed + 1 };
        (next, keys, scan_action(args, cursors, prefixes, i))
    } else {
        let next = RepairScanState { prefix_index: i + 1, pages_listed: 0 };
        (next, keys, scan_action(args, cursors, prefixes, i + 1))
    }
}

// ----- when to repair ----------------------------------------------------

/// A repair cycle is due at `now_ms` when repair is enabled, some prefix is
/// configured, and the scheduled time has come.
pub open spec fn repair_due_spec(args: &AgentArgs, now_ms: int, next_repair_after_ms: int) -> bool {
    args.repair_enabled && args.repair_input_prefixes@.len() > 0 && now_ms >= next_repair_after_ms
}

/// Whether a repair cycle is due at `now_ms`.
pub fn repair_due_at(args: &AgentArgs, now_ms: i64, next_repair_after_ms: i64) -> (r: bool)
    ensures
        r == repair_due_spec(args, now_ms as int, next_repair_after_ms as int),
{
    args.repair_enabled && args.repair_input_prefixes.len() > 0 && now_ms >= next_repair_after_ms
}

/// Whether a repair cycle is due now: the exact decision of
/// [`repair_due_at`] on the clock's current reading. Whatever the clock
/// reads, nothing is due while repair is disabled or no prefix is
/// configured, and a cycle scheduled at the earliest instant is due.
pub fn repair_due(args: &AgentArgs, next_repair_after_ms: i64) -> (r: bool)
    ensures
        exists|now: i64| r == repair_due_spec(args, now as int, next_repair_after_ms as int),
        r ==> args.repair_enabled && args.repair_input_prefixes@.len() > 0,
        !args.repair_enabled || args.repair_input_prefixes@.len() == 0 ==> !r,
        args.repair_enabled && args.repair_input_prefixes@.len() > 0 && next_repair_after_ms
            == i64::MIN ==> r,
{
    let now = now_ms();
    let r = repair_due_at(args, now, next_repair_after_ms);
    assert(r == repair_due_spec(args, now as int, next_repair_after_ms as int));
    r
}

} // verus!
