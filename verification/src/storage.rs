use vstd::prelude::*;
use crate::{amount_or_zero, lookup};
use crate::ordered_map::OrderedMap;

verus! {

/// What contract storage holds under the prefix of one per-account map: the
/// position recorded for each key, and the key and value written at each
/// position. Several map handles may point at the same prefix.
pub struct Slots {
    pub index: OrderedMap<u64>,
    pub cells: Vec<(String, u128)>,
}

/// A per-account map as the account's record keeps it: the account whose
/// prefix its entries live under, and how many positions it counts. A copy
/// of a record that is changed and not written back leaves storage changed
/// and the record's count as it was.
pub struct AmountMap {
    pub owner: String,
    pub len: u64,
}

/// `Slots` as plain values.
pub struct SlotsView {
    pub index: Map<Seq<char>, u64>,
    pub cells: Seq<(Seq<char>, u128)>,
}

impl View for Slots {
    type V = SlotsView;

    open spec fn view(&self) -> SlotsView {
        SlotsView {
            index: self.index@,
            cells: Seq::new(self.cells@.len(), |i: int| (self.cells@[i].0@, self.cells@[i].1)),
        }
    }
}

/// Nothing stored yet.
pub open spec fn empty_slots() -> SlotsView {
    SlotsView { index: Map::empty(), cells: Seq::empty() }
}

/// What storage holds under `owner`'s prefix.
pub open spec fn slots_at(store: Map<Seq<char>, Slots>, owner: Seq<char>) -> SlotsView {
    if store.contains_key(owner) {
        store[owner]@
    } else {
        empty_slots()
    }
}

/// Every position a handle counting `n` reads is stored.
pub open spec fn fits(s: SlotsView, n: nat) -> bool {
    n <= s.cells.len()
}

/// `k` is recorded at a position that a handle counting `n` does not reach:
/// reading it stops the call as inconsistent, writing it as out of bounds.
pub open spec fn broken(s: SlotsView, n: nat, k: Seq<char>) -> bool {
    s.index.contains_key(k) && s.index[k] >= n
}

/// A handle counting `n` can read `k`.
pub open spec fn readable(s: SlotsView, n: nat, k: Seq<char>) -> bool {
    fits(s, n) && !broken(s, n, k)
}

/// A handle counting `n` can write `k` (a new key raises its count).
pub open spec fn writable(s: SlotsView, n: nat, k: Seq<char>) -> bool {
    readable(s, n, k) && (s.index.contains_key(k) || n < u64::MAX)
}

/// What a handle counting `n` reads: each recorded key within its count,
/// with the value at the key's position.
pub open spec fn visible(s: SlotsView, n: nat) -> Map<Seq<char>, u128> {
    Map::new(
        |k: Seq<char>| s.index.contains_key(k) && s.index[k] < n,
        |k: Seq<char>| s.cells[s.index[k] as int].1,
    )
}

/// What a handle counting `n` lists: the first `n` positions.
pub open spec fn listed(s: SlotsView, n: nat) -> Seq<(Seq<char>, u128)> {
    s.cells.take(n as int)
}

/// Storage after a handle counting `n` writes `v` under `k`: a recorded key
/// gets the value at its position; a new key is recorded at position `n`,
/// and its key and value are written there.
pub open spec fn written(s: SlotsView, n: nat, k: Seq<char>, v: u128) -> SlotsView {
    if s.index.contains_key(k) {
        let i = s.index[k] as int;
        SlotsView { index: s.index, cells: s.cells.update(i, (s.cells[i].0, v)) }
    } else {
        SlotsView {
            index: s.index.insert(k, n as u64),
            cells: if n < s.cells.len() {
                s.cells.update(n as int, (k, v))
            } else {
                s.cells.push((k, v))
            },
        }
    }
}

/// The handle's count after it writes `k`.
pub open spec fn len_after(s: SlotsView, n: nat, k: Seq<char>) -> nat {
    if s.index.contains_key(k) {
        n
    } else {
        n + 1
    }
}

/// The map that a handle counting `n` reads is an ordinary map: every
/// recorded key is within the count at a position holding that key, and
/// every counted position is recorded for its key.
pub open spec fn clean(s: SlotsView, n: nat) -> bool {
    &&& n <= s.cells.len()
    &&& forall|k: Seq<char>| #[trigger] s.index.contains_key(k) ==> s.index[k] < n && s.cells[s.index[k] as int].0 == k
    &&& forall|i: int| 0 <= i < n ==> s.index.contains_key(#[trigger] s.cells[i].0) && s.index[s.cells[i].0] == i
}

/// On a clean map, a write is an insert: the result is clean, reads as the
/// map with `k` set to `v`, and lists `k` last if it is new.
pub proof fn lemma_clean_write(s: SlotsView, n: nat, k: Seq<char>, v: u128)
    requires
        clean(s, n),
        s.index.contains_key(k) || n < u64::MAX,
    ensures
        clean(written(s, n, k, v), len_after(s, n, k)),
        visible(written(s, n, k, v), len_after(s, n, k)) == visible(s, n).insert(k, v),
        listed(written(s, n, k, v), len_after(s, n, k)) == if s.index.contains_key(k) {
            listed(s, n).update(s.index[k] as int, (k, v))
        } else {
            listed(s, n).push((k, v))
        },
{
    let w = written(s, n, k, v);
    let m = len_after(s, n, k);
    if s.index.contains_key(k) {
        let i = s.index[k] as int;
        assert(s.cells[i].0 == k);
        assert forall|x: Seq<char>| #[trigger] w.index.contains_key(x) implies w.index[x] < m && w.cells[w.index[x] as int].0 == x by {
            assert(s.cells[s.index[x] as int].0 == x);
        }
        assert forall|j: int| 0 <= j < m implies w.index.contains_key(#[trigger] w.cells[j].0) && w.index[w.cells[j].0] == j by {
            assert(s.index.contains_key(s.cells[j].0));
        }
        assert(visible(w, m) =~= visible(s, n).insert(k, v)) by {
            assert forall|x: Seq<char>| #[trigger] visible(w, m).contains_key(x) implies visible(w, m)[x] == visible(s, n).insert(k, v)[x] by {
                if x != k {
                    assert(s.cells[s.index[x] as int].0 == x);
                }
            }
        }
        assert(listed(w, m) =~= listed(s, n).update(i, (k, v)));
    } else {
        assert forall|x: Seq<char>| #[trigger] s.index.contains_key(x) implies s.index[x] != n by {}
        assert forall|x: Seq<char>| #[trigger] w.index.contains_key(x) implies w.index[x] < m && w.cells[w.index[x] as int].0 == x by {
            if x != k {
                assert(s.cells[s.index[x] as int].0 == x);
            } else {
                assert(w.index[k] == n);
                assert(w.cells[n as int] == (k, v));
            }
        }
        assert forall|j: int| 0 <= j < m implies w.index.contains_key(#[trigger] w.cells[j].0) && w.index[w.cells[j].0] == j by {
            if j < n {
                assert(w.cells[j] == s.cells[j]);
                assert(s.index.contains_key(s.cells[j].0));
                assert(s.cells[j].0 != k);
            }
        }
        assert(visible(w, m) =~= visible(s, n).insert(k, v)) by {
            assert forall|x: Seq<char>| #[trigger] visible(w, m).contains_key(x) implies visible(w, m)[x] == visible(s, n).insert(k, v)[x] by {
                if x != k {
                    assert(s.cells[s.index[x] as int].0 == x);
                }
            }
        }
        assert(listed(w, m) =~= listed(s, n).push((k, v)));
    }
}

/// On a clean map, writing a new key without raising the count changes
/// nothing that the count reaches.
pub proof fn lemma_clean_write_uncounted(s: SlotsView, n: nat, k: Seq<char>, v: u128)
    requires
        clean(s, n),
        !s.index.contains_key(k),
        n <= u64::MAX,
    ensures
        visible(written(s, n, k, v), n) == visible(s, n),
        listed(written(s, n, k, v), n) == listed(s, n),
{
    let w = written(s, n, k, v);
    assert forall|x: Seq<char>| #[trigger] s.index.contains_key(x) implies s.index[x] != n by {}
    assert(visible(w, n) =~= visible(s, n)) by {
        assert forall|x: Seq<char>| #[trigger] visible(w, n).contains_key(x) implies visible(w, n)[x] == visible(s, n)[x] by {
            assert(x != k);
            assert(w.index[x] == s.index[x]);
            assert(w.cells[s.index[x] as int] == s.cells[s.index[x] as int]);
        }
        assert forall|x: Seq<char>| #[trigger] visible(s, n).contains_key(x) implies visible(w, n).contains_key(x) by {
            assert(x != k);
        }
    }
    assert(listed(w, n) =~= listed(s, n));
}

/// A write that runs leaves the key readable, read as the value written and
/// counted; writing the key again is the same as writing the second value
/// at once.
pub proof fn lemma_write_then_write(s: SlotsView, n: nat, k: Seq<char>, v1: u128, v2: u128)
    requires
        writable(s, n, k),
    ensures
        writable(written(s, n, k, v1), len_after(s, n, k), k),
        written(s, n, k, v1).index.contains_key(k),
        visible(written(s, n, k, v1), len_after(s, n, k)).contains_key(k),
        visible(written(s, n, k, v1), len_after(s, n, k))[k] == v1,
        len_after(written(s, n, k, v1), len_after(s, n, k), k) == len_after(s, n, k),
        written(written(s, n, k, v1), len_after(s, n, k), k, v2) == written(s, n, k, v2),
{
    let w = written(s, n, k, v1);
    let m = len_after(s, n, k);
    let w2 = written(w, m, k, v2);
    let once = written(s, n, k, v2);
    if s.index.contains_key(k) {
        let i = s.index[k] as int;
        assert(w2.cells =~= once.cells);
    } else {
        assert(w.index[k] == n);
        assert(w.cells[n as int] == (k, v1));
        assert(w2.cells =~= once.cells);
        assert(w2.index =~= once.index);
    }
}

/// Writing back the amount that a map counting `n` reads for `k` restores
/// what a map counting `m` reads for `q`, where that read runs, unless `k`
/// is new and the position it takes holds a nonzero amount that `q` is read
/// from; and what the writing map, with its count after the write, reads
/// for `q` is what it read before.
pub proof fn lemma_restored_reading(s: SlotsView, n: nat, k: Seq<char>, m: nat, q: Seq<char>)
    requires
        writable(s, n, k),
    ensures
        readable(s, m, q) && (n < m && !s.index.contains_key(k) && s.index.contains_key(q) && s.index[q] == n
            ==> s.cells[n as int].1 == 0) ==> amount_or_zero(
            visible(written(s, n, k, amount_or_zero(visible(s, n), k)), m),
            q,
        ) == amount_or_zero(visible(s, m), q),
        amount_or_zero(visible(written(s, n, k, amount_or_zero(visible(s, n), k)), len_after(s, n, k)), q)
            == amount_or_zero(visible(s, n), q),
{
    let v0 = amount_or_zero(visible(s, n), k);
    let w = written(s, n, k, v0);
    if s.index.contains_key(k) {
        let i = s.index[k] as int;
        assert(visible(s, n).contains_key(k));
        assert(w.cells =~= s.cells);
        assert(w == s);
    } else {
        assert(v0 == 0);
        assert(w.cells[n as int] == (k, 0u128));
        assert forall|j: int| 0 <= j < s.cells.len() && j != n implies w.cells[j] == s.cells[j] by {}
        if readable(s, m, q) && (n < m && s.index.contains_key(q) && s.index[q] == n ==> s.cells[n as int].1 == 0) {
            if q != k && s.index.contains_key(q) && s.index[q] < m {
                assert(visible(w, m).contains_key(q) && visible(s, m).contains_key(q));
            }
        }
        if q != k && s.index.contains_key(q) && s.index[q] < n {
            assert(visible(w, n + 1).contains_key(q) && visible(s, n).contains_key(q));
        }
    }
}

/// Two stores that differ at most under `owner` hold the same under every
/// other prefix.
pub proof fn lemma_other_slots(old: Map<Seq<char>, Slots>, new: Map<Seq<char>, Slots>, owner: Seq<char>, o: Seq<char>)
    requires
        new.remove(owner) == old.remove(owner),
        o != owner,
    ensures
        slots_at(new, o) == slots_at(old, o),
{
    assert(new.remove(owner).contains_key(o) == new.contains_key(o));
    assert(old.remove(owner).contains_key(o) == old.contains_key(o));
    if new.contains_key(o) {
        assert(new.remove(owner)[o] == new[o]);
        assert(old.remove(owner)[o] == old[o]);
    }
}

/// On a clean map, the listing holds each key once, and exactly the keys
/// read, each with the value read.
pub proof fn lemma_clean_listing(s: SlotsView, n: nat)
    requires
        clean(s, n),
    ensures
        forall|i: int, j: int| 0 <= i < n && 0 <= j < n && i != j ==> #[trigger] listed(s, n)[i].0 != #[trigger] listed(s, n)[j].0,
        forall|i: int| 0 <= i < n ==> visible(s, n).contains_key(#[trigger] listed(s, n)[i].0) && visible(s, n)[listed(s, n)[i].0] == listed(s, n)[i].1,
        forall|k: Seq<char>| #[trigger] visible(s, n).contains_key(k) ==> listed(s, n)[s.index[k] as int].0 == k,
{
    assert forall|i: int, j: int| 0 <= i < n && 0 <= j < n && i != j implies #[trigger] listed(s, n)[i].0 != #[trigger] listed(s, n)[j].0 by {
        assert(s.index.contains_key(s.cells[i].0));
        assert(s.index.contains_key(s.cells[j].0));
    }
    assert forall|i: int| 0 <= i < n implies visible(s, n).contains_key(#[trigger] listed(s, n)[i].0) && visible(s, n)[listed(s, n)[i].0] == listed(s, n)[i].1 by {
        assert(s.index.contains_key(s.cells[i].0));
    }
}

impl Slots {
    /// A separate copy of what is stored.
    pub fn duplicate(&self) -> (r: Self)
        ensures
            r@ == self@,
    {
        let n = self.cells.len();
        let mut cells: Vec<(String, u128)> = Vec::new();
        let mut i: usize = 0;
        while i < n
            invariant
                n == self.cells@.len(),
                i <= n,
                cells@ == self.cells@.take(i as int),
            decreases n - i,
        {
            let key = self.cells[i].0.clone();
            let value = self.cells[i].1;
            cells.push((key, value));
            assert(cells@ =~= self.cells@.take(i + 1));
            i = i + 1;
        }
        assert(cells@ =~= self.cells@);
        let r = Slots { index: self.index.duplicate(), cells };
        assert(r@.cells =~= self@.cells);
        r
    }

    /// Nothing stored.
    pub fn new() -> (s: Self)
        ensures
            s@ == empty_slots(),
    {
        let s = Slots { index: OrderedMap::new(), cells: Vec::new() };
        assert(s@.cells =~= Seq::<(Seq<char>, u128)>::empty());
        s
    }
}

/// Whether every position `m` counts is stored.
pub fn slots_fit(store: &OrderedMap<Slots>, m: &AmountMap) -> (r: bool)
    ensures
        r == fits(slots_at(store@, m.owner@), m.len as nat),
{
    match store.get(&m.owner) {
        Some(slots) => m.len as u128 <= slots.cells.len() as u128,
        None => m.len == 0,
    }
}

/// Whether `m` can read `k` from `store`.
pub fn slots_readable(store: &OrderedMap<Slots>, m: &AmountMap, k: &String) -> (r: bool)
    ensures
        r == readable(slots_at(store@, m.owner@), m.len as nat, k@),
{
    match store.get(&m.owner) {
        Some(slots) => {
            let fit = m.len as u128 <= slots.cells.len() as u128;
            let reach = match slots.index.get(k) {
                Some(i) => *i < m.len,
                None => true,
            };
            fit && reach
        },
        None => m.len == 0,
    }
}

/// Whether `m` can write `k` into `store`.
pub fn slots_writable(store: &OrderedMap<Slots>, m: &AmountMap, k: &String) -> (r: bool)
    ensures
        r == writable(slots_at(store@, m.owner@), m.len as nat, k@),
{
    let recorded = match store.get(&m.owner) {
        Some(slots) => slots.index.get(k).is_some(),
        None => false,
    };
    slots_readable(store, m, k) && (recorded || m.len < u64::MAX)
}

/// Reads `k` through `m` over `store`.
pub fn stored_get(store: &OrderedMap<Slots>, m: &AmountMap, k: &String) -> (r: Option<u128>)
    requires
        readable(slots_at(store@, m.owner@), m.len as nat, k@),
    ensures
        r == lookup(visible(slots_at(store@, m.owner@), m.len as nat), k@),
{
    match store.get(&m.owner) {
        Some(slots) => match slots.index.get(k) {
            Some(i) => {
                let ghost sv = slots_at(store@, m.owner@);
                let idx: u64 = *i;
                let ghost gi = idx as int;
                assert(sv == slots@);
                assert(sv.index[k@] == idx);
                let cl = slots.cells.len();
                assert(gi < cl);
                let j = idx as usize;
                assert(j as int == gi);
                assert(sv.cells[gi].1 == slots.cells@[gi].1);
                Some(slots.cells[j].1)
            },
            None => None,
        },
        None => None,
    }
}

/// Writes `v` under `k` through `m` over `store`.
pub fn stored_insert(store: &mut OrderedMap<Slots>, m: &mut AmountMap, k: String, v: u128)
    requires
        writable(slots_at(old(store)@, old(m).owner@), old(m).len as nat, k@),
    ensures
        final(m).owner == old(m).owner,
        final(m).len == len_after(slots_at(old(store)@, old(m).owner@), old(m).len as nat, k@),
        slots_at(final(store)@, old(m).owner@) == written(
            slots_at(old(store)@, old(m).owner@),
            old(m).len as nat,
            k@,
            v,
        ),
        final(store)@.remove(old(m).owner@) == old(store)@.remove(old(m).owner@),
{
    let ghost s0 = slots_at(store@, m.owner@);
    let ghost n = m.len as nat;
    let ghost kv = k@;
    let found = store.find(&m.owner);
    let mut slots = match found {
        Some(i) => store.swap_value(i, Slots::new()),
        None => Slots::new(),
    };
    assert(slots@ == s0);
    let recorded = match slots.index.get(&k) {
        Some(i) => Some(*i),
        None => None,
    };
    match recorded {
        Some(i) => {
            let cl = slots.cells.len();
            assert((i as int) < cl);
            let i = i as usize;
            let key = slots.cells[i].0.clone();
            slots.cells.set(i, (key, v));
            assert(slots@.cells =~= s0.cells.update(i as int, (s0.cells[i as int].0, v)));
            assert(slots@.index == s0.index);
            assert(slots@ == written(s0, n, kv, v));
        },
        None => {
            let cl = slots.cells.len();
            assert(m.len <= cl);
            let at = m.len as usize;
            slots.index.insert(k.clone(), m.len);
            if at < slots.cells.len() {
                slots.cells.set(at, (k, v));
                assert(slots@.cells =~= s0.cells.update(at as int, (kv, v)));
            } else {
                slots.cells.push((k, v));
                assert(slots@.cells =~= s0.cells.push((kv, v)));
            }
            assert(slots@.index == s0.index.insert(kv, n as u64));
            assert(slots@ == written(s0, n, kv, v));
            m.len = m.len + 1;
        },
    }
    match found {
        Some(i) => {
            let _ = store.swap_value(i, slots);
        },
        None => {
            store.insert(m.owner.clone(), slots);
        },
    }
    assert(store@.remove(m.owner@) =~= old(store)@.remove(m.owner@));
}

} // verus!
