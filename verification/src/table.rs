//! Tables that keep their entries in the order in which the keys came.

use vstd::prelude::*;
use crate::text::same_text;

verus! {

/// A type of which several values can stand for the same thing.
pub trait Ident: Sized {
    /// The value that stands for all that are the same as this.
    spec fn ident(self) -> Self;
}

/// Whether there is something, and it is the same as the given thing.
pub open spec fn is_found<K: Ident>(found: Option<K>, sought: K) -> bool {
    found matches Some(thing) && thing.ident() == sought.ident()
}

/// Each text stands for itself.
impl Ident for Seq<char> {
    open spec fn ident(self) -> Seq<char> {
        self
    }
}

/// A type whose values can key a table.
pub trait Key: View<V: Ident> + Sized {
    /// Whether two keys are the same key.
    fn same(&self, other: &Self) -> (r: bool)
        ensures
            r == (self@.ident() == other@.ident()),
    ;

    /// The same key once more.
    fn again(&self) -> (r: Self)
        ensures
            r@ == self@,
    ;
}

impl Key for String {
    fn same(&self, other: &Self) -> (r: bool) {
        same_text(self.as_str(), other.as_str())
    }

    fn again(&self) -> (r: Self) {
        self.clone()
    }
}

/// A type whose values belong to an owner.
pub trait Owned<O: View>: View {
    /// Whether the value belongs to the owner.
    spec fn owned_by(value: Self::V, owner: O::V) -> bool;

    /// Whether the value belongs to the owner.
    fn belongs_to(&self, owner: &O) -> (r: bool)
        ensures
            r == Self::owned_by(self@, owner@),
    ;
}

/// The position of the first entry with the given key.
pub open spec fn find<K: Ident, V>(entries: Seq<(K, V)>, key: K) -> Option<int>
    decreases entries.len(),
{
    if entries.len() == 0 {
        None
    } else if entries[0].0.ident() == key.ident() {
        Some(0int)
    } else {
        match find(entries.drop_first(), key) {
            Some(i) => Some(i + 1),
            None => None,
        }
    }
}

/// The value under a key.
pub open spec fn lookup<K: Ident, V>(entries: Seq<(K, V)>, key: K) -> Option<V> {
    match find(entries, key) {
        Some(i) => Some(entries[i].1),
        None => None,
    }
}

/// Whether there is a value under a key.
pub open spec fn holds<K: Ident, V>(entries: Seq<(K, V)>, key: K) -> bool {
    lookup(entries, key) is Some
}

/// The entries with the value under a key set: in its place, or at the end.
pub open spec fn put<K: Ident, V>(entries: Seq<(K, V)>, key: K, value: V) -> Seq<(K, V)> {
    match find(entries, key) {
        Some(i) => entries.update(i, (entries[i].0, value)),
        None => entries.push((key, value)),
    }
}

/// The entries without the value under a key.
pub open spec fn without<K: Ident, V>(entries: Seq<(K, V)>, key: K) -> Seq<(K, V)> {
    match find(entries, key) {
        Some(i) => entries.remove(i),
        None => entries,
    }
}

/// Whether no key stands twice.
pub open spec fn keys_differ<K: Ident, V>(entries: Seq<(K, V)>) -> bool {
    forall|i: int, j: int|
        0 <= i < j < entries.len() ==> (#[trigger] entries[i]).0.ident() != (
        #[trigger] entries[j]).0.ident()
}

/// What is found stands there, and nothing before it has the key.
pub proof fn find_is_first<K: Ident, V>(entries: Seq<(K, V)>, key: K)
    ensures
        match find(entries, key) {
            Some(i) => 0 <= i < entries.len() && entries[i].0.ident() == key.ident() && (forall|
                j: int,
            |
                0 <= j < i ==> (#[trigger] entries[j]).0.ident() != key.ident()),
            None => forall|j: int|
                0 <= j < entries.len() ==> (#[trigger] entries[j]).0.ident() != key.ident(),
        },
    decreases entries.len(),
{
    if entries.len() > 0 && entries[0].0.ident() != key.ident() {
        let rest = entries.drop_first();
        find_is_first(rest, key);
        match find(rest, key) {
            Some(i) => {
                assert forall|j: int| 0 <= j < i + 1 implies (#[trigger] entries[j]).0.ident()
                    != key.ident() by {
                    if j > 0 {
                        assert(rest[j - 1] == entries[j]);
                    }
                }
            },
            None => {
                assert forall|j: int| 0 <= j < entries.len() implies (#[trigger] entries[j]).0.ident()
                    != key.ident() by {
                    if j > 0 {
                        assert(rest[j - 1] == entries[j]);
                    }
                }
            },
        }
    }
}

/// The first position that has the key is the one that is found.
pub proof fn find_by_first<K: Ident, V>(entries: Seq<(K, V)>, key: K, i: int)
    requires
        0 <= i <= entries.len(),
        forall|j: int| 0 <= j < i ==> (#[trigger] entries[j]).0.ident() != key.ident(),
    ensures
        i == entries.len() ==> find(entries, key) is None,
        i < entries.len() && entries[i].0.ident() == key.ident() ==> find(entries, key) == Some(i),
{
    find_is_first(entries, key);
}

/// Keys that are the same find the same.
pub proof fn same_keys_find_the_same<K: Ident, V>(entries: Seq<(K, V)>, a: K, b: K)
    requires
        a.ident() == b.ident(),
    ensures
        find(entries, a) == find(entries, b),
    decreases entries.len(),
{
    if entries.len() > 0 {
        same_keys_find_the_same(entries.drop_first(), a, b);
    }
}

/// What was put under a key is found there, and what stands under other keys is left alone.
pub proof fn put_then_lookup<K: Ident, V>(entries: Seq<(K, V)>, key: K, value: V, other: K)
    ensures
        lookup(put(entries, key, value), key) == Some(value),
        other.ident() != key.ident() ==> lookup(put(entries, key, value), other) == lookup(
            entries,
            other,
        ),
{
    let after = put(entries, key, value);
    find_is_first(entries, key);
    find_is_first(after, key);
    find_is_first(entries, other);
    find_is_first(after, other);
    match find(entries, key) {
        Some(i) => {
            assert(after[i] == (entries[i].0, value));
            assert forall|j: int| 0 <= j < entries.len() && j != i implies after[j] == entries[j] by {
            }
        },
        None => {
            assert(after[entries.len() as int] == (key, value));
            assert forall|j: int| 0 <= j < entries.len() implies after[j] == entries[j] by {
            }
        },
    }
    if other.ident() != key.ident() {
        match find(entries, other) {
            Some(k) => {
                assert(after[k] == entries[k]);
                find_by_first(after, other, k);
            },
            None => {
                find_by_first(after, other, after.len() as int);
            },
        }
    }
}

/// Putting a value under a key keeps the keys apart.
pub proof fn put_keeps_keys_apart<K: Ident, V>(entries: Seq<(K, V)>, key: K, value: V)
    requires
        keys_differ(entries),
    ensures
        keys_differ(put(entries, key, value)),
{
    find_is_first(entries, key);
}

/// Where keys differ, nothing is left under a key that was taken out, and the rest is left alone.
pub proof fn without_then_lookup<K: Ident, V>(entries: Seq<(K, V)>, key: K, other: K)
    requires
        keys_differ(entries),
    ensures
        keys_differ(without(entries, key)),
        lookup(without(entries, key), key) is None,
        other.ident() != key.ident() ==> lookup(without(entries, key), other) == lookup(
            entries,
            other,
        ),
{
    let after = without(entries, key);
    find_is_first(entries, key);
    find_is_first(after, key);
    find_is_first(entries, other);
    find_is_first(after, other);
    if let Some(i) = find(entries, key) {
        assert forall|j: int| 0 <= j < after.len() implies after[j] == (if j < i {
            entries[j]
        } else {
            entries[j + 1]
        }) by {
        }
        if other.ident() != key.ident() {
            match find(entries, other) {
                Some(k) => {
                    let at = if k < i {
                        k
                    } else {
                        k - 1
                    };
                    assert(after[at] == entries[k]);
                    find_by_first(after, other, at);
                },
                None => {
                    find_by_first(after, other, after.len() as int);
                },
            }
        }
    }
}

/// What is found under each key once a value has been put under one.
pub proof fn put_lookups<K: Ident, V>(entries: Seq<(K, V)>, key: K, value: V)
    ensures
        forall|k: K|
            #[trigger] lookup(put(entries, key, value), k) == (if k.ident() == key.ident() {
                Some(value)
            } else {
                lookup(entries, k)
            }),
        keys_differ(entries) ==> keys_differ(put(entries, key, value)),
{
    assert forall|k: K|
        #[trigger] lookup(put(entries, key, value), k) == (if k.ident() == key.ident() {
            Some(value)
        } else {
            lookup(entries, k)
        }) by {
        put_then_lookup(entries, key, value, k);
        if k.ident() == key.ident() {
            same_keys_find_the_same(put(entries, key, value), k, key);
        }
    }
    if keys_differ(entries) {
        put_keeps_keys_apart(entries, key, value);
    }
}

/// What is found under each key once one has been taken out.
pub proof fn without_lookups<K: Ident, V>(entries: Seq<(K, V)>, key: K)
    requires
        keys_differ(entries),
    ensures
        forall|k: K|
            #[trigger] lookup(without(entries, key), k) == (if k.ident() == key.ident() {
                None
            } else {
                lookup(entries, k)
            }),
        keys_differ(without(entries, key)),
{
    without_then_lookup(entries, key, key);
    assert forall|k: K|
        #[trigger] lookup(without(entries, key), k) == (if k.ident() == key.ident() {
            None
        } else {
            lookup(entries, k)
        }) by {
        without_then_lookup(entries, key, k);
        if k.ident() == key.ident() {
            same_keys_find_the_same(without(entries, key), k, key);
        }
    }
}

/// What is found under each key among the entries that meet a condition.
pub proof fn filter_lookups<K: Ident, V>(entries: Seq<(K, V)>, kept: spec_fn((K, V)) -> bool)
    requires
        keys_differ(entries),
    ensures
        forall|k: K|
            #[trigger] lookup(entries.filter(kept), k) == (match find(entries, k) {
                Some(i) => if kept(entries[i]) {
                    Some(entries[i].1)
                } else {
                    None
                },
                None => None,
            }),
        keys_differ(entries.filter(kept)),
        forall|e: (K, V)| #[trigger] entries.filter(kept).contains(e) ==> entries.contains(e),
{
    broadcast use vstd::seq_lib::group_filter_ensures;

    let after = entries.filter(kept);
    filter_keeps_keys_apart(entries, kept);
    assert forall|k: K|
        #[trigger] lookup(after, k) == (match find(entries, k) {
            Some(i) => if kept(entries[i]) {
                Some(entries[i].1)
            } else {
                None
            },
            None => None,
        }) by {
        find_is_first(entries, k);
        find_is_first(after, k);
        if let Some(j) = find(after, k) {
            assert(after.contains(after[j]));
            assert(entries.contains(after[j]));
            let i = choose|i: int| 0 <= i < entries.len() && entries[i] == after[j];
            assert(kept(after[j]));
            find_by_first(entries, k, i);
        }
        if let Some(i) = find(entries, k) {
            if kept(entries[i]) {
                assert(entries.contains(entries[i]));
                assert(after.contains(entries[i]));
            }
        }
    }
}

proof fn filter_keeps_keys_apart<K: Ident, V>(
    entries: Seq<(K, V)>,
    kept: spec_fn((K, V)) -> bool,
)
    requires
        keys_differ(entries),
    ensures
        keys_differ(entries.filter(kept)),
        forall|e: (K, V)| #[trigger] entries.filter(kept).contains(e) ==> entries.contains(e),
    decreases entries.len(),
{
    reveal(Seq::filter);
    let after = entries.filter(kept);
    if entries.len() > 0 {
        let rest = entries.drop_last();
        let last = entries.last();
        filter_keeps_keys_apart(rest, kept);
        let rest_after = rest.filter(kept);
        assert forall|e: (K, V)| rest_after.contains(e) implies entries.contains(e)
            && e.0.ident() != last.0.ident() by {
            let j = choose|j: int| 0 <= j < rest.len() && rest[j] == e;
            assert(entries[j] == e);
            assert(entries[j].0.ident() != entries[entries.len() - 1].0.ident());
        }
        if kept(last) {
            assert(after == rest_after.push(last));
            assert forall|i: int| 0 <= i < rest_after.len() implies (
            #[trigger] rest_after[i]).0.ident() != last.0.ident() by {
                assert(rest_after.contains(rest_after[i]));
            }
        }
        assert forall|e: (K, V)| #[trigger] after.contains(e) implies entries.contains(e) by {
            if !rest_after.contains(e) {
                assert(e == last);
                assert(entries[entries.len() - 1] == e);
            }
        }
    }
}

/// The views of the entries of a list.
pub open spec fn viewed<K: View, V: View>(entries: Seq<(K, V)>) -> Seq<(K::V, V::V)> {
    entries.map_values(|e: (K, V)| (e.0@, e.1@))
}

/// The entries whose values do not belong to the owner.
pub open spec fn not_owned<K, V: Owned<O>, O: View>(
    entries: Seq<(K, V::V)>,
    owner: O::V,
) -> Seq<(K, V::V)> {
    entries.filter(|e: (K, V::V)| !V::owned_by(e.1, owner))
}

/// The keys of the entries whose values belong to the owner.
pub open spec fn owned_keys<K, V: Owned<O>, O: View>(
    entries: Seq<(K, V::V)>,
    owner: O::V,
) -> Seq<K> {
    entries.filter(|e: (K, V::V)| V::owned_by(e.1, owner)).map_values(|e: (K, V::V)| e.0)
}

/// A table from keys to values.
#[derive(Debug)]
pub struct Table<K, V> {
    entries: Vec<(K, V)>,
}

impl<K: View, V: View> View for Table<K, V> {
    type V = Seq<(K::V, V::V)>;

    closed spec fn view(&self) -> Seq<(K::V, V::V)> {
        viewed(self.entries@)
    }
}

impl<K: Key, V: View> Table<K, V> {
    /// Whether the table has at most one entry for each key, as every table has that is made by the
    /// functions below.
    pub open spec fn well_formed(&self) -> bool {
        keys_differ(self@)
    }
}

impl<K: Key, V: View> Table<K, V> {
    /// A table without entries.
    pub fn new() -> (r: Self)
        ensures
            r@ == Seq::<(K::V, V::V)>::empty(),
            r.well_formed(),
    {
        let r = Table { entries: Vec::new() };
        proof {
            assert(r@ =~= Seq::<(K::V, V::V)>::empty());
        }
        r
    }

    fn position(&self, key: &K) -> (r: Option<usize>)
        ensures
            match r {
                Some(i) => find(self@, key@) == Some(i as int) && i < self.entries@.len(),
                None => find(self@, key@) is None,
            },
    {
        let mut i: usize = 0;
        while i < self.entries.len()
            invariant
                i <= self.entries@.len(),
                forall|j: int| 0 <= j < i ==> (#[trigger] self@[j]).0.ident() != key@.ident(),
            decreases self.entries@.len() - i,
        {
            if self.entries[i].0.same(key) {
                proof {
                    find_by_first(self@, key@, i as int);
                }
                return Some(i);
            }
            i += 1;
        }
        proof {
            find_by_first(self@, key@, i as int);
        }
        None
    }

    /// The number of entries.
    pub fn len(&self) -> (r: usize)
        ensures
            r == self@.len(),
    {
        self.entries.len()
    }

    /// The key of the entry at a position.
    pub fn key_at(&self, i: usize) -> (r: &K)
        requires
            i < self@.len(),
        ensures
            r@ == self@[i as int].0,
    {
        &self.entries[i].0
    }

    /// The value of the entry at a position.
    pub fn value_at(&self, i: usize) -> (r: &V)
        requires
            i < self@.len(),
        ensures
            r@ == self@[i as int].1,
    {
        &self.entries[i].1
    }

    /// Whether there is a value under the key.
    pub fn contains_key(&self, key: &K) -> (r: bool)
        ensures
            r == holds(self@, key@),
    {
        self.position(key).is_some()
    }

    /// The value under the key.
    pub fn get(&self, key: &K) -> (r: Option<&V>)
        ensures
            match r {
                Some(v) => lookup(self@, key@) == Some(v@),
                None => lookup(self@, key@) is None,
            },
    {
        match self.position(key) {
            Some(i) => Some(&self.entries[i].1),
            None => None,
        }
    }

    /// The value under the key, to be changed.
    pub fn get_mut(&mut self, key: &K) -> (r: Option<&mut V>)
        ensures
            match r {
                Some(v) => lookup(old(self)@, key@) == Some(v@) && final(self)@ == put(
                    old(self)@,
                    key@,
                    final(v)@,
                ),
                None => lookup(old(self)@, key@) is None && final(self)@ == old(self)@,
            },
            old(self).well_formed() ==> final(self).well_formed(),
    {
        match self.position(key) {
            Some(i) => {
                let entry = &mut self.entries[i];
                Some(&mut entry.1)
            },
            None => None,
        }
    }

    /// Sets the value under the key.
    pub fn insert(&mut self, key: K, value: V)
        ensures
            final(self)@ == put(old(self)@, key@, value@),
            old(self).well_formed() ==> final(self).well_formed(),
    {
        let ghost before = self@;
        proof {
            put_lookups(before, key@, value@);
        }
        match self.position(&key) {
            Some(i) => {
                let entry = &mut self.entries[i];
                entry.1 = value;
                proof {
                    assert(self@ =~= put(before, key@, value@));
                }
            },
            None => {
                self.entries.push((key, value));
                proof {
                    assert(self@ =~= put(before, key@, value@));
                }
            },
        }
    }

    /// Takes out the value under the key.
    pub fn remove(&mut self, key: &K) -> (r: Option<V>)
        ensures
            final(self)@ == without(old(self)@, key@),
            match r {
                Some(v) => lookup(old(self)@, key@) == Some(v@),
                None => lookup(old(self)@, key@) is None,
            },
            old(self).well_formed() ==> final(self).well_formed(),
    {
        let ghost before = self@;
        proof {
            if keys_differ(before) {
                without_lookups(before, key@);
            }
        }
        match self.position(key) {
            Some(i) => {
                let entry = self.entries.remove(i);
                proof {
                    assert(self@ =~= before.remove(i as int));
                }
                Some(entry.1)
            },
            None => None,
        }
    }

    /// Takes out every entry whose value belongs to the owner.
    pub fn drop_owned<O: View>(&mut self, owner: &O) where V: Owned<O>
        ensures
            final(self)@ == not_owned::<K::V, V, O>(old(self)@, owner@),
            old(self).well_formed() ==> final(self).well_formed(),
    {
        let ghost all = self@;
        let ghost keep = |e: (K::V, V::V)| !V::owned_by(e.1, owner@);
        let mut i: usize = 0;
        let ghost mut done: int = 0;
        proof {
            assert(all.take(0).filter(keep) =~= Seq::<(K::V, V::V)>::empty()) by {
                reveal(Seq::filter);
            }
            assert(self@ =~= all.take(0).filter(keep) + all.skip(0));
        }
        while i < self.entries.len()
            invariant
                0 <= done <= all.len(),
                i <= self.entries@.len(),
                self.entries@.len() - i == all.len() - done,
                all.take(done).filter(keep).len() == i,
                self@ == all.take(done).filter(keep) + all.skip(done),
                keep == (|e: (K::V, V::V)| !V::owned_by(e.1, owner@)),
            decreases self.entries@.len() - i,
        {
            let ghost before = self@;
            proof {
                assert(before[i as int] == all[done]);
                assert(all.take(done + 1).drop_last() =~= all.take(done));
                reveal(Seq::filter);
                assert(all.skip(done).drop_first() =~= all.skip(done + 1));
            }
            if self.entries[i].1.belongs_to(owner) {
                let gone = self.entries.remove(i);
                proof {
                    assert(all.take(done + 1).filter(keep) == all.take(done).filter(keep));
                    assert(self@ =~= before.remove(i as int));
                    assert(self@ =~= all.take(done + 1).filter(keep) + all.skip(done + 1));
                }
            } else {
                proof {
                    assert(all.take(done + 1).filter(keep) == all.take(done).filter(keep).push(
                        all[done],
                    ));
                    assert(self@ =~= all.take(done + 1).filter(keep) + all.skip(done + 1));
                }
                i += 1;
            }
            proof {
                done = done + 1;
            }
        }
        proof {
            assert(all.take(done) =~= all);
            assert(all.skip(done) =~= Seq::<(K::V, V::V)>::empty());
            assert(self@ =~= all.filter(keep));
            if keys_differ(all) {
                filter_lookups(all, keep);
            }
        }
    }

    /// The keys of the entries whose values belong to the owner.
    pub fn keys_owned<O: View>(&self, owner: &O) -> (r: Vec<K>) where V: Owned<O>
        ensures
            r@.map_values(|k: K| k@) == owned_keys::<K::V, V, O>(self@, owner@),
    {
        let ghost mine = |e: (K::V, V::V)| V::owned_by(e.1, owner@);
        let ghost first = |e: (K::V, V::V)| e.0;
        let mut out: Vec<K> = Vec::new();
        let mut i: usize = 0;
        proof {
            reveal(Seq::filter);
            assert(self@.take(0).filter(mine) =~= Seq::<(K::V, V::V)>::empty());
            assert(out@.map_values(|k: K| k@) =~= self@.take(0).filter(mine).map_values(first));
        }
        while i < self.entries.len()
            invariant
                i <= self.entries@.len(),
                mine == (|e: (K::V, V::V)| V::owned_by(e.1, owner@)),
                first == (|e: (K::V, V::V)| e.0),
                out@.map_values(|k: K| k@) == self@.take(i as int).filter(mine).map_values(first),
            decreases self.entries@.len() - i,
        {
            let ghost before = out@;
            proof {
                assert(self@.take(i + 1).drop_last() =~= self@.take(i as int));
                reveal(Seq::filter);
            }
            if self.entries[i].1.belongs_to(owner) {
                out.push(self.entries[i].0.again());
                proof {
                    let entry = self@[i as int];
                    let seen = self@.take(i as int).filter(mine);
                    assert(self@.take(i + 1).filter(mine) == seen.push(entry));
                    assert(out@.map_values(|k: K| k@) =~= before.map_values(|k: K| k@).push(
                        entry.0,
                    ));
                    assert(seen.push(entry).map_values(first) =~= seen.map_values(first).push(
                        entry.0,
                    ));
                }
            }
            i += 1;
        }
        proof {
            assert(self@.take(i as int) =~= self@);
        }
        out
    }
}

} // verus!
