//! A map from texts to values, in the order of the texts.
use vstd::prelude::*;
use crate::order::{text_before, text_lt, text_lt_irreflexive, text_lt_total, text_lt_transitive};
use crate::text::str_eq;

verus! {

/// The entries of a map, in order.
pub type Entries<V> = Seq<(Seq<char>, V)>;

/// Whether the keys of the entries ascend.
pub open spec fn keys_ascend<V>(m: Entries<V>) -> bool {
    forall|i: int, j: int|
        0 <= i < j < m.len() ==> text_lt((#[trigger] m[i]).0, (#[trigger] m[j]).0)
}

/// The value of `key`.
pub open spec fn lookup<V>(m: Entries<V>, key: Seq<char>) -> Option<V>
    decreases m.len(),
{
    if m.len() == 0 {
        None
    } else if m[0].0 == key {
        Some(m[0].1)
    } else {
        lookup(m.drop_first(), key)
    }
}

/// `m` with the value `v` for `key`, in place of the one that it had.
pub open spec fn inserted<V>(m: Entries<V>, key: Seq<char>, v: V) -> Entries<V>
    decreases m.len(),
{
    if m.len() == 0 {
        seq![(key, v)]
    } else if m[0].0 == key {
        seq![(key, v)] + m.drop_first()
    } else if text_lt(key, m[0].0) {
        seq![(key, v)] + m
    } else {
        seq![m[0]] + inserted(m.drop_first(), key, v)
    }
}

/// `m` without `key`.
pub open spec fn removed<V>(m: Entries<V>, key: Seq<char>) -> Entries<V>
    decreases m.len(),
{
    if m.len() == 0 {
        m
    } else if m[0].0 == key {
        m.drop_first()
    } else {
        seq![m[0]] + removed(m.drop_first(), key)
    }
}

// ── Laws ──────────────────────────────────────────────────────────────────────

/// What was put in is found, and nothing else changed.
pub proof fn lookup_inserted<V>(m: Entries<V>, key: Seq<char>, v: V, other: Seq<char>)
    ensures
        lookup(inserted(m, key, v), other) == if other == key {
            Some(v)
        } else {
            lookup(m, other)
        },
    decreases m.len(),
{
    let n = inserted(m, key, v);
    if m.len() == 0 {
        assert(n.drop_first() =~= seq![]);
        assert(lookup(n.drop_first(), other) is None);
    } else if m[0].0 == key {
        assert(n.drop_first() =~= m.drop_first());
    } else if text_lt(key, m[0].0) {
        assert(n.drop_first() =~= m);
    } else {
        lookup_inserted(m.drop_first(), key, v, other);
        assert(n.drop_first() =~= inserted(m.drop_first(), key, v));
    }
}

/// A key that stands before all others is not in the map.
pub proof fn lookup_before_all<V>(m: Entries<V>, key: Seq<char>)
    requires
        forall|i: int| 0 <= i < m.len() ==> text_lt(key, (#[trigger] m[i]).0),
    ensures
        lookup(m, key) is None,
    decreases m.len(),
{
    if m.len() > 0 {
        text_lt_irreflexive(key);
        assert(text_lt(key, m[0].0));
        assert forall|i: int| 0 <= i < m.drop_first().len() implies text_lt(
            key,
            (#[trigger] m.drop_first()[i]).0,
        ) by {
            assert(m.drop_first()[i] == m[i + 1]);
        }
        lookup_before_all(m.drop_first(), key);
    }
}

/// What was taken out is not found, and nothing else changed.
pub proof fn lookup_removed<V>(m: Entries<V>, key: Seq<char>, other: Seq<char>)
    requires
        keys_ascend(m),
    ensures
        lookup(removed(m, key), other) == if other == key {
            None
        } else {
            lookup(m, other)
        },
    decreases m.len(),
{
    let n = removed(m, key);
    if m.len() > 0 {
        let rest = m.drop_first();
        assert(keys_ascend(rest)) by {
            assert forall|i: int, j: int| 0 <= i < j < rest.len() implies text_lt(
                (#[trigger] rest[i]).0,
                (#[trigger] rest[j]).0,
            ) by {
                assert(rest[i] == m[i + 1]);
                assert(rest[j] == m[j + 1]);
            }
        }
        if m[0].0 == key {
            assert forall|i: int| 0 <= i < rest.len() implies text_lt(
                key,
                (#[trigger] rest[i]).0,
            ) by {
                assert(rest[i] == m[i + 1]);
                assert(m[0].0 == key);
            }
            lookup_before_all(rest, key);
        } else {
            lookup_removed(rest, key, other);
            assert(n.drop_first() =~= removed(rest, key));
        }
    }
}

/// The first place at which `key` could stand, and what stands there.
proof fn inserted_at<V>(m: Entries<V>, key: Seq<char>, v: V, i: int)
    requires
        0 <= i <= m.len(),
        forall|j: int| 0 <= j < i ==> text_lt((#[trigger] m[j]).0, key),
        i < m.len() ==> !text_lt(m[i].0, key),
    ensures
        inserted(m, key, v) == if i < m.len() && m[i].0 == key {
            m.update(i, (key, v))
        } else {
            m.insert(i, (key, v))
        },
    decreases m.len(),
{
    if m.len() == 0 {
        assert(inserted(m, key, v) =~= m.insert(i, (key, v)));
    } else if i == 0 {
        text_lt_total(m[0].0, key);
        if m[0].0 == key {
            assert(inserted(m, key, v) =~= m.update(0, (key, v)));
        } else {
            assert(inserted(m, key, v) =~= m.insert(0, (key, v)));
        }
    } else {
        let rest = m.drop_first();
        assert(text_lt(m[0].0, key));
        if m[0].0 == key || text_lt(key, m[0].0) {
            text_lt_irreflexive(key);
            if text_lt(key, m[0].0) {
                text_lt_transitive(key, m[0].0, key);
            }
        }
        assert forall|j: int| 0 <= j < i - 1 implies text_lt((#[trigger] rest[j]).0, key) by {
            assert(rest[j] == m[j + 1]);
        }
        inserted_at(rest, key, v, i - 1);
        if i < m.len() && m[i].0 == key {
            assert(inserted(m, key, v) =~= m.update(i, (key, v)));
        } else {
            assert(inserted(m, key, v) =~= m.insert(i, (key, v)));
        }
    }
}

/// A map with one more key stays in order.
proof fn inserted_ascends<V>(m: Entries<V>, key: Seq<char>, v: V, i: int)
    requires
        keys_ascend(m),
        0 <= i <= m.len(),
        forall|j: int| 0 <= j < i ==> text_lt((#[trigger] m[j]).0, key),
        i < m.len() ==> !text_lt(m[i].0, key),
    ensures
        keys_ascend(inserted(m, key, v)),
{
    inserted_at(m, key, v, i);
    let n = inserted(m, key, v);
    if i < m.len() && m[i].0 == key {
        assert forall|a: int, b: int| 0 <= a < b < n.len() implies text_lt(
            (#[trigger] n[a]).0,
            (#[trigger] n[b]).0,
        ) by {
            assert(n[a].0 == m[a].0);
            assert(n[b].0 == m[b].0);
        }
    } else {
        assert forall|a: int, b: int| 0 <= a < b < n.len() implies text_lt(
            (#[trigger] n[a]).0,
            (#[trigger] n[b]).0,
        ) by {
            if i < m.len() {
                text_lt_total(m[i].0, key);
            }
            if b == i {
                assert(n[a] == m[a]);
            } else if a == i {
                assert(n[b] == m[b - 1]);
                if b - 1 > i {
                    assert(text_lt(m[i].0, m[b - 1].0));
                    text_lt_transitive(key, m[i].0, m[b - 1].0);
                }
            } else {
                let a0 = if a < i {
                    a
                } else {
                    a - 1
                };
                let b0 = if b < i {
                    b
                } else {
                    b - 1
                };
                assert(n[a] == m[a0]);
                assert(n[b] == m[b0]);
            }
        }
    }
}

/// The place of a key in a map in order.
proof fn lookup_at<V>(m: Entries<V>, key: Seq<char>, i: int)
    requires
        0 <= i <= m.len(),
        forall|j: int| 0 <= j < i ==> (#[trigger] m[j]).0 != key,
        i < m.len() ==> m[i].0 == key,
    ensures
        lookup(m, key) == if i < m.len() {
            Some(m[i].1)
        } else {
            None
        },
        removed(m, key) == if i < m.len() {
            m.remove(i)
        } else {
            m
        },
    decreases m.len(),
{
    if m.len() == 0 {
    } else if i == 0 {
        assert(m.drop_first() =~= m.remove(0));
    } else {
        let rest = m.drop_first();
        assert(m[0].0 != key);
        assert forall|j: int| 0 <= j < i - 1 implies (#[trigger] rest[j]).0 != key by {
            assert(rest[j] == m[j + 1]);
        }
        lookup_at(rest, key, i - 1);
        if i < m.len() {
            assert(seq![m[0]] + rest.remove(i - 1) =~= m.remove(i));
        } else {
            assert(seq![m[0]] + rest =~= m);
        }
    }
}

/// A key behind all others goes to the end.
pub proof fn inserted_last<V>(m: Entries<V>, key: Seq<char>, v: V)
    requires
        forall|j: int| 0 <= j < m.len() ==> text_lt((#[trigger] m[j]).0, key),
    ensures
        inserted(m, key, v) == m.push((key, v)),
{
    inserted_at(m, key, v, m.len() as int);
    assert(m.insert(m.len() as int, (key, v)) =~= m.push((key, v)));
}

/// `m` with `f` applied to each value.
pub open spec fn mapped<V, W>(m: Entries<V>, f: spec_fn(V) -> W) -> Entries<W> {
    m.map_values(|e: (Seq<char>, V)| (e.0, f(e.1)))
}

/// Looking up and then applying `f` is the same as applying `f` and then looking up.
pub proof fn lookup_mapped<V, W>(m: Entries<V>, f: spec_fn(V) -> W, key: Seq<char>)
    ensures
        lookup(mapped(m, f), key) == match lookup(m, key) {
            Some(v) => Some(f(v)),
            None => None,
        },
    decreases m.len(),
{
    if m.len() > 0 {
        lookup_mapped(m.drop_first(), f, key);
        assert(mapped(m, f).drop_first() =~= mapped(m.drop_first(), f));
    }
}

/// Putting in and then applying `f` is the same as applying `f` and then putting in.
pub proof fn inserted_mapped<V, W>(m: Entries<V>, f: spec_fn(V) -> W, key: Seq<char>, v: V)
    ensures
        mapped(inserted(m, key, v), f) == inserted(mapped(m, f), key, f(v)),
    decreases m.len(),
{
    let n = inserted(mapped(m, f), key, f(v));
    if m.len() > 0 {
        inserted_mapped(m.drop_first(), f, key, v);
        assert(mapped(m, f).drop_first() =~= mapped(m.drop_first(), f));
    }
    assert(mapped(inserted(m, key, v), f) =~= n);
}

/// Taking out and then applying `f` is the same as applying `f` and then taking out.
pub proof fn removed_mapped<V, W>(m: Entries<V>, f: spec_fn(V) -> W, key: Seq<char>)
    ensures
        mapped(removed(m, key), f) == removed(mapped(m, f), key),
    decreases m.len(),
{
    if m.len() > 0 {
        removed_mapped(m.drop_first(), f, key);
        assert(mapped(m, f).drop_first() =~= mapped(m.drop_first(), f));
    }
    assert(mapped(removed(m, key), f) =~= removed(mapped(m, f), key));
}

// ── The map ───────────────────────────────────────────────────────────────────

/// A map from texts to values, in the order of the texts.
#[derive(Debug)]
pub struct StringMap<V> {
    entries: Vec<(String, V)>,
}

/// The entries of a list, with the keys by their text.
pub open spec fn entry_views<V>(v: Seq<(String, V)>) -> Entries<V> {
    v.map_values(|e: (String, V)| (e.0@, e.1))
}

impl<V> View for StringMap<V> {
    type V = Entries<V>;

    closed spec fn view(&self) -> Entries<V> {
        entry_views(self.entries@)
    }
}

impl<V> StringMap<V> {
    /// The keys ascend: so no key occurs twice.
    #[verifier::type_invariant]
    spec fn in_order(self) -> bool {
        keys_ascend(entry_views(self.entries@))
    }

    /// A map without entries.
    pub fn new() -> (r: Self)
        ensures
            r@ == Seq::<(Seq<char>, V)>::empty(),
    {
        let entries: Vec<(String, V)> = Vec::new();
        assert(entry_views(entries@) =~= Seq::<(Seq<char>, V)>::empty());
        StringMap { entries }
    }

    /// The entries, in order.
    pub fn entries(&self) -> (r: &Vec<(String, V)>)
        ensures
            entry_views(r@) == self@,
            keys_ascend(self@),
    {
        proof {
            use_type_invariant(&*self);
        }
        &self.entries
    }

    /// How many entries there are.
    pub fn len(&self) -> (r: usize)
        ensures
            r == self@.len(),
    {
        self.entries.len()
    }

    /// The value of `key`.
    pub fn get(&self, key: &str) -> (r: Option<&V>)
        ensures
            r is Some <==> lookup(self@, key@) is Some,
            r matches Some(v) ==> lookup(self@, key@) == Some(*v),
    {
        let mut i: usize = 0;
        while i < self.entries.len()
            invariant
                i <= self.entries.len(),
                forall|j: int| 0 <= j < i ==> (#[trigger] self@[j]).0 != key@,
            decreases self.entries.len() - i,
        {
            assert(self@[i as int] == (self.entries@[i as int].0@, self.entries@[i as int].1));
            if str_eq(self.entries[i].0.as_str(), key) {
                proof {
                    lookup_at(self@, key@, i as int);
                }
                return Some(&self.entries[i].1);
            }
            i = i + 1;
        }
        proof {
            lookup_at(self@, key@, i as int);
        }
        None
    }

    /// Whether there is a value for `key`.
    pub fn contains_key(&self, key: &str) -> (r: bool)
        ensures
            r == lookup(self@, key@) is Some,
    {
        self.get(key).is_some()
    }

    /// Puts in the value `v` for `key`, in place of the one that it had.
    pub fn insert(&mut self, key: String, v: V)
        ensures
            final(self)@ == inserted(old(self)@, key@, v),
    {
        proof {
            use_type_invariant(&*self);
        }
        let mut entries: Vec<(String, V)> = Vec::new();
        assert(entry_views(entries@) =~= Seq::<(Seq<char>, V)>::empty());
        std::mem::swap(&mut entries, &mut self.entries);
        let ghost before = entry_views(entries@);
        let mut i: usize = 0;
        while i < entries.len() && text_before(entries[i].0.as_str(), key.as_str())
            invariant
                i <= entries.len(),
                entry_views(entries@) == before,
                forall|j: int| 0 <= j < i ==> text_lt((#[trigger] before[j]).0, key@),
            decreases entries.len() - i,
        {
            assert(before[i as int].0 == entries@[i as int].0@);
            i = i + 1;
        }
        let ghost k = key@;
        if i < entries.len() {
            assert(before[i as int].0 == entries@[i as int].0@);
        }
        proof {
            inserted_at(before, k, v, i as int);
            inserted_ascends(before, k, v, i as int);
        }
        if i < entries.len() && str_eq(entries[i].0.as_str(), key.as_str()) {
            let _ = entries.remove(i);
            entries.insert(i, (key, v));
            assert(entry_views(entries@) =~= before.update(i as int, (k, v)));
        } else {
            entries.insert(i, (key, v));
            assert(entry_views(entries@) =~= before.insert(i as int, (k, v)));
        }
        self.entries = entries;
    }

    /// Takes out the value of `key`, and says whether there was one.
    pub fn remove(&mut self, key: &str) -> (r: bool)
        ensures
            final(self)@ == removed(old(self)@, key@),
            r == lookup(old(self)@, key@) is Some,
    {
        proof {
            use_type_invariant(&*self);
        }
        let mut entries: Vec<(String, V)> = Vec::new();
        assert(entry_views(entries@) =~= Seq::<(Seq<char>, V)>::empty());
        std::mem::swap(&mut entries, &mut self.entries);
        let ghost before = entry_views(entries@);
        let mut i: usize = 0;
        while i < entries.len() && !str_eq(entries[i].0.as_str(), key)
            invariant
                i <= entries.len(),
                entry_views(entries@) == before,
                forall|j: int| 0 <= j < i ==> (#[trigger] before[j]).0 != key@,
            decreases entries.len() - i,
        {
            assert(before[i as int].0 == entries@[i as int].0@);
            i = i + 1;
        }
        if i < entries.len() {
            assert(before[i as int].0 == entries@[i as int].0@);
        }
        proof {
            lookup_at(before, key@, i as int);
        }
        let found = i < entries.len();
        if found {
            let _ = entries.remove(i);
            assert(entry_views(entries@) =~= before.remove(i as int));
            proof {
                let n = before.remove(i as int);
                assert forall|a: int, b: int| 0 <= a < b < n.len() implies text_lt(
                    (#[trigger] n[a]).0,
                    (#[trigger] n[b]).0,
                ) by {
                    let a0 = if a < i {
                        a
                    } else {
                        a + 1
                    };
                    let b0 = if b < i {
                        b
                    } else {
                        b + 1
                    };
                    assert(n[a] == before[a0]);
                    assert(n[b] == before[b0]);
                }
            }
        }
        self.entries = entries;
        found
    }
}

} // verus!
