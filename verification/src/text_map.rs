//! A map keyed by text, walked in the order of its keys.

use crate::text::{chars_of, same_text, text_before};
use vstd::prelude::*;

verus! {

/// No text comes before itself.
pub proof fn text_before_irreflexive(a: Seq<char>)
    ensures
        !text_before(a, a),
    decreases a.len(),
{
    if a.len() > 0 {
        text_before_irreflexive(a.skip(1));
    }
}

/// The order of texts is transitive.
pub proof fn text_before_transitive(a: Seq<char>, b: Seq<char>, c: Seq<char>)
    requires
        text_before(a, b),
        text_before(b, c),
    ensures
        text_before(a, c),
    decreases a.len(),
{
    if a.len() > 0 && b.len() > 0 && c.len() > 0 {
        if a[0] == b[0] && b[0] == c[0] {
            text_before_transitive(a.skip(1), b.skip(1), c.skip(1));
        }
    }
}

/// Of two different texts one comes before the other.
pub proof fn text_before_total(a: Seq<char>, b: Seq<char>)
    ensures
        a == b || text_before(a, b) || text_before(b, a),
    decreases a.len(),
{
    if a.len() > 0 && b.len() > 0 {
        if a[0] == b[0] {
            text_before_total(a.skip(1), b.skip(1));
            if a.skip(1) == b.skip(1) {
                assert(a =~= seq![a[0]] + a.skip(1));
                assert(b =~= seq![b[0]] + b.skip(1));
            }
        }
    } else if a.len() == 0 && b.len() == 0 {
        assert(a =~= b);
    }
}

/// Whether `a` comes before `b`.
pub fn before(a: &str, b: &str) -> (r: bool)
    ensures
        r == text_before(a@, b@),
{
    let x = chars_of(a);
    let y = chars_of(b);
    let mut i: usize = 0;
    assert(a@.skip(0) =~= a@);
    assert(b@.skip(0) =~= b@);
    loop
        invariant
            x@ == a@,
            y@ == b@,
            i <= x@.len(),
            i <= y@.len(),
            text_before(a@, b@) == text_before(a@.skip(i as int), b@.skip(i as int)),
        decreases x@.len() - i,
    {
        if i == y.len() {
            return false;
        }
        if i == x.len() {
            return true;
        }
        if x[i] != y[i] {
            return x[i] < y[i];
        }
        assert(a@.skip(i as int).skip(1) =~= a@.skip(i + 1));
        assert(b@.skip(i as int).skip(1) =~= b@.skip(i + 1));
        i = i + 1;
    }
}

/// Whether the keys stand in strictly ascending order.
pub open spec fn ascending(keys: Seq<Seq<char>>) -> bool {
    forall|i: int, j: int|
        0 <= i < j < keys.len() ==> text_before(#[trigger] keys[i], #[trigger] keys[j])
}

/// A map from texts to values. Its keys are distinct, and it is walked in
/// their order.
#[derive(Debug, PartialEq)]
pub struct TextMap<V> {
    entries: Vec<(String, V)>,
}

pub closed spec fn entry_keys<V>(entries: Seq<(String, V)>) -> Seq<Seq<char>> {
    entries.map_values(|e: (String, V)| e.0@)
}

impl<V> TextMap<V> {
    #[verifier::type_invariant]
    spec fn inv(self) -> bool {
        ascending(entry_keys(self.entries@))
    }

    /// The keys, in order.
    pub closed spec fn keys(self) -> Seq<Seq<char>> {
        entry_keys(self.entries@)
    }

    /// The values, in the order of the keys.
    pub closed spec fn values(self) -> Seq<V> {
        self.entries@.map_values(|e: (String, V)| e.1)
    }
}

/// The map that sends each key to the value at the same position.
pub open spec fn paired<V>(keys: Seq<Seq<char>>, values: Seq<V>) -> Map<Seq<char>, V> {
    Map::new(|k: Seq<char>| keys.contains(k), |k: Seq<char>| values[keys.index_of(k)])
}

impl<V> View for TextMap<V> {
    type V = Map<Seq<char>, V>;

    open spec fn view(&self) -> Map<Seq<char>, V> {
        paired(self.keys(), self.values())
    }
}

proof fn position_unique(keys: Seq<Seq<char>>, i: int)
    requires
        ascending(keys),
        0 <= i < keys.len(),
    ensures
        keys.contains(keys[i]),
        keys.index_of(keys[i]) == i,
{
    let j = keys.index_of(keys[i]);
    assert(keys.contains(keys[i]));
    assert(0 <= j < keys.len() && keys[j] == keys[i]);
    if j != i {
        text_before_irreflexive(keys[i]);
    }
}

/// The map with one entry more, or one entry changed, as its ordered keys
/// and values show it.
proof fn inserted_is_insert<V>(
    keys: Seq<Seq<char>>,
    values: Seq<V>,
    at: int,
    key: Seq<char>,
    value: V,
)
    requires
        keys.len() == values.len(),
        0 <= at <= keys.len(),
        ascending(keys),
        forall|j: int| 0 <= j < at ==> text_before(#[trigger] keys[j], key),
        forall|j: int| at <= j < keys.len() ==> text_before(key, #[trigger] keys[j]),
    ensures
        ascending(keys.insert(at, key)),
        paired(keys.insert(at, key), values.insert(at, value)) == paired(keys, values).insert(
            key,
            value,
        ),
{
    let k2 = keys.insert(at, key);
    let v2 = values.insert(at, value);
    assert forall|i: int, j: int| 0 <= i < j < k2.len() implies text_before(
        #[trigger] k2[i],
        #[trigger] k2[j],
    ) by {
        let a = if i < at { i } else { i - 1 };
        let b = if j < at { j } else { j - 1 };
        if i != at && j != at {
            assert(text_before(keys[a], keys[b]));
        }
    }
    assert forall|k: Seq<char>| #![auto] k2.contains(k) == (k == key || keys.contains(k)) by {
        if k == key {
            assert(k2[at] == key);
        }
        if keys.contains(k) {
            let j = keys.index_of(k);
            if j < at {
                assert(k2[j] == k);
            } else {
                assert(k2[j + 1] == k);
            }
        }
        if k2.contains(k) {
            let j = k2.index_of(k);
            if j < at {
                assert(keys[j] == k);
            } else if j > at {
                assert(keys[j - 1] == k);
            }
        }
    }
    assert forall|k: Seq<char>| k2.contains(k) implies #[trigger] v2[k2.index_of(k)] == (if k
        == key {
        value
    } else {
        values[keys.index_of(k)]
    }) by {
        let j = k2.index_of(k);
        position_unique(k2, j);
        if k == key {
            position_unique(k2, at);
        } else {
            let i = keys.index_of(k);
            position_unique(keys, i);
            if i < at {
                position_unique(k2, i);
                assert(k2[i] == k);
            } else {
                position_unique(k2, i + 1);
                assert(k2[i + 1] == k);
            }
        }
    }
    assert(paired(k2, v2) =~= paired(keys, values).insert(key, value));
}

/// The map with one entry less, as its ordered keys and values show it.
proof fn removed_is_remove<V>(keys: Seq<Seq<char>>, values: Seq<V>, at: int)
    requires
        keys.len() == values.len(),
        0 <= at < keys.len(),
        ascending(keys),
    ensures
        ascending(keys.remove(at)),
        paired(keys.remove(at), values.remove(at)) == paired(keys, values).remove(keys[at]),
{
    let k2 = keys.remove(at);
    let v2 = values.remove(at);
    assert forall|i: int, j: int| 0 <= i < j < k2.len() implies text_before(
        #[trigger] k2[i],
        #[trigger] k2[j],
    ) by {
        let a = if i < at { i } else { i + 1 };
        let b = if j < at { j } else { j + 1 };
        assert(text_before(keys[a], keys[b]));
    }
    assert forall|k: Seq<char>| #![auto]
        k2.contains(k) == (keys.contains(k) && k != keys[at]) by {
        if k2.contains(k) {
            let j = k2.index_of(k);
            let i = if j < at { j } else { j + 1 };
            assert(keys[i] == k);
            position_unique(keys, i);
            position_unique(keys, at);
        }
        if keys.contains(k) && k != keys[at] {
            let i = keys.index_of(k);
            if i < at {
                assert(k2[i] == k);
            } else {
                assert(k2[i - 1] == k);
            }
        }
    }
    assert forall|k: Seq<char>| k2.contains(k) implies #[trigger] v2[k2.index_of(k)]
        == values[keys.index_of(k)] by {
        let i = keys.index_of(k);
        position_unique(keys, i);
        let j = if i < at { i } else { i - 1 };
        assert(k2[j] == k);
        position_unique(k2, j);
    }
    assert(paired(k2, v2) =~= paired(keys, values).remove(keys[at]));
}

impl<V> TextMap<V> {
    /// The empty map.
    pub fn new() -> (r: Self)
        ensures
            r@ == Map::<Seq<char>, V>::empty(),
            r.keys() == Seq::<Seq<char>>::empty(),
            r.values() == Seq::<V>::empty(),
    {
        let r = TextMap { entries: Vec::new() };
        assert(r.keys() =~= Seq::<Seq<char>>::empty());
        assert(r.values() =~= Seq::<V>::empty());
        assert(r@ =~= Map::<Seq<char>, V>::empty());
        r
    }

    /// The keys are distinct and ascending, and every key has its value.
    pub open spec fn wf(self) -> bool {
        &&& ascending(self.keys())
        &&& self.keys().len() == self.values().len()
    }

    /// The number of entries.
    pub fn len(&self) -> (r: usize)
        ensures
            r == self.keys().len(),
            self.wf(),
    {
        proof {
            use_type_invariant(self);
        }
        self.entries.len()
    }

    /// The key at a position of the order.
    pub fn key_at(&self, i: usize) -> (r: &String)
        requires
            i < self.keys().len(),
        ensures
            r@ == self.keys()[i as int],
    {
        &self.entries[i].0
    }

    /// The value at a position of the order.
    pub fn value_at(&self, i: usize) -> (r: &V)
        requires
            i < self.keys().len(),
        ensures
            *r == self.values()[i as int],
    {
        &self.entries[i].1
    }

    /// The value of `key`.
    pub fn get(&self, key: &str) -> (r: Option<&V>)
        ensures
            match r {
                Some(v) => self@.contains_key(key@) && *v == self@[key@],
                None => !self@.contains_key(key@),
            },
    {
        proof {
            use_type_invariant(self);
        }
        let mut i: usize = 0;
        while i < self.entries.len()
            invariant
                i <= self.entries@.len(),
                forall|j: int| 0 <= j < i ==> (#[trigger] self.keys()[j]) != key@,
                ascending(self.keys()),
            decreases self.entries@.len() - i,
        {
            if same_text(self.entries[i].0.as_str(), key) {
                proof {
                    position_unique(self.keys(), i as int);
                    assert(self.keys()[i as int] == key@);
                }
                return Some(&self.entries[i].1);
            }
            i = i + 1;
        }
        assert(!self.keys().contains(key@));
        None
    }

    /// Whether `key` has a value.
    pub fn contains_key(&self, key: &str) -> (r: bool)
        ensures
            r == self@.contains_key(key@),
    {
        self.get(key).is_some()
    }

    /// Takes the entry of `key` out.
    pub fn remove(&mut self, key: &str)
        ensures
            final(self)@ == old(self)@.remove(key@),
    {
        proof {
            use_type_invariant(&*self);
        }
        let ghost keys = self.keys();
        let ghost values = self.values();
        let ghost entries = self.entries@;
        let mut i: usize = 0;
        while i < self.entries.len() && !same_text(self.entries[i].0.as_str(), key)
            invariant
                i <= self.entries@.len(),
                self.entries@ == entries,
                keys == entry_keys(entries),
                forall|j: int| 0 <= j < i ==> #[trigger] keys[j] != key@,
            decreases self.entries@.len() - i,
        {
            i = i + 1;
        }
        if i < self.entries.len() {
            let mut rest = Vec::new();
            std::mem::swap(&mut rest, &mut self.entries);
            rest.remove(i);
            proof {
                assert(entry_keys(rest@) =~= keys.remove(i as int));
                assert(rest@.map_values(|e: (String, V)| e.1) =~= values.remove(i as int));
                removed_is_remove(keys, values, i as int);
            }
            *self = TextMap { entries: rest };
        } else {
            assert(!keys.contains(key@));
            assert(self@.remove(key@) =~= self@);
        }
    }

    /// Sets the value of `key`.
    pub fn insert(&mut self, key: String, value: V)
        ensures
            final(self)@ == old(self)@.insert(key@, value),
    {
        proof {
            use_type_invariant(&*self);
        }
        let ghost keys = self.keys();
        let ghost values = self.values();
        let ghost entries = self.entries@;
        let mut i: usize = 0;
        while i < self.entries.len() && before(self.entries[i].0.as_str(), key.as_str())
            invariant
                i <= self.entries@.len(),
                self.entries@ == entries,
                keys == entry_keys(entries),
                forall|j: int| 0 <= j < i ==> text_before(#[trigger] keys[j], key@),
            decreases self.entries@.len() - i,
        {
            i = i + 1;
        }
        if i < self.entries.len() && same_text(self.entries[i].0.as_str(), key.as_str()) {
            let ghost v = value;
            let ghost k = key@;
            let mut rest = Vec::new();
            std::mem::swap(&mut rest, &mut self.entries);
            rest.remove(i);
            rest.insert(i, (key, value));
            proof {
                assert(entry_keys(rest@) =~= keys);
                let values2 = rest@.map_values(|e: (String, V)| e.1);
                assert(values2 =~= values.update(i as int, v));
                position_unique(keys, i as int);
                assert(paired(keys, values2) =~= paired(keys, values).insert(k, v)) by {
                    assert forall|x: Seq<char>| keys.contains(x) implies #[trigger] values2[keys.index_of(
                        x,
                    )] == (if x == k { v } else { values[keys.index_of(x)] }) by {
                        position_unique(keys, keys.index_of(x));
                    }
                }
            }
            *self = TextMap { entries: rest };
        } else {
            let ghost v = value;
            let ghost k = key@;
            let mut rest = Vec::new();
            std::mem::swap(&mut rest, &mut self.entries);
            rest.insert(i, (key, value));
            proof {
                assert forall|j: int| i <= j < keys.len() implies text_before(k, #[trigger] keys[j]) by {
                    text_before_total(keys[i as int], k);
                    if j > i {
                        text_before_transitive(k, keys[i as int], keys[j]);
                    }
                }
                assert(entry_keys(rest@) =~= keys.insert(i as int, k));
                assert(rest@.map_values(|e: (String, V)| e.1) =~= values.insert(i as int, v));
                inserted_is_insert(keys, values, i as int, k, v);
            }
            *self = TextMap { entries: rest };
        }
    }
}

/// Every key of the order maps to the value at its position.
pub proof fn entries_are_pairs<V>(m: TextMap<V>, i: int)
    requires
        m.wf(),
        0 <= i < m.keys().len(),
    ensures
        m@.contains_key(m.keys()[i]),
        m@[m.keys()[i]] == m.values()[i],
{
    position_unique(m.keys(), i);
}

/// Two maps with the same contents are walked in the same order.
pub proof fn order_is_determined<V>(a: TextMap<V>, b: TextMap<V>)
    requires
        a.wf(),
        b.wf(),
        a@ == b@,
    ensures
        a.keys() == b.keys(),
        a.values() == b.values(),
{
    assert forall|k: Seq<char>| a.keys().contains(k) == b.keys().contains(k) by {
        assert(a@.dom().contains(k) == a.keys().contains(k));
        assert(b@.dom().contains(k) == b.keys().contains(k));
    }
    ascending_determined(a.keys(), b.keys());
    assert forall|i: int| 0 <= i < a.values().len() implies a.values()[i] == b.values()[i] by {
        entries_are_pairs(a, i);
        entries_are_pairs(b, i);
    }
    assert(a.values() =~= b.values());
}

proof fn ascending_determined(a: Seq<Seq<char>>, b: Seq<Seq<char>>)
    requires
        ascending(a),
        ascending(b),
        forall|k: Seq<char>| a.contains(k) == b.contains(k),
    ensures
        a == b,
    decreases a.len() + b.len(),
{
    if a.len() == 0 {
        if b.len() > 0 {
            assert(b.contains(b[0]));
            assert(a.contains(b[0]));
        }
        assert(a =~= b);
    } else if b.len() == 0 {
        assert(a.contains(a[0]));
        assert(b.contains(a[0]));
    } else {
        assert(a.contains(a[0]) && b.contains(b[0]));
        assert(b.contains(a[0]) && a.contains(b[0]));
        let i = b.index_of(a[0]);
        let j = a.index_of(b[0]);
        if i > 0 && j > 0 {
            assert(text_before(b[0], b[i]));
            assert(text_before(a[0], a[j]));
            text_before_transitive(a[0], b[0], a[0]);
            text_before_irreflexive(a[0]);
        }
        assert(a[0] == b[0]);
        let a1 = a.skip(1);
        let b1 = b.skip(1);
        assert forall|k: Seq<char>| a1.contains(k) == b1.contains(k) by {
            skipped(a, k);
            skipped(b, k);
        }
        assert forall|x: int, y: int| 0 <= x < y < a1.len() implies text_before(
            #[trigger] a1[x],
            #[trigger] a1[y],
        ) by {
            assert(text_before(a[x + 1], a[y + 1]));
        }
        assert forall|x: int, y: int| 0 <= x < y < b1.len() implies text_before(
            #[trigger] b1[x],
            #[trigger] b1[y],
        ) by {
            assert(text_before(b[x + 1], b[y + 1]));
        }
        ascending_determined(a1, b1);
        assert(a =~= seq![a[0]] + a1);
        assert(b =~= seq![b[0]] + b1);
    }
}

proof fn skipped(a: Seq<Seq<char>>, k: Seq<char>)
    requires
        ascending(a),
        a.len() > 0,
    ensures
        a.skip(1).contains(k) == (a.contains(k) && k != a[0]),
{
    let a1 = a.skip(1);
    if a1.contains(k) {
        let i = a1.index_of(k);
        assert(a[i + 1] == k);
        assert(text_before(a[0], a[i + 1]));
        text_before_irreflexive(k);
    }
    if a.contains(k) && k != a[0] {
        let i = a.index_of(k);
        assert(a1[i - 1] == k);
    }
}

} // verus!
