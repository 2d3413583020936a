//! Text kept in order: sorted sets of strings, and a map keyed by one.

use crate::text::{self, Dup, same, sorts_before};
use vstd::prelude::*;

verus! {

/// Each text sorts before every later one, so none occurs twice.
pub open spec fn ascending(s: Seq<Seq<char>>) -> bool {
    forall|i: int, j: int| 0 <= i < j < s.len() ==> text::before(#[trigger] s[i], #[trigger] s[j])
}

/// `s` lists the members of `set` in order, each once.
pub open spec fn lists(s: Seq<Seq<char>>, set: Set<Seq<char>>) -> bool {
    &&& ascending(s)
    &&& forall|x: Seq<char>| #[trigger] s.contains(x) <==> set.contains(x)
}

/// Only one sequence lists a set.
pub proof fn law_listing_is_unique(a: Seq<Seq<char>>, b: Seq<Seq<char>>, set: Set<Seq<char>>)
    requires
        lists(a, set),
        lists(b, set),
    ensures
        a == b,
    decreases a.len(),
{
    if a.len() == 0 {
        if b.len() > 0 {
            assert(b.contains(b[0]));
            assert(a.contains(b[0]));
        }
        assert(a =~= b);
    } else {
        assert(a.contains(a[0]));
        assert(b.contains(a[0]));
        let k = choose|k: int| 0 <= k < b.len() && b[k] == a[0];
        assert(b.contains(b[0]));
        assert(a.contains(b[0]));
        let m = choose|m: int| 0 <= m < a.len() && a[m] == b[0];
        if a[0] != b[0] {
            assert(text::before(a[0], a[m]));
            assert(text::before(b[0], b[k]));
            text::lemma_before_total(a[0], b[0]);
        }
        let rest = set.remove(a[0]);
        let ta = a.drop_first();
        let tb = b.drop_first();
        assert forall|i: int, j: int| 0 <= i < j < ta.len() implies text::before(
            #[trigger] ta[i],
            #[trigger] ta[j],
        ) by {
            assert(text::before(a[i + 1], a[j + 1]));
        }
        assert forall|i: int, j: int| 0 <= i < j < tb.len() implies text::before(
            #[trigger] tb[i],
            #[trigger] tb[j],
        ) by {
            assert(text::before(b[i + 1], b[j + 1]));
        }
        lemma_tail_lists(a, set);
        lemma_tail_lists(b, set);
        law_listing_is_unique(ta, tb, rest);
        assert(a =~= seq![a[0]] + ta);
        assert(b =~= seq![b[0]] + tb);
    }
}

/// Without its first text, a listing lists the set without it.
proof fn lemma_tail_lists(s: Seq<Seq<char>>, set: Set<Seq<char>>)
    requires
        lists(s, set),
        s.len() > 0,
    ensures
        lists(s.drop_first(), set.remove(s[0])),
{
    let t = s.drop_first();
    assert forall|i: int, j: int| 0 <= i < j < t.len() implies text::before(
        #[trigger] t[i],
        #[trigger] t[j],
    ) by {
        assert(text::before(s[i + 1], s[j + 1]));
    }
    assert forall|x: Seq<char>| #[trigger] t.contains(x) <==> set.remove(s[0]).contains(x) by {
        if t.contains(x) {
            let i = choose|i: int| 0 <= i < t.len() && t[i] == x;
            assert(s[i + 1] == x);
            assert(s.contains(x));
            assert(text::before(s[0], s[i + 1]));
            text::lemma_before_irreflexive(x);
        }
        if set.remove(s[0]).contains(x) {
            assert(s.contains(x));
            let i = choose|i: int| 0 <= i < s.len() && s[i] == x;
            assert(t[i - 1] == x);
        }
    }
}

/// Where a text stands in a sorted sequence, or would be put.
pub open spec fn is_slot(keys: Seq<Seq<char>>, x: Seq<char>, p: int) -> bool {
    &&& 0 <= p <= keys.len()
    &&& forall|i: int| 0 <= i < p ==> text::before(#[trigger] keys[i], x)
    &&& forall|i: int| p <= i < keys.len() ==> !text::before(#[trigger] keys[i], x)
}

/// A text that is there stands in its slot.
proof fn lemma_slot_of_member(keys: Seq<Seq<char>>, x: Seq<char>, p: int)
    requires
        ascending(keys),
        is_slot(keys, x, p),
    ensures
        keys.contains(x) <==> (p < keys.len() && keys[p] == x),
{
    if keys.contains(x) {
        let i = choose|i: int| 0 <= i < keys.len() && keys[i] == x;
        text::lemma_before_irreflexive(x);
        assert(p <= i);
        if p < i {
            assert(text::before(keys[p], keys[i]));
        }
    }
}

/// Inserting a new text at its slot keeps the order.
proof fn lemma_insert_ascending(keys: Seq<Seq<char>>, x: Seq<char>, p: int)
    requires
        ascending(keys),
        is_slot(keys, x, p),
        !keys.contains(x),
    ensures
        ascending(keys.insert(p, x)),
{
    let out = keys.insert(p, x);
    assert forall|i: int| p <= i < keys.len() implies text::before(x, #[trigger] keys[i]) by {
        text::lemma_before_total(x, keys[i]);
        assert(keys.contains(keys[i]));
    }
    assert forall|i: int, j: int| 0 <= i < j < out.len() implies text::before(
        #[trigger] out[i],
        #[trigger] out[j],
    ) by {
        if i < p {
            assert(out[i] == keys[i]);
        } else if i > p {
            assert(out[i] == keys[i - 1]);
        }
        if j < p {
            assert(out[j] == keys[j]);
        } else if j > p {
            assert(out[j] == keys[j - 1]);
        }
    }
}

/// Removing a position keeps the order.
proof fn lemma_remove_ascending(keys: Seq<Seq<char>>, p: int)
    requires
        ascending(keys),
        0 <= p < keys.len(),
    ensures
        ascending(keys.remove(p)),
{
    let out = keys.remove(p);
    assert forall|i: int, j: int| 0 <= i < j < out.len() implies text::before(
        #[trigger] out[i],
        #[trigger] out[j],
    ) by {
        let a = if i < p { i } else { i + 1 };
        let b = if j < p { j } else { j + 1 };
        assert(out[i] == keys[a] && out[j] == keys[b]);
    }
}

/// Put a text into a sorted list, unless it is there already.
pub fn insert_sorted(list: &mut Vec<String>, x: &str)
    requires
        ascending(old(list).deep_view()),
    ensures
        ascending(final(list).deep_view()),
        forall|y: Seq<char>| #[trigger]
            final(list).deep_view().contains(y) <==> old(list).deep_view().contains(y) || y == x@,
{
    let ghost keys = list.deep_view();
    let mut p: usize = 0;
    while p < list.len() && sorts_before(list[p].as_str(), x)
        invariant
            p <= list.len(),
            list.deep_view() == keys,
            forall|i: int| 0 <= i < p ==> text::before(#[trigger] keys[i], x@),
        decreases list.len() - p,
    {
        p = p + 1;
    }
    proof {
        assert forall|i: int| p <= i < keys.len() implies !text::before(#[trigger] keys[i], x@) by {
            if text::before(keys[i], x@) && i > p {
                text::lemma_before_transitive(keys[p as int], keys[i], x@);
            }
        }
        lemma_slot_of_member(keys, x@, p as int);
    }
    if p < list.len() && same(list[p].as_str(), x) {
        proof {
            assert(keys.contains(x@));
        }
        return ;
    }
    proof {
        lemma_insert_ascending(keys, x@, p as int);
    }
    list.insert(p, x.to_owned());
    proof {
        let out = list.deep_view();
        assert(out =~= keys.insert(p as int, x@));
        assert forall|y: Seq<char>| #[trigger] out.contains(y) <==> keys.contains(y) || y == x@ by {
            if out.contains(y) {
                let i = choose|i: int| 0 <= i < out.len() && out[i] == y;
                if i < p {
                    assert(keys[i] == y);
                } else if i > p {
                    assert(keys[i - 1] == y);
                }
            }
            if keys.contains(y) {
                let i = choose|i: int| 0 <= i < keys.len() && keys[i] == y;
                if i < p {
                    assert(out[i] == y);
                } else {
                    assert(out[i + 1] == y);
                }
            }
            assert(out[p as int] == x@);
        }
    }
}

/// The texts of `a` that are not in `b`, sorted, each once.
pub fn sorted_difference(a: &[String], b: &[String]) -> (r: Vec<String>)
    ensures
        lists(r.deep_view(), a.deep_view().to_set().difference(b.deep_view().to_set())),
{
    let mut out: Vec<String> = Vec::new();
    for i in 0..a.len()
        invariant
            ascending(out.deep_view()),
            forall|x: Seq<char>| #[trigger]
                out.deep_view().contains(x) <==> a.deep_view().take(i as int).contains(x)
                    && !b.deep_view().contains(x),
    {
        let ghost seen = a.deep_view().take(i as int);
        let ghost next = a.deep_view().take(i + 1);
        let ghost had = out.deep_view();
        proof {
            assert(next =~= seen.push(a[i as int]@));
            assert forall|x: Seq<char>| #[trigger] next.contains(x) <==> seen.contains(x) || x
                == a[i as int]@ by {
                if seen.contains(x) {
                    let k = choose|k: int| 0 <= k < seen.len() && seen[k] == x;
                    assert(next[k] == x);
                }
                assert(next[i as int] == a[i as int]@);
            }
        }
        if !crate::text::contains(b, a[i].as_str()) {
            insert_sorted(&mut out, a[i].as_str());
        }
    }
    proof {
        assert(a.deep_view().take(a.len() as int) =~= a.deep_view());
    }
    out
}

/// A map from text, held in the order of its keys.
#[derive(Debug, PartialEq, Eq)]
pub struct TextMap<V> {
    entries: Vec<(String, V)>,
}

/// The keys of a sequence of entries.
pub open spec fn keys_of<V>(entries: Seq<(Seq<char>, V)>) -> Seq<Seq<char>> {
    Seq::new(entries.len(), |i: int| entries[i].0)
}

/// The map a sequence of entries stands for.
pub open spec fn map_of<V>(entries: Seq<(Seq<char>, V)>) -> Map<Seq<char>, V> {
    Map::new(
        |k: Seq<char>| keys_of(entries).contains(k),
        |k: Seq<char>| entries[keys_of(entries).index_of(k)].1,
    )
}

impl<V> TextMap<V> {
    /// The keys, in order.
    pub closed spec fn keys(&self) -> Seq<Seq<char>> {
        Seq::new(self.entries@.len(), |i: int| self.entries@[i].0@)
    }

    #[verifier::type_invariant]
    spec fn well_formed(self) -> bool {
        ascending(self.keys())
    }
}

impl<V: DeepView> DeepView for TextMap<V> {
    type V = Seq<(Seq<char>, V::V)>;

    closed spec fn deep_view(&self) -> Seq<(Seq<char>, V::V)> {
        self.entries.deep_view()
    }
}

/// In a sequence with ascending keys, an entry's key finds that entry.
pub proof fn lemma_map_of_entry<V>(entries: Seq<(Seq<char>, V)>, i: int)
    requires
        ascending(keys_of(entries)),
        0 <= i < entries.len(),
    ensures
        map_of(entries).contains_key(entries[i].0),
        map_of(entries)[entries[i].0] == entries[i].1,
{
    let keys = keys_of(entries);
    assert(keys[i] == entries[i].0);
    assert(keys.contains(entries[i].0));
    let j = keys.index_of(entries[i].0);
    assert(keys[j] == keys[i]);
    if j < i {
        assert(text::before(keys[j], keys[i]));
        text::lemma_before_irreflexive(keys[i]);
    } else if i < j {
        assert(text::before(keys[i], keys[j]));
        text::lemma_before_irreflexive(keys[i]);
    }
}

/// Two sequences with ascending keys that stand for the same map are the same.
pub proof fn law_entries_follow_the_map<V>(a: Seq<(Seq<char>, V)>, b: Seq<(Seq<char>, V)>)
    requires
        ascending(keys_of(a)),
        ascending(keys_of(b)),
        map_of(a) == map_of(b),
    ensures
        a == b,
{
    let set = map_of(a).dom();
    assert(lists(keys_of(a), set));
    assert forall|x: Seq<char>| #[trigger] keys_of(b).contains(x) <==> set.contains(x) by {
        assert(map_of(b).contains_key(x) == map_of(a).contains_key(x));
    }
    law_listing_is_unique(keys_of(a), keys_of(b), set);
    assert(a.len() == keys_of(a).len() && b.len() == keys_of(b).len());
    assert forall|i: int| 0 <= i < a.len() implies a[i] == b[i] by {
        assert(keys_of(a)[i] == keys_of(b)[i]);
        lemma_map_of_entry(a, i);
        lemma_map_of_entry(b, i);
    }
    assert(a =~= b);
}

/// The entries of a map, in the order of their keys.
pub open spec fn entries_of<V>(map: Map<Seq<char>, V>) -> Seq<(Seq<char>, V)> {
    choose|e: Seq<(Seq<char>, V)>| #[trigger] ascending(keys_of(e)) && map_of(e) == map
}

/// A sequence of entries with ascending keys is the one its map has.
pub proof fn law_entries_are_determined<V>(e: Seq<(Seq<char>, V)>)
    requires
        ascending(keys_of(e)),
    ensures
        entries_of(map_of(e)) == e,
{
    law_entries_follow_the_map(entries_of(map_of(e)), e);
}

/// Every text has its slot in a sorted sequence.
proof fn lemma_slot_exists(keys: Seq<Seq<char>>, x: Seq<char>) -> (p: int)
    requires
        ascending(keys),
    ensures
        is_slot(keys, x, p),
    decreases keys.len(),
{
    if keys.len() == 0 || text::before(keys.last(), x) {
        assert forall|i: int| 0 <= i < keys.len() implies text::before(#[trigger] keys[i], x) by {
            if i < keys.len() - 1 {
                text::lemma_before_transitive(keys[i], keys.last(), x);
            }
        }
        keys.len() as int
    } else {
        let rest = keys.drop_last();
        assert(ascending(rest));
        let p = lemma_slot_exists(rest, x);
        assert forall|i: int| 0 <= i < p implies text::before(#[trigger] keys[i], x) by {
            assert(rest[i] == keys[i]);
        }
        assert forall|i: int| p <= i < keys.len() implies !text::before(#[trigger] keys[i], x) by {
            if i < keys.len() - 1 {
                assert(rest[i] == keys[i]);
            }
        }
        p
    }
}

/// Entries stand for a finite map.
pub proof fn lemma_entries_are_finite<V>(entries: Seq<(Seq<char>, V)>)
    ensures
        map_of(entries).dom().finite(),
{
    assert(map_of(entries).dom() =~= keys_of(entries).to_set());
    vstd::seq_lib::seq_to_set_is_finite(keys_of(entries));
}

/// Every finite map has its entries in the order of their keys.
pub proof fn law_a_finite_map_is_listed<V>(map: Map<Seq<char>, V>)
    requires
        map.dom().finite(),
    ensures
        ascending(keys_of(entries_of(map))),
        map_of(entries_of(map)) == map,
    decreases map.dom().len(),
{
    if map.dom() =~= Set::empty() {
        let none = Seq::<(Seq<char>, V)>::empty();
        assert(ascending(keys_of(none)));
        assert(map_of(none) =~= map);
    } else {
        let k = map.dom().choose();
        let rest = map.remove(k);
        law_a_finite_map_is_listed(rest);
        let entries = entries_of(rest);
        assert(!keys_of(entries).contains(k)) by {
            assert(!map_of(entries).contains_key(k));
        }
        let p = lemma_slot_exists(keys_of(entries), k);
        lemma_insert_ascending(keys_of(entries), k, p);
        let out = entries.insert(p, (k, map[k]));
        assert(keys_of(out) =~= keys_of(entries).insert(p, k));
        lemma_map_of_insert(entries, p, (k, map[k]));
        assert(rest.insert(k, map[k]) =~= map);
        assert(ascending(keys_of(out)) && map_of(out) == map);
    }
}

impl<V: DeepView> TextMap<V> {
    /// The map this stands for.
    pub open spec fn map(&self) -> Map<Seq<char>, V::V> {
        map_of(self.deep_view())
    }

    /// No entries.
    pub fn new() -> (r: Self)
        ensures
            r.deep_view() == Seq::<(Seq<char>, V::V)>::empty(),
            r.map() == Map::<Seq<char>, V::V>::empty(),
    {
        let r = TextMap { entries: Vec::new() };
        proof {
            assert(r.deep_view() =~= seq![]);
            assert(r.map() =~= Map::empty());
        }
        r
    }

    /// How many entries there are. Their keys ascend.
    pub fn len(&self) -> (r: usize)
        ensures
            r == self.deep_view().len(),
            ascending(keys_of(self.deep_view())),
    {
        proof {
            use_type_invariant(self);
            assert(keys_of(self.deep_view()) =~= self.keys());
        }
        self.entries.len()
    }

    /// Whether there is no entry.
    pub fn is_empty(&self) -> (r: bool)
        ensures
            r == (self.deep_view().len() == 0),
            r == (self.map() == Map::<Seq<char>, V::V>::empty()),
    {
        let r = self.entries.len() == 0;
        proof {
            if r {
                assert(self.map() =~= Map::empty());
            } else {
                use_type_invariant(self);
                assert(keys_of(self.deep_view()) =~= self.keys());
                lemma_map_of_entry(self.deep_view(), 0);
            }
        }
        r
    }

    /// The entry at a position.
    pub fn at(&self, i: usize) -> (r: (&str, &V))
        requires
            i < self.deep_view().len(),
        ensures
            (r.0@, r.1.deep_view()) == self.deep_view()[i as int],
    {
        (self.entries[i].0.as_str(), &self.entries[i].1)
    }

    /// The slot of a key.
    fn slot(&self, key: &str) -> (p: usize)
        ensures
            is_slot(keys_of(self.deep_view()), key@, p as int),
            ascending(keys_of(self.deep_view())),
    {
        proof {
            use_type_invariant(self);
            assert(keys_of(self.deep_view()) =~= self.keys());
        }
        let ghost keys = keys_of(self.deep_view());
        let mut p: usize = 0;
        while p < self.entries.len() && sorts_before(self.entries[p].0.as_str(), key)
            invariant
                p <= self.entries.len(),
                keys == keys_of(self.deep_view()),
                keys.len() == self.entries.len(),
                forall|i: int| 0 <= i < p ==> text::before(#[trigger] keys[i], key@),
            decreases self.entries.len() - p,
        {
            proof {
                assert(keys[p as int] == self.entries@[p as int].0@);
            }
            p = p + 1;
        }
        proof {
            assert forall|i: int| p <= i < keys.len() implies !text::before(#[trigger] keys[i], key@) by {
                if text::before(keys[i], key@) {
                    assert(keys[p as int] == self.entries@[p as int].0@);
                    if i > p {
                        text::lemma_before_transitive(keys[p as int], keys[i], key@);
                    }
                }
            }
        }
        p
    }

    /// The value of a key.
    pub fn get(&self, key: &str) -> (r: Option<&V>)
        ensures
            match r {
                Some(v) => self.map().contains_key(key@) && self.map()[key@] == v.deep_view(),
                None => !self.map().contains_key(key@),
            },
    {
        let p = self.slot(key);
        proof {
            lemma_slot_of_member(keys_of(self.deep_view()), key@, p as int);
        }
        if p < self.entries.len() && same(self.entries[p].0.as_str(), key) {
            proof {
                lemma_map_of_entry(self.deep_view(), p as int);
            }
            Some(&self.entries[p].1)
        } else {
            None
        }
    }

    /// Give a key a value, in place of the one it had.
    pub fn insert(&mut self, key: String, value: V)
        ensures
            final(self).map() == old(self).map().insert(key@, value.deep_view()),
    {
        let p = self.slot(key.as_str());
        let ghost entries = self.deep_view();
        let ghost keys = keys_of(entries);
        let ghost entry = (key@, value.deep_view());
        proof {
            lemma_slot_of_member(keys, key@, p as int);
        }
        let mut all: Vec<(String, V)> = Vec::new();
        std::mem::swap(&mut all, &mut self.entries);
        proof {
            assert(all.deep_view() == entries);
        }
        if p < all.len() && same(all[p].0.as_str(), key.as_str()) {
            proof {
                assert(keys[p as int] == key@);
                let out = entries.update(p as int, entry);
                assert(keys_of(out) =~= keys);
                assert forall|k: Seq<char>| #[trigger] keys.contains(k) implies map_of(out)[k]
                    == map_of(entries).insert(key@, entry.1)[k] by {
                    let i = keys.index_of(k);
                    lemma_map_of_entry(entries, i);
                    lemma_map_of_entry(out, i);
                    lemma_map_of_entry(out, p as int);
                    assert(out[p as int] == entry);
                }
                assert(map_of(out) =~= map_of(entries).insert(key@, entry.1));
            }
            all.set(p, (key, value));
            proof {
                assert(all.deep_view() =~= entries.update(p as int, entry));
                assert(keys_of(all.deep_view()) =~= Seq::new(all@.len(), |i: int| all@[i].0@));
            }
        } else {
            proof {
                assert(!keys.contains(key@));
                lemma_insert_ascending(keys, key@, p as int);
                let out = entries.insert(p as int, entry);
                assert(keys_of(out) =~= keys.insert(p as int, key@));
                lemma_map_of_insert(entries, p as int, entry);
            }
            all.insert(p, (key, value));
            proof {
                assert(all.deep_view() =~= entries.insert(p as int, entry));
                assert(keys_of(all.deep_view()) =~= Seq::new(all@.len(), |i: int| all@[i].0@));
            }
        }
        self.entries = all;
    }

    /// Take a key out, and its value with it.
    pub fn remove(&mut self, key: &str) -> (r: Option<V>)
        ensures
            final(self).map() == old(self).map().remove(key@),
            match r {
                Some(v) => old(self).map().contains_key(key@) && old(self).map()[key@]
                    == v.deep_view(),
                None => !old(self).map().contains_key(key@),
            },
    {
        let p = self.slot(key);
        let ghost entries = self.deep_view();
        let ghost keys = keys_of(entries);
        proof {
            lemma_slot_of_member(keys, key@, p as int);
        }
        if p < self.entries.len() && same(self.entries[p].0.as_str(), key) {
            let mut all: Vec<(String, V)> = Vec::new();
            std::mem::swap(&mut all, &mut self.entries);
            proof {
                assert(all.deep_view() == entries);
                lemma_map_of_entry(entries, p as int);
                lemma_remove_ascending(keys, p as int);
                assert(keys_of(entries.remove(p as int)) =~= keys.remove(p as int));
                lemma_map_of_remove(entries, p as int);
            }
            let (_, value) = all.remove(p);
            proof {
                assert(all.deep_view() =~= entries.remove(p as int));
                assert(keys_of(all.deep_view()) =~= Seq::new(all@.len(), |i: int| all@[i].0@));
            }
            self.entries = all;
            Some(value)
        } else {
            proof {
                assert(!map_of(entries).contains_key(key@));
                assert(map_of(entries).remove(key@) =~= map_of(entries));
            }
            None
        }
    }

    /// Take everything out.
    pub fn clear(&mut self)
        ensures
            final(self).deep_view() == Seq::<(Seq<char>, V::V)>::empty(),
            final(self).map() == Map::<Seq<char>, V::V>::empty(),
    {
        self.entries = Vec::new();
        proof {
            assert(self.deep_view() =~= seq![]);
            assert(self.map() =~= Map::empty());
        }
    }
}

/// Inserting an entry with a new key adds that key to the map.
proof fn lemma_map_of_insert<V>(entries: Seq<(Seq<char>, V)>, p: int, entry: (Seq<char>, V))
    requires
        ascending(keys_of(entries)),
        ascending(keys_of(entries.insert(p, entry))),
        0 <= p <= entries.len(),
        !keys_of(entries).contains(entry.0),
    ensures
        map_of(entries.insert(p, entry)) == map_of(entries).insert(entry.0, entry.1),
{
    let out = entries.insert(p, entry);
    let keys = keys_of(entries);
    assert forall|k: Seq<char>| #[trigger] keys_of(out).contains(k) <==> keys.contains(k) || k
        == entry.0 by {
        if keys_of(out).contains(k) {
            let i = keys_of(out).index_of(k);
            if i < p {
                assert(keys[i] == k);
            } else if i > p {
                assert(keys[i - 1] == k);
            }
        }
        if keys.contains(k) {
            let i = keys.index_of(k);
            if i < p {
                assert(keys_of(out)[i] == k);
            } else {
                assert(keys_of(out)[i + 1] == k);
            }
        }
        assert(keys_of(out)[p] == entry.0);
    }
    assert forall|k: Seq<char>| #[trigger] keys_of(out).contains(k) implies map_of(out)[k]
        == map_of(entries).insert(entry.0, entry.1)[k] by {
        if k == entry.0 {
            lemma_map_of_entry(out, p);
        } else {
            let i = keys.index_of(k);
            lemma_map_of_entry(entries, i);
            if i < p {
                lemma_map_of_entry(out, i);
            } else {
                lemma_map_of_entry(out, i + 1);
            }
        }
    }
    assert(map_of(out) =~= map_of(entries).insert(entry.0, entry.1));
}

/// Removing an entry removes its key from the map.
proof fn lemma_map_of_remove<V>(entries: Seq<(Seq<char>, V)>, p: int)
    requires
        ascending(keys_of(entries)),
        ascending(keys_of(entries.remove(p))),
        0 <= p < entries.len(),
    ensures
        map_of(entries.remove(p)) == map_of(entries).remove(entries[p].0),
{
    let out = entries.remove(p);
    let keys = keys_of(entries);
    let gone = entries[p].0;
    assert forall|k: Seq<char>| #[trigger] keys_of(out).contains(k) <==> keys.contains(k) && k
        != gone by {
        if keys_of(out).contains(k) {
            let i = keys_of(out).index_of(k);
            let a = if i < p { i } else { i + 1 };
            assert(keys[a] == k);
            if k == gone {
                assert(keys[p] == gone);
                text::lemma_before_irreflexive(k);
                if a < p {
                    assert(text::before(keys[a], keys[p]));
                } else {
                    assert(text::before(keys[p], keys[a]));
                }
            }
        }
        if keys.contains(k) && k != gone {
            let i = keys.index_of(k);
            if i < p {
                assert(keys_of(out)[i] == k);
            } else {
                assert(keys_of(out)[i - 1] == k);
            }
        }
    }
    assert forall|k: Seq<char>| #[trigger] keys_of(out).contains(k) implies map_of(out)[k]
        == map_of(entries)[k] by {
        let i = keys.index_of(k);
        lemma_map_of_entry(entries, i);
        if i < p {
            lemma_map_of_entry(out, i);
        } else {
            lemma_map_of_entry(out, i - 1);
        }
    }
    assert(map_of(out) =~= map_of(entries).remove(gone));
}

impl<V: Dup> TextMap<V> {
    /// The same entries, copied.
    pub fn copied(&self) -> (r: Self)
        ensures
            r.deep_view() == self.deep_view(),
    {
        proof {
            use_type_invariant(self);
        }
        let entries = self.entries.dup();
        proof {
            let a = Seq::new(entries@.len(), |i: int| entries@[i].0@);
            assert(entries.deep_view() == self.entries.deep_view());
            assert(entries.deep_view().len() == self.entries.deep_view().len());
            assert forall|i: int| 0 <= i < entries@.len() implies #[trigger] entries@[i].0@
                == self.entries@[i].0@ by {
                assert(entries.deep_view()[i] == self.entries.deep_view()[i]);
                assert(entries.deep_view()[i] == entries@[i].deep_view());
                assert(self.entries.deep_view()[i] == self.entries@[i].deep_view());
            }
            assert(a =~= self.keys());
        }
        TextMap { entries }
    }
}

impl<V: Dup> Dup for TextMap<V> {
    fn dup(&self) -> (out: Self) {
        self.copied()
    }
}

/// What is listed in order is listed once.
pub proof fn lemma_listed_once(s: Seq<Seq<char>>, set: Set<Seq<char>>)
    requires
        lists(s, set),
    ensures
        s.no_duplicates(),
{
    assert forall|i: int, j: int| 0 <= i < s.len() && 0 <= j < s.len() && i != j implies s[i]
        != s[j] by {
        text::lemma_before_irreflexive(s[i]);
        if i < j {
            assert(text::before(s[i], s[j]));
        } else {
            assert(text::before(s[j], s[i]));
        }
    }
}

} // verus!
