//! Maps keyed by name, kept as association lists in insertion order.

use vstd::prelude::*;

use crate::text;

verus! {

/// The position of the first pair of `s` with the key `key`, or the length
/// of `s` where no pair has it.
pub open spec fn position<V>(s: Seq<(Seq<char>, V)>, key: Seq<char>) -> int
    decreases s.len(),
{
    if s.len() == 0 {
        0
    } else if s[0].0 == key {
        0
    } else {
        1 + position(s.drop_first(), key)
    }
}

/// The value that `s` holds under `key`.
pub open spec fn find<V>(s: Seq<(Seq<char>, V)>, key: Seq<char>) -> Option<V> {
    if position(s, key) < s.len() {
        Some(s[position(s, key)].1)
    } else {
        None
    }
}

/// Whether `s` holds a value under `key`.
pub open spec fn holds<V>(s: Seq<(Seq<char>, V)>, key: Seq<char>) -> bool {
    exists|i: int| 0 <= i < s.len() && (#[trigger] s[i]).0 == key
}

/// No key occurs twice.
pub open spec fn distinct<V>(s: Seq<(Seq<char>, V)>) -> bool {
    forall|i: int, j: int|
        0 <= i < j < s.len() ==> (#[trigger] s[i]).0 != (#[trigger] s[j]).0
}

/// `s` with `value` under `key`: in place where the key is present, at the
/// end otherwise.
pub open spec fn with_entry<V>(s: Seq<(Seq<char>, V)>, key: Seq<char>, value: V) -> Seq<
    (Seq<char>, V),
> {
    if position(s, key) < s.len() {
        s.update(position(s, key), (key, value))
    } else {
        s.push((key, value))
    }
}

/// What `position` finds: the first pair with the key.
pub proof fn lemma_position<V>(s: Seq<(Seq<char>, V)>, key: Seq<char>)
    ensures
        0 <= position(s, key) <= s.len(),
        position(s, key) < s.len() ==> s[position(s, key)].0 == key,
        forall|i: int| 0 <= i < position(s, key) ==> (#[trigger] s[i]).0 != key,
        holds(s, key) <==> position(s, key) < s.len(),
    decreases s.len(),
{
    if s.len() > 0 && s[0].0 != key {
        lemma_position(s.drop_first(), key);
        let p = position(s.drop_first(), key);
        assert forall|i: int| 0 <= i < position(s, key) implies (#[trigger] s[i]).0 != key by {
            if i > 0 {
                assert(s.drop_first()[i - 1] == s[i]);
            }
        }
        if p < s.drop_first().len() {
            assert(s.drop_first()[p] == s[p + 1]);
        }
    }
    if position(s, key) < s.len() {
        assert(s[position(s, key)].0 == key);
    }
}

/// The first position with a key is determined by its description.
pub proof fn lemma_position_is<V>(s: Seq<(Seq<char>, V)>, key: Seq<char>, at: int)
    requires
        0 <= at <= s.len(),
        at < s.len() ==> s[at].0 == key,
        forall|i: int| 0 <= i < at ==> (#[trigger] s[i]).0 != key,
    ensures
        position(s, key) == at,
{
    lemma_position(s, key);
    let p = position(s, key);
    if p < at {
        assert(s[p].0 != key);
    }
    if at < p {
        assert(s[at].0 != key);
    }
}

/// Storing a value under a key and reading it back: the key reads the value
/// stored, every other key reads as before, and where no key occurred twice,
/// none does.
pub proof fn store_then_find<V>(s: Seq<(Seq<char>, V)>, key: Seq<char>, value: V, other: Seq<char>)
    ensures
        distinct(s) ==> distinct(with_entry(s, key, value)),
        find(with_entry(s, key, value), key) == Some(value),
        other != key ==> find(with_entry(s, key, value), other) == find(s, other),
{
    let r = with_entry(s, key, value);
    lemma_position(s, key);
    lemma_position(s, other);
    let p = position(s, key);
    assert forall|i: int, j: int| distinct(s) && 0 <= i < j < r.len() implies (#[trigger] r[i]).0
        != (#[trigger] r[j]).0 by {
        if p == s.len() {
            if j < s.len() {
                assert(s[i].0 != s[j].0);
            } else {
                assert(s[i].0 != key);
            }
        } else {
            assert(s[i].0 != s[j].0);
        }
    }
    assert forall|i: int| 0 <= i < p implies (#[trigger] r[i]).0 != key by {
        assert(s[i].0 != key);
    }
    lemma_position_is(r, key, p);
    if other != key {
        let q = position(s, other);
        if q < s.len() {
            assert forall|i: int| 0 <= i < q implies (#[trigger] r[i]).0 != other by {
                assert(s[i].0 != other);
            }
            lemma_position_is(r, other, q);
        } else {
            assert forall|i: int| 0 <= i < r.len() implies (#[trigger] r[i]).0 != other by {
                if i < s.len() {
                    assert(s[i].0 != other);
                }
            }
            lemma_position_is(r, other, r.len() as int);
        }
    }
}

/// A value under a name that is not taken goes to the end.
pub proof fn lemma_new_name<V>(s: Seq<(Seq<char>, V)>, key: Seq<char>, value: V)
    requires
        !holds(s, key),
    ensures
        with_entry(s, key, value) == s.push((key, value)),
{
    lemma_position(s, key);
}

/// Where `done` has the first names of `all`, a value under the next name of
/// `all` goes to its end.
pub proof fn lemma_next_name<A, B>(done: Seq<(Seq<char>, A)>, all: Seq<(Seq<char>, B)>, value: A)
    requires
        distinct(all),
        done.len() < all.len(),
        forall|k: int| 0 <= k < done.len() ==> (#[trigger] done[k]).0 == all[k].0,
    ensures
        with_entry(done, all[done.len() as int].0, value) == done.push(
            (all[done.len() as int].0, value),
        ),
{
    let key = all[done.len() as int].0;
    assert forall|k: int| 0 <= k < done.len() implies (#[trigger] done[k]).0 != key by {
        assert(all[k].0 != key);
    }
    lemma_new_name(done, key, value);
}

/// The pairs of `s` with each value taken by its view.
pub open spec fn deep<V: View>(s: Seq<(Seq<char>, V)>) -> Seq<(Seq<char>, V::V)> {
    s.map_values(|e: (Seq<char>, V)| (e.0, e.1@))
}

/// Looking a name up in the views of the values is looking it up first.
pub proof fn lemma_find_deep<V: View>(s: Seq<(Seq<char>, V)>, key: Seq<char>)
    ensures
        position(deep(s), key) == position(s, key),
        holds(deep(s), key) == holds(s, key),
        find(deep(s), key) == (match find(s, key) {
            Some(v) => Some(v@),
            None => None,
        }),
{
    lemma_position(s, key);
    lemma_position(deep(s), key);
    let p = position(s, key);
    assert forall|i: int| 0 <= i < p implies (#[trigger] deep(s)[i]).0 != key by {
        assert(s[i].0 != key);
    }
    if p < s.len() {
        assert(deep(s)[p].0 == key);
    }
    lemma_position_is(deep(s), key, p);
}

/// Storing a value and taking views is taking views and storing its view.
pub proof fn lemma_deep_entry<V: View>(s: Seq<(Seq<char>, V)>, key: Seq<char>, value: V)
    ensures
        deep(with_entry(s, key, value)) == with_entry(deep(s), key, value@),
{
    lemma_find_deep(s, key);
    lemma_position(s, key);
    assert(deep(with_entry(s, key, value)) =~= with_entry(deep(s), key, value@));
}

/// The keys of `s`, in order.
pub open spec fn keys<V>(s: Seq<(Seq<char>, V)>) -> Seq<Seq<char>> {
    s.map_values(|e: (Seq<char>, V)| e.0)
}

/// A name is a key exactly where some pair has it.
pub proof fn lemma_has_key<V>(s: Seq<(Seq<char>, V)>, key: Seq<char>)
    ensures
        keys(s).contains(key) == holds(s, key),
{
    if holds(s, key) {
        let i = choose|i: int| 0 <= i < s.len() && (#[trigger] s[i]).0 == key;
        assert(keys(s)[i] == key);
    }
    if keys(s).contains(key) {
        let i = choose|i: int| 0 <= i < keys(s).len() && keys(s)[i] == key;
        assert(s[i].0 == key);
    }
}

/// A map from names to values. The pairs keep their insertion order, and no
/// name occurs twice.
pub struct NameMap<V> {
    names: Vec<String>,
    values: Vec<V>,
}

/// The pairs of a list of names and a list of values.
spec fn paired<V>(names: Seq<String>, values: Seq<V>) -> Seq<(Seq<char>, V)> {
    Seq::new(names.len(), |i: int| (names[i]@, values[i]))
}

impl<V> View for NameMap<V> {
    type V = Seq<(Seq<char>, V)>;

    closed spec fn view(&self) -> Seq<(Seq<char>, V)> {
        paired(self.names@, self.values@)
    }
}

impl<V> NameMap<V> {
    /// Every name has a value, and no name occurs twice.
    #[verifier::type_invariant]
    spec fn well_formed(self) -> bool {
        &&& self.names@.len() == self.values@.len()
        &&& forall|i: int, j: int|
            0 <= i < j < self.names@.len() ==> (#[trigger] self.names@[i])@ != (
            #[trigger] self.names@[j])@
    }

    proof fn lemma_distinct(self)
        requires
            self.well_formed(),
        ensures
            distinct(self@),
    {
        assert forall|i: int, j: int| 0 <= i < j < self@.len() implies (#[trigger] self@[i]).0 != (
        #[trigger] self@[j]).0 by {
            assert(self.names@[i]@ != self.names@[j]@);
        }
    }

    /// An empty map.
    pub fn new() -> (map: Self)
        ensures
            map@ == Seq::<(Seq<char>, V)>::empty(),
    {
        let map = NameMap { names: Vec::new(), values: Vec::new() };
        assert(map@ =~= Seq::<(Seq<char>, V)>::empty());
        map
    }

    /// The number of entries. No two of them have the same name.
    pub fn len(&self) -> (n: usize)
        ensures
            n == self@.len(),
            distinct(self@),
    {
        proof {
            use_type_invariant(self);
            self.lemma_distinct();
        }
        self.names.len()
    }

    /// Whether the map holds no entry.
    pub fn is_empty(&self) -> (b: bool)
        ensures
            b == (self@.len() == 0),
    {
        self.names.len() == 0
    }

    /// The name of the entry at position `i`.
    pub fn key_at(&self, i: usize) -> (key: &String)
        requires
            i < self@.len(),
        ensures
            key@ == self@[i as int].0,
    {
        &self.names[i]
    }

    /// The value of the entry at position `i`.
    pub fn value_at(&self, i: usize) -> (value: &V)
        requires
            i < self@.len(),
        ensures
            *value == self@[i as int].1,
    {
        proof {
            use_type_invariant(self);
        }
        &self.values[i]
    }

    /// The value of the entry at position `i`, for change in place.
    pub fn value_at_mut(&mut self, i: usize) -> (value: &mut V)
        requires
            i < old(self)@.len(),
        ensures
            *value == old(self)@[i as int].1,
            final(self)@ == old(self)@.update(i as int, (old(self)@[i as int].0, *final(value))),
    {
        proof {
            use_type_invariant(&*self);
        }
        &mut self.values[i]
    }

    /// The position of `key`, or the number of entries where it is absent.
    pub(crate) fn index_of(&self, key: &str) -> (at: usize)
        ensures
            at == position(self@, key@),
            at <= self@.len(),
    {
        let mut i: usize = 0;
        while i < self.names.len()
            invariant
                i <= self.names@.len(),
                self@.len() == self.names@.len(),
                forall|k: int| 0 <= k < i ==> (#[trigger] self@[k]).0 != key@,
            decreases self.names.len() - i,
        {
            if text::same(self.names[i].as_str(), key) {
                proof {
                    lemma_position_is(self@, key@, i as int);
                }
                return i;
            }
            assert(self@[i as int].0 == self.names@[i as int]@);
            i = i + 1;
        }
        proof {
            lemma_position_is(self@, key@, i as int);
        }
        i
    }

    /// The value under `key`.
    pub fn get(&self, key: &str) -> (value: Option<&V>)
        ensures
            match value {
                Some(v) => find(self@, key@) == Some(*v),
                None => find(self@, key@) is None,
            },
    {
        proof {
            use_type_invariant(self);
        }
        let at = self.index_of(key);
        if at < self.values.len() {
            assert(self@[at as int].1 == self.values@[at as int]);
            Some(&self.values[at])
        } else {
            None
        }
    }

    /// Whether the map has an entry under `key`.
    pub fn contains_key(&self, key: &str) -> (b: bool)
        ensures
            b == holds(self@, key@),
    {
        let at = self.index_of(key);
        proof {
            lemma_position(self@, key@);
        }
        at < self.names.len()
    }

    /// Store `value` under `key`, in place of what the key held.
    pub fn insert(&mut self, key: String, value: V)
        ensures
            final(self)@ == with_entry(old(self)@, key@, value),
    {
        proof {
            use_type_invariant(&*self);
            self.lemma_distinct();
            store_then_find(self@, key@, value, key@);
        }
        let at = self.index_of(key.as_str());
        let ghost before = self@;
        let ghost k = key@;
        let mut map = NameMap { names: Vec::new(), values: Vec::new() };
        std::mem::swap(&mut map, self);
        let NameMap { mut names, mut values } = map;
        if at < names.len() {
            values.set(at, value);
        } else {
            names.push(key);
            values.push(value);
        }
        proof {
            lemma_position(before, k);
            let after = with_entry(before, k, value);
            assert(paired(names@, values@) =~= after);
            assert forall|i: int, j: int| 0 <= i < j < names@.len() implies (#[trigger] names@[i])@
                != (#[trigger] names@[j])@ by {
                assert(after[i].0 != after[j].0);
            }
        }
        *self = NameMap { names, values };
    }
}

/// Values that can be copied faithfully.
pub trait Duplicate: View + Sized {
    /// A copy with the same view.
    fn duplicate(&self) -> (copy: Self)
        ensures
            copy@ == self@,
    ;
}

impl Duplicate for String {
    fn duplicate(&self) -> (copy: Self) {
        self.clone()
    }
}

impl<V: Duplicate> NameMap<V> {
    /// A copy of the map: the same names in the same order, with copies of
    /// the values.
    pub fn duplicate(&self) -> (copy: Self)
        ensures
            deep(copy@) == deep(self@),
    {
        let n = self.len();
        let mut copy: NameMap<V> = NameMap::new();
        let mut i: usize = 0;
        while i < n
            invariant
                i <= n == self@.len(),
                distinct(self@),
                copy@.len() == i,
                forall|k: int|
                    0 <= k < i ==> (#[trigger] copy@[k]).0 == self@[k].0 && copy@[k].1@
                        == self@[k].1@,
            decreases n - i,
        {
            let name = self.key_at(i).clone();
            let value = self.value_at(i).duplicate();
            proof {
                lemma_next_name(copy@, self@, value);
            }
            copy.insert(name, value);
            i = i + 1;
        }
        assert(deep(copy@) =~= deep(self@));
        copy
    }
}

/// A set of names.
pub struct NameSet {
    items: Vec<String>,
}

impl View for NameSet {
    type V = Set<Seq<char>>;

    closed spec fn view(&self) -> Set<Seq<char>> {
        text::views(self.items@).to_set()
    }
}

impl NameSet {
    /// No name occurs twice.
    #[verifier::type_invariant]
    spec fn well_formed(self) -> bool {
        text::views(self.items@).no_duplicates()
    }

    /// The empty set.
    pub fn new() -> (set: Self)
        ensures
            set@ == Set::<Seq<char>>::empty(),
    {
        let set = NameSet { items: Vec::new() };
        assert(set@ =~= Set::<Seq<char>>::empty());
        set
    }

    /// The number of names.
    pub fn len(&self) -> (n: usize)
        ensures
            n == self@.len(),
    {
        proof {
            use_type_invariant(self);
            text::views(self.items@).unique_seq_to_set();
        }
        self.items.len()
    }

    /// Whether `name` is in the set.
    pub fn contains(&self, name: &str) -> (b: bool)
        ensures
            b == self@.contains(name@),
    {
        proof {
            text::lemma_listed(self.items@, name@);
        }
        text::contains(&self.items, name)
    }

    /// Add `name` to the set.
    pub fn insert(&mut self, name: String)
        ensures
            final(self)@ == old(self)@.insert(name@),
    {
        if self.contains(name.as_str()) {
            assert(self@.insert(name@) =~= self@);
            return;
        }
        proof {
            use_type_invariant(&*self);
        }
        let ghost before = self.items@;
        let ghost added = name@;
        let mut items: Vec<String> = Vec::new();
        std::mem::swap(&mut items, &mut self.items);
        items.push(name);
        proof {
            assert(text::views(items@) =~= text::views(before).push(added));
            assert(text::views(items@).to_set() =~= text::views(before).to_set().insert(added)) by {
                assert forall|n: Seq<char>| #[trigger] text::views(items@).contains(n) <==> (
                text::views(before).contains(n) || n == added) by {
                    if text::views(before).contains(n) {
                        let i = choose|i: int|
                            0 <= i < text::views(before).len() && text::views(before)[i] == n;
                        assert(text::views(items@)[i] == n);
                    }
                    assert(text::views(items@)[before.len() as int] == added);
                }
            }
        }
        self.items = items;
    }

    /// The set of the strings of `list`.
    pub fn from_list(list: &Vec<String>) -> (set: Self)
        ensures
            set@ == text::views(list@).to_set(),
    {
        let mut set = NameSet::new();
        let mut i: usize = 0;
        assert(text::views(list@).take(0).to_set() =~= Set::<Seq<char>>::empty());
        while i < list.len()
            invariant
                i <= list.len(),
                set@ == text::views(list@).take(i as int).to_set(),
            decreases list.len() - i,
        {
            set.insert(list[i].clone());
            i = i + 1;
            proof {
                let all = text::views(list@);
                assert(all.take(i as int) =~= all.take(i - 1).push(all[i - 1]));
                assert(all.take(i as int).to_set() =~= all.take(i - 1).to_set().insert(
                    all[i - 1],
                )) by {
                    assert forall|n: Seq<char>| #[trigger] all.take(i as int).contains(n) <==> (
                    all.take(i - 1).contains(n) || n == all[i - 1]) by {
                        let prefix = all.take(i - 1);
                        if prefix.contains(n) {
                            let k = choose|k: int| 0 <= k < prefix.len() && prefix[k] == n;
                            assert(all.take(i as int)[k] == n);
                        }
                        assert(all.take(i as int)[i - 1] == all[i - 1]);
                    }
                }
            }
        }
        assert(text::views(list@).take(list@.len() as int) =~= text::views(list@));
        set
    }

    /// A name that is in both sets, if there is one.
    pub fn shared(&self, other: &NameSet) -> (name: Option<String>)
        ensures
            match name {
                Some(n) => self@.contains(n@) && other@.contains(n@),
                None => self@.disjoint(other@),
            },
    {
        let mut i: usize = 0;
        while i < self.items.len()
            invariant
                i <= self.items@.len(),
                forall|k: int| 0 <= k < i ==> !other@.contains((#[trigger] self.items@[k])@),
            decreases self.items.len() - i,
        {
            if other.contains(self.items[i].as_str()) {
                proof {
                    assert(text::views(self.items@)[i as int] == self.items@[i as int]@);
                }
                return Some(self.items[i].clone());
            }
            i = i + 1;
        }
        assert forall|n: Seq<char>| self@.contains(n) implies !other@.contains(n) by {
            let k = choose|k: int|
                0 <= k < text::views(self.items@).len() && text::views(self.items@)[k] == n;
            assert(self.items@[k]@ == n);
        }
        None
    }
}

impl Duplicate for NameSet {
    fn duplicate(&self) -> (copy: Self) {
        proof {
            use_type_invariant(self);
        }
        NameSet { items: text::copy_all(&self.items) }
    }
}

// ---------------------------------------------------------------------------
// Laws
// ---------------------------------------------------------------------------

/// A name reads the value of its first pair, a name of no pair reads nothing,
/// and a value stored under a name stands where the name stood.
pub proof fn the_first_pair_of_a_name_decides<V>(
    front: Seq<(Seq<char>, V)>,
    key: Seq<char>,
    value: V,
    back: Seq<(Seq<char>, V)>,
    next: V,
)
    requires
        forall|i: int| 0 <= i < front.len() ==> (#[trigger] front[i]).0 != key,
    ensures
        find(front, key) is None,
        find(front + seq![(key, value)] + back, key) == Some(value),
        with_entry(front, key, value) == front.push((key, value)),
        with_entry(front + seq![(key, value)] + back, key, next) == front + seq![(key, next)] + back,
{
    let all = front + seq![(key, value)] + back;
    lemma_position_is(front, key, front.len() as int);
    assert forall|i: int| 0 <= i < front.len() implies (#[trigger] all[i]).0 != key by {
        assert(all[i] == front[i]);
    }
    assert(all[front.len() as int] == (key, value));
    lemma_position_is(all, key, front.len() as int);
    assert(with_entry(all, key, next) =~= front + seq![(key, next)] + back);
}

/// The keys of a list of pairs are the first halves of its pairs, and its deep
/// form has the views of the second halves.
pub proof fn keys_and_views_stand_pair_by_pair<V: View>(s: Seq<(Seq<char>, V)>, i: int)
    requires
        0 <= i < s.len(),
    ensures
        keys(s).len() == s.len(),
        keys(s)[i] == s[i].0,
        deep(s).len() == s.len(),
        deep(s)[i].0 == s[i].0,
        deep(s)[i].1 == s[i].1@,
{
}

/// A map gives the value that was put under a name last, and a set holds the
/// names that were put in.
pub proof fn maps_give_what_was_put_in<V>(
    map: &mut NameMap<V>,
    key: String,
    value: V,
    set: &mut NameSet,
    name: String,
    other: Seq<char>,
)
    requires
        call_ensures(NameMap::<V>::insert, (map, key, value), ()),
        call_ensures(NameSet::insert, (set, name), ()),
    ensures
        find(final(map)@, key@) == Some(value),
        other != key@ ==> find(final(map)@, other) == find(old(map)@, other),
        final(set)@.contains(name@),
        other != name@ ==> (final(set)@.contains(other) <==> old(set)@.contains(other)),
{
    store_then_find(old(map)@, key@, value, other);
}

/// A lookup gives the value under the name, and a set tells its names.
pub proof fn lookups_give_the_value_under_the_name<V>(
    map: &NameMap<V>,
    key: &str,
    value: Option<&V>,
    known: bool,
    list: &Vec<String>,
    set: NameSet,
    name: Seq<char>,
)
    requires
        call_ensures(NameMap::<V>::get, (map, key), value),
        call_ensures(NameMap::<V>::contains_key, (map, key), known),
        call_ensures(NameSet::from_list, (list,), set),
    ensures
        match value {
            Some(v) => find(map@, key@) == Some(*v),
            None => find(map@, key@) is None,
        },
        known <==> find(map@, key@) is Some,
        set@.contains(name) <==> exists|i: int|
            0 <= i < list@.len() && (#[trigger] list@[i])@ == name,
{
    lemma_position(map@, key@);
    text::lemma_listed(list@, name);
}

} // verus!
