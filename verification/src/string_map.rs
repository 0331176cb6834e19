use vstd::prelude::*;
use vstd::string::*;
use vstd::utf8::*;

verus! {

/// `a` comes before `b` because the two agree on their first `i` bytes and
/// then either `a` ends or `a` holds the smaller byte.
pub open spec fn bytes_less_at(a: Seq<u8>, b: Seq<u8>, i: int) -> bool {
    &&& 0 <= i <= a.len()
    &&& i <= b.len()
    &&& forall|j: int| 0 <= j < i ==> a[j] == b[j]
    &&& (i == a.len() && i < b.len()) || (i < a.len() && i < b.len() && a[i] < b[i])
}

/// Lexicographic order on byte strings.
pub open spec fn bytes_less(a: Seq<u8>, b: Seq<u8>) -> bool {
    exists|i: int| bytes_less_at(a, b, i)
}

/// The order of keys: lexicographic by the bytes of their UTF-8 encoding.
pub open spec fn key_less(a: Seq<char>, b: Seq<char>) -> bool {
    bytes_less(encode_utf8(a), encode_utf8(b))
}

/// How one key stands to another in the order of keys.
#[derive(Debug, Clone, Copy, PartialEq, Eq, Structural)]
pub enum KeyOrder {
    Before,
    Same,
    After,
}

/// No byte string comes before itself.
pub proof fn lemma_bytes_less_irreflexive(a: Seq<u8>)
    ensures
        !bytes_less(a, a),
{
}

/// The order on byte strings is transitive.
pub proof fn lemma_bytes_less_transitive(a: Seq<u8>, b: Seq<u8>, c: Seq<u8>)
    requires
        bytes_less(a, b),
        bytes_less(b, c),
    ensures
        bytes_less(a, c),
{
    let i = choose|i: int| bytes_less_at(a, b, i);
    let j = choose|j: int| bytes_less_at(b, c, j);
    let k = if i <= j {
        i
    } else {
        j
    };
    assert(bytes_less_at(a, c, k));
}

/// The order of keys is a strict order: no key comes before itself, and the
/// order is transitive.
pub proof fn lemma_key_less_strict(a: Seq<char>, b: Seq<char>, c: Seq<char>)
    ensures
        !key_less(a, a),
        key_less(a, b) && key_less(b, c) ==> key_less(a, c),
        key_less(a, b) ==> a != b,
{
    lemma_bytes_less_irreflexive(encode_utf8(a));
    if key_less(a, b) && key_less(b, c) {
        lemma_bytes_less_transitive(encode_utf8(a), encode_utf8(b), encode_utf8(c));
    }
}

/// Compares two keys byte by byte.
pub fn compare_keys(a: &str, b: &str) -> (order: KeyOrder)
    ensures
        order == KeyOrder::Before <==> key_less(a@, b@),
        order == KeyOrder::Same <==> a@ == b@,
        order == KeyOrder::After <==> key_less(b@, a@),
{
    let x = a.as_bytes();
    let y = b.as_bytes();
    proof {
        lemma_key_less_strict(a@, b@, a@);
        lemma_key_less_strict(b@, a@, b@);
    }
    let mut i: usize = 0;
    while i < x.len() && i < y.len()
        invariant
            x@ == encode_utf8(a@),
            y@ == encode_utf8(b@),
            i <= x@.len(),
            i <= y@.len(),
            forall|j: int| 0 <= j < i ==> x@[j] == y@[j],
        decreases x@.len() - i,
    {
        if x[i] < y[i] {
            assert(bytes_less_at(x@, y@, i as int));
            return KeyOrder::Before;
        }
        if x[i] > y[i] {
            assert(bytes_less_at(y@, x@, i as int));
            return KeyOrder::After;
        }
        i += 1;
    }
    if i < y.len() {
        assert(bytes_less_at(x@, y@, i as int));
        KeyOrder::Before
    } else if i < x.len() {
        assert(bytes_less_at(y@, x@, i as int));
        KeyOrder::After
    } else {
        proof {
            assert(x@ =~= y@);
            encode_utf8_decode_utf8(a@);
            encode_utf8_decode_utf8(b@);
        }
        KeyOrder::Same
    }
}

/// The keys of `pairs` stand in strictly ascending order; no key occurs twice.
pub open spec fn strictly_sorted(pairs: Seq<(Seq<char>, Seq<char>)>) -> bool {
    forall|i: int, j: int| 0 <= i < j < pairs.len() ==> key_less(pairs[i].0, pairs[j].0)
}

/// Whether some pair of `pairs` has the key `key`.
pub open spec fn has_key(pairs: Seq<(Seq<char>, Seq<char>)>, key: Seq<char>) -> bool {
    exists|i: int| 0 <= i < pairs.len() && pairs[i].0 == key
}

/// The mapping that a list of pairs with distinct keys stands for.
pub open spec fn pairs_map(pairs: Seq<(Seq<char>, Seq<char>)>) -> Map<Seq<char>, Seq<char>> {
    Map::new(
        |key: Seq<char>| has_key(pairs, key),
        |key: Seq<char>| pairs[choose|i: int| 0 <= i < pairs.len() && pairs[i].0 == key].1,
    )
}

/// In a sorted list every pair is found in the mapping under its own key.
pub proof fn lemma_pairs_map_holds(pairs: Seq<(Seq<char>, Seq<char>)>)
    requires
        strictly_sorted(pairs),
    ensures
        forall|i: int|
            0 <= i < pairs.len() ==> pairs_map(pairs).contains_key(#[trigger] pairs[i].0)
                && pairs_map(pairs)[pairs[i].0] == pairs[i].1,
{
    assert forall|i: int| 0 <= i < pairs.len() implies pairs_map(pairs).contains_key(
        #[trigger] pairs[i].0,
    ) && pairs_map(pairs)[pairs[i].0] == pairs[i].1 by {
        let key = pairs[i].0;
        assert(has_key(pairs, key));
        let j = choose|j: int| 0 <= j < pairs.len() && pairs[j].0 == key;
        lemma_key_less_strict(key, key, key);
        if j < i {
            assert(key_less(pairs[j].0, pairs[i].0));
        } else if i < j {
            assert(key_less(pairs[i].0, pairs[j].0));
        }
    }
}

/// A mapping from string keys to string values that keeps its entries in
/// ascending order of their keys, each key once.
#[derive(Debug)]
pub struct StringMap {
    entries: Vec<(String, String)>,
}

/// The keys and values of a list of entries, as plain sequences.
pub open spec fn pairs_of(entries: Seq<(String, String)>) -> Seq<(Seq<char>, Seq<char>)> {
    Seq::new(entries.len(), |i: int| (entries[i].0@, entries[i].1@))
}

impl View for StringMap {
    type V = Map<Seq<char>, Seq<char>>;

    open spec fn view(&self) -> Map<Seq<char>, Seq<char>> {
        pairs_map(self.pairs())
    }
}

impl StringMap {
    /// The entries in the order in which the map holds and hands them out.
    pub closed spec fn pairs(&self) -> Seq<(Seq<char>, Seq<char>)> {
        pairs_of(self.entries@)
    }

    #[verifier::type_invariant]
    spec fn ordered(&self) -> bool {
        strictly_sorted(self.pairs())
    }

    /// A map without entries.
    pub fn new() -> (map: StringMap)
        ensures
            map@ == Map::<Seq<char>, Seq<char>>::empty(),
            map.pairs() == Seq::<(Seq<char>, Seq<char>)>::empty(),
    {
        let map = StringMap { entries: Vec::new() };
        assert(map.pairs() =~= Seq::<(Seq<char>, Seq<char>)>::empty());
        assert(map@ =~= Map::<Seq<char>, Seq<char>>::empty());
        map
    }

    /// The number of entries.
    pub fn len(&self) -> (n: usize)
        ensures
            n == self.pairs().len(),
            n == self@.dom().len(),
            self@.dom().finite(),
    {
        proof {
            use_type_invariant(self);
            lemma_pairs_map_dom(self.pairs());
        }
        self.entries.len()
    }

    /// Whether the map has no entry.
    pub fn is_empty(&self) -> (empty: bool)
        ensures
            empty == (self.pairs().len() == 0),
            empty == (self@ == Map::<Seq<char>, Seq<char>>::empty()),
    {
        proof {
            if self.pairs().len() == 0 {
                assert(self@ =~= Map::<Seq<char>, Seq<char>>::empty());
            } else {
                assert(has_key(self.pairs(), self.pairs()[0].0));
                assert(self@.contains_key(self.pairs()[0].0));
            }
        }
        self.entries.len() == 0
    }

    /// The place of `key` among the entries: the index of its entry where it
    /// has one, else the index at which an entry for it would have to stand.
    fn position(&self, key: &str) -> (place: (usize, bool))
        ensures
            place.0 <= self.pairs().len(),
            forall|j: int| 0 <= j < place.0 ==> key_less(#[trigger] self.pairs()[j].0, key@),
            place.1 ==> place.0 < self.pairs().len() && self.pairs()[place.0 as int].0 == key@,
            !place.1 ==> forall|j: int|
                place.0 <= j < self.pairs().len() ==> key_less(key@, #[trigger] self.pairs()[j].0),
            place.1 == self@.contains_key(key@),
    {
        proof {
            use_type_invariant(self);
        }
        let mut i: usize = 0;
        let mut found = false;
        let mut done = false;
        while i < self.entries.len() && !done
            invariant
                strictly_sorted(self.pairs()),
                i <= self.pairs().len(),
                self.pairs().len() == self.entries@.len(),
                forall|j: int| 0 <= j < i ==> key_less(#[trigger] self.pairs()[j].0, key@),
                found ==> done,
                found ==> i < self.pairs().len() && self.pairs()[i as int].0 == key@,
                done && !found ==> i < self.pairs().len() && key_less(
                    key@,
                    self.pairs()[i as int].0,
                ),
            decreases self.entries@.len() - i + (if done { 0int } else { 1int }),
        {
            let order = compare_keys(self.entries[i].0.as_str(), key);
            assert(self.pairs()[i as int].0 == self.entries@[i as int].0@);
            match order {
                KeyOrder::Before => {
                    i += 1;
                },
                KeyOrder::Same => {
                    found = true;
                    done = true;
                },
                KeyOrder::After => {
                    done = true;
                },
            }
        }
        proof {
            let pairs = self.pairs();
            if !found {
                assert forall|j: int| i <= j < pairs.len() implies key_less(
                    key@,
                    #[trigger] pairs[j].0,
                ) by {
                    if j > i {
                        lemma_key_less_strict(key@, pairs[i as int].0, pairs[j].0);
                    }
                }
                if has_key(pairs, key@) {
                    let j = choose|j: int| 0 <= j < pairs.len() && pairs[j].0 == key@;
                    lemma_key_less_strict(key@, key@, key@);
                    assert(key_less(pairs[j].0, key@) || key_less(key@, pairs[j].0));
                }
            } else {
                assert(has_key(pairs, key@));
            }
        }
        (i, found)
    }

    /// Whether the map has an entry for `key`.
    pub fn contains_key(&self, key: &str) -> (present: bool)
        ensures
            present == self@.contains_key(key@),
    {
        let place = self.position(key);
        place.1
    }

    /// The value that the map holds for `key`.
    pub fn get(&self, key: &str) -> (value: Option<&String>)
        ensures
            self@.contains_key(key@) ==> value is Some && value->Some_0@ == self@[key@],
            !self@.contains_key(key@) ==> value is None,
    {
        let place = self.position(key);
        if place.1 {
            proof {
                use_type_invariant(self);
                lemma_pairs_map_holds(self.pairs());
            }
            Some(&self.entries[place.0].1)
        } else {
            None
        }
    }

    /// Sets the value for `key`, and hands back the value that the map held
    /// for it before, if it held one. The other entries stay as they are.
    pub fn insert(&mut self, key: String, value: String) -> (previous: Option<String>)
        ensures
            final(self)@ == old(self)@.insert(key@, value@),
            old(self)@.contains_key(key@) ==> previous is Some && previous->Some_0@ == old(
                self,
            )@[key@],
            !old(self)@.contains_key(key@) ==> previous is None,
            final(self).pairs().len() == old(self).pairs().len() + (if old(self)@.contains_key(
                key@,
            ) {
                0int
            } else {
                1int
            }),
    {
        let place = self.position(key.as_str());
        let ghost before = self.pairs();
        proof {
            use_type_invariant(&*self);
            lemma_pairs_map_holds(before);
        }
        let mut entries: Vec<(String, String)> = Vec::new();
        assert(pairs_of(entries@) =~= Seq::<(Seq<char>, Seq<char>)>::empty());
        core::mem::swap(&mut self.entries, &mut entries);
        assert(pairs_of(entries@) == before);
        if place.1 {
            let previous = entries[place.0].1.clone();
            proof {
                let after = before.update(place.0 as int, (key@, value@));
                assert(pairs_of(entries@.update(place.0 as int, (key, value))) =~= after);
                lemma_update_value(before, place.0 as int, value@);
            }
            entries.set(place.0, (key, value));
            self.entries = entries;
            Some(previous)
        } else {
            proof {
                let after = before.insert(place.0 as int, (key@, value@));
                assert(pairs_of(entries@.insert(place.0 as int, (key, value))) =~= after);
                lemma_insert_pair(before, place.0 as int, key@, value@);
            }
            entries.insert(place.0, (key, value));
            self.entries = entries;
            None
        }
    }

    /// The entries in ascending order of their keys.
    pub fn entries(&self) -> (list: &Vec<(String, String)>)
        ensures
            pairs_of(list@) == self.pairs(),
            strictly_sorted(self.pairs()),
            pairs_map(pairs_of(list@)) == self@,
    {
        proof {
            use_type_invariant(self);
        }
        &self.entries
    }

    /// The keys in ascending order.
    pub fn keys(&self) -> (names: Vec<String>)
        ensures
            names@.len() == self.pairs().len(),
            forall|i: int| 0 <= i < names@.len() ==> (#[trigger] names@[i])@ == self.pairs()[i].0,
            strictly_sorted(self.pairs()),
    {
        proof {
            use_type_invariant(self);
        }
        let mut names: Vec<String> = Vec::new();
        let mut i: usize = 0;
        while i < self.entries.len()
            invariant
                i <= self.entries@.len(),
                names@.len() == i,
                self.pairs() == pairs_of(self.entries@),
                forall|j: int| 0 <= j < i ==> (#[trigger] names@[j])@ == self.pairs()[j].0,
            decreases self.entries@.len() - i,
        {
            names.push(self.entries[i].0.clone());
            i += 1;
        }
        names
    }

    /// Takes over every entry of `other`. Where both maps hold a key, the
    /// value of `other` replaces the one held so far; entries whose keys
    /// `other` lacks stay as they are.
    pub fn merge_from(&mut self, other: &StringMap)
        ensures
            final(self)@ == old(self)@.union_prefer_right(other@),
    {
        proof {
            use_type_invariant(other);
        }
        let ghost start = self@;
        let ghost theirs = other.pairs();
        let mut i: usize = 0;
        assert(self@ =~= start.union_prefer_right(pairs_map(theirs.take(0))));
        while i < other.entries.len()
            invariant
                i <= other.entries@.len(),
                theirs == pairs_of(other.entries@),
                strictly_sorted(theirs),
                self@ == start.union_prefer_right(pairs_map(theirs.take(i as int))),
            decreases other.entries@.len() - i,
        {
            let key = other.entries[i].0.clone();
            let value = other.entries[i].1.clone();
            proof {
                lemma_take_next(theirs, i as int);
                assert(theirs[i as int] == (key@, value@));
            }
            let _ = self.insert(key, value);
            proof {
                assert(self@ =~= start.union_prefer_right(pairs_map(theirs.take(i + 1))));
            }
            i += 1;
        }
        assert(theirs.take(i as int) =~= theirs);
    }

    /// The map that holds the given pairs. Where a key occurs more than once,
    /// its last value stays.
    pub fn from_pairs(list: &Vec<(String, String)>) -> (map: StringMap)
        ensures
            map@ == folded(pairs_of(list@)),
    {
        let mut map = StringMap::new();
        let mut i: usize = 0;
        let ghost given = pairs_of(list@);
        assert(given.take(0) =~= Seq::<(Seq<char>, Seq<char>)>::empty());
        while i < list.len()
            invariant
                i <= list@.len(),
                given == pairs_of(list@),
                map@ == folded(given.take(i as int)),
            decreases list@.len() - i,
        {
            let key = list[i].0.clone();
            let value = list[i].1.clone();
            proof {
                assert(given.take(i + 1).drop_last() =~= given.take(i as int));
                assert(given.take(i + 1).last() == (key@, value@));
            }
            let _ = map.insert(key, value);
            i += 1;
        }
        assert(given.take(i as int) =~= given);
        map
    }
}

impl Clone for StringMap {
    fn clone(&self) -> (copy: StringMap)
        ensures
            copy@ == self@,
            copy.pairs() == self.pairs(),
    {
        proof {
            use_type_invariant(self);
        }
        let mut entries: Vec<(String, String)> = Vec::new();
        let mut i: usize = 0;
        while i < self.entries.len()
            invariant
                i <= self.entries@.len(),
                entries@.len() == i,
                forall|j: int|
                    0 <= j < i ==> (#[trigger] entries@[j]).0@ == self.entries@[j].0@
                        && entries@[j].1@ == self.entries@[j].1@,
            decreases self.entries@.len() - i,
        {
            entries.push((self.entries[i].0.clone(), self.entries[i].1.clone()));
            i += 1;
        }
        assert(pairs_of(entries@) =~= self.pairs());
        StringMap { entries }
    }
}

/// The mapping that arises when the pairs are put into an empty map one
/// after the other, a later pair replacing an earlier one with its key.
pub open spec fn folded(pairs: Seq<(Seq<char>, Seq<char>)>) -> Map<Seq<char>, Seq<char>>
    decreases pairs.len(),
{
    if pairs.len() == 0 {
        Map::empty()
    } else {
        folded(pairs.drop_last()).insert(pairs.last().0, pairs.last().1)
    }
}

/// The first `i + 1` pairs of a sorted list stand for the mapping of the
/// first `i` with the next pair put in.
pub proof fn lemma_take_next(pairs: Seq<(Seq<char>, Seq<char>)>, i: int)
    requires
        strictly_sorted(pairs),
        0 <= i < pairs.len(),
    ensures
        pairs_map(pairs.take(i + 1)) == pairs_map(pairs.take(i)).insert(pairs[i].0, pairs[i].1),
{
    let front = pairs.take(i);
    assert forall|a: int, b: int| 0 <= a < b < front.len() implies key_less(
        front[a].0,
        front[b].0,
    ) by {
        assert(key_less(pairs[a].0, pairs[b].0));
    }
    assert forall|j: int| 0 <= j < i implies key_less(#[trigger] front[j].0, pairs[i].0) by {
        assert(key_less(pairs[j].0, pairs[i].0));
    }
    lemma_insert_pair(front, i, pairs[i].0, pairs[i].1);
    assert(front.insert(i, pairs[i]) =~= pairs.take(i + 1));
}

/// Replacing the value of one pair keeps the list sorted and sets that key
/// in the mapping.
pub proof fn lemma_update_value(pairs: Seq<(Seq<char>, Seq<char>)>, i: int, value: Seq<char>)
    requires
        strictly_sorted(pairs),
        0 <= i < pairs.len(),
    ensures
        strictly_sorted(pairs.update(i, (pairs[i].0, value))),
        pairs_map(pairs.update(i, (pairs[i].0, value))) == pairs_map(pairs).insert(
            pairs[i].0,
            value,
        ),
{
    let key = pairs[i].0;
    let after = pairs.update(i, (key, value));
    assert(strictly_sorted(after)) by {
        assert forall|a: int, b: int| 0 <= a < b < after.len() implies key_less(
            after[a].0,
            after[b].0,
        ) by {
            assert(key_less(pairs[a].0, pairs[b].0));
        }
    }
    lemma_pairs_map_holds(pairs);
    lemma_pairs_map_holds(after);
    assert forall|k: Seq<char>| has_key(after, k) <==> has_key(pairs, k) by {
        if has_key(after, k) {
            let j = choose|j: int| 0 <= j < after.len() && after[j].0 == k;
            assert(pairs[j].0 == k);
        }
        if has_key(pairs, k) {
            let j = choose|j: int| 0 <= j < pairs.len() && pairs[j].0 == k;
            assert(after[j].0 == k);
        }
    }
    assert forall|k: Seq<char>| has_key(after, k) implies #[trigger] pairs_map(after)[k]
        == pairs_map(pairs).insert(key, value)[k] by {
        let j = choose|j: int| 0 <= j < after.len() && after[j].0 == k;
        assert(pairs_map(after)[after[j].0] == after[j].1);
        if j != i {
            assert(pairs_map(pairs)[pairs[j].0] == pairs[j].1);
            assert(pairs[j].0 != key) by {
                lemma_key_less_strict(key, key, key);
                if j < i {
                    assert(key_less(pairs[j].0, pairs[i].0));
                } else {
                    assert(key_less(pairs[i].0, pairs[j].0));
                }
            }
        }
    }
    assert(pairs_map(after) =~= pairs_map(pairs).insert(key, value));
}

/// Putting a new key at its place keeps the list sorted and adds the key to
/// the mapping.
pub proof fn lemma_insert_pair(
    pairs: Seq<(Seq<char>, Seq<char>)>,
    i: int,
    key: Seq<char>,
    value: Seq<char>,
)
    requires
        strictly_sorted(pairs),
        0 <= i <= pairs.len(),
        forall|j: int| 0 <= j < i ==> key_less(#[trigger] pairs[j].0, key),
        forall|j: int| i <= j < pairs.len() ==> key_less(key, #[trigger] pairs[j].0),
    ensures
        strictly_sorted(pairs.insert(i, (key, value))),
        pairs_map(pairs.insert(i, (key, value))) == pairs_map(pairs).insert(key, value),
{
    let after = pairs.insert(i, (key, value));
    assert(strictly_sorted(after)) by {
        assert forall|a: int, b: int| 0 <= a < b < after.len() implies key_less(
            after[a].0,
            after[b].0,
        ) by {
            if b < i {
                assert(key_less(pairs[a].0, pairs[b].0));
            } else if b == i {
                assert(key_less(pairs[a].0, key));
            } else if a < i {
                assert(key_less(pairs[a].0, pairs[b - 1].0));
            } else if a == i {
                assert(key_less(key, pairs[b - 1].0));
            } else {
                assert(key_less(pairs[a - 1].0, pairs[b - 1].0));
            }
        }
    }
    lemma_pairs_map_holds(pairs);
    lemma_pairs_map_holds(after);
    assert forall|k: Seq<char>| has_key(after, k) <==> (has_key(pairs, k) || k == key) by {
        if has_key(after, k) {
            let j = choose|j: int| 0 <= j < after.len() && after[j].0 == k;
            if j < i {
                assert(pairs[j].0 == k);
            } else if j > i {
                assert(pairs[j - 1].0 == k);
            }
        }
        if has_key(pairs, k) {
            let j = choose|j: int| 0 <= j < pairs.len() && pairs[j].0 == k;
            if j < i {
                assert(after[j].0 == k);
            } else {
                assert(after[j + 1].0 == k);
            }
        }
        if k == key {
            assert(after[i].0 == k);
        }
    }
    assert forall|k: Seq<char>| has_key(after, k) implies #[trigger] pairs_map(after)[k]
        == pairs_map(pairs).insert(key, value)[k] by {
        let j = choose|j: int| 0 <= j < after.len() && after[j].0 == k;
        assert(pairs_map(after)[after[j].0] == after[j].1);
        if j < i {
            assert(pairs_map(pairs)[pairs[j].0] == pairs[j].1);
            assert(key_less(pairs[j].0, key));
            lemma_key_less_strict(k, key, key);
        } else if j > i {
            assert(pairs_map(pairs)[pairs[j - 1].0] == pairs[j - 1].1);
            assert(key_less(key, pairs[j - 1].0));
            lemma_key_less_strict(key, k, k);
        }
    }
    assert(pairs_map(after) =~= pairs_map(pairs).insert(key, value));
}

/// The keys of the mapping are the keys of the pairs, each counted once.
pub proof fn lemma_pairs_map_dom(pairs: Seq<(Seq<char>, Seq<char>)>)
    requires
        strictly_sorted(pairs),
    ensures
        pairs_map(pairs).dom().finite(),
        pairs_map(pairs).dom().len() == pairs.len(),
    decreases pairs.len(),
{
    if pairs.len() == 0 {
        assert(pairs_map(pairs).dom() =~= Set::<Seq<char>>::empty());
    } else {
        let front = pairs.drop_last();
        let last = pairs.last();
        lemma_pairs_map_dom(front);
        assert(!has_key(front, last.0)) by {
            if has_key(front, last.0) {
                let j = choose|j: int| 0 <= j < front.len() && front[j].0 == last.0;
                assert(key_less(pairs[j].0, pairs[pairs.len() - 1].0));
                lemma_key_less_strict(last.0, last.0, last.0);
            }
        }
        assert(pairs_map(pairs).dom() =~= pairs_map(front).dom().insert(last.0)) by {
            assert forall|key: Seq<char>| has_key(pairs, key) <==> (has_key(front, key) || key
                == last.0) by {
                if has_key(pairs, key) {
                    let j = choose|j: int| 0 <= j < pairs.len() && pairs[j].0 == key;
                    if j < front.len() {
                        assert(front[j].0 == key);
                    }
                }
                if has_key(front, key) {
                    let j = choose|j: int| 0 <= j < front.len() && front[j].0 == key;
                    assert(pairs[j].0 == key);
                }
                if key == last.0 {
                    assert(pairs[pairs.len() - 1].0 == key);
                }
            }
        }
    }
}

/// A sorted list without its last pair stands for the mapping without the
/// last key.
proof fn lemma_drop_last(pairs: Seq<(Seq<char>, Seq<char>)>)
    requires
        strictly_sorted(pairs),
        pairs.len() > 0,
    ensures
        strictly_sorted(pairs.drop_last()),
        pairs_map(pairs.drop_last()) == pairs_map(pairs).remove(pairs.last().0),
{
    let front = pairs.drop_last();
    let last = pairs.last();
    let n = pairs.len() - 1;
    assert forall|a: int, b: int| 0 <= a < b < front.len() implies key_less(
        front[a].0,
        front[b].0,
    ) by {
        assert(key_less(pairs[a].0, pairs[b].0));
    }
    assert forall|j: int| 0 <= j < n implies key_less(#[trigger] front[j].0, last.0) by {
        assert(key_less(pairs[j].0, pairs[n].0));
    }
    lemma_insert_pair(front, n, last.0, last.1);
    assert(front.insert(n, last) =~= pairs);
    assert(!has_key(front, last.0)) by {
        if has_key(front, last.0) {
            let j = choose|j: int| 0 <= j < front.len() && front[j].0 == last.0;
            assert(key_less(front[j].0, last.0));
            lemma_key_less_strict(last.0, last.0, last.0);
        }
    }
    assert(pairs_map(front) =~= pairs_map(pairs).remove(last.0));
}

/// A mapping has one sorted list of entries only: two sorted lists that
/// stand for the same mapping are the same list. So what is known of the
/// mapping of a `StringMap` settles the order in which it hands its entries
/// out.
pub proof fn lemma_sorted_pairs_unique(
    one: Seq<(Seq<char>, Seq<char>)>,
    other: Seq<(Seq<char>, Seq<char>)>,
)
    requires
        strictly_sorted(one),
        strictly_sorted(other),
        pairs_map(one) == pairs_map(other),
    ensures
        one == other,
    decreases one.len(),
{
    lemma_pairs_map_dom(one);
    lemma_pairs_map_dom(other);
    if one.len() == 0 {
        assert(one =~= other);
    } else {
        let n = one.len() - 1;
        let a = one[n];
        let b = other[n];
        lemma_pairs_map_holds(one);
        lemma_pairs_map_holds(other);
        assert(pairs_map(one).contains_key(one[n].0));
        assert(pairs_map(other).contains_key(other[n].0));
        assert(has_key(other, a.0));
        assert(has_key(one, b.0));
        let j = choose|j: int| 0 <= j < other.len() && other[j].0 == a.0;
        let k = choose|k: int| 0 <= k < one.len() && one[k].0 == b.0;
        if a.0 != b.0 {
            assert(key_less(other[j].0, other[n].0));
            assert(key_less(one[k].0, one[n].0));
            lemma_key_less_strict(a.0, b.0, a.0);
        }
        assert(pairs_map(one)[one[n].0] == one[n].1);
        assert(pairs_map(other)[other[n].0] == other[n].1);
        assert(a == b);
        lemma_drop_last(one);
        lemma_drop_last(other);
        lemma_sorted_pairs_unique(one.drop_last(), other.drop_last());
        assert(one =~= one.drop_last().push(a));
        assert(other =~= other.drop_last().push(b));
    }
}

} // verus!
