//! The order of texts, lists of texts in that order, and maps from texts to texts.

use vstd::prelude::*;
use crate::text::{chars_of, views};

verus! {

/// Whether `a` comes before `b`: by the first character in which they differ, and a text before
/// those that it begins.
pub open spec fn precedes(a: Seq<char>, b: Seq<char>) -> bool
    decreases a.len(),
{
    if b.len() == 0 {
        false
    } else if a.len() == 0 {
        true
    } else if a[0] != b[0] {
        a[0] < b[0]
    } else {
        precedes(a.skip(1), b.skip(1))
    }
}

/// Whether each text of the list comes before all that stand behind it.
pub open spec fn ascending(list: Seq<Seq<char>>) -> bool {
    forall|i: int, j: int| 0 <= i < j < list.len() ==> precedes(#[trigger] list[i], #[trigger] list[j])
}

/// No text comes before itself.
pub proof fn order_is_strict(a: Seq<char>)
    ensures
        !precedes(a, a),
    decreases a.len(),
{
    if a.len() > 0 {
        order_is_strict(a.skip(1));
    }
}

/// What comes before a text comes before all that this text comes before.
pub proof fn order_is_transitive(a: Seq<char>, b: Seq<char>, c: Seq<char>)
    requires
        precedes(a, b),
        precedes(b, c),
    ensures
        precedes(a, c),
    decreases a.len(),
{
    if a.len() > 0 && b.len() > 0 && c.len() > 0 && a[0] == b[0] && b[0] == c[0] {
        order_is_transitive(a.skip(1), b.skip(1), c.skip(1));
    }
}

/// Of two different texts one comes before the other.
pub proof fn order_is_total(a: Seq<char>, b: Seq<char>)
    requires
        a != b,
    ensures
        precedes(a, b) || precedes(b, a),
    decreases a.len(),
{
    if a.len() > 0 && b.len() > 0 && a[0] == b[0] {
        if a.skip(1) == b.skip(1) {
            assert(a =~= seq![a[0]] + a.skip(1));
            assert(b =~= seq![b[0]] + b.skip(1));
        }
        order_is_total(a.skip(1), b.skip(1));
    } else if a.len() == 0 && b.len() == 0 {
        assert(a =~= b);
    }
}

/// Whether `a` comes before `b`.
pub fn comes_before(a: &str, b: &str) -> (r: bool)
    ensures
        r == precedes(a@, b@),
{
    let x = chars_of(a);
    let y = chars_of(b);
    let mut i: usize = 0;
    assert(a@.skip(0) =~= a@);
    assert(b@.skip(0) =~= b@);
    while i < x.len() && i < y.len() && x[i] == y[i]
        invariant
            x@ == a@,
            y@ == b@,
            i <= x@.len(),
            i <= y@.len(),
            precedes(a@.skip(i as int), b@.skip(i as int)) == precedes(a@, b@),
        decreases x@.len() - i,
    {
        assert(a@.skip(i as int).skip(1) =~= a@.skip(i + 1));
        assert(b@.skip(i as int).skip(1) =~= b@.skip(i + 1));
        i = i + 1;
    }
    if i == y.len() {
        false
    } else if i == x.len() {
        true
    } else {
        assert(a@.skip(i as int)[0] == a@[i as int]);
        assert(b@.skip(i as int)[0] == b@[i as int]);
        x[i] < y[i]
    }
}

// ---------------------------------------------------------------- lists

/// Whether `sorted` lists the texts of `list` in ascending order, each of them once.
pub open spec fn lists_in_order(sorted: Seq<Seq<char>>, list: Seq<Seq<char>>) -> bool {
    &&& ascending(sorted)
    &&& forall|t: Seq<char>| #[trigger] sorted.contains(t) <==> list.contains(t)
}

/// A list in ascending order is fixed by the texts that it holds.
pub proof fn order_fixes_the_list(a: Seq<Seq<char>>, b: Seq<Seq<char>>)
    requires
        ascending(a),
        ascending(b),
        forall|t: Seq<char>| #[trigger] a.contains(t) <==> b.contains(t),
    ensures
        a == b,
    decreases a.len(),
{
    if a.len() == 0 {
        if b.len() > 0 {
            assert(b.contains(b[0]));
            assert(a.contains(b[0]));
        }
        assert(a =~= b);
    } else {
        assert(a.contains(a.last()));
        let j = choose|j: int| 0 <= j < b.len() && b[j] == a.last();
        assert(b.contains(b.last()));
        assert(a.contains(b.last()));
        let i = choose|i: int| 0 <= i < a.len() && a[i] == b.last();
        if a.last() != b.last() {
            order_is_transitive(a[i], a.last(), a[i]);
            order_is_strict(a[i]);
        }
        let x = a.drop_last();
        let y = b.drop_last();
        assert forall|t: Seq<char>| #[trigger] x.contains(t) <==> y.contains(t) by {
            if x.contains(t) {
                let k = choose|k: int| 0 <= k < x.len() && x[k] == t;
                assert(a[k] == t);
                assert(precedes(a[k], a.last()));
                order_is_strict(t);
                assert(a.contains(t));
                assert(b.contains(t));
                let m = choose|m: int| 0 <= m < b.len() && b[m] == t;
                assert(y[m] == t);
            }
            if y.contains(t) {
                let k = choose|k: int| 0 <= k < y.len() && y[k] == t;
                assert(b[k] == t);
                assert(precedes(b[k], b.last()));
                order_is_strict(t);
                assert(b.contains(t));
                assert(a.contains(t));
                let m = choose|m: int| 0 <= m < a.len() && a[m] == t;
                assert(x[m] == t);
            }
        }
        assert(ascending(x)) by {
            assert forall|p: int, q: int| 0 <= p < q < x.len() implies precedes(
                #[trigger] x[p],
                #[trigger] x[q],
            ) by {
                assert(precedes(a[p], a[q]));
            }
        }
        assert(ascending(y)) by {
            assert forall|p: int, q: int| 0 <= p < q < y.len() implies precedes(
                #[trigger] y[p],
                #[trigger] y[q],
            ) by {
                assert(precedes(b[p], b[q]));
            }
        }
        order_fixes_the_list(x, y);
        assert(a =~= x.push(a.last()));
        assert(b =~= y.push(b.last()));
    }
}

proof fn lemma_insert_ascending(list: Seq<Seq<char>>, at: int, t: Seq<char>)
    requires
        ascending(list),
        0 <= at <= list.len(),
        forall|i: int| 0 <= i < at ==> precedes(#[trigger] list[i], t),
        forall|i: int| at <= i < list.len() ==> precedes(t, #[trigger] list[i]),
    ensures
        ascending(list.insert(at, t)),
        forall|u: Seq<char>| #[trigger] list.insert(at, t).contains(u) <==> u == t
            || list.contains(u),
{
    let grown = list.insert(at, t);
    assert forall|i: int, j: int| 0 <= i < j < grown.len() implies precedes(
        #[trigger] grown[i],
        #[trigger] grown[j],
    ) by {
        let a = if i < at { i } else { i - 1 };
        let b = if j < at { j } else { j - 1 };
        if i != at {
            assert(grown[i] == list[a]);
        }
        if j != at {
            assert(grown[j] == list[b]);
        }
        if i != at && j != at {
            assert(precedes(list[a], list[b]));
        }
    }
    assert forall|u: Seq<char>| #[trigger] grown.contains(u) <==> u == t || list.contains(u) by {
        if grown.contains(u) {
            let k = choose|k: int| 0 <= k < grown.len() && grown[k] == u;
            if k < at {
                assert(list[k] == u);
            } else if k > at {
                assert(list[k - 1] == u);
            }
        }
        if u == t {
            assert(grown[at] == u);
        }
        if list.contains(u) {
            let k = choose|k: int| 0 <= k < list.len() && list[k] == u;
            if k < at {
                assert(grown[k] == u);
            } else {
                assert(grown[k + 1] == u);
            }
        }
    }
}

/// Where a text stands in an ascending list, or where it would have to stand.
enum Place {
    Found(usize),
    Missing(usize),
}

fn place_of(list: &Vec<String>, t: &str) -> (r: Place)
    requires
        ascending(views(list@)),
    ensures
        match r {
            Place::Found(i) => i < list@.len() && views(list@)[i as int] == t@,
            Place::Missing(i) => {
                &&& i <= list@.len()
                &&& forall|k: int| 0 <= k < i ==> precedes(#[trigger] views(list@)[k], t@)
                &&& forall|k: int| i <= k < list@.len() ==> precedes(t@, #[trigger] views(list@)[k])
            },
        },
{
    let ghost keys = views(list@);
    let mut low: usize = 0;
    let mut high: usize = list.len();
    while low < high
        invariant
            keys == views(list@),
            ascending(keys),
            low <= high <= list@.len(),
            forall|k: int| 0 <= k < low ==> precedes(#[trigger] keys[k], t@),
            forall|k: int| high <= k < keys.len() ==> precedes(t@, #[trigger] keys[k]),
        decreases high - low,
    {
        let middle: usize = low + (high - low) / 2;
        let key = list[middle].as_str();
        assert(keys[middle as int] == key@);
        if comes_before(key, t) {
            proof {
                assert forall|k: int| 0 <= k < middle + 1 implies precedes(
                    #[trigger] keys[k],
                    t@,
                ) by {
                    if k < middle {
                        order_is_transitive(keys[k], keys[middle as int], t@);
                    }
                }
            }
            low = middle + 1;
        } else if comes_before(t, key) {
            proof {
                assert forall|k: int| middle <= k < keys.len() implies precedes(
                    t@,
                    #[trigger] keys[k],
                ) by {
                    if k > middle {
                        order_is_transitive(t@, keys[middle as int], keys[k]);
                    }
                }
            }
            high = middle;
        } else {
            proof {
                if key@ != t@ {
                    order_is_total(key@, t@);
                }
            }
            return Place::Found(middle);
        }
    }
    Place::Missing(low)
}

/// The texts of `list` in ascending order, each of them once.
pub fn sort_distinct(list: Vec<String>) -> (r: Vec<String>)
    ensures
        lists_in_order(views(r@), views(list@)),
{
    let mut out: Vec<String> = Vec::new();
    let mut i: usize = 0;
    let ghost all = views(list@);
    while i < list.len()
        invariant
            i <= list@.len(),
            all == views(list@),
            lists_in_order(views(out@), all.take(i as int)),
        decreases list@.len() - i,
    {
        let t = list[i].clone();
        let ghost done = all.take(i as int);
        let ghost before = views(out@);
        assert(all.take(i + 1) =~= done.push(t@));
        assert forall|u: Seq<char>| #[trigger] all.take(i + 1).contains(u) <==> done.contains(u) || u
            == t@ by {
            if done.contains(u) {
                let k = choose|k: int| 0 <= k < done.len() && done[k] == u;
                assert(all.take(i + 1)[k] == u);
            }
            assert(all.take(i + 1)[i as int] == t@);
        }
        match place_of(&out, t.as_str()) {
            Place::Found(at) => {
                assert(before.contains(t@));
            },
            Place::Missing(at) => {
                proof {
                    lemma_insert_ascending(before, at as int, t@);
                }
                out.insert(at, t);
                assert(views(out@) =~= before.insert(at as int, t@));
            },
        }
        i = i + 1;
    }
    assert(all.take(i as int) =~= all);
    out
}

/// How many different texts the list holds.
pub open spec fn distinct_count(list: Seq<Seq<char>>) -> nat {
    list.to_set().len()
}

proof fn lemma_ascending_count(sorted: Seq<Seq<char>>)
    requires
        ascending(sorted),
    ensures
        sorted.to_set().len() == sorted.len(),
{
    assert(sorted.no_duplicates()) by {
        assert forall|i: int, j: int| 0 <= i < sorted.len() && 0 <= j < sorted.len() && i
            != j implies sorted[i] != sorted[j] by {
            if i < j {
                assert(precedes(sorted[i], sorted[j]));
            } else {
                assert(precedes(sorted[j], sorted[i]));
            }
            order_is_strict(sorted[i]);
        }
    }
    sorted.unique_seq_to_set();
}

/// How many different texts the list holds.
pub fn count_distinct(list: Vec<String>) -> (n: usize)
    ensures
        n == distinct_count(views(list@)),
{
    let ghost all = views(list@);
    let sorted = sort_distinct(list);
    proof {
        lemma_ascending_count(views(sorted@));
        assert(views(sorted@).to_set() =~= all.to_set());
    }
    sorted.len()
}

// ---------------------------------------------------------------- maps

/// The first texts of a list of pairs.
pub open spec fn keys_of(pairs: Seq<(Seq<char>, Seq<char>)>) -> Seq<Seq<char>> {
    pairs.map_values(|p: (Seq<char>, Seq<char>)| p.0)
}

/// The map that holds the pairs of a list.
pub open spec fn map_of(pairs: Seq<(Seq<char>, Seq<char>)>) -> Map<Seq<char>, Seq<char>>
    decreases pairs.len(),
{
    if pairs.len() == 0 {
        Map::empty()
    } else {
        map_of(pairs.drop_last()).insert(pairs.last().0, pairs.last().1)
    }
}

/// The pairs that two lists of one length make.
spec fn pairs(keys: Seq<Seq<char>>, values: Seq<Seq<char>>) -> Seq<(Seq<char>, Seq<char>)> {
    Seq::new(keys.len(), |i: int| (keys[i], values[i]))
}

/// A list of pairs in the order of different keys holds each pair as the map does, and no other
/// keys.
pub proof fn map_holds_the_pairs(list: Seq<(Seq<char>, Seq<char>)>)
    requires
        ascending(keys_of(list)),
    ensures
        forall|i: int| #![trigger list[i]] 0 <= i < list.len() ==> map_of(list).contains_key(
            list[i].0,
        ) && map_of(list)[list[i].0] == list[i].1,
        forall|k: Seq<char>| #[trigger] map_of(list).contains_key(k) <==> keys_of(list).contains(k),
    decreases list.len(),
{
    let keys = keys_of(list);
    if list.len() > 0 {
        let init = list.drop_last();
        assert(keys_of(init) =~= keys.drop_last());
        assert(ascending(keys_of(init))) by {
            assert forall|p: int, q: int| 0 <= p < q < keys_of(init).len() implies precedes(
                #[trigger] keys_of(init)[p],
                #[trigger] keys_of(init)[q],
            ) by {
                assert(precedes(keys[p], keys[q]));
            }
        }
        map_holds_the_pairs(init);
        assert forall|i: int| #![trigger list[i]] 0 <= i < list.len() implies map_of(
            list,
        ).contains_key(list[i].0) && map_of(list)[list[i].0] == list[i].1 by {
            if i < list.len() - 1 {
                assert(list[i] == init[i]);
                assert(precedes(keys[i], keys[list.len() - 1]));
                order_is_strict(keys[i]);
            }
        }
        assert forall|k: Seq<char>| #[trigger] map_of(list).contains_key(k) <==> keys.contains(k) by {
            if map_of(list).contains_key(k) {
                if k == list.last().0 {
                    assert(keys[list.len() - 1] == k);
                } else {
                    assert(map_of(init).contains_key(k));
                    assert(keys_of(init).contains(k));
                    let m = choose|m: int| 0 <= m < init.len() && keys_of(init)[m] == k;
                    assert(keys[m] == k);
                }
            }
            if keys.contains(k) {
                let m = choose|m: int| 0 <= m < list.len() && keys[m] == k;
                assert(list[m].0 == k);
            }
        }
    }
}

/// A map from texts to texts, whose entries are listed in the order of their keys.
#[derive(Debug, PartialEq, Eq)]
pub struct TextMap {
    keys: Vec<String>,
    values: Vec<String>,
}

impl View for TextMap {
    type V = Map<Seq<char>, Seq<char>>;

    open spec fn view(&self) -> Map<Seq<char>, Seq<char>> {
        map_of(self.listing())
    }
}

impl TextMap {
    #[verifier::type_invariant]
    spec fn in_order(self) -> bool {
        self.keys@.len() == self.values@.len() && ascending(views(self.keys@))
    }

    /// The entries in the order of their keys.
    pub closed spec fn listing(self) -> Seq<(Seq<char>, Seq<char>)> {
        pairs(views(self.keys@), views(self.values@))
    }

    /// A map without entries.
    pub fn new() -> (r: Self)
        ensures
            r.listing() == Seq::<(Seq<char>, Seq<char>)>::empty(),
            r@ == Map::<Seq<char>, Seq<char>>::empty(),
    {
        let r = TextMap { keys: Vec::new(), values: Vec::new() };
        assert(r.listing() =~= Seq::<(Seq<char>, Seq<char>)>::empty());
        r
    }

    /// How many entries there are.
    pub fn len(&self) -> (n: usize)
        ensures
            n == self.listing().len(),
            ascending(keys_of(self.listing())),
    {
        proof {
            use_type_invariant(self);
            assert(keys_of(self.listing()) =~= views(self.keys@));
        }
        self.keys.len()
    }

    /// Whether there are no entries.
    pub fn is_empty(&self) -> (r: bool)
        ensures
            r == (self.listing().len() == 0),
            r == (self@ == Map::<Seq<char>, Seq<char>>::empty()),
    {
        proof {
            use_type_invariant(self);
            assert(keys_of(self.listing()) =~= views(self.keys@));
            if self.listing().len() > 0 {
                map_holds_the_pairs(self.listing());
                assert(self@.contains_key(self.listing()[0].0));
            }
        }
        self.keys.len() == 0
    }

    /// The key of entry `i`.
    pub fn key(&self, i: usize) -> (r: &str)
        requires
            i < self.listing().len(),
        ensures
            r@ == self.listing()[i as int].0,
    {
        proof {
            use_type_invariant(self);
        }
        self.keys[i].as_str()
    }

    /// The value of entry `i`.
    pub fn value(&self, i: usize) -> (r: &str)
        requires
            i < self.listing().len(),
        ensures
            r@ == self.listing()[i as int].1,
    {
        proof {
            use_type_invariant(self);
        }
        self.values[i].as_str()
    }

    /// The value under `key`.
    pub fn get(&self, key: &str) -> (r: Option<&str>)
        ensures
            match r {
                Some(value) => self@.contains_key(key@) && self@[key@] == value@,
                None => !self@.contains_key(key@),
            },
    {
        proof {
            use_type_invariant(self);
            assert(keys_of(self.listing()) =~= views(self.keys@));
            map_holds_the_pairs(self.listing());
        }
        match place_of(&self.keys, key) {
            Place::Found(i) => {
                assert(self.listing()[i as int].0 == key@);
                Some(self.values[i].as_str())
            },
            Place::Missing(i) => {
                proof {
                    if self@.contains_key(key@) {
                        let m = choose|m: int|
                            0 <= m < self.keys@.len() && views(self.keys@)[m] == key@;
                        order_is_strict(key@);
                        assert(m < i || i <= m);
                    }
                }
                None
            },
        }
    }

    /// Puts `value` under `key`, in place of what stood there.
    pub fn insert(&mut self, key: String, value: String)
        ensures
            final(self)@ == old(self)@.insert(key@, value@),
    {
        proof {
            use_type_invariant(&*self);
        }
        let mut keys: Vec<String> = Vec::new();
        let mut values: Vec<String> = Vec::new();
        let mut map = TextMap { keys, values };
        std::mem::swap(&mut map, self);
        keys = map.keys;
        values = map.values;
        let ghost list = pairs(views(keys@), views(values@));
        proof {
            assert(keys_of(list) =~= views(keys@));
            map_holds_the_pairs(list);
        }
        match place_of(&keys, key.as_str()) {
            Place::Found(i) => {
                let ghost grown = list.update(i as int, (key@, value@));
                values.set(i, value);
                proof {
                    assert(pairs(views(keys@), views(values@)) =~= grown);
                    assert(keys_of(grown) =~= views(keys@));
                    map_holds_the_pairs(grown);
                    assert forall|k: Seq<char>| #[trigger]
                        map_of(grown).contains_key(k) implies map_of(grown)[k] == map_of(
                        list,
                    ).insert(key@, value@)[k] by {
                        let m = choose|m: int| 0 <= m < grown.len() && keys_of(grown)[m] == k;
                        assert(grown[m].0 == k);
                        assert(list[m].0 == k);
                        assert(grown[i as int] == (key@, value@));
                        if m != i {
                            order_is_strict(k);
                            assert(precedes(keys_of(grown)[m], keys_of(grown)[i as int]) || precedes(
                                keys_of(grown)[i as int],
                                keys_of(grown)[m],
                            ));
                        }
                    }
                    assert(keys_of(list)[i as int] == key@);
                    assert(map_of(grown) =~= map_of(list).insert(key@, value@));
                }
            },
            Place::Missing(i) => {
                let ghost grown = list.insert(i as int, (key@, value@));
                proof {
                    lemma_insert_ascending(views(keys@), i as int, key@);
                }
                let ghost before = views(keys@);
                keys.insert(i, key);
                values.insert(i, value);
                proof {
                    assert(views(keys@) =~= before.insert(i as int, key@));
                    assert(pairs(views(keys@), views(values@)) =~= grown);
                    assert(keys_of(grown) =~= views(keys@));
                    map_holds_the_pairs(grown);
                    assert forall|k: Seq<char>| #[trigger]
                        map_of(grown).contains_key(k) implies map_of(grown)[k] == map_of(
                        list,
                    ).insert(key@, value@)[k] by {
                        let m = choose|m: int| 0 <= m < grown.len() && keys_of(grown)[m] == k;
                        assert(grown[m].0 == k);
                        assert(keys_of(grown)[i as int] == key@);
                        if m != i {
                            order_is_strict(k);
                            assert(precedes(keys_of(grown)[m], keys_of(grown)[i as int]) || precedes(
                                keys_of(grown)[i as int],
                                keys_of(grown)[m],
                            ));
                            assert(grown[m] == list[if m < i { m } else { m - 1 }]);
                        } else {
                            assert(grown[i as int] == (key@, value@));
                        }
                    }
                    assert(map_of(grown) =~= map_of(list).insert(key@, value@));
                }
            },
        }
        *self = TextMap { keys, values };
    }

    /// Puts `value` under `key` where nothing stands there yet.
    pub fn insert_missing(&mut self, key: String, value: String)
        ensures
            final(self)@ == if old(self)@.contains_key(key@) {
                old(self)@
            } else {
                old(self)@.insert(key@, value@)
            },
    {
        if self.get(key.as_str()).is_none() {
            self.insert(key, value);
        }
    }
}

impl Default for TextMap {
    fn default() -> (r: Self)
        ensures
            r.listing() == Seq::<(Seq<char>, Seq<char>)>::empty(),
            r@ == Map::<Seq<char>, Seq<char>>::empty(),
    {
        TextMap::new()
    }
}

impl Clone for TextMap {
    fn clone(&self) -> (r: Self)
        ensures
            r.listing() == self.listing(),
    {
        proof {
            use_type_invariant(self);
        }
        let keys = self.keys.clone();
        let values = self.values.clone();
        proof {
            assert forall|i: int| 0 <= i < keys@.len() implies keys@[i]@ == self.keys@[i]@ by {
                assert(cloned(self.keys@[i], keys@[i]));
            }
            assert forall|i: int| 0 <= i < values@.len() implies values@[i]@ == self.values@[i]@ by {
                assert(cloned(self.values@[i], values@[i]));
            }
            assert(views(keys@) =~= views(self.keys@));
            assert(views(values@) =~= views(self.values@));
        }
        TextMap { keys, values }
    }
}

/// Two maps that hold the same list the same entries.
pub proof fn order_fixes_the_entries(
    a: Seq<(Seq<char>, Seq<char>)>,
    b: Seq<(Seq<char>, Seq<char>)>,
)
    requires
        ascending(keys_of(a)),
        ascending(keys_of(b)),
        map_of(a) == map_of(b),
    ensures
        a == b,
{
    map_holds_the_pairs(a);
    map_holds_the_pairs(b);
    assert forall|t: Seq<char>| #[trigger] keys_of(a).contains(t) <==> keys_of(b).contains(t) by {
        assert(map_of(a).contains_key(t) <==> map_of(b).contains_key(t));
    }
    order_fixes_the_list(keys_of(a), keys_of(b));
    assert forall|i: int| 0 <= i < a.len() implies a[i] == b[i] by {
        assert(keys_of(a)[i] == keys_of(b)[i]);
    }
    assert(a.len() == keys_of(a).len() == b.len());
    assert(a =~= b);
}

} // verus!
