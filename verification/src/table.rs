//! Tables keyed by text, and sets of texts. Each key occurs once; items keep the
//! order in which their keys came.
use crate::text::text_eq;
use vstd::prelude::*;
use vstd::string::*;

verus! {

/// No key occurs twice.
pub open spec fn keys_distinct<W>(items: Seq<(Seq<char>, W)>) -> bool {
    forall|i: int, j: int|
        #![trigger items[i], items[j]]
        0 <= i < j < items.len() ==> items[i].0 != items[j].0
}

/// The map that a list of items stands for.
pub open spec fn item_map<W>(items: Seq<(Seq<char>, W)>) -> Map<Seq<char>, W>
    decreases items.len(),
{
    if items.len() == 0 {
        Map::empty()
    } else {
        item_map(items.drop_last()).insert(items.last().0, items.last().1)
    }
}

/// A key is in the map exactly where it is in the list.
pub proof fn lemma_item_map_domain<W>(items: Seq<(Seq<char>, W)>, key: Seq<char>)
    ensures
        item_map(items).contains_key(key) <==> exists|i: int|
            0 <= i < items.len() && (#[trigger] items[i]).0 == key,
    decreases items.len(),
{
    if items.len() > 0 {
        let rest = items.drop_last();
        lemma_item_map_domain(rest, key);
        if item_map(items).contains_key(key) {
            if key == items.last().0 {
                assert(items[items.len() - 1].0 == key);
            } else {
                let i = choose|i: int| 0 <= i < rest.len() && (#[trigger] rest[i]).0 == key;
                assert(items[i].0 == key);
            }
        } else {
            assert forall|i: int| 0 <= i < items.len() implies (#[trigger] items[i]).0 != key by {
                if i < rest.len() {
                    assert(rest[i] == items[i]);
                }
            }
        }
    }
}

/// Each item is in the map under its key.
pub proof fn lemma_item_map_value<W>(items: Seq<(Seq<char>, W)>, i: int)
    requires
        keys_distinct(items),
        0 <= i < items.len(),
    ensures
        item_map(items).contains_key(items[i].0),
        item_map(items)[items[i].0] == items[i].1,
    decreases items.len(),
{
    let rest = items.drop_last();
    if i < rest.len() {
        assert(rest[i] == items[i]);
        assert(keys_distinct(rest));
        lemma_item_map_value(rest, i);
    }
}

/// The map has one key for each item.
pub proof fn lemma_item_map_len<W>(items: Seq<(Seq<char>, W)>)
    requires
        keys_distinct(items),
    ensures
        item_map(items).dom().finite(),
        item_map(items).dom().len() == items.len(),
    decreases items.len(),
{
    if items.len() == 0 {
        assert(item_map(items).dom() =~= Set::<Seq<char>>::empty());
    } else {
        let rest = items.drop_last();
        assert(keys_distinct(rest)) by {
            assert forall|i: int, j: int|
                #![trigger rest[i], rest[j]]
                0 <= i < j < rest.len() implies rest[i].0 != rest[j].0 by {
                assert(rest[i] == items[i] && rest[j] == items[j]);
            }
        }
        lemma_item_map_len(rest);
        lemma_item_map_domain(rest, items.last().0);
        assert(!item_map(rest).contains_key(items.last().0)) by {
            if item_map(rest).contains_key(items.last().0) {
                let i = choose|i: int|
                    0 <= i < rest.len() && (#[trigger] rest[i]).0 == items.last().0;
                assert(items[i].0 == items[items.len() - 1].0);
            }
        }
        assert(item_map(items).dom() =~= item_map(rest).dom().insert(items.last().0));
    }
}

proof fn lemma_item_map_update<W>(items: Seq<(Seq<char>, W)>, at: int, value: W)
    requires
        keys_distinct(items),
        0 <= at < items.len(),
    ensures
        keys_distinct(items.update(at, (items[at].0, value))),
        item_map(items.update(at, (items[at].0, value))) == item_map(items).insert(
            items[at].0,
            value,
        ),
{
    let key = items[at].0;
    let after = items.update(at, (key, value));
    assert forall|k: Seq<char>|
        item_map(after).contains_key(k) <==> item_map(items).insert(key, value).contains_key(k) by {
        lemma_item_map_domain(items, k);
        lemma_item_map_domain(after, k);
        if item_map(after).contains_key(k) {
            let i = choose|i: int| 0 <= i < after.len() && (#[trigger] after[i]).0 == k;
            assert(items[i].0 == k);
        }
        if item_map(items).contains_key(k) {
            let i = choose|i: int| 0 <= i < items.len() && (#[trigger] items[i]).0 == k;
            assert(after[i].0 == k);
        }
        assert(after[at].0 == key);
    }
    assert forall|k: Seq<char>| #[trigger] item_map(after).contains_key(k) implies item_map(
        after,
    )[k] == item_map(items).insert(key, value)[k] by {
        lemma_item_map_domain(after, k);
        let i = choose|i: int| 0 <= i < after.len() && (#[trigger] after[i]).0 == k;
        lemma_item_map_value(after, i);
        lemma_item_map_value(items, i);
        assert(items[i].0 == k);
        assert(i != at ==> items[at].0 != items[i].0);
    }
    assert(item_map(after) =~= item_map(items).insert(key, value));
}

proof fn lemma_item_map_remove<W>(items: Seq<(Seq<char>, W)>, at: int)
    requires
        keys_distinct(items),
        0 <= at < items.len(),
    ensures
        keys_distinct(items.remove(at)),
        item_map(items.remove(at)) == item_map(items).remove(items[at].0),
{
    let key = items[at].0;
    let after = items.remove(at);
    assert forall|i: int| 0 <= i < after.len() implies (#[trigger] after[i]) == items[if i < at {
        i
    } else {
        i + 1
    }] by {}
    assert forall|k: Seq<char>|
        item_map(after).contains_key(k) <==> item_map(items).remove(key).contains_key(k) by {
        lemma_item_map_domain(items, k);
        lemma_item_map_domain(after, k);
        if item_map(after).contains_key(k) {
            let i = choose|i: int| 0 <= i < after.len() && (#[trigger] after[i]).0 == k;
            let h: int = if i < at {
                i
            } else {
                i + 1
            };
            assert(items[h].0 == k);
        }
        if item_map(items).contains_key(k) && k != key {
            let i = choose|i: int| 0 <= i < items.len() && (#[trigger] items[i]).0 == k;
            let h: int = if i < at {
                i
            } else {
                i - 1
            };
            assert(after[h] == items[i]);
        }
    }
    assert forall|k: Seq<char>| #[trigger] item_map(after).contains_key(k) implies item_map(
        after,
    )[k] == item_map(items).remove(key)[k] by {
        lemma_item_map_domain(after, k);
        let i = choose|i: int| 0 <= i < after.len() && (#[trigger] after[i]).0 == k;
        let h: int = if i < at {
            i
        } else {
            i + 1
        };
        lemma_item_map_value(after, i);
        lemma_item_map_value(items, h);
        assert(items[h].0 != items[at].0);
    }
    assert(item_map(after) =~= item_map(items).remove(key));
}

// ── Table ───────────────────────────────────────────────────────────────────

/// Values kept under texts.
#[derive(Debug)]
pub struct Table<V: View> {
    entries: Vec<(String, V)>,
}

impl<V: View> Table<V> {
    /// The items in the order in which their keys came.
    pub closed spec fn items(self) -> Seq<(Seq<char>, V::V)> {
        self.entries@.map_values(|e: (String, V)| (e.0@, e.1@))
    }

    #[verifier::type_invariant]
    spec fn keys_occur_once(self) -> bool {
        keys_distinct(self.items())
    }
}

impl<V: View> View for Table<V> {
    type V = Map<Seq<char>, V::V>;

    open spec fn view(&self) -> Map<Seq<char>, V::V> {
        item_map(self.items())
    }
}

impl<V: View> Table<V> {
    /// An empty table.
    pub fn new() -> (r: Table<V>)
        ensures
            r@ == Map::<Seq<char>, V::V>::empty(),
            r.items().len() == 0,
    {
        Table { entries: Vec::new() }
    }

    /// How many keys there are.
    pub fn len(&self) -> (n: usize)
        ensures
            n == self@.dom().len(),
            n == self.items().len(),
            self@.dom().finite(),
            keys_distinct(self.items()),
    {
        proof {
            use_type_invariant(&*self);
            lemma_item_map_len(self.items());
        }
        self.entries.len()
    }

    /// The key at a place.
    pub fn key_at<'a>(&'a self, i: usize) -> (r: &'a str)
        requires
            i < self.items().len(),
        ensures
            r@ == self.items()[i as int].0,
            self@.contains_key(r@),
            self@[r@] == self.items()[i as int].1,
    {
        proof {
            use_type_invariant(&*self);
            lemma_item_map_value(self.items(), i as int);
        }
        self.entries[i].0.as_str()
    }

    /// The value at a place.
    pub fn value_at<'a>(&'a self, i: usize) -> (r: &'a V)
        requires
            i < self.items().len(),
        ensures
            r@ == self.items()[i as int].1,
    {
        &self.entries[i].1
    }

    fn position(&self, key: &str) -> (r: Option<usize>)
        ensures
            match r {
                Some(i) => i < self.items().len() && self.items()[i as int].0 == key@,
                None => !self@.contains_key(key@) && forall|i: int|
                    0 <= i < self.items().len() ==> (#[trigger] self.items()[i]).0 != key@,
            },
    {
        let mut i: usize = 0;
        while i < self.entries.len()
            invariant
                i <= self.entries.len(),
                forall|k: int| 0 <= k < i ==> (#[trigger] self.items()[k]).0 != key@,
            decreases self.entries.len() - i,
        {
            if text_eq(self.entries[i].0.as_str(), key) {
                return Some(i);
            }
            i = i + 1;
        }
        proof {
            lemma_item_map_domain(self.items(), key@);
        }
        None
    }

    /// Whether there is a value under the key.
    pub fn contains_key(&self, key: &str) -> (r: bool)
        ensures
            r == self@.contains_key(key@),
    {
        proof {
            use_type_invariant(&*self);
        }
        match self.position(key) {
            Some(i) => {
                proof {
                    lemma_item_map_value(self.items(), i as int);
                }
                true
            },
            None => false,
        }
    }

    /// The value under the key.
    pub fn get<'a>(&'a self, key: &str) -> (r: Option<&'a V>)
        ensures
            match r {
                Some(v) => self@.contains_key(key@) && v@ == self@[key@],
                None => !self@.contains_key(key@),
            },
    {
        proof {
            use_type_invariant(&*self);
        }
        match self.position(key) {
            Some(i) => {
                proof {
                    lemma_item_map_value(self.items(), i as int);
                }
                Some(&self.entries[i].1)
            },
            None => None,
        }
    }

    /// Puts a value under the key; one that was there gives way.
    pub fn insert(&mut self, key: &str, value: V)
        ensures
            final(self)@ == old(self)@.insert(key@, value@),
            !old(self)@.contains_key(key@) ==> final(self).items() == old(self).items().push(
                (key@, value@),
            ),
    {
        proof {
            use_type_invariant(&*self);
        }
        let found = self.position(key);
        let ghost before = self.items();
        let mut entries: Vec<(String, V)> = Vec::new();
        std::mem::swap(&mut entries, &mut self.entries);
        let ghost held = entries@.map_values(|e: (String, V)| (e.0@, e.1@));
        assert(held == before);
        match found {
            Some(i) => {
                proof {
                    lemma_item_map_update(before, i as int, value@);
                    lemma_item_map_value(before, i as int);
                }
                entries.set(i, (key.to_owned(), value));
                proof {
                    assert(entries@.map_values(|e: (String, V)| (e.0@, e.1@)) =~= before.update(
                        i as int,
                        (key@, value@),
                    ));
                }
            },
            None => {
                entries.push((key.to_owned(), value));
                proof {
                    let after = entries@.map_values(|e: (String, V)| (e.0@, e.1@));
                    assert(after =~= before.push((key@, value@)));
                    assert(after.drop_last() =~= before);
                }
            },
        }
        self.entries = entries;
    }

    /// Takes the value under the key out.
    pub fn remove(&mut self, key: &str) -> (r: Option<V>)
        ensures
            final(self)@ == old(self)@.remove(key@),
            match r {
                Some(v) => old(self)@.contains_key(key@) && v@ == old(self)@[key@],
                None => !old(self)@.contains_key(key@) && final(self)@ == old(self)@,
            },
    {
        proof {
            use_type_invariant(&*self);
        }
        let found = self.position(key);
        match found {
            Some(i) => {
                let ghost before = self.items();
                let mut entries: Vec<(String, V)> = Vec::new();
                std::mem::swap(&mut entries, &mut self.entries);
                proof {
                    lemma_item_map_remove(before, i as int);
                    lemma_item_map_value(before, i as int);
                    assert(entries@.map_values(|e: (String, V)| (e.0@, e.1@)) == before);
                }
                let taken = entries.remove(i);
                proof {
                    assert(entries@.map_values(|e: (String, V)| (e.0@, e.1@)) =~= before.remove(
                        i as int,
                    ));
                }
                self.entries = entries;
                Some(taken.1)
            },
            None => {
                assert(self@.remove(key@) =~= self@);
                None
            },
        }
    }
}

// ── Set of texts ────────────────────────────────────────────────────────────

/// A set of texts.
#[derive(Debug)]
pub struct TextSet {
    table: Table<()>,
}

impl View for TextSet {
    type V = Set<Seq<char>>;

    closed spec fn view(&self) -> Set<Seq<char>> {
        self.table@.dom()
    }
}

impl TextSet {
    /// An empty set.
    pub fn new() -> (r: TextSet)
        ensures
            r@ == Set::<Seq<char>>::empty(),
    {
        TextSet { table: Table::new() }
    }

    /// How many texts there are.
    pub fn len(&self) -> (n: usize)
        ensures
            n == self@.len(),
            self@.finite(),
    {
        self.table.len()
    }

    /// Whether the text is in the set.
    pub fn contains(&self, text: &str) -> (r: bool)
        ensures
            r == self@.contains(text@),
    {
        self.table.contains_key(text)
    }

    /// Puts the text in.
    pub fn insert(&mut self, text: &str)
        ensures
            final(self)@ == old(self)@.insert(text@),
    {
        self.table.insert(text, ());
        assert(self@ =~= old(self)@.insert(text@));
    }

    /// Takes the text out; says whether it was there.
    pub fn remove(&mut self, text: &str) -> (r: bool)
        ensures
            final(self)@ == old(self)@.remove(text@),
            r == old(self)@.contains(text@),
    {
        let taken = self.table.remove(text);
        assert(self@ =~= old(self)@.remove(text@));
        match taken {
            Some(_) => true,
            None => false,
        }
    }
}

} // verus!
