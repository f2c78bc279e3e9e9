use vstd::prelude::*;

use crate::text::same_text;

verus! {

/// The map that a list of (key, count) entries describes; a later entry for
/// a key overrides an earlier one.
pub open spec fn entries_map(e: Seq<(String, u32)>) -> Map<Seq<char>, u32>
    decreases e.len(),
{
    if e.len() == 0 {
        Map::empty()
    } else {
        entries_map(e.drop_last()).insert(e.last().0@, e.last().1)
    }
}

/// No key occurs twice in the entries.
pub open spec fn keys_distinct(e: Seq<(String, u32)>) -> bool {
    forall|i: int, j: int| 0 <= i < j < e.len() ==> #[trigger] e[i].0@ != #[trigger] e[j].0@
}

/// The map agrees on `k` with the map of a prefix when no later entry has key `k`.
proof fn lemma_entries_map_prefix(e: Seq<(String, u32)>, i: int, k: Seq<char>)
    requires
        0 <= i <= e.len(),
        forall|j: int| i <= j < e.len() ==> #[trigger] e[j].0@ != k,
    ensures
        entries_map(e).contains_key(k) == entries_map(e.subrange(0, i)).contains_key(k),
        entries_map(e).contains_key(k) ==> entries_map(e)[k] == entries_map(e.subrange(0, i))[k],
    decreases e.len(),
{
    if i == e.len() {
        assert(e.subrange(0, i) =~= e);
    } else {
        assert(e.drop_last().subrange(0, i) =~= e.subrange(0, i));
        lemma_entries_map_prefix(e.drop_last(), i, k);
    }
}

/// Every key of the map is the key of some entry, and every entry's key is in the map.
proof fn lemma_entries_map_keys(e: Seq<(String, u32)>, k: Seq<char>)
    ensures
        entries_map(e).contains_key(k) <==> exists|j: int| 0 <= j < e.len() && #[trigger] e[j].0@ == k,
    decreases e.len(),
{
    if e.len() > 0 {
        lemma_entries_map_keys(e.drop_last(), k);
        if entries_map(e.drop_last()).contains_key(k) {
            let j = choose|j: int| 0 <= j < e.drop_last().len() && #[trigger] e.drop_last()[j].0@ == k;
            assert(e[j].0@ == k);
        }
        if exists|j: int| 0 <= j < e.len() && #[trigger] e[j].0@ == k {
            let j = choose|j: int| 0 <= j < e.len() && #[trigger] e[j].0@ == k;
            if j < e.len() - 1 {
                assert(e.drop_last()[j].0@ == k);
            }
        }
    }
}

/// Overwriting the last entry for a key updates that key in the map.
proof fn lemma_entries_map_update(e: Seq<(String, u32)>, j: int, entry: (String, u32))
    requires
        0 <= j < e.len(),
        e[j].0@ == entry.0@,
        forall|i: int| j < i < e.len() ==> #[trigger] e[i].0@ != entry.0@,
    ensures
        entries_map(e.update(j, entry)) == entries_map(e).insert(entry.0@, entry.1),
    decreases e.len(),
{
    if j == e.len() - 1 {
        assert(e.update(j, entry).drop_last() =~= e.drop_last());
        assert(entries_map(e.update(j, entry)) =~= entries_map(e).insert(entry.0@, entry.1));
    } else {
        assert(e.update(j, entry).drop_last() =~= e.drop_last().update(j, entry));
        lemma_entries_map_update(e.drop_last(), j, entry);
        assert(entries_map(e.update(j, entry)) =~= entries_map(e).insert(entry.0@, entry.1));
    }
}

/// Item counts keyed by item id; no id occurs twice.
pub struct ItemCounts {
    entries: Vec<(String, u32)>,
}

impl View for ItemCounts {
    type V = Map<Seq<char>, u32>;

    closed spec fn view(&self) -> Map<Seq<char>, u32> {
        entries_map(self.entries@)
    }
}

impl ItemCounts {
    #[verifier::type_invariant]
    spec fn well_formed(&self) -> bool {
        keys_distinct(self.entries@)
    }

    /// The (id, count) pairs, one per id.
    pub closed spec fn pairs(&self) -> Seq<(String, u32)> {
        self.entries@
    }

    /// An empty collection.
    pub fn new() -> (m: ItemCounts)
        ensures
            m@ == Map::<Seq<char>, u32>::empty(),
    {
        ItemCounts { entries: Vec::new() }
    }

    /// Index of the entry for `k`, if any.
    fn position(&self, k: &str) -> (pos: Option<usize>)
        ensures
            match pos {
                Some(j) => j < self.entries@.len() && self.entries@[j as int].0@ == k@,
                None => forall|j: int| 0 <= j < self.entries@.len() ==> #[trigger] self.entries@[j].0@ != k@,
            },
    {
        let n = self.entries.len();
        let mut i: usize = 0;
        while i < n
            invariant
                n == self.entries@.len(),
                i <= n,
                forall|j: int| 0 <= j < i ==> #[trigger] self.entries@[j].0@ != k@,
            decreases n - i,
        {
            if same_text(self.entries[i].0.as_str(), k) {
                return Some(i);
            }
            i = i + 1;
        }
        None
    }

    /// The count stored for `k`, if any.
    pub fn get(&self, k: &str) -> (found: Option<&u32>)
        ensures
            match found {
                Some(v) => self@.contains_key(k@) && *v == self@[k@],
                None => !self@.contains_key(k@),
            },
    {
        proof {
            use_type_invariant(self);
            lemma_entries_map_keys(self.entries@, k@);
        }
        match self.position(k) {
            Some(j) => {
                proof {
                    lemma_entries_map_prefix(self.entries@, j + 1, k@);
                    assert(self.entries@.subrange(0, j + 1).drop_last() =~= self.entries@.subrange(
                        0,
                        j as int,
                    ));
                }
                Some(&self.entries[j].1)
            },
            None => None,
        }
    }

    /// Sets the count of `k` to `v`.
    pub fn insert(&mut self, k: String, v: u32)
        ensures
            final(self)@ == old(self)@.insert(k@, v),
    {
        proof {
            use_type_invariant(&*self);
        }
        let pos = self.position(k.as_str());
        let ghost e = self.entries@;
        let mut entries: Vec<(String, u32)> = Vec::new();
        std::mem::swap(&mut entries, &mut self.entries);
        assert(entries@ == e);
        match pos {
            Some(j) => {
                proof {
                    lemma_entries_map_update(e, j as int, (k, v));
                }
                entries.set(j, (k, v));
                assert(entries@ == e.update(j as int, (k, v)));
            },
            None => {
                entries.push((k, v));
                assert(entries@.drop_last() =~= e);
            },
        }
        self.entries = entries;
    }

    /// A copy of the collection.
    pub fn duplicate(&self) -> (m: ItemCounts)
        ensures
            m@ == self@,
            m.pairs() == self.pairs(),
    {
        proof {
            use_type_invariant(self);
        }
        let mut entries: Vec<(String, u32)> = Vec::new();
        let n = self.entries.len();
        let mut i: usize = 0;
        while i < n
            invariant
                n == self.entries@.len(),
                i <= n,
                entries@ == self.entries@.subrange(0, i as int),
            decreases n - i,
        {
            let (k, v) = (self.entries[i].0.clone(), self.entries[i].1);
            entries.push((k, v));
            assert(entries@ =~= self.entries@.subrange(0, i + 1));
            i = i + 1;
        }
        assert(entries@ =~= self.entries@);
        ItemCounts { entries }
    }

    /// The (id, count) pairs, one per id, in insertion order.
    pub fn to_pairs(&self) -> (pairs: Vec<(String, u32)>)
        ensures
            pairs@ == self.pairs(),
            entries_map(pairs@) == self@,
            keys_distinct(pairs@),
    {
        proof {
            use_type_invariant(self);
        }
        let copy = self.duplicate();
        copy.entries
    }
}

/// The display order of the items in the inventory.
pub open spec fn item_order() -> Seq<Seq<char>> {
    seq!["patch"@, "capture_flag"@]
}

/// The count of `id` in `m`, zero when absent.
pub open spec fn count_of(m: Map<Seq<char>, u32>, id: Seq<char>) -> nat {
    if m.contains_key(id) { m[id] as nat } else { 0 }
}

/// The player's bag.
pub struct Inventory {
    pub items: ItemCounts,
}

impl Inventory {
    /// The starting bag: three patches and five capture flags.
    pub fn new() -> (inv: Inventory)
        ensures
            inv.items@ == Map::<Seq<char>, u32>::empty().insert("patch"@, 3).insert("capture_flag"@, 5),
    {
        let mut items = ItemCounts::new();
        items.insert("patch".to_owned(), 3);
        items.insert("capture_flag".to_owned(), 5);
        Inventory { items }
    }

    /// A bag holding exactly `items`.
    pub fn from_items(items: ItemCounts) -> (inv: Inventory)
        ensures
            inv.items@ == items@,
    {
        Inventory { items }
    }

    /// Consumes one item `id`. Returns false, changing nothing, when there is none left.
    pub fn use_item(&mut self, id: &str) -> (used: bool)
        ensures
            used == (count_of(old(self).items@, id@) > 0),
            used ==> final(self).items@ == old(self).items@.insert(id@, (old(self).items@[id@] - 1) as u32),
            !used ==> final(self).items@ == old(self).items@,
    {
        let current = match self.items.get(id) {
            Some(c) => *c,
            None => 0,
        };
        if current > 0 {
            self.items.insert(id.to_owned(), current - 1);
            true
        } else {
            false
        }
    }

    /// The ids of the items present (count above zero), in display order.
    pub fn ordered_ids(&self) -> (ids: Vec<&'static str>)
        ensures
            ids@.map_values(|s: &str| s@) == item_order().filter(
                |id: Seq<char>| count_of(self.items@, id) > 0,
            ),
    {
        let mut ids: Vec<&'static str> = Vec::new();
        let has_patch = match self.items.get("patch") {
            Some(c) => *c > 0,
            None => false,
        };
        if has_patch {
            ids.push("patch");
        }
        let has_flag = match self.items.get("capture_flag") {
            Some(c) => *c > 0,
            None => false,
        };
        if has_flag {
            ids.push("capture_flag");
        }
        proof {
            let f = |id: Seq<char>| count_of(self.items@, id) > 0;
            reveal_with_fuel(Seq::<_>::filter, 3);
            assert(item_order().drop_last() =~= seq!["patch"@]);
            assert(seq!["patch"@].drop_last() =~= Seq::<Seq<char>>::empty());
            assert(ids@.map_values(|s: &str| s@) =~= item_order().filter(f));
        }
        ids
    }
}

} // verus!
