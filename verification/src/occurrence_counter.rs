use std::collections::HashMap;
use std::hash::Hash;

use vstd::multiset::Multiset;
use vstd::prelude::*;
use vstd::std_specs::hash::obeys_key_model;

verus! {

broadcast use {vstd::std_specs::hash::group_hash_axioms, vstd::multiset::group_multiset_axioms};

/// Counts how often each item occurs. Its contents are a multiset of items.
///
/// The counting relies on `Hash` and `Eq` of the item type agreeing with equality,
/// as they do for integers, `bool` and `char` (`obeys_key_model`).
pub struct OccuranceCounter<TItem> {
    counts: HashMap<TItem, usize>,
    total: usize,
    items: Ghost<Multiset<TItem>>,
}

impl<TItem: Eq + Hash> OccuranceCounter<TItem> {
    /// The counted items.
    pub closed spec fn spec_items(&self) -> Multiset<TItem> {
        self.items@
    }

    /// The counts agree with the items, and the total is their number.
    pub closed spec fn wf(&self) -> bool {
        &&& obeys_key_model::<TItem>()
        &&& self.total == self.items@.len()
        &&& forall|k: TItem| #[trigger] self.counts@.contains_key(k) <==> self.items@.count(k) > 0
        &&& forall|k: TItem| #[trigger]
            self.counts@.contains_key(k) ==> self.counts@[k] == self.items@.count(k)
    }

    /// A counter of no items.
    pub fn new() -> (r: Self)
        requires
            obeys_key_model::<TItem>(),
        ensures
            r.wf(),
            r.spec_items() == Multiset::<TItem>::empty(),
    {
        let r = OccuranceCounter {
            counts: HashMap::new(),
            total: 0,
            items: Ghost(Multiset::empty()),
        };
        assert(r.counts@ =~= Map::empty());
        r
    }

    /// Counts `item` once more.
    fn add_one(&mut self, item: TItem)
        requires
            old(self).wf(),
            old(self).spec_items().len() < usize::MAX,
        ensures
            final(self).wf(),
            final(self).spec_items() == old(self).spec_items().insert(item),
    {
        let c: usize = match self.counts.get(&item) {
            Some(c) => *c,
            None => 0,
        };
        assert(c == self.items@.count(item));
        assert(c <= self.items@.len());
        let ghost old_items = self.items@;
        self.counts.insert(item, c + 1);
        self.total = self.total + 1;
        self.items = Ghost(old_items.insert(item));
    }

    /// Counts every item of `items` once more.
    pub fn extend(&mut self, items: Vec<TItem>)
        requires
            old(self).wf(),
            old(self).spec_items().len() + items@.len() <= usize::MAX,
        ensures
            final(self).wf(),
            final(self).spec_items() == old(self).spec_items().add(items@.to_multiset()),
    {
        let mut items = items;
        let ghost target = old(self).spec_items().add(items@.to_multiset());
        while items.len() > 0
            invariant
                self.wf(),
                self.spec_items().len() + items@.len() <= usize::MAX,
                self.spec_items().add(items@.to_multiset()) == target,
            decreases items.len(),
        {
            let ghost before = items@;
            let x = items.pop().unwrap();
            proof {
                before.drop_last().to_multiset_ensures();
                assert(before =~= before.drop_last().push(x));
                assert(before.to_multiset() =~= items@.to_multiset().insert(x));
                items@.to_multiset_ensures();
                before.to_multiset_ensures();
            }
            self.add_one(x);
            assert(self.spec_items().add(items@.to_multiset()) =~= target);
        }
        proof {
            items@.to_multiset_ensures();
        }
        assert(self.spec_items() =~= target);
    }

    /// A counter of the items of `items`.
    pub fn from_items(items: Vec<TItem>) -> (r: Self)
        requires
            obeys_key_model::<TItem>(),
        ensures
            r.wf(),
            r.spec_items() == items@.to_multiset(),
    {
        let mut r = Self::new();
        let _count = items.len();
        proof {
            items@.to_multiset_ensures();
        }
        r.extend(items);
        assert(r.spec_items() =~= items@.to_multiset());
        r
    }

    /// Takes one occurrence of `item` away; `false` when there is none.
    pub fn remove(&mut self, item: TItem) -> (r: bool)
        requires
            old(self).wf(),
        ensures
            final(self).wf(),
            r == (old(self).spec_items().count(item) > 0),
            final(self).spec_items() == old(self).spec_items().remove(item),
    {
        let c: usize = match self.counts.get(&item) {
            Some(c) => *c,
            None => {
                assert(self.items@.remove(item) =~= self.items@);
                return false;
            },
        };
        let ghost old_items = self.items@;
        if c > 1 {
            self.counts.insert(item, c - 1);
        } else {
            self.counts.remove(&item);
        }
        self.total = self.total - 1;
        self.items = Ghost(old_items.remove(item));
        true
    }

    /// The number of counted items, with repetitions.
    pub fn len(&self) -> (r: usize)
        requires
            self.wf(),
        ensures
            r == self.spec_items().len(),
    {
        self.total
    }
}

/// Counting an item once more and then removing it gives back the items counted
/// before; the removal reports the item as found.
pub proof fn lemma_remove_undoes_extend<TItem>(before: Multiset<TItem>, x: TItem)
    ensures
        before.add(seq![x].to_multiset()).count(x) > 0,
        before.add(seq![x].to_multiset()).remove(x) == before,
{
    let one = seq![x];
    assert(one =~= Seq::<TItem>::empty().push(x));
    Seq::<TItem>::empty().to_multiset_ensures();
    one.to_multiset_ensures();
    assert(one.to_multiset() =~= Multiset::<TItem>::empty().insert(x));
    assert(before.add(one.to_multiset()).remove(x) =~= before);
}

/// The items left after removing each of `removed` in turn from `items`.
pub open spec fn after_removals<TItem>(items: Multiset<TItem>, removed: Seq<TItem>) -> Multiset<TItem>
    decreases removed.len(),
{
    if removed.len() == 0 {
        items
    } else {
        after_removals(items, removed.drop_last()).remove(removed.last())
    }
}

/// How many of the removals of `removed` from `items` found their item, so that
/// `remove` returned `true`.
pub open spec fn successful_removals<TItem>(items: Multiset<TItem>, removed: Seq<TItem>) -> nat
    decreases removed.len(),
{
    if removed.len() == 0 {
        0
    } else {
        successful_removals(items, removed.drop_last()) + if after_removals(items, removed.drop_last()).count(
            removed.last(),
        ) > 0 {
            1nat
        } else {
            0nat
        }
    }
}

/// The length of a counter is the number of items counted less the removals that
/// found their item: after filling a counter with `items` and removing each of
/// `removed` in turn, its length is `items.len()` less the calls of `remove` that
/// returned `true`.
pub proof fn lemma_len_after_removals<TItem>(items: Multiset<TItem>, removed: Seq<TItem>)
    ensures
        after_removals(items, removed).len() + successful_removals(items, removed) == items.len(),
    decreases removed.len(),
{
    if removed.len() > 0 {
        lemma_len_after_removals(items, removed.drop_last());
        let m = after_removals(items, removed.drop_last());
        let x = removed.last();
        if m.count(x) > 0 {
            assert(Multiset::singleton(x).subset_of(m));
        } else {
            assert(m.remove(x) =~= m);
        }
    }
}

} // verus!
