//! An append-only list that threads a chain through the items matching the
//! active filter, so that stepping from one match to the next takes one
//! lookup.

use crate::chain::{
    first_hit, is_next_hit, is_prev_hit, last_hit, lemma_ends_agree, lemma_next_hit_unique,
    lemma_prev_hit_unique, next_hit, no_hit, prev_hit,
};
use vstd::prelude::*;

verus! {

/// An item that can be tested against a filter string.
pub trait Filtable {
    /// The membership test as a predicate over the filter's characters.
    /// An implementation that does not say what it matches matches nothing.
    open spec fn matches(&self, filter: Seq<char>) -> bool {
        false
    }

    /// Whether the item matches the filter `s`.
    fn is_match(&self, s: &str) -> (b: bool)
        ensures
            b == self.matches(s@),
    ;
}

/// One slot of the list: the item and its two chain links.
struct FiltableListItem<T> {
    item: T,
    previous: Option<usize>,
    next: Option<usize>,
}

/// The list: the slots in insertion order and the active filter.
pub struct FiltableList<T: Filtable> {
    list: Vec<FiltableListItem<T>>,
    filter: String,
}

/// What a list is to its callers: the items in insertion order and the
/// characters of the active filter.
pub struct FiltableListView<T> {
    pub items: Seq<T>,
    pub filter: Seq<char>,
}

/// An index as the list stores it.
pub open spec fn to_index(o: Option<int>) -> Option<usize> {
    match o {
        Some(j) => Some(j as usize),
        None => None,
    }
}

/// A stored index as a mathematical one.
pub open spec fn of_index(o: Option<usize>) -> Option<int> {
    match o {
        Some(j) => Some(j as int),
        None => None,
    }
}

/// One flag per item: whether it matches `filter`.
pub open spec fn flags_of<T: Filtable>(items: Seq<T>, filter: Seq<char>) -> Seq<bool> {
    Seq::new(items.len(), |i: int| items[i].matches(filter))
}

impl<T: Filtable> FiltableListView<T> {
    /// One flag per item: whether it matches the active filter.
    pub open spec fn flags(self) -> Seq<bool> {
        flags_of(self.items, self.filter)
    }
}

spec fn items_of<T>(slots: Seq<FiltableListItem<T>>) -> Seq<T> {
    Seq::new(slots.len(), |i: int| slots[i].item)
}

/// Every slot's links are the nearest matches on either side under `filter`.
spec fn linked<T: Filtable>(slots: Seq<FiltableListItem<T>>, filter: Seq<char>) -> bool {
    &&& forall|i: int|
        0 <= i < slots.len() ==> is_next_hit(
            flags_of(items_of(slots), filter),
            i,
            of_index(#[trigger] slots[i].next),
        )
    &&& forall|i: int|
        0 <= i < slots.len() ==> is_prev_hit(
            flags_of(items_of(slots), filter),
            i,
            of_index(#[trigger] slots[i].previous),
        )
}

impl<T: Filtable> View for FiltableList<T> {
    type V = FiltableListView<T>;

    closed spec fn view(&self) -> FiltableListView<T> {
        FiltableListView { items: items_of(self.list@), filter: self.filter@ }
    }
}

impl<T: Filtable> FiltableList<T> {
    #[verifier::type_invariant]
    spec fn inv(self) -> bool {
        self.well_formed()
    }

    /// The chain is up to date: every slot's links are the nearest matches on
    /// either side under the active filter. Every list that this module
    /// hands out is well formed.
    pub closed spec fn well_formed(&self) -> bool {
        linked(self.list@, self.filter@)
    }

    /// The links as stored, one pair `(previous, next)` per index.
    pub closed spec fn links(&self) -> Seq<(Option<usize>, Option<usize>)> {
        Seq::new(self.list@.len(), |i: int| (self.list@[i].previous, self.list@[i].next))
    }

    /// An empty list with the empty filter.
    pub fn new() -> (s: Self)
        ensures
            s@.items == Seq::<T>::empty(),
            s@.filter == Seq::<char>::empty(),
            s.well_formed(),
    {
        let s = Self { list: Vec::new(), filter: String::new() };
        s
    }

    /// Whether the list holds no item at all.
    pub fn is_empty(&self) -> (b: bool)
        ensures
            b == (self@.items.len() == 0),
    {
        self.list.len() == 0
    }

    /// Whether no item matches the active filter.
    pub fn is_filterd_empty(&self) -> (b: bool)
        ensures
            b == no_hit(self@.flags()),
    {
        self.filterd_first().is_none()
    }

    /// A copy of the active filter.
    pub fn get_filter(&self) -> (s: String)
        ensures
            s@ == self@.filter,
    {
        self.filter.clone()
    }

    /// The item at index `i`.
    pub fn get_item(&self, i: usize) -> (item: &T)
        requires
            i < self@.items.len(),
        ensures
            *item == self@.items[i as int],
    {
        &self.list[i].item
    }

    /// Whether the item at index `i` matches the active filter.
    pub fn is_match(&self, i: usize) -> (b: bool)
        requires
            i < self@.items.len(),
        ensures
            b == self@.flags()[i as int],
    {
        self.list[i].item.is_match(self.filter.as_str())
    }

    /// The number of items, matching or not.
    pub fn len(&self) -> (n: usize)
        ensures
            n == self@.items.len(),
    {
        self.list.len()
    }

    /// Appends `item` at the next index and extends the chain to it.
    ///
    /// The new slot's backward link is read off its predecessor. If the item
    /// matches, the slots before it that had no forward link yet are given
    /// one; the walk stops at the first slot that already has one.
    pub fn push(&mut self, item: T)
        ensures
            final(self)@.items == old(self)@.items.push(item),
            final(self)@.filter == old(self)@.filter,
            final(self).well_formed(),
    {
        proof {
            use_type_invariant(&*self);
        }
        let mut list: Vec<FiltableListItem<T>> = Vec::new();
        std::mem::swap(&mut list, &mut self.list);
        let ghost before = list@;
        let ghost filter = self.filter@;
        let ghost flags0 = flags_of(items_of(before), filter);
        let n: usize = list.len();
        let hit = item.is_match(self.filter.as_str());
        let previous = if n == 0 {
            None
        } else if list[n - 1].item.is_match(self.filter.as_str()) {
            Some(n - 1)
        } else {
            list[n - 1].previous
        };
        list.push(FiltableListItem { item, previous, next: None });
        let ghost flags1 = flags_of(items_of(list@), filter);
        proof {
            // the new flags are the old ones with one more at the end
            assert(items_of(list@) =~= items_of(before).push(item));
            assert(flags1 =~= flags0.push(hit));
        }
        if hit {
            let mut count: usize = n;
            while count > 0 && list[count - 1].next.is_none()
                invariant
                    0 <= count <= n,
                    list@.len() == n + 1,
                    before.len() == n,
                    items_of(list@) == items_of(before).push(item),
                    flags1 == flags0.push(true),
                    flags0.len() == n,
                    flags0 == flags_of(items_of(before), filter),
                    linked(before, filter),
                    forall|i: int| 0 <= i <= n ==> #[trigger] list@[i].previous == if i < n {
                        before[i].previous
                    } else {
                        previous
                    },
                    forall|i: int| 0 <= i < count ==> #[trigger] list@[i].next == before[i].next,
                    forall|i: int|
                        count <= i <= n ==> is_next_hit(flags1, i, of_index(#[trigger] list@[i].next)),
                decreases count,
            {
                count -= 1;
                list[count].next = Some(n);
            }
            // the slot that stopped the walk has a match above it, so every
            // slot before it has one too and keeps its link
        }
        self.list = list;
    }

    /// Recomputes every link against the active filter: one forward pass for
    /// the backward links, one backward pass for the forward links.
    fn update_filter(list: &mut Vec<FiltableListItem<T>>, filter: &str)
        ensures
            items_of(final(list)@) == items_of(old(list)@),
            linked(final(list)@, filter@),
    {
        let ghost items = items_of(list@);
        let ghost flags = flags_of(items, filter@);
        let n: usize = list.len();
        let mut last_true: Option<usize> = None;
        let mut i: usize = 0;
        while i < n
            invariant
                0 <= i <= n,
                list@.len() == n,
                items_of(list@) == items,
                flags == flags_of(items, filter@),
                is_prev_hit(flags, i as int, of_index(last_true)),
                forall|k: int|
                    0 <= k < i ==> is_prev_hit(flags, k, of_index(#[trigger] list@[k].previous)),
            decreases n - i,
        {
            list[i].previous = last_true;
            if list[i].item.is_match(filter) {
                last_true = Some(i);
            }
            i += 1;
        }
        last_true = None;
        let mut i: usize = n;
        while i > 0
            invariant
                0 <= i <= n,
                list@.len() == n,
                items_of(list@) == items,
                flags == flags_of(items, filter@),
                is_next_hit(flags, i - 1, of_index(last_true)),
                forall|k: int|
                    0 <= k < n ==> is_prev_hit(flags, k, of_index(#[trigger] list@[k].previous)),
                forall|k: int|
                    i <= k < n ==> is_next_hit(flags, k, of_index(#[trigger] list@[k].next)),
            decreases i,
        {
            i -= 1;
            list[i].next = last_true;
            if list[i].item.is_match(filter) {
                last_true = Some(i);
            }
        }
    }

    /// Appends `st` to the active filter and rebuilds the whole chain.
    pub fn add_filter_str(&mut self, st: &str)
        ensures
            final(self)@.items == old(self)@.items,
            final(self)@.filter == old(self)@.filter + st@,
            final(self).well_formed(),
    {
        let mut list: Vec<FiltableListItem<T>> = Vec::new();
        std::mem::swap(&mut list, &mut self.list);
        let mut filter = String::new();
        std::mem::swap(&mut filter, &mut self.filter);
        filter.append(st);
        Self::update_filter(&mut list, filter.as_str());
        self.filter = filter;
        self.list = list;
    }

    /// Removes the last character of the active filter, if it has one, and
    /// rebuilds the whole chain.
    pub fn delete_filter_char(&mut self)
        ensures
            final(self)@.items == old(self)@.items,
            final(self)@.filter == if old(self)@.filter.len() > 0 {
                old(self)@.filter.drop_last()
            } else {
                old(self)@.filter
            },
            final(self).well_formed(),
    {
        let mut list: Vec<FiltableListItem<T>> = Vec::new();
        std::mem::swap(&mut list, &mut self.list);
        let mut filter = String::new();
        std::mem::swap(&mut filter, &mut self.filter);
        filter.pop();
        Self::update_filter(&mut list, filter.as_str());
        self.filter = filter;
        self.list = list;
    }

    /// The smallest matching index, or `None` when nothing matches.
    pub fn filterd_first(&self) -> (r: Option<usize>)
        ensures
            of_index(r) == first_hit(self@.flags()),
            is_next_hit(self@.flags(), -1, of_index(r)),
            r is None <==> no_hit(self@.flags()),
            r matches Some(j) ==> j < self@.items.len(),
    {
        proof {
            use_type_invariant(self);
            lemma_ends_agree(self@.flags());
        }
        if self.list.len() == 0 {
            return None;
        }
        let r = if self.list[0].item.is_match(self.filter.as_str()) {
            Some(0)
        } else {
            self.list[0].next
        };
        proof {
            let flags = self@.flags();
            lemma_next_hit_unique(flags, -1, of_index(r));
        }
        r
    }

    /// The largest matching index, or `None` when nothing matches.
    pub fn filterd_last(&self) -> (r: Option<usize>)
        ensures
            of_index(r) == last_hit(self@.flags()),
            is_prev_hit(self@.flags(), self@.items.len() as int, of_index(r)),
            r is None <==> no_hit(self@.flags()),
            r matches Some(j) ==> j < self@.items.len(),
    {
        proof {
            use_type_invariant(self);
            lemma_ends_agree(self@.flags());
        }
        let n = self.list.len();
        if n == 0 {
            return None;
        }
        let r = if self.list[n - 1].item.is_match(self.filter.as_str()) {
            Some(n - 1)
        } else {
            self.list[n - 1].previous
        };
        proof {
            let flags = self@.flags();
            lemma_prev_hit_unique(flags, n as int, of_index(r));
        }
        r
    }

    /// The smallest matching index above `i`, or `None` when no item above
    /// `i` matches; whether the item at `i` itself matches plays no part.
    pub fn next(&self, i: usize) -> (r: Option<usize>)
        requires
            i < self@.items.len(),
        ensures
            of_index(r) == next_hit(self@.flags(), i as int),
            is_next_hit(self@.flags(), i as int, of_index(r)),
            r == self.links()[i as int].1,
            r matches Some(j) ==> i < j < self@.items.len(),
    {
        proof {
            use_type_invariant(self);
            lemma_next_hit_unique(self@.flags(), i as int, of_index(self.list@[i as int].next));
        }
        self.list[i].next
    }

    /// The largest matching index below `i`, or `None` when no item below
    /// `i` matches; whether the item at `i` itself matches plays no part.
    pub fn previous(&self, i: usize) -> (r: Option<usize>)
        requires
            i < self@.items.len(),
        ensures
            of_index(r) == prev_hit(self@.flags(), i as int),
            is_prev_hit(self@.flags(), i as int, of_index(r)),
            r == self.links()[i as int].0,
            r matches Some(j) ==> j < i,
    {
        proof {
            use_type_invariant(self);
            lemma_prev_hit_unique(
                self@.flags(),
                i as int,
                of_index(self.list@[i as int].previous),
            );
        }
        self.list[i].previous
    }
}

impl<T: Filtable> Default for FiltableList<T> {
    fn default() -> (s: Self)
        ensures
            s@.items == Seq::<T>::empty(),
            s@.filter == Seq::<char>::empty(),
            s.well_formed(),
    {
        Self::new()
    }
}

/// The chain is a function of the items and the active filter alone: two
/// well-formed lists that hold the same items under the same filter store
/// the same links, whatever pushes and filter edits led to each.
pub proof fn lemma_chain_is_determined<T: Filtable>(a: FiltableList<T>, b: FiltableList<T>)
    requires
        a.well_formed(),
        b.well_formed(),
        a@.items == b@.items,
        a@.filter == b@.filter,
    ensures
        a.links() == b.links(),
{
    let flags = a@.flags();
    assert(a.list@.len() == b.list@.len());
    assert forall|i: int| 0 <= i < a.list@.len() implies a.links()[i] == b.links()[i] by {
        lemma_next_hit_unique(flags, i, of_index(a.list@[i].next));
        lemma_next_hit_unique(flags, i, of_index(b.list@[i].next));
        lemma_prev_hit_unique(flags, i, of_index(a.list@[i].previous));
        lemma_prev_hit_unique(flags, i, of_index(b.list@[i].previous));
    }
}

/// In a well-formed list every stored link is the nearest match on its side:
/// the forward link of `i` is the smallest matching index above `i`, the
/// backward link the largest matching index below `i`, and each is `None`
/// exactly when there is no such index.
pub proof fn lemma_links_are_nearest<T: Filtable>(a: FiltableList<T>, i: int)
    requires
        a.well_formed(),
        0 <= i < a@.items.len(),
    ensures
        is_next_hit(a@.flags(), i, of_index(a.links()[i].1)),
        is_prev_hit(a@.flags(), i, of_index(a.links()[i].0)),
        of_index(a.links()[i].1) == next_hit(a@.flags(), i),
        of_index(a.links()[i].0) == prev_hit(a@.flags(), i),
{
    lemma_next_hit_unique(a@.flags(), i, of_index(a.list@[i].next));
    lemma_prev_hit_unique(a@.flags(), i, of_index(a.list@[i].previous));
}

} // verus!
