//! Ordinal numbering of nested list items.
//!
//! Items come as a flat sequence, each with its depth of nesting. Items that
//! follow one another at one depth get consecutive indices; a deeper level
//! starts at zero; on the way back to a shallower level the numbering goes on
//! where that level left off.

use crate::elements::{ListItem, ListItemView};
use vstd::prelude::*;

verus! {

/// What the numbering remembers between two items.
pub struct Numbering {
    /// The index that the next item at the current depth gets.
    pub next_index: usize,
    /// The depth of the item numbered last.
    pub current_depth: u8,
    /// The indices at which the shallower levels go on, innermost last.
    pub saved_indexes: Seq<usize>,
}

/// `index + 1`, or the largest `usize` where that does not fit.
pub open spec fn following(index: usize) -> usize {
    if index == usize::MAX {
        usize::MAX
    } else {
        (index + 1) as usize
    }
}

impl Numbering {
    /// The numbering before the first item of a list that starts at `first`.
    pub open spec fn start(first: usize) -> Numbering {
        Numbering { next_index: first, current_depth: 0, saved_indexes: Seq::empty() }
    }

    /// The numbering once it stands at `depth`, before the item there takes
    /// its index. Going deeper saves the next index and starts at zero. Going
    /// back up by some levels drops as many saved indices and goes on at the
    /// last one dropped, or at zero where fewer were saved.
    pub open spec fn moved_to(self, depth: u8) -> Numbering {
        if depth > self.current_depth {
            Numbering {
                next_index: 0,
                current_depth: depth,
                saved_indexes: self.saved_indexes.push(self.next_index),
            }
        } else if depth < self.current_depth {
            let levels = self.current_depth - depth;
            let kept = self.saved_indexes.len() - levels;
            if kept >= 0 {
                Numbering {
                    next_index: self.saved_indexes[kept],
                    current_depth: depth,
                    saved_indexes: self.saved_indexes.take(kept),
                }
            } else {
                Numbering { next_index: 0, current_depth: depth, saved_indexes: Seq::empty() }
            }
        } else {
            self
        }
    }

    /// The index that an item at `depth` gets.
    pub open spec fn index_at(self, depth: u8) -> usize {
        self.moved_to(depth).next_index
    }

    /// The numbering after an item at `depth`.
    pub open spec fn after(self, depth: u8) -> Numbering {
        let moved = self.moved_to(depth);
        Numbering { next_index: following(moved.next_index), ..moved }
    }

    /// The indices of items at the given depths, in order.
    pub open spec fn indexes(self, depths: Seq<u8>) -> Seq<usize>
        decreases depths.len(),
    {
        if depths.len() == 0 {
            Seq::empty()
        } else {
            seq![self.index_at(depths[0])] + self.after(depths[0]).indexes(depths.drop_first())
        }
    }

    /// The numbering after items at the given depths.
    pub open spec fn after_all(self, depths: Seq<u8>) -> Numbering
        decreases depths.len(),
    {
        if depths.len() == 0 {
            self
        } else {
            self.after(depths[0]).after_all(depths.drop_first())
        }
    }
}

/// The depths of a sequence of items.
pub open spec fn depths_of(items: Seq<ListItemView>) -> Seq<u8> {
    items.map_values(|item: ListItemView| item.depth)
}

/// A list item with the index computed for it.
#[derive(Clone, Debug)]
pub struct IndexedListItem {
    pub index: usize,
    pub item: ListItem,
}

/// What an [`IndexedListItem`] holds.
pub struct IndexedListItemView {
    pub index: usize,
    pub item: ListItemView,
}

impl View for IndexedListItem {
    type V = IndexedListItemView;

    open spec fn view(&self) -> IndexedListItemView {
        IndexedListItemView { index: self.index, item: self.item@ }
    }
}

/// Each item with the index at the same position.
pub open spec fn indexed(items: Seq<ListItemView>, indexes: Seq<usize>) -> Seq<IndexedListItemView> {
    Seq::new(items.len(), |i: int| IndexedListItemView { index: indexes[i], item: items[i] })
}

/// The views of a sequence of indexed items.
pub open spec fn indexed_view(items: Seq<IndexedListItem>) -> Seq<IndexedListItemView> {
    items.map_values(|item: IndexedListItem| item@)
}

/// Hands out the items of a list one by one, each with its index.
pub struct ListIterator {
    /// The items still to come, the next one last.
    remaining: Vec<ListItem>,
    next_index: usize,
    current_depth: u8,
    saved_indexes: Vec<usize>,
}

impl ListIterator {
    /// The items still to come, in order.
    pub closed spec fn remaining(&self) -> Seq<ListItemView> {
        self.remaining@.map_values(|item: ListItem| item@).reverse()
    }

    /// What the numbering remembers.
    pub closed spec fn numbering(&self) -> Numbering {
        Numbering {
            next_index: self.next_index,
            current_depth: self.current_depth,
            saved_indexes: self.saved_indexes@,
        }
    }

    /// Starts numbering `items`, the first item at depth zero getting
    /// `next_index`.
    pub fn new(items: Vec<ListItem>, next_index: usize) -> (iterator: Self)
        ensures
            iterator.remaining() == items@.map_values(|item: ListItem| item@),
            iterator.numbering() == Numbering::start(next_index),
    {
        let ghost given = items@.map_values(|item: ListItem| item@);
        let mut items = items;
        let mut remaining: Vec<ListItem> = Vec::new();
        while items.len() > 0
            invariant
                items@.map_values(|item: ListItem| item@) + remaining@.map_values(
                    |item: ListItem| item@,
                ).reverse() =~= given,
            decreases items.len(),
        {
            let ghost before = items@.map_values(|item: ListItem| item@);
            let ghost done = remaining@.map_values(|item: ListItem| item@);
            let item = items.pop().unwrap();
            remaining.push(item);
            assert(remaining@.map_values(|item: ListItem| item@) =~= done.push(item@));
            assert(done.push(item@).reverse() =~= seq![item@] + done.reverse());
            assert(before =~= items@.map_values(|item: ListItem| item@).push(item@));
        }
        let iterator = ListIterator {
            remaining,
            next_index,
            current_depth: 0,
            saved_indexes: Vec::new(),
        };
        assert(iterator.remaining() =~= given);
        iterator
    }

    /// The next item with its index, or `None` when no item is left.
    pub fn next(&mut self) -> (next: Option<IndexedListItem>)
        ensures
            match next {
                Some(indexed) => {
                    &&& old(self).remaining().len() > 0
                    &&& indexed@.item == old(self).remaining()[0]
                    &&& indexed@.index == old(self).numbering().index_at(indexed@.item.depth)
                    &&& final(self).remaining() == old(self).remaining().drop_first()
                    &&& final(self).numbering() == old(self).numbering().after(indexed@.item.depth)
                },
                None => {
                    &&& old(self).remaining().len() == 0
                    &&& final(self).remaining() == old(self).remaining()
                    &&& final(self).numbering() == old(self).numbering()
                },
            },
    {
        let ghost before = self.remaining@.map_values(|item: ListItem| item@);
        let head = match self.remaining.pop() {
            Some(head) => head,
            None => {
                return None;
            },
        };
        proof {
            let now = self.remaining@.map_values(|item: ListItem| item@);
            assert(before =~= now.push(head@));
            assert(now.push(head@).reverse() =~= seq![head@] + now.reverse());
            assert((seq![head@] + now.reverse()).drop_first() =~= now.reverse());
        }
        if head.depth > self.current_depth {
            self.saved_indexes.push(self.next_index);
            self.next_index = 0;
        } else if head.depth < self.current_depth {
            let ghost saved = self.saved_indexes@;
            let levels: u8 = self.current_depth - head.depth;
            let mut level: u8 = 0;
            while level < levels
                invariant
                    level <= levels,
                    level == 0 ==> self.saved_indexes@ == saved && self.next_index == old(
                        self,
                    ).next_index,
                    0 < level <= saved.len() ==> self.saved_indexes@ == saved.take(
                        saved.len() - level,
                    ) && self.next_index == saved[saved.len() - level],
                    level > saved.len() ==> self.saved_indexes@ == Seq::<usize>::empty()
                        && self.next_index == 0,
                    self.remaining@ == old(self).remaining@.drop_last(),
                    self.current_depth == old(self).current_depth,
                decreases levels - level,
            {
                self.next_index =
                match self.saved_indexes.pop() {
                    Some(index) => index,
                    None => 0,
                };
                level += 1;
                assert(level <= saved.len() ==> self.saved_indexes@ =~= saved.take(
                    saved.len() - level,
                ));
                assert(level > saved.len() ==> self.saved_indexes@ =~= Seq::<usize>::empty());
            }
        }
        self.current_depth = head.depth;
        let index = self.next_index;
        self.next_index = self.next_index.saturating_add(1);
        Some(IndexedListItem { index, item: head })
    }

    /// Every item that is left, with its index.
    pub fn collect(self) -> (items: Vec<IndexedListItem>)
        ensures
            indexed_view(items@) == indexed(
                self.remaining(),
                self.numbering().indexes(depths_of(self.remaining())),
            ),
    {
        let ghost all = indexed(
            self.remaining(),
            self.numbering().indexes(depths_of(self.remaining())),
        );
        let mut iterator = self;
        let mut items: Vec<IndexedListItem> = Vec::new();
        assert(indexed_view(items@) + all =~= all);
        loop
            invariant
                indexed_view(items@) + indexed(
                    iterator.remaining(),
                    iterator.numbering().indexes(depths_of(iterator.remaining())),
                ) == all,
            ensures
                indexed_view(items@) == all,
            decreases iterator.remaining().len(),
        {
            let ghost rest = iterator.remaining();
            let ghost numbering = iterator.numbering();
            let ghost done = indexed_view(items@);
            match iterator.next() {
                Some(item) => {
                    proof {
                        let depths = depths_of(rest);
                        assert(depths.drop_first() =~= depths_of(rest.drop_first()));
                        lemma_indexes_len(numbering.after(depths[0]), depths.drop_first());
                        assert(indexed(rest, numbering.indexes(depths)) =~= seq![item@] + indexed(
                            rest.drop_first(),
                            numbering.after(depths[0]).indexes(depths.drop_first()),
                        ));
                        assert(indexed_view(items@.push(item)) =~= done + seq![item@]);
                    }
                    items.push(item);
                },
                None => {
                    assert(indexed(rest, numbering.indexes(depths_of(rest))) =~= Seq::empty());
                    assert(done + Seq::<IndexedListItemView>::empty() =~= done);
                    break;
                },
            }
        }
        items
    }
}

/// One index is computed for each depth.
pub proof fn lemma_indexes_len(numbering: Numbering, depths: Seq<u8>)
    ensures
        numbering.indexes(depths).len() == depths.len(),
    decreases depths.len(),
{
    if depths.len() > 0 {
        lemma_indexes_len(numbering.after(depths[0]), depths.drop_first());
    }
}

/// `count` items at one depth.
pub open spec fn siblings(depth: u8, count: nat) -> Seq<u8> {
    Seq::new(count, |i: int| depth)
}

/// An item at the depth of the item before it gets the index that follows.
pub proof fn lemma_siblings_follow(numbering: Numbering, depth: u8)
    requires
        depth == numbering.current_depth,
    ensures
        numbering.index_at(depth) == numbering.next_index,
        numbering.after(depth).index_at(depth) == following(numbering.next_index),
{
}

/// The first item at a deeper level gets the index zero.
pub proof fn lemma_deeper_starts_anew(numbering: Numbering, depth: u8)
    requires
        depth > numbering.current_depth,
    ensures
        numbering.index_at(depth) == 0,
{
}

/// Items at the current depth leave the saved indices as they are.
pub proof fn lemma_siblings_keep(numbering: Numbering, count: nat)
    ensures
        numbering.after_all(siblings(numbering.current_depth, count)).saved_indexes
            == numbering.saved_indexes,
        numbering.after_all(siblings(numbering.current_depth, count)).current_depth
            == numbering.current_depth,
    decreases count,
{
    let depths = siblings(numbering.current_depth, count);
    if count > 0 {
        assert(depths.drop_first() =~= siblings(numbering.current_depth, (count - 1) as nat));
        lemma_siblings_keep(numbering.after(numbering.current_depth), (count - 1) as nat);
    }
}

/// After any number of items one level down, the numbering goes on where it
/// left off: the next item at the old depth gets the index that the level
/// had reached.
pub proof fn lemma_return_resumes(numbering: Numbering, count: nat)
    requires
        numbering.current_depth < u8::MAX,
        count > 0,
    ensures
        numbering.after_all(
            siblings((numbering.current_depth + 1) as u8, count),
        ).index_at(numbering.current_depth) == numbering.next_index,
{
    let deeper = (numbering.current_depth + 1) as u8;
    let depths = siblings(deeper, count);
    let first = numbering.after(deeper);
    assert(depths.drop_first() =~= siblings(deeper, (count - 1) as nat));
    lemma_siblings_keep(first, (count - 1) as nat);
    let last = first.after_all(siblings(deeper, (count - 1) as nat));
    assert(last.saved_indexes == numbering.saved_indexes.push(numbering.next_index));
    assert(last.saved_indexes.take(last.saved_indexes.len() - 1) =~= numbering.saved_indexes);
}

/// A depth that was never entered can be left: the numbering then starts at
/// zero.
pub proof fn lemma_missing_levels(numbering: Numbering, depth: u8)
    requires
        depth < numbering.current_depth,
        numbering.current_depth - depth > numbering.saved_indexes.len(),
    ensures
        numbering.index_at(depth) == 0,
        numbering.after(depth).saved_indexes.len() == 0,
{
}

} // verus!
