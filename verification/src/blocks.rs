//! Lists and block quotes: how the builder lays them out.

use crate::builder::{text_operations, BuilderView, LastElement, PresentationBuilder, SlideState};
use crate::chunk::SlideChunkView;
use crate::elements::{
    clamped, ListItem, ListItemType, ListItemView, StyledText, StyledTextView, Text,
};
use crate::numbering::{
    depths_of, following, indexed, indexed_view, IndexedListItemView, ListIterator, Numbering,
};
use crate::operation::{
    PreformattedLine, PreformattedLineView, RenderOperation, RenderOperationView,
};
use crate::render::byte_length;
use crate::style::TextStyle;
use crate::text::{
    decimal_digits, display_width, measure, push_decimal, repeat_char, repeated, views_of,
};
use crate::theme::{Alignment, ElementType, Margin, PresentationTheme};
use vstd::prelude::*;
use vstd::string::StringExecFns;

verus! {

/// The bullet of an unordered item at the given depth.
pub open spec fn bullet(depth: u8) -> char {
    if depth == 0 {
        '\u{2022}'
    } else if depth == 1 {
        '\u{25e6}'
    } else {
        '\u{25aa}'
    }
}

/// What marks an item: three spaces for each level down to its own, then its
/// bullet, or its number (one more than its index) and a parenthesis or a
/// period, and a space.
pub open spec fn item_prefix(index: usize, depth: u8, item_type: ListItemType) -> Seq<char> {
    repeated(' ', ((depth + 1) * 3) as nat) + (match item_type {
        ListItemType::Unordered => seq![bullet(depth)],
        ListItemType::OrderedParens => decimal_digits(following(index) as nat) + seq![')', ' '],
        ListItemType::OrderedPeriod => decimal_digits(following(index) as nat) + seq!['.', ' '],
    })
}

/// `n`, or the largest `u16` where `n` exceeds it.
pub open spec fn clamped_u16(n: nat) -> u16 {
    if n > u16::MAX {
        u16::MAX
    } else {
        n as u16
    }
}

/// A single run of plain text.
pub open spec fn plain_text(text: Seq<char>) -> Seq<StyledTextView> {
    seq![StyledTextView { text, style: TextStyle::plain() }]
}

/// The operations of one list item: its mark, its contents at a margin as
/// wide as the mark has bytes, and a line break.
pub open spec fn list_item_operations(
    theme: PresentationTheme,
    index: usize,
    item: ListItemView,
) -> Seq<RenderOperationView> {
    let prefix = item_prefix(index, item.depth, item.item_type);
    text_operations(
        plain_text(prefix),
        theme.inline_code,
        theme.spec_alignment(ElementType::List),
    ) + text_operations(
        item.contents,
        theme.inline_code,
        Alignment::Left { margin: Margin::Fixed(clamped_u16(byte_length(prefix))) },
    ) + seq![RenderOperationView::RenderLineBreak]
}

/// The operations of the given items, one item after the other.
pub open spec fn list_operations(theme: PresentationTheme, items: Seq<IndexedListItemView>) -> Seq<
    RenderOperationView,
>
    decreases items.len(),
{
    if items.len() == 0 {
        Seq::empty()
    } else {
        list_operations(theme, items.drop_last()) + list_item_operations(
            theme,
            items.last().index,
            items.last().item,
        )
    }
}

/// What the builder remembers after the given items: the index of the last
/// of them at depth zero, or what it remembered before where none is.
pub open spec fn last_element_after(last: LastElement, items: Seq<IndexedListItemView>) -> LastElement
    decreases items.len(),
{
    if items.len() == 0 {
        last
    } else if items.last().item.depth == 0 {
        LastElement::List { last_index: items.last().index }
    } else {
        last_element_after(last, items.drop_last())
    }
}

impl BuilderView {
    /// Whether a list that starts here goes on where the chunk sealed last
    /// ended: that chunk ended in a list and in a line break, and the chunk
    /// in progress is empty.
    pub open spec fn continues_list(self) -> bool {
        &&& self.slide_chunks.len() > 0
        &&& self.slide_chunks.last().operations.len() > 0
        &&& self.slide_chunks.last().operations.last() == RenderOperationView::RenderLineBreak
        &&& self.state.last_chunk_ended_in_list
        &&& self.operations.len() == 0
    }

    /// The index of the first item at depth zero of a list that starts here:
    /// one more than that of the list just before, where the chunk in
    /// progress is empty and a list came last; else zero.
    pub open spec fn list_start(self) -> usize {
        match self.state.last_element {
            LastElement::List { last_index } => if self.operations.len() == 0 {
                following(last_index)
            } else {
                0
            },
            LastElement::Any => 0,
        }
    }

    /// The items of a list that starts here, each with its index.
    pub open spec fn numbered(self, items: Seq<ListItemView>) -> Seq<IndexedListItemView> {
        indexed(items, Numbering::start(self.list_start()).indexes(depths_of(items)))
    }

    /// The sealed chunks after a list started here: the last of them without
    /// its closing line break where the list goes on from it.
    pub open spec fn chunks_before_list(self) -> Seq<SlideChunkView> {
        if self.continues_list() {
            self.slide_chunks.update(
                self.slide_chunks.len() - 1,
                SlideChunkView {
                    operations: self.slide_chunks.last().operations.drop_last(),
                    ..self.slide_chunks.last()
                },
            )
        } else {
            self.slide_chunks
        }
    }

    /// The builder after a list of the given items.
    pub open spec fn with_list(self, items: Seq<ListItemView>) -> BuilderView {
        BuilderView {
            slide_chunks: self.chunks_before_list(),
            operations: self.operations + list_operations(self.theme, self.numbered(items)),
            state: SlideState {
                last_element: last_element_after(self.state.last_element, self.numbered(items)),
                ..self.state
            },
            ..self
        }
    }
}

/// The widest of the given lines of a quote, each measured with the prefix.
pub open spec fn quote_block_length(lines: Seq<Seq<char>>, prefix: Seq<char>) -> usize
    decreases lines.len(),
{
    if lines.len() == 0 {
        0
    } else {
        let before = quote_block_length(lines.drop_last(), prefix);
        let width = clamped(display_width(lines.last()) + display_width(prefix));
        if width > before {
            width
        } else {
            before
        }
    }
}

/// The operations of the given lines of a quote: each line after the prefix,
/// and a line break.
pub open spec fn quote_lines(
    lines: Seq<Seq<char>>,
    prefix: Seq<char>,
    block_length: usize,
    alignment: Alignment,
) -> Seq<RenderOperationView>
    decreases lines.len(),
{
    if lines.len() == 0 {
        Seq::empty()
    } else {
        quote_lines(lines.drop_last(), prefix, block_length, alignment) + seq![
            RenderOperationView::RenderPreformattedLine(
                PreformattedLineView {
                    text: prefix + lines.last(),
                    unformatted_length: display_width(prefix + lines.last()) as usize,
                    block_length,
                    alignment,
                },
            ),
            RenderOperationView::RenderLineBreak,
        ]
    }
}

/// The prefix that the theme puts before each line of a quote.
pub open spec fn quote_prefix(theme: PresentationTheme) -> Seq<char> {
    match theme.block_quote.prefix {
        Some(prefix) => prefix@,
        None => Seq::empty(),
    }
}

/// The operations of a block quote: the quote's colors, its lines, and the
/// default colors again.
pub open spec fn block_quote_operations(theme: PresentationTheme, lines: Seq<Seq<char>>) -> Seq<
    RenderOperationView,
> {
    seq![RenderOperationView::SetColors(theme.block_quote.colors)] + quote_lines(
        lines,
        quote_prefix(theme),
        quote_block_length(lines, quote_prefix(theme)),
        theme.spec_alignment(ElementType::BlockQuote),
    ) + seq![RenderOperationView::SetColors(theme.default_style.colors)]
}

impl<'a> PresentationBuilder<'a> {
    /// Adds one list item, which was given the index `index`.
    pub fn push_list_item(&mut self, index: usize, item: ListItem)
        ensures
            final(self)@ == (BuilderView {
                operations: old(self)@.operations + list_item_operations(
                    old(self)@.theme,
                    index,
                    item@,
                ),
                state: SlideState {
                    last_element: if item.depth == 0 {
                        LastElement::List { last_index: index }
                    } else {
                        old(self)@.state.last_element
                    },
                    ..old(self)@.state
                },
                ..old(self)@
            }),
            old(self)@.wf() ==> final(self)@.wf(),
    {
        let padding_length: usize = (item.depth as usize + 1) * 3;
        let mut prefix: String = repeat_char(' ', padding_length);
        let ghost padding = prefix@;
        match item.item_type {
            ListItemType::Unordered => {
                let delimiter = if item.depth == 0 {
                    '\u{2022}'
                } else if item.depth == 1 {
                    '\u{25e6}'
                } else {
                    '\u{25aa}'
                };
                prefix.push(delimiter);
            },
            ListItemType::OrderedParens => {
                push_decimal(&mut prefix, index.saturating_add(1));
                prefix.push(')');
                prefix.push(' ');
            },
            ListItemType::OrderedPeriod => {
                push_decimal(&mut prefix, index.saturating_add(1));
                prefix.push('.');
                prefix.push(' ');
            },
        }
        assert(prefix@ =~= item_prefix(index, item.depth, item.item_type));
        let bytes: usize = prefix.as_str().as_bytes().len();
        let prefix_length: u16 = if bytes > u16::MAX as usize {
            u16::MAX
        } else {
            bytes as u16
        };
        let ghost view = item@;
        let depth = item.depth;
        self.push_text(Text::single(StyledText::plain(prefix)), ElementType::List);
        self.push_aligned_text(
            item.contents,
            Alignment::Left { margin: Margin::Fixed(prefix_length) },
        );
        self.push_line_break();
        if depth == 0 {
            self.slide_state.last_element = LastElement::List { last_index: index };
        }
        assert(self@.operations =~= old(self)@.operations + list_item_operations(
            old(self)@.theme,
            index,
            view,
        ));
    }

    /// Adds a list. After a pause the list goes on where the one before it
    /// ended: its numbers follow, and the line break that closed the chunk
    /// before is taken back.
    pub fn push_list(&mut self, list: Vec<ListItem>)
        ensures
            final(self)@ == old(self)@.with_list(list@.map_values(|item: ListItem| item@)),
            old(self)@.wf() ==> final(self)@.wf(),
    {
        let ghost items = list@.map_values(|item: ListItem| item@);
        let ghost start = self@;
        let chunks: usize = self.slide_chunks.len();
        if chunks > 0 && self.slide_state.last_chunk_ended_in_list
            && self.chunk_operations.len() == 0 {
            let ends_in_break = match self.slide_chunks[chunks - 1].last_operation() {
                Some(RenderOperation::RenderLineBreak) => true,
                _ => false,
            };
            if ends_in_break {
                self.slide_chunks[chunks - 1].pop_last();
                assert(self@.slide_chunks =~= start.chunks_before_list());
            }
        }
        assert(self@.slide_chunks =~= start.chunks_before_list());
        let start_index: usize = match self.slide_state.last_element {
            LastElement::List { last_index } => if self.chunk_operations.len() == 0 {
                last_index.saturating_add(1)
            } else {
                0
            },
            LastElement::Any => 0,
        };
        let numbered = ListIterator::new(list, start_index).collect();
        let ghost all = indexed_view(numbered@);
        assert(all == start.numbered(items));
        let ghost theme = self.theme;
        assert(all.take(0) =~= Seq::empty());
        assert(start.operations + list_operations(theme, all.take(0)) =~= start.operations);
        for item in iter: numbered
            invariant
                old(self)@.wf() ==> self@.wf(),
                indexed_view(iter.seq()) == all,
                theme == start.theme,
                self@ == (BuilderView {
                    slide_chunks: start.chunks_before_list(),
                    operations: start.operations + list_operations(theme, all.take(iter.index())),
                    state: SlideState {
                        last_element: last_element_after(
                            start.state.last_element,
                            all.take(iter.index()),
                        ),
                        ..start.state
                    },
                    ..start
                }),
        {
            let ghost view = item@;
            assert(all[iter.index()] == view);
            assert(all.take(iter.index() + 1).drop_last() =~= all.take(iter.index()));
            assert(all.take(iter.index() + 1).last() == view);
            self.push_list_item(item.index, item.item);
            assert(self@.operations =~= start.operations + list_operations(
                theme,
                all.take(iter.index() + 1),
            ));
        }
        assert(all.take(all.len() as int) =~= all);
    }

    /// Adds a block quote.
    pub fn push_block_quote(&mut self, lines: Vec<String>)
        ensures
            final(self)@ == old(self)@.with(
                block_quote_operations(old(self)@.theme, views_of(lines@)),
            ),
            old(self)@.wf() ==> final(self)@.wf(),
    {
        let ghost all = views_of(lines@);
        let ghost start = self@;
        let prefix: String = match &self.theme.block_quote.prefix {
            Some(prefix) => prefix.clone(),
            None => String::new(),
        };
        assert(prefix@ == quote_prefix(self.theme));
        let prefix_width = measure(prefix.as_str());
        let mut block_length: usize = 0;
        let mut i: usize = 0;
        assert(all.take(0) =~= Seq::empty());
        while i < lines.len()
            invariant
                old(self)@.wf() ==> self@.wf(),
                i <= lines.len(),
                all == views_of(lines@),
                prefix_width == display_width(prefix@),
                block_length == quote_block_length(all.take(i as int), prefix@),
            decreases lines.len() - i,
        {
            let width = measure(lines[i].as_str()).saturating_add(prefix_width);
            if width > block_length {
                block_length = width;
            }
            i += 1;
            assert(all.take(i as int).drop_last() =~= all.take(i - 1));
        }
        assert(all.take(i as int) =~= all);
        let alignment = self.theme.alignment(&ElementType::BlockQuote);
        self.push(RenderOperation::SetColors(self.theme.block_quote.colors));
        let ghost head = self@.operations;
        assert(head + quote_lines(all.take(0), prefix@, block_length, alignment) =~= head);
        for line in iter: lines
            invariant
                old(self)@.wf() ==> self@.wf(),
                views_of(iter.seq()) == all,
                self@ == (BuilderView {
                    operations: head + quote_lines(
                        all.take(iter.index()),
                        prefix@,
                        block_length,
                        alignment,
                    ),
                    ..start
                }),
        {
            assert(all[iter.index()] == line@);
            assert(all.take(iter.index() + 1).drop_last() =~= all.take(iter.index()));
            assert(all.take(iter.index() + 1).last() == line@);
            let mut text = prefix.clone();
            text.append(line.as_str());
            let line_length = measure(text.as_str());
            self.push(
                RenderOperation::RenderPreformattedLine(
                    PreformattedLine {
                        text,
                        unformatted_length: line_length,
                        block_length,
                        alignment,
                    },
                ),
            );
            self.push_line_break();
            assert(self@.operations =~= head + quote_lines(
                all.take(iter.index() + 1),
                prefix@,
                block_length,
                alignment,
            ));
        }
        assert(all.take(all.len() as int) =~= all);
        self.push(RenderOperation::SetColors(self.theme.default_style.colors));
        assert(self@.operations =~= start.operations + block_quote_operations(start.theme, all));
    }
}

} // verus!
