//! The order of a slide's operations: what holds of every slide that the
//! builder seals.
//!
//! Every slide opens in the same way: the default colors are set, the screen
//! is cleared, the margins are applied, and a line break follows. Nothing
//! after that clears the screen again. Only block quotes and images set
//! colors again.

use crate::blocks::{block_quote_operations, list_item_operations, list_operations, quote_lines};
use crate::builder::{
    heading_operations, image_operations, paragraph_operations, prelude, separator_operations,
    slide_title_operations, text_operations, BuilderView, SlideState,
};
use crate::chunk::SlideChunkView;
use crate::codeblock::code_line_operations;
use crate::compile::{footer_operations, intro_operations, Step};
use crate::elements::{MarkdownElementView, ParagraphElementView, StyledTextView};
use crate::metadata::MetadataView;
use crate::numbering::IndexedListItemView;
use crate::operation::{HighlightedLineView, RenderOperationView};
use crate::presentation::chunk_operations;
use crate::tables::{row_operations, rows_operations, table_operations};
use crate::theme::{Alignment, PresentationTheme};
use crate::walk::{built, closed, opened};
use vstd::prelude::*;

verus! {

/// Whether none of the operations clears the screen and, where `colors` is
/// set, none sets colors.
pub open spec fn lacks(operations: Seq<RenderOperationView>, colors: bool) -> bool {
    forall|i: int|
        0 <= i < operations.len() ==> {
            &&& !((#[trigger] operations[i]) is ClearScreen)
            &&& colors ==> !(operations[i] is SetColors)
        }
}

/// Whether the operations open a slide and go on in order: they start with
/// the colors, the cleared screen, the margins and a line break, and none
/// after these clears the screen or, where `colors` is set, sets colors.
pub open spec fn opens_slide(operations: Seq<RenderOperationView>, colors: bool) -> bool {
    &&& operations.len() >= 4
    &&& operations[0] is SetColors
    &&& operations[1] is ClearScreen
    &&& operations[2] is ApplyMargin
    &&& operations[3] is RenderLineBreak
    &&& lacks(operations.skip(4), colors)
}

/// The number of operations that clear the screen.
pub open spec fn clear_screens(operations: Seq<RenderOperationView>) -> nat
    decreases operations.len(),
{
    if operations.len() == 0 {
        0
    } else {
        clear_screens(operations.drop_last()) + if operations.last() is ClearScreen {
            1nat
        } else {
            0nat
        }
    }
}

/// The number of operations that set colors.
pub open spec fn color_sets(operations: Seq<RenderOperationView>) -> nat
    decreases operations.len(),
{
    if operations.len() == 0 {
        0
    } else {
        color_sets(operations.drop_last()) + if operations.last() is SetColors {
            1nat
        } else {
            0nat
        }
    }
}

/// The first operation that puts something on the screen.
pub open spec fn first_visible(operations: Seq<RenderOperationView>) -> Option<RenderOperationView>
    decreases operations.len(),
{
    if operations.len() == 0 {
        None
    } else if operations[0].is_visible() {
        Some(operations[0])
    } else {
        first_visible(operations.drop_first())
    }
}

/// Operations that lack something still lack it when put together.
pub proof fn lemma_lacks_concat(
    head: Seq<RenderOperationView>,
    tail: Seq<RenderOperationView>,
    colors: bool,
)
    requires
        lacks(head, colors),
        lacks(tail, colors),
    ensures
        lacks(head + tail, colors),
{
    assert forall|i: int| 0 <= i < (head + tail).len() implies {
        &&& !((#[trigger] (head + tail)[i]) is ClearScreen)
        &&& colors ==> !((head + tail)[i] is SetColors)
    } by {
        if i < head.len() {
            assert(!(head[i] is ClearScreen));
        } else {
            assert(!(tail[i - head.len()] is ClearScreen));
        }
    }
}

/// A part of operations that lack something lacks it too.
pub proof fn lemma_lacks_part(operations: Seq<RenderOperationView>, from: int, to: int, colors: bool)
    requires
        lacks(operations, colors),
        0 <= from <= to <= operations.len(),
    ensures
        lacks(operations.subrange(from, to), colors),
{
    assert forall|i: int| 0 <= i < to - from implies {
        &&& !((#[trigger] operations.subrange(from, to)[i]) is ClearScreen)
        &&& colors ==> !(operations.subrange(from, to)[i] is SetColors)
    } by {
        assert(!(operations[from + i] is ClearScreen));
    }
}

/// Operations that clear no screen count no cleared screen, and those that
/// set no colors count no colors set.
pub proof fn lemma_lacks_counts(operations: Seq<RenderOperationView>, colors: bool)
    requires
        lacks(operations, colors),
    ensures
        clear_screens(operations) == 0,
        colors ==> color_sets(operations) == 0,
    decreases operations.len(),
{
    if operations.len() > 0 {
        assert(!(operations[operations.len() - 1] is ClearScreen));
        lemma_lacks_part(operations, 0, operations.len() - 1, colors);
        assert(operations.subrange(0, operations.len() - 1) =~= operations.drop_last());
        lemma_lacks_counts(operations.drop_last(), colors);
    }
}

/// The counts of two runs of operations add up.
pub proof fn lemma_counts_concat(head: Seq<RenderOperationView>, tail: Seq<RenderOperationView>)
    ensures
        clear_screens(head + tail) == clear_screens(head) + clear_screens(tail),
        color_sets(head + tail) == color_sets(head) + color_sets(tail),
    decreases tail.len(),
{
    if tail.len() == 0 {
        assert(head + tail =~= head);
    } else {
        assert((head + tail).drop_last() =~= head + tail.drop_last());
        lemma_counts_concat(head, tail.drop_last());
    }
}

/// Operations that open a slide clear the screen exactly once; where they
/// set no colors after the opening, they set colors exactly once; and the
/// first of them that shows on the screen is a line break.
pub proof fn lemma_opening_counts(operations: Seq<RenderOperationView>, colors: bool)
    requires
        opens_slide(operations, colors),
    ensures
        clear_screens(operations) == 1,
        colors ==> color_sets(operations) == 1,
        first_visible(operations) == Some(RenderOperationView::RenderLineBreak),
{
    let head = operations.take(4);
    let tail = operations.skip(4);
    assert(operations =~= head + tail);
    lemma_counts_concat(head, tail);
    lemma_lacks_counts(tail, colors);
    assert(head.drop_last() =~= operations.take(3));
    assert(operations.take(3).drop_last() =~= operations.take(2));
    assert(operations.take(2).drop_last() =~= operations.take(1));
    assert(operations.take(1).drop_last() =~= operations.take(0));
    assert(clear_screens(operations.take(0)) == 0);
    assert(color_sets(operations.take(0)) == 0);
    assert(clear_screens(operations.take(1)) == 0);
    assert(clear_screens(operations.take(2)) == 1);
    assert(clear_screens(operations.take(3)) == 1);
    assert(color_sets(operations.take(1)) == 1);
    assert(color_sets(operations.take(2)) == 1);
    assert(color_sets(operations.take(3)) == 1);
    let second = operations.drop_first();
    let third = second.drop_first();
    let fourth = third.drop_first();
    assert(second[0] == operations[1]);
    assert(third[0] == operations[2]);
    assert(fourth[0] == operations[3]);
    assert(first_visible(fourth) == Some(operations[3]));
    assert(first_visible(third) == first_visible(fourth));
    assert(first_visible(second) == first_visible(third));
    assert(first_visible(operations) == first_visible(second));
}

/// The operations of a chunk sequence with one more chunk are those of the
/// sequence, then those of the chunk.
pub proof fn lemma_chunks_push(chunks: Seq<SlideChunkView>, chunk: SlideChunkView)
    ensures
        chunk_operations(chunks.push(chunk)) == chunk_operations(chunks) + chunk.operations,
{
    assert(chunks.push(chunk).drop_last() =~= chunks);
}

/// The operations of a chunk sequence start with those of its first chunk.
pub proof fn lemma_chunks_start(chunks: Seq<SlideChunkView>)
    requires
        chunks.len() > 0,
    ensures
        chunk_operations(chunks).len() >= chunks[0].operations.len(),
        chunks.len() >= 2 ==> chunk_operations(chunks.drop_last()).len()
            >= chunks[0].operations.len(),
    decreases chunks.len(),
{
    if chunks.len() >= 2 {
        lemma_chunks_start(chunks.drop_last());
    } else {
        assert(chunk_operations(chunks.drop_last()) =~= Seq::empty());
    }
}

/// The operations of a heading lack what clears and colors.
pub proof fn lemma_heading_lacks(
    theme: PresentationTheme,
    level: u8,
    text: Seq<StyledTextView>,
    colors: bool,
)
    ensures
        lacks(heading_operations(theme, level, text), colors),
        heading_operations(theme, level, text).len() > 0,
{
}

/// The operations of a slide's title lack what clears and colors.
pub proof fn lemma_slide_title_lacks(
    theme: PresentationTheme,
    text: Seq<StyledTextView>,
    colors: bool,
)
    ensures
        lacks(slide_title_operations(theme, text), colors),
        slide_title_operations(theme, text).len() > 0,
{
}

/// The operations of a paragraph lack what clears and colors.
pub proof fn lemma_paragraph_lacks(
    theme: PresentationTheme,
    elements: Seq<ParagraphElementView>,
    colors: bool,
)
    ensures
        lacks(paragraph_operations(theme, elements), colors),
    decreases elements.len(),
{
    if elements.len() > 0 {
        lemma_paragraph_lacks(theme, elements.drop_last(), colors);
        let tail = match elements.last() {
            ParagraphElementView::Text(text) => text_operations(
                text,
                theme.inline_code,
                theme.spec_alignment(crate::theme::ElementType::Paragraph),
            ) + seq![RenderOperationView::RenderLineBreak],
            ParagraphElementView::LineBreak => Seq::empty(),
        };
        assert(lacks(tail, colors));
        lemma_lacks_concat(paragraph_operations(theme, elements.drop_last()), tail, colors);
    }
}

/// The operations of a list lack what clears and colors.
pub proof fn lemma_list_lacks(
    theme: PresentationTheme,
    items: Seq<IndexedListItemView>,
    colors: bool,
)
    ensures
        lacks(list_operations(theme, items), colors),
        items.len() > 0 ==> list_operations(theme, items).len() > 0,
    decreases items.len(),
{
    if items.len() > 0 {
        lemma_list_lacks(theme, items.drop_last(), colors);
        let tail = list_item_operations(theme, items.last().index, items.last().item);
        assert(lacks(tail, colors));
        assert(tail.len() > 0);
        lemma_lacks_concat(list_operations(theme, items.drop_last()), tail, colors);
    }
}

/// The lines of a code block lack what clears and colors.
pub proof fn lemma_code_lines_lack(lines: Seq<HighlightedLineView>, colors: bool)
    ensures
        lacks(code_line_operations(lines), colors),
{
}

/// The rows of a table lack what clears and colors.
pub proof fn lemma_rows_lack(
    theme: PresentationTheme,
    rows: Seq<Seq<Seq<StyledTextView>>>,
    widths: Seq<usize>,
    colors: bool,
)
    ensures
        lacks(rows_operations(theme, rows, widths), colors),
    decreases rows.len(),
{
    if rows.len() > 0 {
        lemma_rows_lack(theme, rows.drop_last(), widths, colors);
        assert(lacks(row_operations(theme, rows.last(), widths), colors));
        lemma_lacks_concat(
            rows_operations(theme, rows.drop_last(), widths),
            row_operations(theme, rows.last(), widths),
            colors,
        );
    }
}

/// The operations of a table lack what clears and colors.
pub proof fn lemma_table_lacks(
    theme: PresentationTheme,
    table: crate::elements::TableView,
    colors: bool,
)
    ensures
        lacks(table_operations(theme, table), colors),
        table_operations(theme, table).len() > 0,
{
    let widths = crate::tables::table_widths(table);
    lemma_rows_lack(theme, table.rows, widths, colors);
    let head = row_operations(theme, table.header, widths) + text_operations(
        crate::tables::rule_runs(widths),
        theme.inline_code,
        theme.spec_alignment(crate::theme::ElementType::Table),
    ) + seq![RenderOperationView::RenderLineBreak];
    assert(lacks(head, colors));
    lemma_lacks_concat(head, rows_operations(theme, table.rows, widths), colors);
}

/// The lines of a block quote clear no screen.
pub proof fn lemma_quote_lines_lack(
    lines: Seq<Seq<char>>,
    prefix: Seq<char>,
    block_length: usize,
    alignment: Alignment,
    colors: bool,
)
    ensures
        lacks(quote_lines(lines, prefix, block_length, alignment), colors),
    decreases lines.len(),
{
    if lines.len() > 0 {
        lemma_quote_lines_lack(lines.drop_last(), prefix, block_length, alignment, colors);
        let tail = seq![
            RenderOperationView::RenderPreformattedLine(
                crate::operation::PreformattedLineView {
                    text: prefix + lines.last(),
                    unformatted_length: crate::text::display_width(prefix + lines.last()) as usize,
                    block_length,
                    alignment,
                },
            ),
            RenderOperationView::RenderLineBreak,
        ];
        assert(lacks(tail, colors));
        lemma_lacks_concat(
            quote_lines(lines.drop_last(), prefix, block_length, alignment),
            tail,
            colors,
        );
    }
}

/// The operations of a block quote clear no screen.
pub proof fn lemma_block_quote_lacks(theme: PresentationTheme, lines: Seq<Seq<char>>)
    ensures
        lacks(block_quote_operations(theme, lines), false),
        block_quote_operations(theme, lines).len() > 0,
{
    let prefix = crate::blocks::quote_prefix(theme);
    let inner = quote_lines(
        lines,
        prefix,
        crate::blocks::quote_block_length(lines, prefix),
        theme.spec_alignment(crate::theme::ElementType::BlockQuote),
    );
    lemma_quote_lines_lack(
        lines,
        prefix,
        crate::blocks::quote_block_length(lines, prefix),
        theme.spec_alignment(crate::theme::ElementType::BlockQuote),
        false,
    );
    let head = seq![RenderOperationView::SetColors(theme.block_quote.colors)];
    let tail = seq![RenderOperationView::SetColors(theme.default_style.colors)];
    assert(lacks(head, false));
    assert(lacks(tail, false));
    lemma_lacks_concat(head, inner, false);
    lemma_lacks_concat(head + inner, tail, false);
}

/// The operations of the introductory slide lack what clears and colors.
pub proof fn lemma_intro_lacks(theme: PresentationTheme, metadata: MetadataView, colors: bool)
    ensures
        lacks(intro_operations(theme, metadata), colors),
{
}

impl BuilderView {
    /// The operations of the slide in progress: those of its sealed chunks,
    /// then those of the chunk in progress.
    pub open spec fn in_progress(self) -> Seq<RenderOperationView> {
        chunk_operations(self.slide_chunks) + self.operations
    }

    /// The slide in progress and the sealed slides open as slides do, and
    /// the opening of the slide in progress stands in its first chunk. A
    /// list that is remembered while no chunk is sealed has left operations
    /// after the opening.
    pub open spec fn tidy(self, colors: bool) -> bool {
        &&& opens_slide(self.in_progress(), colors)
        &&& forall|i: int|
            0 <= i < self.slides.len() ==> opens_slide(
                (#[trigger] self.slides[i]).all_operations(),
                colors,
            )
        &&& self.slide_chunks.len() > 0 ==> self.slide_chunks[0].operations.len() >= 4
        &&& self.slide_chunks.len() == 0 && self.state.last_element is List
            ==> self.operations.len() >= 5
    }

    /// Where a list would go on from the only sealed chunk, that chunk holds
    /// more than the opening.
    pub open spec fn guarded(self) -> bool {
        self.slide_chunks.len() == 1 && self.continues_list()
            ==> self.slide_chunks[0].operations.len() >= 5
    }

    /// What holds of the builder between two elements.
    pub open spec fn orderly(self, colors: bool) -> bool {
        self.tidy(colors) && self.guarded()
    }
}

/// Adding operations that lack what clears and colors keeps the builder
/// tidy.
pub proof fn lemma_with_tidy(
    builder: BuilderView,
    operations: Seq<RenderOperationView>,
    colors: bool,
)
    requires
        builder.tidy(colors),
        lacks(operations, colors),
    ensures
        builder.with(operations).tidy(colors),
        operations.len() > 0 ==> builder.with(operations).guarded(),
{
    let before = builder.in_progress();
    let after = builder.with(operations).in_progress();
    assert(after =~= before + operations);
    assert(after.skip(4) =~= before.skip(4) + operations);
    lemma_lacks_concat(before.skip(4), operations, colors);
    if builder.slide_chunks.len() == 0 {
        assert(chunk_operations(builder.slide_chunks) =~= Seq::empty());
        assert(before =~= builder.operations);
    }
}

/// A pause keeps an orderly builder orderly.
pub proof fn lemma_paused_orderly(builder: BuilderView, colors: bool)
    requires
        builder.tidy(colors),
    ensures
        builder.paused().orderly(colors),
{
    let after = builder.paused();
    lemma_chunks_push(builder.slide_chunks, builder.sealed_chunk());
    assert(after.in_progress() =~= builder.in_progress());
    if builder.slide_chunks.len() == 0 {
        assert(chunk_operations(builder.slide_chunks) =~= Seq::empty());
        assert(builder.in_progress() =~= builder.operations);
        assert(after.slide_chunks[0] == builder.sealed_chunk());
    } else {
        assert(after.slide_chunks[0] == builder.slide_chunks[0]);
    }
}

/// The end of a slide keeps a tidy builder orderly, and the slide that is
/// sealed opens as slides do.
pub proof fn lemma_terminated_orderly(builder: BuilderView, colors: bool)
    requires
        builder.tidy(colors),
    ensures
        builder.terminated().orderly(colors),
{
    let after = builder.terminated();
    let sealed = builder.sealed_slide();
    lemma_chunks_push(builder.slide_chunks, builder.sealed_chunk());
    let footer = footer_operations(builder.theme, builder.slides.len() as usize);
    assert(sealed.all_operations() =~= builder.in_progress() + footer);
    assert(lacks(footer, colors));
    assert(sealed.all_operations().skip(4) =~= builder.in_progress().skip(4) + footer);
    lemma_lacks_concat(builder.in_progress().skip(4), footer, colors);
    assert(opens_slide(sealed.all_operations(), colors));
    assert forall|i: int| 0 <= i < after.slides.len() implies opens_slide(
        (#[trigger] after.slides[i]).all_operations(),
        colors,
    ) by {
        if i < builder.slides.len() {
            assert(after.slides[i] == builder.slides[i]);
        }
    }
    assert(chunk_operations(after.slide_chunks) =~= Seq::empty());
    assert(after.in_progress() =~= prelude(builder.theme));
    assert(after.in_progress().skip(4) =~= Seq::empty());
}

/// A list keeps an orderly builder tidy.
pub proof fn lemma_list_tidy(
    builder: BuilderView,
    items: Seq<crate::elements::ListItemView>,
    colors: bool,
)
    requires
        builder.orderly(colors),
    ensures
        builder.with_list(items).tidy(colors),
{
    let after = builder.with_list(items);
    let added = list_operations(builder.theme, builder.numbered(items));
    lemma_list_lacks(builder.theme, builder.numbered(items), colors);
    let before = builder.in_progress();
    if builder.continues_list() {
        let chunks = builder.slide_chunks;
        let last = chunks.last();
        let shorter = SlideChunkView { operations: last.operations.drop_last(), ..last };
        let changed = chunks.update(chunks.len() - 1, shorter);
        assert(changed.drop_last() =~= chunks.drop_last());
        assert(changed.last() == shorter);
        assert(before =~= chunk_operations(chunks));
        assert(chunk_operations(changed) =~= chunk_operations(chunks).drop_last());
        lemma_chunks_start(chunks);
        assert(before.len() >= 5);
        assert(after.in_progress() =~= before.drop_last() + added);
        assert(after.in_progress().skip(4) =~= before.skip(4).drop_last() + added);
        lemma_lacks_part(before.skip(4), 0, before.skip(4).len() - 1, colors);
        assert(before.skip(4).subrange(0, before.skip(4).len() - 1) =~= before.skip(4).drop_last());
        lemma_lacks_concat(before.skip(4).drop_last(), added, colors);
        if chunks.len() == 1 {
            assert(changed[0] == shorter);
        } else {
            assert(changed[0] == chunks[0]);
        }
    } else {
        assert(after.in_progress() =~= before + added);
        assert(after.in_progress().skip(4) =~= before.skip(4) + added);
        lemma_lacks_concat(before.skip(4), added, colors);
        if builder.slide_chunks.len() == 0 {
            assert(chunk_operations(builder.slide_chunks) =~= Seq::empty());
            assert(before =~= builder.operations);
            lemma_last_element(builder, items);
        }
    }
}

/// A list that leaves a new last element has added operations.
pub proof fn lemma_last_element(builder: BuilderView, items: Seq<crate::elements::ListItemView>)
    ensures
        crate::blocks::last_element_after(builder.state.last_element, builder.numbered(items))
            != builder.state.last_element ==> list_operations(
            builder.theme,
            builder.numbered(items),
        ).len() > 0,
{
    let numbered = builder.numbered(items);
    lemma_list_lacks(builder.theme, numbered, false);
    if numbered.len() == 0 {
        assert(crate::blocks::last_element_after(builder.state.last_element, numbered)
            == builder.state.last_element);
    }
}

/// A code block keeps a tidy builder tidy, and adds operations.
pub proof fn lemma_code_tidy(builder: BuilderView, code: crate::elements::CodeView, colors: bool)
    requires
        builder.tidy(colors),
    ensures
        builder.with_code(code).tidy(colors),
{
    let lines = code_line_operations(builder.code_lines(code));
    let run = if code.attributes.execute {
        seq![builder.code_execution(code)]
    } else {
        Seq::empty()
    };
    lemma_code_lines_lack(builder.code_lines(code), colors);
    assert(lacks(run, colors));
    lemma_lacks_concat(lines, run, colors);
    lemma_with_tidy(builder, lines + run, colors);
    assert(builder.with_code(code).in_progress() =~= builder.with(lines + run).in_progress());
    if builder.slide_chunks.len() == 0 {
        assert(builder.with_code(code).operations =~= builder.with(lines + run).operations);
    }
}

/// Whether an element may stand in a document of which it is claimed that
/// its slides set colors once: a block quote and an image set colors again.
pub open spec fn calm(element: MarkdownElementView, colors: bool) -> bool {
    colors ==> !(element is BlockQuote) && !(element is Image)
}

/// Whether every element may stand in such a document.
pub open spec fn all_calm(elements: Seq<MarkdownElementView>, colors: bool) -> bool {
    forall|i: int| 0 <= i < elements.len() ==> calm(#[trigger] elements[i], colors)
}

/// A command that succeeds keeps an orderly builder orderly.
pub proof fn lemma_command_orderly(
    builder: BuilderView,
    command: crate::command::CommentCommandView,
    colors: bool,
)
    requires
        builder.orderly(colors),
    ensures
        builder.after_command(command).error is None ==> builder.after_command(
            command,
        ).builder.orderly(colors),
{
    reveal(BuilderView::after_command);
    let step = builder.after_command(command);
    if step.error is None {
        match command {
            crate::command::CommentCommandView::Pause => {
                lemma_paused_orderly(builder, colors);
                let paused = builder.paused();
                assert(step.builder.in_progress() == paused.in_progress());
            },
            crate::command::CommentCommandView::EndSlide => {
                lemma_terminated_orderly(builder, colors);
                let ended = builder.terminated();
                assert(step.builder.in_progress() == ended.in_progress());
            },
            crate::command::CommentCommandView::InitColumnLayout(columns) => {
                let added = seq![RenderOperationView::InitColumnLayout { columns }];
                lemma_with_tidy(builder, added, colors);
                assert(builder.operations.push(added[0]) =~= builder.operations + added);
                assert(step.builder.in_progress() == builder.with(added).in_progress());
            },
            crate::command::CommentCommandView::ResetLayout => {
                let added = seq![
                    RenderOperationView::ExitLayout,
                    RenderOperationView::RenderLineBreak,
                ];
                lemma_with_tidy(builder, added, colors);
                assert(step.builder.in_progress() == builder.with(added).in_progress());
            },
            crate::command::CommentCommandView::Column(column) => {
                let added = seq![RenderOperationView::EnterColumn { column }];
                lemma_with_tidy(builder, added, colors);
                assert(builder.operations.push(added[0]) =~= builder.operations + added);
                assert(step.builder.in_progress() == builder.with(added).in_progress());
            },
        }
    }
}

/// A comment that succeeds keeps an orderly builder orderly.
pub proof fn lemma_comment_orderly(
    builder: BuilderView,
    comment: Seq<char>,
    position: crate::elements::SourcePosition,
    colors: bool,
)
    requires
        builder.orderly(colors),
    ensures
        builder.after_comment(comment, position).error is None ==> builder.after_comment(
            comment,
            position,
        ).builder.orderly(colors),
{
    reveal(BuilderView::after_comment);
    if !crate::compile::ignorable(comment) {
        match crate::command::text_command(comment) {
            Ok(command) => lemma_command_orderly(builder, command, colors),
            Err(_) => {},
        }
    }
}

/// What an element adds to the chunk in progress, where it adds operations
/// and changes nothing else but what the builder remembers of elements.
pub open spec fn plain_addition(builder: BuilderView, element: MarkdownElementView) -> Seq<
    RenderOperationView,
> {
    match element {
        MarkdownElementView::SetexHeading { text } => slide_title_operations(builder.theme, text),
        MarkdownElementView::Heading { level, text } => heading_operations(
            builder.theme,
            level,
            text,
        ),
        MarkdownElementView::Paragraph(elements) => paragraph_operations(builder.theme, elements),
        MarkdownElementView::Table(table) => table_operations(builder.theme, table),
        MarkdownElementView::ThematicBreak => separator_operations(),
        MarkdownElementView::BlockQuote(lines) => block_quote_operations(builder.theme, lines),
        MarkdownElementView::Image { path } => match builder.resources.spec_image(path) {
            Ok(image) => image_operations(builder.theme, image),
            Err(_) => Seq::empty(),
        },
        _ => Seq::empty(),
    }
}

/// What such an element adds lacks what clears and, in a calm document,
/// what colors.
pub proof fn lemma_addition_lacks(
    builder: BuilderView,
    element: MarkdownElementView,
    colors: bool,
)
    requires
        calm(element, colors),
    ensures
        lacks(plain_addition(builder, element), colors),
        element is SetexHeading ==> plain_addition(builder, element).len() > 0,
{
    match element {
        MarkdownElementView::SetexHeading { text } => lemma_slide_title_lacks(
            builder.theme,
            text,
            colors,
        ),
        MarkdownElementView::Heading { level, text } => lemma_heading_lacks(
            builder.theme,
            level,
            text,
            colors,
        ),
        MarkdownElementView::Paragraph(elements) => lemma_paragraph_lacks(
            builder.theme,
            elements,
            colors,
        ),
        MarkdownElementView::Table(table) => lemma_table_lacks(builder.theme, table, colors),
        MarkdownElementView::BlockQuote(lines) => lemma_block_quote_lacks(builder.theme, lines),
        _ => {},
    }
}

/// An element that succeeds leaves an orderly builder tidy; where it asks
/// for no line break after it, it leaves the builder orderly.
pub proof fn lemma_element_tidy(builder: BuilderView, element: MarkdownElementView, colors: bool)
    requires
        builder.orderly(colors),
        !builder.state.ignore_element_line_break,
        calm(element, colors),
    ensures
        builder.after_element(element).error is None ==> {
            let after = builder.after_element(element).builder;
            &&& after.tidy(colors)
            &&& after.state.ignore_element_line_break ==> after.guarded()
        },
{
    reveal(BuilderView::after_element);
    let step = builder.after_element(element);
    if step.error is None {
        let after = step.builder;
        match element {
            MarkdownElementView::FrontMatter(_) => {
                assert(after.in_progress() == builder.in_progress());
            },
            MarkdownElementView::List(items) => {
                lemma_list_tidy(builder, items, colors);
            },
            MarkdownElementView::Code(code) => {
                lemma_code_tidy(builder, code, colors);
                assert(after.in_progress() == builder.with_code(code).in_progress());
            },
            MarkdownElementView::Comment { comment, source_position } => {
                lemma_comment_orderly(builder, comment, source_position, colors);
            },
            _ => {
                let added = plain_addition(builder, element);
                lemma_addition_lacks(builder, element, colors);
                lemma_with_tidy(builder, added, colors);
                assert(after.in_progress() == builder.with(added).in_progress());
                assert(after.operations == builder.with(added).operations);
            },
        }
    }
}

/// One element of a document that succeeds keeps an orderly builder
/// orderly.
pub proof fn lemma_item_orderly(builder: BuilderView, element: MarkdownElementView, colors: bool)
    requires
        builder.orderly(colors),
        calm(element, colors),
    ensures
        builder.after_item(element).error is None ==> builder.after_item(
            element,
        ).builder.orderly(colors),
{
    reveal(BuilderView::after_item);
    let start = BuilderView {
        state: SlideState { ignore_element_line_break: false, ..builder.state },
        ..builder
    };
    assert(start.in_progress() == builder.in_progress());
    assert(start.orderly(colors));
    lemma_element_tidy(start, element, colors);
    let step = start.after_element(element);
    if step.error is None {
        let checked = step.builder.after_validation();
        assert(checked.builder.in_progress() == step.builder.in_progress());
        assert(checked.builder.tidy(colors));
        if checked.error is None && !checked.builder.state.ignore_element_line_break {
            lemma_with_tidy(checked.builder, seq![RenderOperationView::RenderLineBreak], colors);
        }
    }
}

/// The elements of a document that succeed keep an orderly builder
/// orderly.
pub proof fn lemma_items_orderly(
    builder: BuilderView,
    elements: Seq<MarkdownElementView>,
    colors: bool,
)
    requires
        builder.orderly(colors),
        all_calm(elements, colors),
    ensures
        builder.after_items(elements).error is None ==> builder.after_items(
            elements,
        ).builder.orderly(colors),
    decreases elements.len(),
{
    if elements.len() > 0 {
        assert forall|i: int| 0 <= i < elements.drop_last().len() implies calm(
            #[trigger] elements.drop_last()[i],
            colors,
        ) by {
            assert(calm(elements[i], colors));
        }
        lemma_items_orderly(builder, elements.drop_last(), colors);
        let before = builder.after_items(elements.drop_last());
        if before.error is None {
            assert(calm(elements[elements.len() - 1], colors));
            lemma_item_orderly(before.builder, elements.last(), colors);
        }
    }
}

/// Whether a builder has built nothing yet.
pub open spec fn untouched(builder: BuilderView) -> bool {
    &&& builder.slides.len() == 0
    &&& builder.slide_chunks.len() == 0
    &&& builder.operations.len() == 0
    &&& builder.state.last_element is Any
}

/// Opening the build leaves an untouched builder orderly.
pub proof fn lemma_opened_orderly(
    start: BuilderView,
    elements: Seq<MarkdownElementView>,
    colors: bool,
)
    requires
        untouched(start),
    ensures
        opened(start, elements).error is None ==> opened(start, elements).builder.orderly(colors),
{
    reveal(opened);
    reveal(BuilderView::after_front_matter);
    reveal(BuilderView::after_theme);
    let front = if elements.len() > 0 && elements[0] is FrontMatter {
        start.after_front_matter(elements[0]->FrontMatter_0)
    } else {
        Step::done(start)
    };
    if front.error is None {
        let themed = front.builder.after_code_theme();
        if themed.error is None {
            if themed.builder.operations.len() == 0 {
                let base = themed.builder;
                assert(base.slide_chunks.len() == 0);
                assert(base.slides.len() == 0);
                assert(chunk_operations(base.slide_chunks) =~= Seq::empty());
                let begun = base.with(prelude(base.theme));
                assert(begun.in_progress() =~= prelude(base.theme));
                assert(begun.in_progress().skip(4) =~= Seq::empty());
                assert(begun.state.last_element is Any);
            } else {
                let contents = elements[0]->FrontMatter_0;
                match crate::metadata::text_metadata(contents) {
                    Ok(metadata) => {
                        let themed_first = (BuilderView {
                            author: crate::compile::text_or_empty(metadata.author),
                            ..start
                        }).after_theme(metadata.theme);
                        let base = themed_first.builder;
                        assert(base.operations.len() == 0);
                        assert(chunk_operations(base.slide_chunks) =~= Seq::empty());
                        let begun = base.with(prelude(base.theme));
                        assert(begun.in_progress() =~= prelude(base.theme));
                        assert(begun.in_progress().skip(4) =~= Seq::empty());
                        assert(begun.tidy(colors));
                        lemma_intro_lacks(begun.theme, metadata, colors);
                        lemma_with_tidy(begun, intro_operations(begun.theme, metadata), colors);
                        lemma_terminated_orderly(
                            begun.with(intro_operations(begun.theme, metadata)),
                            colors,
                        );
                        let intro = begun.with_intro_slide(metadata);
                        assert(themed.builder.in_progress() == intro.in_progress());
                    },
                    Err(_) => {},
                }
            }
        }
    }
}

/// Every slide of a presentation that was built opens as slides do: its
/// operations start with the default colors, the cleared screen, the margins
/// and a line break, and no operation after these clears the screen. So the
/// screen is cleared exactly once in every slide, and the first operation
/// of every slide that shows on the screen is a line break. In a document
/// without block quotes and images, colors are set exactly once in every
/// slide.
pub proof fn lemma_slides_open_once(
    start: BuilderView,
    elements: Seq<MarkdownElementView>,
    colors: bool,
)
    requires
        untouched(start),
        all_calm(elements, colors),
    ensures
        match built(start, elements) {
            Ok(presentation) => forall|i: int|
                0 <= i < presentation.slides.len() ==> {
                    let operations = (#[trigger] presentation.slides[i]).all_operations();
                    &&& opens_slide(operations, colors)
                    &&& clear_screens(operations) == 1
                    &&& first_visible(operations) == Some(RenderOperationView::RenderLineBreak)
                    &&& colors ==> color_sets(operations) == 1
                },
            Err(_) => true,
        },
{
    reveal(closed);
    lemma_opened_orderly(start, elements, colors);
    let opening = opened(start, elements);
    if opening.error is None {
        lemma_items_orderly(opening.builder, elements, colors);
        let walked = opening.builder.after_items(elements);
        if walked.error is None {
            lemma_terminated_orderly(walked.builder, colors);
            let presentation = closed(walked.builder);
            assert(walked.builder.in_progress().len() >= 4);
            if walked.builder.slide_chunks.len() == 0 {
                assert(chunk_operations(walked.builder.slide_chunks) =~= Seq::empty());
            }
            assert(presentation.slides == walked.builder.terminated().slides);
            assert forall|i: int| 0 <= i < presentation.slides.len() implies {
                let operations = (#[trigger] presentation.slides[i]).all_operations();
                &&& opens_slide(operations, colors)
                &&& clear_screens(operations) == 1
                &&& first_visible(operations) == Some(RenderOperationView::RenderLineBreak)
                &&& colors ==> color_sets(operations) == 1
            } by {
                let operations = presentation.slides[i].all_operations();
                assert(opens_slide(operations, colors));
                lemma_opening_counts(operations, colors);
            }
        }
    }
}

} // verus!
