//! What comes first on a slide: after the line break that opens it, a slide
//! goes on with content, not with another line break.
//!
//! This holds of documents whose elements lead with content: none of them is
//! empty, starts with padding, or is a comment that only adds a line break.

use crate::blocks::{block_quote_operations, list_operations, quote_lines};
use crate::builder::{
    heading_operations, heading_style, image_operations, padding_rows, paragraph_operations,
    prelude, separator_operations, slide_title_operations, BuilderView, SlideState,
};
use crate::chunk::SlideChunkView;
use crate::codeblock::code_line_operations;
use crate::command::{text_command, CommentCommandView};
use crate::compile::{footer_operations, ignorable, intro_operations, Step};
use crate::elements::{MarkdownElementView, ParagraphElementView, StyledTextView};
use crate::numbering::IndexedListItemView;
use crate::operation::RenderOperationView;
use crate::order::{first_visible, lemma_chunks_push, lemma_chunks_start, untouched};
use crate::presentation::chunk_operations;
use crate::tables::{row_runs, rows_operations, table_operations, table_widths};
use crate::text::lines_of;
use crate::theme::{Alignment, PresentationTheme};
use crate::walk::{built, closed, opened};
use vstd::prelude::*;

verus! {

/// Whether the first of the operations that shows on the screen, if there
/// is one, is something other than a line break.
pub open spec fn leads_off(operations: Seq<RenderOperationView>) -> bool {
    first_visible(operations) != Some(RenderOperationView::RenderLineBreak)
}

/// The first visible operation of two runs of operations is that of the
/// first run, or that of the second where the first shows nothing.
pub proof fn lemma_first_visible_concat(
    head: Seq<RenderOperationView>,
    tail: Seq<RenderOperationView>,
)
    ensures
        first_visible(head + tail) == if first_visible(head) is Some {
            first_visible(head)
        } else {
            first_visible(tail)
        },
    decreases head.len(),
{
    if head.len() == 0 {
        assert(head + tail =~= tail);
    } else {
        assert((head + tail).drop_first() =~= head.drop_first() + tail);
        lemma_first_visible_concat(head.drop_first(), tail);
    }
}

/// Operations that start with a visible operation show that one first.
pub proof fn lemma_first_visible_head(operations: Seq<RenderOperationView>)
    requires
        operations.len() > 0,
        operations[0].is_visible(),
    ensures
        first_visible(operations) == Some(operations[0]),
{
}

/// Operations without a visible one show nothing first.
pub proof fn lemma_first_visible_none(operations: Seq<RenderOperationView>)
    requires
        forall|i: int| 0 <= i < operations.len() ==> !(#[trigger] operations[i]).is_visible(),
    ensures
        first_visible(operations) is None,
    decreases operations.len(),
{
    if operations.len() > 0 {
        assert(!operations[0].is_visible());
        assert forall|i: int| 0 <= i < operations.drop_first().len() implies !(
        #[trigger] operations.drop_first()[i]).is_visible() by {
            assert(!operations[i + 1].is_visible());
        }
        lemma_first_visible_none(operations.drop_first());
    }
}

/// Where operations lead off and end in a line break, they still lead off
/// without it, and the line break is not the first of them that shows.
pub proof fn lemma_leads_without_last(operations: Seq<RenderOperationView>)
    requires
        operations.len() > 0,
        operations.last() == RenderOperationView::RenderLineBreak,
        leads_off(operations),
    ensures
        leads_off(operations.drop_last()),
        first_visible(operations.drop_last()) is Some,
{
    let last = seq![operations.last()];
    assert(operations =~= operations.drop_last() + last);
    lemma_first_visible_concat(operations.drop_last(), last);
    lemma_first_visible_head(last);
}

/// A paragraph whose first part is a text with a run starts with that text.
pub proof fn lemma_paragraph_leads(theme: PresentationTheme, elements: Seq<ParagraphElementView>)
    requires
        elements.len() > 0,
        elements[0] matches ParagraphElementView::Text(text) && text.len() > 0,
    ensures
        paragraph_operations(theme, elements).len() > 0,
        paragraph_operations(theme, elements)[0] is RenderText,
    decreases elements.len(),
{
    if elements.len() > 1 {
        assert(elements.drop_last()[0] == elements[0]);
        lemma_paragraph_leads(theme, elements.drop_last());
    } else {
        assert(paragraph_operations(theme, elements.drop_last()) =~= Seq::empty());
    }
}

/// A list with an item starts with the mark of its first item.
pub proof fn lemma_list_leads(theme: PresentationTheme, items: Seq<IndexedListItemView>)
    requires
        items.len() > 0,
    ensures
        list_operations(theme, items).len() > 0,
        list_operations(theme, items)[0] is RenderText,
    decreases items.len(),
{
    if items.len() > 1 {
        lemma_list_leads(theme, items.drop_last());
    } else {
        assert(list_operations(theme, items.drop_last()) =~= Seq::empty());
    }
}

/// A row whose first cell has a run has runs.
pub proof fn lemma_row_has_runs(row: Seq<Seq<StyledTextView>>, widths: Seq<usize>)
    requires
        row.len() > 0,
        row[0].len() > 0,
    ensures
        row_runs(row, widths).len() > 0,
    decreases row.len(),
{
    if row.len() > 1 {
        assert(row.drop_last()[0] == row[0]);
        lemma_row_has_runs(row.drop_last(), widths);
    }
}

/// The lines of a block quote with a line start with its first line.
pub proof fn lemma_quote_leads(
    lines: Seq<Seq<char>>,
    prefix: Seq<char>,
    block_length: usize,
    alignment: Alignment,
)
    requires
        lines.len() > 0,
    ensures
        quote_lines(lines, prefix, block_length, alignment).len() > 0,
        quote_lines(lines, prefix, block_length, alignment)[0] is RenderPreformattedLine,
    decreases lines.len(),
{
    if lines.len() > 1 {
        lemma_quote_leads(lines.drop_last(), prefix, block_length, alignment);
    } else {
        assert(quote_lines(lines.drop_last(), prefix, block_length, alignment) =~= Seq::empty());
    }
}

/// A text that is not empty has a line.
pub proof fn lemma_text_has_line(text: Seq<char>)
    requires
        text.len() > 0,
    ensures
        lines_of(text).len() > 0,
{
}

/// Whether an element leads with content under the given theme: what it
/// adds shows something other than a line break first, or it shows nothing
/// and is followed by no line break.
pub open spec fn leads(theme: PresentationTheme, element: MarkdownElementView) -> bool {
    match element {
        MarkdownElementView::FrontMatter(_) => true,
        MarkdownElementView::SetexHeading { text } => text.len() > 0 && padding_rows(
            theme.slide_title.padding_top,
        ) == 0,
        MarkdownElementView::Heading { level, text } => text.len() > 0 || heading_style(
            theme,
            level,
        ).prefix is Some,
        MarkdownElementView::Paragraph(elements) => elements.len() > 0 && (
        elements[0] matches ParagraphElementView::Text(text) && text.len() > 0),
        MarkdownElementView::List(items) => items.len() > 0,
        MarkdownElementView::Code(code) => code.contents.len() > 0 || code.attributes.execute,
        MarkdownElementView::Table(table) => table.header.len() > 0 && table.header[0].len() > 0,
        MarkdownElementView::ThematicBreak => true,
        MarkdownElementView::Comment { comment, .. } => !ignorable(comment) && text_command(comment)
            != Ok::<CommentCommandView, Seq<char>>(CommentCommandView::ResetLayout),
        MarkdownElementView::BlockQuote(lines) => lines.len() > 0,
        MarkdownElementView::Image { .. } => true,
    }
}

/// Whether every element leads with content.
pub open spec fn all_lead(theme: PresentationTheme, elements: Seq<MarkdownElementView>) -> bool {
    forall|i: int| 0 <= i < elements.len() ==> leads(theme, #[trigger] elements[i])
}

impl BuilderView {
    /// After their opening, the slide in progress and the sealed slides go
    /// on with something other than a line break; and the slide in progress
    /// holds its opening, in its first chunk.
    pub open spec fn settled(self) -> bool {
        &&& self.in_progress().len() >= 4
        &&& leads_off(self.in_progress().skip(4))
        &&& forall|i: int|
            0 <= i < self.slides.len() ==> {
                &&& (#[trigger] self.slides[i]).all_operations().len() >= 4
                &&& leads_off(self.slides[i].all_operations().skip(4))
            }
        &&& self.slide_chunks.len() > 0 ==> self.slide_chunks[0].operations.len() >= 4
    }
}

/// Adding operations that show something other than a line break first
/// keeps the builder settled; so does adding operations that show nothing.
pub proof fn lemma_with_settled(builder: BuilderView, operations: Seq<RenderOperationView>)
    requires
        builder.settled(),
        leads_off(operations),
    ensures
        builder.with(operations).settled(),
{
    let before = builder.in_progress();
    let after = builder.with(operations).in_progress();
    assert(after =~= before + operations);
    assert(after.skip(4) =~= before.skip(4) + operations);
    lemma_first_visible_concat(before.skip(4), operations);
}

/// A line break after operations that show something keeps the builder
/// settled.
pub proof fn lemma_break_settled(builder: BuilderView)
    requires
        builder.settled(),
        first_visible(builder.in_progress().skip(4)) is Some,
    ensures
        builder.with(seq![RenderOperationView::RenderLineBreak]).settled(),
{
    let added = seq![RenderOperationView::RenderLineBreak];
    let before = builder.in_progress();
    let after = builder.with(added).in_progress();
    assert(after =~= before + added);
    assert(after.skip(4) =~= before.skip(4) + added);
    lemma_first_visible_concat(before.skip(4), added);
}

/// A pause keeps the builder settled.
pub proof fn lemma_paused_settled(builder: BuilderView)
    requires
        builder.settled(),
    ensures
        builder.paused().settled(),
        builder.paused().in_progress() == builder.in_progress(),
{
    let after = builder.paused();
    lemma_chunks_push(builder.slide_chunks, builder.sealed_chunk());
    assert(after.in_progress() =~= builder.in_progress());
    if builder.slide_chunks.len() == 0 {
        assert(chunk_operations(builder.slide_chunks) =~= Seq::empty());
        assert(builder.in_progress() =~= builder.operations);
        assert(after.slide_chunks[0] == builder.sealed_chunk());
    } else {
        assert(after.slide_chunks[0] == builder.slide_chunks[0]);
    }
}

/// The end of a slide keeps the builder settled.
pub proof fn lemma_terminated_settled(builder: BuilderView)
    requires
        builder.settled(),
    ensures
        builder.terminated().settled(),
{
    let after = builder.terminated();
    let sealed = builder.sealed_slide();
    lemma_chunks_push(builder.slide_chunks, builder.sealed_chunk());
    let footer = footer_operations(builder.theme, builder.slides.len() as usize);
    assert(sealed.all_operations() =~= builder.in_progress() + footer);
    assert(sealed.all_operations().skip(4) =~= builder.in_progress().skip(4) + footer);
    lemma_first_visible_concat(builder.in_progress().skip(4), footer);
    assert(first_visible(footer) == Some(footer[2])) by {
        let second = footer.drop_first();
        let third = second.drop_first();
        assert(second[0] == footer[1]);
        assert(third[0] == footer[2]);
        lemma_first_visible_head(third);
        assert(first_visible(second) == first_visible(third));
        assert(first_visible(footer) == first_visible(second));
    }
    assert forall|i: int| 0 <= i < after.slides.len() implies {
        &&& (#[trigger] after.slides[i]).all_operations().len() >= 4
        &&& leads_off(after.slides[i].all_operations().skip(4))
    } by {
        if i < builder.slides.len() {
            assert(after.slides[i] == builder.slides[i]);
        }
    }
    assert(chunk_operations(after.slide_chunks) =~= Seq::empty());
    assert(after.in_progress() =~= prelude(builder.theme));
    assert(after.in_progress().skip(4) =~= Seq::empty());
}


/// What an element that leads with content adds, where it adds operations
/// to the chunk in progress and changes nothing else, starts with something
/// that shows and is no line break.
pub proof fn lemma_addition_leads(builder: BuilderView, element: MarkdownElementView)
    requires
        leads(builder.theme, element),
        element is SetexHeading || element is Heading || element is Paragraph || element is Table
            || element is ThematicBreak || element is BlockQuote || element is Image,
        element matches MarkdownElementView::Image { path } ==> builder.resources.spec_image(
            path,
        ) is Ok,
    ensures
        first_visible(crate::order::plain_addition(builder, element)) is Some,
        leads_off(crate::order::plain_addition(builder, element)),
{
    let added = crate::order::plain_addition(builder, element);
    match element {
        MarkdownElementView::SetexHeading { text } => {
            assert(crate::builder::line_breaks(0) =~= Seq::empty());
            assert(added[0] is RenderText);
            lemma_first_visible_head(added);
        },
        MarkdownElementView::Heading { level, text } => {
            assert(added[0] is RenderText);
            lemma_first_visible_head(added);
        },
        MarkdownElementView::Paragraph(elements) => {
            lemma_paragraph_leads(builder.theme, elements);
            lemma_first_visible_head(added);
        },
        MarkdownElementView::Table(table) => {
            lemma_row_has_runs(table.header, table_widths(table));
            assert(added[0] is RenderText);
            lemma_first_visible_head(added);
        },
        MarkdownElementView::ThematicBreak => {
            lemma_first_visible_head(added);
        },
        MarkdownElementView::BlockQuote(lines) => {
            let prefix = crate::blocks::quote_prefix(builder.theme);
            let inner = quote_lines(
                lines,
                prefix,
                crate::blocks::quote_block_length(lines, prefix),
                builder.theme.spec_alignment(crate::theme::ElementType::BlockQuote),
            );
            lemma_quote_leads(
                lines,
                prefix,
                crate::blocks::quote_block_length(lines, prefix),
                builder.theme.spec_alignment(crate::theme::ElementType::BlockQuote),
            );
            assert(added.drop_first()[0] == inner[0]);
            lemma_first_visible_head(added.drop_first());
            assert(first_visible(added) == first_visible(added.drop_first()));
        },
        _ => {
            lemma_first_visible_head(added);
        },
    }
}

/// What holds after an element that leads with content: the builder is
/// settled, its theme is the same, and unless the element asks for no line
/// break after it, the slide in progress shows something after its opening.
pub open spec fn led(before: BuilderView, after: BuilderView) -> bool {
    &&& after.settled()
    &&& after.theme == before.theme
    &&& !after.state.ignore_element_line_break ==> first_visible(after.in_progress().skip(4))
        is Some
}

/// A command other than the one that leaves the layout leaves the builder
/// settled, and asks for no line break.
pub proof fn lemma_command_led(builder: BuilderView, command: CommentCommandView)
    requires
        builder.settled(),
        !(command is ResetLayout),
    ensures
        builder.after_command(command).error is None ==> led(
            builder,
            builder.after_command(command).builder,
        ),
{
    reveal(BuilderView::after_command);
    let step = builder.after_command(command);
    if step.error is None {
        match command {
            CommentCommandView::Pause => {
                lemma_paused_settled(builder);
                assert(step.builder.in_progress() == builder.paused().in_progress());
            },
            CommentCommandView::EndSlide => {
                lemma_terminated_settled(builder);
                assert(step.builder.in_progress() == builder.terminated().in_progress());
            },
            CommentCommandView::InitColumnLayout(columns) => {
                let added = seq![RenderOperationView::InitColumnLayout { columns }];
                lemma_first_visible_none(added);
                lemma_with_settled(builder, added);
                assert(builder.operations.push(added[0]) =~= builder.operations + added);
                assert(step.builder.in_progress() == builder.with(added).in_progress());
            },
            CommentCommandView::Column(column) => {
                let added = seq![RenderOperationView::EnterColumn { column }];
                lemma_first_visible_none(added);
                lemma_with_settled(builder, added);
                assert(builder.operations.push(added[0]) =~= builder.operations + added);
                assert(step.builder.in_progress() == builder.with(added).in_progress());
            },
            CommentCommandView::ResetLayout => {},
        }
    }
}

/// A list with an item leaves an orderly, settled builder settled, and the
/// slide in progress then shows something after its opening.
pub proof fn lemma_list_led(builder: BuilderView, items: Seq<crate::elements::ListItemView>)
    requires
        builder.orderly(false),
        builder.settled(),
        items.len() > 0,
    ensures
        builder.with_list(items).settled(),
        first_visible(builder.with_list(items).in_progress().skip(4)) is Some,
{
    let after = builder.with_list(items);
    let numbered = builder.numbered(items);
    crate::numbering::lemma_indexes_len(
        crate::numbering::Numbering::start(builder.list_start()),
        crate::numbering::depths_of(items),
    );
    assert(numbered.len() == items.len());
    let added = list_operations(builder.theme, numbered);
    lemma_list_leads(builder.theme, numbered);
    lemma_first_visible_head(added);
    crate::order::lemma_list_tidy(builder, items, false);
    let before = builder.in_progress();
    if builder.continues_list() {
        let chunks = builder.slide_chunks;
        let last = chunks.last();
        let shorter = SlideChunkView { operations: last.operations.drop_last(), ..last };
        let changed = chunks.update(chunks.len() - 1, shorter);
        assert(changed.drop_last() =~= chunks.drop_last());
        assert(changed.last() == shorter);
        assert(before =~= chunk_operations(chunks));
        assert(chunk_operations(changed) =~= chunk_operations(chunks).drop_last());
        lemma_chunks_start(chunks);
        assert(before.len() >= 5);
        assert(before.skip(4).last() == RenderOperationView::RenderLineBreak);
        lemma_leads_without_last(before.skip(4));
        assert(after.in_progress() =~= before.drop_last() + added);
        assert(after.in_progress().skip(4) =~= before.skip(4).drop_last() + added);
        lemma_first_visible_concat(before.skip(4).drop_last(), added);
    } else {
        assert(after.in_progress() =~= before + added);
        assert(after.in_progress().skip(4) =~= before.skip(4) + added);
        lemma_first_visible_concat(before.skip(4), added);
    }
}

/// A code block with code, or one that can be run, leaves a settled builder
/// settled, and the slide in progress then shows something after its
/// opening.
pub proof fn lemma_code_led(builder: BuilderView, code: crate::elements::CodeView)
    requires
        builder.settled(),
        code.contents.len() > 0 || code.attributes.execute,
    ensures
        builder.with_code(code).settled(),
        first_visible(builder.with_code(code).in_progress().skip(4)) is Some,
{
    let lines = code_line_operations(builder.code_lines(code));
    let run = if code.attributes.execute {
        seq![builder.code_execution(code)]
    } else {
        Seq::empty()
    };
    let added = lines + run;
    if code.contents.len() > 0 {
        lemma_text_has_line(code.contents);
        assert(builder.prepared(code).len() > 0);
        assert(builder.code_lines(code).len() == builder.prepared(code).len());
        assert(lines.len() > 0);
        assert(added[0] == lines[0]);
    } else {
        if lines.len() > 0 {
            assert(added[0] == lines[0]);
        } else {
            assert(added[0] == run[0]);
        }
    }
    assert(added[0].is_visible());
    lemma_first_visible_head(added);
    lemma_with_settled(builder, added);
    let before = builder.in_progress();
    assert(builder.with_code(code).in_progress() =~= builder.with(added).in_progress());
    assert(builder.with(added).in_progress() =~= before + added);
    assert(builder.with(added).in_progress().skip(4) =~= before.skip(4) + added);
    lemma_first_visible_concat(before.skip(4), added);
    assert forall|i: int| 0 <= i < builder.with_code(code).slides.len() implies {
        &&& (#[trigger] builder.with_code(code).slides[i]).all_operations().len() >= 4
        &&& leads_off(builder.with_code(code).slides[i].all_operations().skip(4))
    } by {
        assert(builder.with_code(code).slides[i] == builder.slides[i]);
    }
}

/// An element that leads with content and succeeds leaves an orderly,
/// settled builder as [`led`] says.
pub proof fn lemma_element_led(builder: BuilderView, element: MarkdownElementView)
    requires
        builder.orderly(false),
        builder.settled(),
        !builder.state.ignore_element_line_break,
        leads(builder.theme, element),
    ensures
        builder.after_element(element).error is None ==> led(
            builder,
            builder.after_element(element).builder,
        ),
{
    reveal(BuilderView::after_element);
    reveal(BuilderView::after_comment);
    let step = builder.after_element(element);
    if step.error is None {
        let after = step.builder;
        match element {
            MarkdownElementView::FrontMatter(_) => {
                assert(after.in_progress() == builder.in_progress());
            },
            MarkdownElementView::List(items) => {
                lemma_list_led(builder, items);
            },
            MarkdownElementView::Code(code) => {
                lemma_code_led(builder, code);
                assert(after.in_progress() == builder.with_code(code).in_progress());
            },
            MarkdownElementView::Comment { comment, source_position } => {
                match text_command(comment) {
                    Ok(command) => lemma_command_led(builder, command),
                    Err(_) => {},
                }
            },
            _ => {
                let added = crate::order::plain_addition(builder, element);
                lemma_addition_leads(builder, element);
                lemma_with_settled(builder, added);
                let before = builder.in_progress();
                assert(builder.with(added).in_progress() =~= before + added);
                assert(builder.with(added).in_progress().skip(4) =~= before.skip(4) + added);
                lemma_first_visible_concat(before.skip(4), added);
                assert(after.in_progress() == builder.with(added).in_progress());
            },
        }
    }
}

/// One element of a document that leads with content and succeeds keeps an
/// orderly, settled builder orderly and settled, and its theme the same.
pub proof fn lemma_item_settled(builder: BuilderView, element: MarkdownElementView)
    requires
        builder.orderly(false),
        builder.settled(),
        leads(builder.theme, element),
    ensures
        builder.after_item(element).error is None ==> {
            let after = builder.after_item(element).builder;
            &&& after.orderly(false)
            &&& after.settled()
            &&& after.theme == builder.theme
        },
{
    crate::order::lemma_item_orderly(builder, element, false);
    reveal(BuilderView::after_item);
    let start = BuilderView {
        state: SlideState { ignore_element_line_break: false, ..builder.state },
        ..builder
    };
    assert(start.in_progress() == builder.in_progress());
    assert(start.orderly(false));
    assert(start.settled());
    lemma_element_led(start, element);
    let step = start.after_element(element);
    if step.error is None {
        let checked = step.builder.after_validation();
        assert(checked.builder.in_progress() == step.builder.in_progress());
        assert(checked.builder.settled());
        if checked.error is None && !checked.builder.state.ignore_element_line_break {
            lemma_break_settled(checked.builder);
        }
    }
}

/// The elements of a document that lead with content and succeed keep an
/// orderly, settled builder orderly and settled.
pub proof fn lemma_items_settled(builder: BuilderView, elements: Seq<MarkdownElementView>)
    requires
        builder.orderly(false),
        builder.settled(),
        all_lead(builder.theme, elements),
    ensures
        builder.after_items(elements).error is None ==> {
            let after = builder.after_items(elements).builder;
            &&& after.orderly(false)
            &&& after.settled()
            &&& after.theme == builder.theme
        },
    decreases elements.len(),
{
    if elements.len() > 0 {
        assert forall|i: int| 0 <= i < elements.drop_last().len() implies leads(
            builder.theme,
            #[trigger] elements.drop_last()[i],
        ) by {
            assert(leads(builder.theme, elements[i]));
        }
        lemma_items_settled(builder, elements.drop_last());
        let before = builder.after_items(elements.drop_last());
        if before.error is None {
            assert(leads(builder.theme, elements[elements.len() - 1]));
            lemma_item_settled(before.builder, elements.last());
        }
    }
}

/// Opening the build leaves an untouched builder settled.
pub proof fn lemma_opened_settled(start: BuilderView, elements: Seq<MarkdownElementView>)
    requires
        untouched(start),
    ensures
        opened(start, elements).error is None ==> opened(start, elements).builder.settled(),
{
    reveal(opened);
    reveal(BuilderView::after_front_matter);
    reveal(BuilderView::after_theme);
    let front = if elements.len() > 0 && elements[0] is FrontMatter {
        start.after_front_matter(elements[0]->FrontMatter_0)
    } else {
        Step::done(start)
    };
    if front.error is None {
        let themed = front.builder.after_code_theme();
        if themed.error is None {
            if themed.builder.operations.len() == 0 {
                let base = themed.builder;
                assert(base.slide_chunks.len() == 0);
                assert(base.slides.len() == 0);
                assert(chunk_operations(base.slide_chunks) =~= Seq::empty());
                let begun = base.with(prelude(base.theme));
                assert(begun.in_progress() =~= prelude(base.theme));
                assert(begun.in_progress().skip(4) =~= Seq::empty());
            } else {
                let contents = elements[0]->FrontMatter_0;
                match crate::metadata::text_metadata(contents) {
                    Ok(metadata) => {
                        let themed_first = (BuilderView {
                            author: crate::compile::text_or_empty(metadata.author),
                            ..start
                        }).after_theme(metadata.theme);
                        let base = themed_first.builder;
                        assert(base.operations.len() == 0);
                        assert(chunk_operations(base.slide_chunks) =~= Seq::empty());
                        let begun = base.with(prelude(base.theme));
                        assert(begun.in_progress() =~= prelude(base.theme));
                        assert(begun.in_progress().skip(4) =~= Seq::empty());
                        assert(begun.settled());
                        let intro = intro_operations(begun.theme, metadata);
                        assert(intro[1] is RenderText);
                        assert(intro.drop_first()[0] == intro[1]);
                        lemma_first_visible_head(intro.drop_first());
                        assert(first_visible(intro) == first_visible(intro.drop_first()));
                        lemma_with_settled(begun, intro);
                        lemma_terminated_settled(begun.with(intro));
                        let sealed = begun.with_intro_slide(metadata);
                        assert(themed.builder.in_progress() == sealed.in_progress());
                    },
                    Err(_) => {},
                }
            }
        }
    }
}

/// In a presentation built of a document whose elements lead with content,
/// every slide goes on with content after its opening: among the
/// operations that follow the opening (which shows a single line break),
/// the first that shows on the screen is no line break. So the second
/// operation of a slide that shows is never a line break.
pub proof fn lemma_slides_lead(start: BuilderView, elements: Seq<MarkdownElementView>)
    requires
        untouched(start),
        opened(start, elements).error is None ==> all_lead(
            opened(start, elements).builder.theme,
            elements,
        ),
    ensures
        match built(start, elements) {
            Ok(presentation) => forall|i: int|
                0 <= i < presentation.slides.len() ==> {
                    let operations = (#[trigger] presentation.slides[i]).all_operations();
                    &&& operations.len() >= 4
                    &&& first_visible(operations) == Some(RenderOperationView::RenderLineBreak)
                    &&& first_visible(operations.take(3)) is None
                    &&& first_visible(operations.skip(4)) != Some(
                        RenderOperationView::RenderLineBreak,
                    )
                },
            Err(_) => true,
        },
{
    reveal(closed);
    crate::order::lemma_opened_orderly(start, elements, false);
    lemma_opened_settled(start, elements);
    let opening = opened(start, elements);
    if opening.error is None {
        crate::order::lemma_items_orderly(opening.builder, elements, false);
        lemma_items_settled(opening.builder, elements);
        let walked = opening.builder.after_items(elements);
        if walked.error is None {
            crate::order::lemma_terminated_orderly(walked.builder, false);
            lemma_terminated_settled(walked.builder);
            let presentation = closed(walked.builder);
            assert(walked.builder.in_progress().len() >= 4);
            if walked.builder.slide_chunks.len() == 0 {
                assert(chunk_operations(walked.builder.slide_chunks) =~= Seq::empty());
            }
            assert(presentation.slides == walked.builder.terminated().slides);
            assert forall|i: int| 0 <= i < presentation.slides.len() implies {
                let operations = (#[trigger] presentation.slides[i]).all_operations();
                &&& operations.len() >= 4
                &&& first_visible(operations) == Some(RenderOperationView::RenderLineBreak)
                &&& first_visible(operations.take(3)) is None
                &&& first_visible(operations.skip(4)) != Some(RenderOperationView::RenderLineBreak)
            } by {
                let operations = presentation.slides[i].all_operations();
                crate::order::lemma_opening_counts(operations, false);
                assert forall|k: int| 0 <= k < 3 implies !(#[trigger] operations.take(
                    3,
                )[k]).is_visible() by {
                    assert(operations.take(3)[k] == operations[k]);
                }
                lemma_first_visible_none(operations.take(3));
            }
        }
    }
}

} // verus!
