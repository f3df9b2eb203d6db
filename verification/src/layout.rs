//! Column layouts: what guards them.
//!
//! A layout divides a slide into columns. It must have a column, and no
//! column of width zero. A column is entered by its position; it must
//! exist, and it must not be the column that the builder stands in. Once a
//! layout is open, content must wait until a column was entered.

use crate::blocks::block_quote_operations;
use crate::builder::{
    heading_operations, separator_operations, slide_title_operations, BuildErrorView, BuilderView,
    LayoutState,
};
use crate::command::CommentCommandView;
use crate::elements::{MarkdownElementView, StyledTextView};
use crate::operation::RenderOperationView;
use crate::tables::{rows_operations, table_operations, table_widths};
use crate::theme::PresentationTheme;
use vstd::prelude::*;

verus! {

/// Entering a column fails where no layout is open, where the column is the
/// one that the builder stands in, and where the layout has no column at
/// that position; it succeeds everywhere else.
pub proof fn lemma_column_guards(builder: BuilderView, column: usize)
    ensures
        match builder.state.layout {
            LayoutState::Default => builder.after_command(
                CommentCommandView::Column(column),
            ).error == Some(BuildErrorView::NoLayout),
            LayoutState::InLayout { columns_count } => if column >= columns_count {
                builder.after_command(CommentCommandView::Column(column)).error == Some(
                    BuildErrorView::ColumnIndexTooLarge,
                )
            } else {
                builder.after_command(CommentCommandView::Column(column)).error is None
            },
            LayoutState::InColumn { column: current, columns_count } => if current == column {
                builder.after_command(CommentCommandView::Column(column)).error == Some(
                    BuildErrorView::AlreadyInColumn,
                )
            } else if column >= columns_count {
                builder.after_command(CommentCommandView::Column(column)).error == Some(
                    BuildErrorView::ColumnIndexTooLarge,
                )
            } else {
                builder.after_command(CommentCommandView::Column(column)).error is None
            },
        },
{
    reveal(BuilderView::after_command);
}

/// A layout is refused exactly where it has no column or a column of width
/// zero. A layout that is accepted has as many columns as widths, and no
/// column of it is entered yet.
pub proof fn lemma_layout_guards(builder: BuilderView, columns: Seq<u8>)
    ensures
        builder.after_command(CommentCommandView::InitColumnLayout(columns)).error is Some <==> (
        columns.len() == 0 || columns.contains(0u8)),
        builder.after_command(CommentCommandView::InitColumnLayout(columns)).error is Some
            ==> builder.after_command(CommentCommandView::InitColumnLayout(columns)).error->0
            is InvalidLayout,
        builder.after_command(CommentCommandView::InitColumnLayout(columns)).error is None ==> {
            let after = builder.after_command(CommentCommandView::InitColumnLayout(columns)).builder;
            &&& after.state.layout == LayoutState::InLayout { columns_count: columns.len() as usize }
            &&& after.state.needs_enter_column
        },
{
    reveal(BuilderView::after_command);
}

/// The rows of a table end in a line break, where there is a row.
proof fn lemma_rows_end(
    theme: PresentationTheme,
    rows: Seq<Seq<Seq<StyledTextView>>>,
    widths: Seq<usize>,
)
    ensures
        rows.len() > 0 ==> rows_operations(theme, rows, widths).len() > 0 && rows_operations(
            theme,
            rows,
            widths,
        ).last() == RenderOperationView::RenderLineBreak,
        rows.len() == 0 ==> rows_operations(theme, rows, widths).len() == 0,
{
}

/// While a layout is open and no column was entered, a heading, a slide
/// title, a thematic break, a table or a block quote fails the build.
pub proof fn lemma_content_needs_column(builder: BuilderView, element: MarkdownElementView)
    requires
        builder.state.needs_enter_column,
        element is Heading || element is SetexHeading || element is ThematicBreak
            || element is Table || element is BlockQuote,
    ensures
        builder.after_item(element).error == Some(BuildErrorView::NotInsideColumn),
{
    reveal(BuilderView::after_item);
    reveal(BuilderView::after_element);
    let start = BuilderView {
        state: crate::builder::SlideState { ignore_element_line_break: false, ..builder.state },
        ..builder
    };
    let added = match element {
        MarkdownElementView::SetexHeading { text } => slide_title_operations(start.theme, text),
        MarkdownElementView::Heading { level, text } => heading_operations(start.theme, level, text),
        MarkdownElementView::Table(table) => table_operations(start.theme, table),
        MarkdownElementView::BlockQuote(lines) => block_quote_operations(start.theme, lines),
        _ => separator_operations(),
    };
    if let MarkdownElementView::Table(table) = element {
        lemma_rows_end(start.theme, table.rows, table_widths(table));
    }
    assert(added.len() > 0);
    let last = added.last();
    assert(last is RenderLineBreak || last is SetColors);
    let after = start.after_element(element).builder;
    assert(after.operations == start.operations + added);
    assert(after.operations.last() == last);
}

} // verus!
