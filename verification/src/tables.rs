//! Tables: how the builder lays them out.
//!
//! A column is as wide as its widest cell, the header's included. A row is
//! drawn as one line: its cells, each padded with spaces to the width of its
//! column, with a bar between two cells. A rule separates the header from the
//! rows.

use crate::builder::{text_operations, BuilderView, PresentationBuilder};
use crate::blocks::plain_text;
use crate::elements::{
    clamped, total_width, StyledText, StyledTextView, Table, TableRow, TableView, Text,
};
use crate::operation::RenderOperationView;
use crate::style::TextStyle;
use crate::text::{repeat_char, repeated};
use crate::theme::{ElementType, PresentationTheme};
use vstd::prelude::*;
use vstd::string::StringExecFns;

verus! {

/// The columns that a cell takes up.
pub open spec fn cell_width(cell: Seq<StyledTextView>) -> usize {
    clamped(total_width(cell))
}

/// The width of a column: that of its widest cell, the header's included.
pub open spec fn column_width(
    header: Seq<Seq<StyledTextView>>,
    rows: Seq<Seq<Seq<StyledTextView>>>,
    column: int,
) -> usize
    decreases rows.len(),
{
    if rows.len() == 0 {
        cell_width(header[column])
    } else {
        let before = column_width(header, rows.drop_last(), column);
        let width = cell_width(rows.last()[column]);
        if width > before {
            width
        } else {
            before
        }
    }
}

/// The widths of a table's columns.
pub open spec fn table_widths(table: TableView) -> Seq<usize> {
    Seq::new(table.header.len(), |column: int| column_width(table.header, table.rows, column))
}

/// What separates two cells of a row.
pub open spec fn cell_separator() -> Seq<char> {
    seq![' ', '\u{2502}', ' ']
}

/// The runs of the cell in the given column: a separator before every cell
/// but the first, the cell's own runs, and spaces up to the column's width.
pub open spec fn cell_runs(column: int, cell: Seq<StyledTextView>, width: usize) -> Seq<
    StyledTextView,
> {
    (if column > 0 {
        plain_text(cell_separator())
    } else {
        Seq::empty()
    }) + cell + (if cell_width(cell) < width {
        plain_text(repeated(' ', (width - cell_width(cell)) as nat))
    } else {
        Seq::empty()
    })
}

/// The runs of a row: those of its cells, one cell after the other.
pub open spec fn row_runs(row: Seq<Seq<StyledTextView>>, widths: Seq<usize>) -> Seq<StyledTextView>
    decreases row.len(),
{
    if row.len() == 0 {
        Seq::empty()
    } else {
        row_runs(row.drop_last(), widths) + cell_runs(
            row.len() - 1,
            row.last(),
            widths[row.len() - 1],
        )
    }
}

/// The part of the rule under the column at `index`: a crossing before
/// every column but the first, and dashes for the column's width and its
/// margin. The margin is one column, and two for the columns between the
/// first and the last.
pub open spec fn rule_text(index: int, width: usize, count: int) -> Seq<char> {
    let margin: nat = if 0 < index < count - 1 {
        2
    } else {
        1
    };
    (if index > 0 {
        seq!['\u{253c}']
    } else {
        Seq::empty()
    }) + repeated('\u{2500}', clamped((width + margin) as nat) as nat)
}

/// The runs of the rule under the header.
pub open spec fn rule_runs(widths: Seq<usize>) -> Seq<StyledTextView> {
    Seq::new(
        widths.len(),
        |index: int|
            StyledTextView {
                text: rule_text(index, widths[index], widths.len() as int),
                style: TextStyle::plain(),
            },
    )
}

/// The operations of one row: its line and a line break.
pub open spec fn row_operations(
    theme: PresentationTheme,
    row: Seq<Seq<StyledTextView>>,
    widths: Seq<usize>,
) -> Seq<RenderOperationView> {
    text_operations(
        row_runs(row, widths),
        theme.inline_code,
        theme.spec_alignment(ElementType::Table),
    ) + seq![RenderOperationView::RenderLineBreak]
}

/// The operations of the given rows, one row after the other.
pub open spec fn rows_operations(
    theme: PresentationTheme,
    rows: Seq<Seq<Seq<StyledTextView>>>,
    widths: Seq<usize>,
) -> Seq<RenderOperationView>
    decreases rows.len(),
{
    if rows.len() == 0 {
        Seq::empty()
    } else {
        rows_operations(theme, rows.drop_last(), widths) + row_operations(
            theme,
            rows.last(),
            widths,
        )
    }
}

/// The operations of a table: the header, the rule, and the rows.
pub open spec fn table_operations(theme: PresentationTheme, table: TableView) -> Seq<
    RenderOperationView,
> {
    let widths = table_widths(table);
    row_operations(theme, table.header, widths) + text_operations(
        rule_runs(widths),
        theme.inline_code,
        theme.spec_alignment(ElementType::Table),
    ) + seq![RenderOperationView::RenderLineBreak] + rows_operations(theme, table.rows, widths)
}

impl<'a> PresentationBuilder<'a> {
    /// The line that a row is drawn as, in columns of the given widths.
    pub fn prepare_table_row(row: TableRow, widths: &Vec<usize>) -> (flattened: Text)
        requires
            row@.len() <= widths@.len(),
        ensures
            flattened@ == row_runs(row@, widths@),
    {
        let ghost cells = row@;
        let mut flattened_row = Text { chunks: Vec::new() };
        let mut column: usize = 0;
        let count: usize = widths.len();
        assert(cells.take(0) =~= Seq::empty());
        assert(flattened_row@ =~= Seq::empty());
        for text in iter: row.0
            invariant
                column == iter.index(),
                count == widths@.len(),
                iter.seq().map_values(|cell: Text| cell@) == cells,
                cells.len() <= widths@.len(),
                flattened_row@ == row_runs(cells.take(column as int), widths@),
        {
            let ghost done = flattened_row@;
            let ghost cell = text@;
            assert(cells[column as int] == cell);
            assert(column < cells.len());
            if column > 0 {
                let mut separator = String::new();
                separator.push(' ');
                separator.push('\u{2502}');
                separator.push(' ');
                assert(separator@ =~= cell_separator());
                flattened_row.chunks.push(StyledText::plain(separator));
            }
            let text_length = text.width();
            let mut text = text;
            flattened_row.chunks.append(&mut text.chunks);
            let cell_width = widths[column];
            if text_length < cell_width {
                let padding = repeat_char(' ', cell_width - text_length);
                flattened_row.chunks.push(StyledText::plain(padding));
            }
            proof {
                assert(flattened_row@ =~= done + cell_runs(column as int, cell, cell_width));
                assert(cells.take(column + 1).drop_last() =~= cells.take(column as int));
                assert(cells.take(column + 1).last() == cell);
            }
            column += 1;
        }
        assert(cells.take(cells.len() as int) =~= cells);
        flattened_row
    }

    /// The width of each column of `table`.
    pub fn column_widths(table: &Table) -> (widths: Vec<usize>)
        requires
            table@.wf(),
        ensures
            widths@ == table_widths(table@),
    {
        let ghost view = table@;
        let columns = table.columns();
        let mut widths: Vec<usize> = Vec::new();
        let mut column: usize = 0;
        while column < columns
            invariant
                column <= columns,
                view == table@,
                view.wf(),
                columns == view.header.len(),
                widths@ == table_widths(view).take(column as int),
            decreases columns - column,
        {
            assert(view.header[column as int] == table.header.0@[column as int]@);
            let mut width = table.header.0[column].width();
            let mut r: usize = 0;
            assert(view.rows.take(0) =~= Seq::empty());
            while r < table.rows.len()
                invariant
                    r <= table.rows.len(),
                    column < columns,
                    view == table@,
                    view.wf(),
                    columns == view.header.len(),
                    width == column_width(view.header, view.rows.take(r as int), column as int),
                decreases table.rows.len() - r,
            {
                assert(view.rows[r as int] == table.rows@[r as int]@);
                assert(view.rows[r as int].len() == columns);
                assert(view.rows[r as int][column as int] == table.rows@[r as int].0@[column as int]@);
                let cell = table.rows[r].0[column].width();
                if cell > width {
                    width = cell;
                }
                r += 1;
                assert(view.rows.take(r as int).drop_last() =~= view.rows.take(r - 1));
            }
            assert(view.rows.take(r as int) =~= view.rows);
            widths.push(width);
            column += 1;
            assert(widths@ =~= table_widths(view).take(column as int));
        }
        assert(table_widths(view).take(column as int) =~= table_widths(view));
        widths
    }

    /// The line of the rule under the header.
    pub fn table_rule(widths: &Vec<usize>) -> (rule: Text)
        ensures
            rule@ == rule_runs(widths@),
    {
        let mut separator = Text { chunks: Vec::new() };
        let mut index: usize = 0;
        assert(separator@ =~= rule_runs(widths@).take(0));
        while index < widths.len()
            invariant
                index <= widths.len(),
                separator@ == rule_runs(widths@).take(index as int),
            decreases widths.len() - index,
        {
            let ghost done = separator@;
            let mut contents = String::new();
            let mut margin: usize = 1;
            if index > 0 {
                contents.push('\u{253c}');
                if index < widths.len() - 1 {
                    margin += 1;
                }
            }
            let dashes = repeat_char('\u{2500}', widths[index].saturating_add(margin));
            contents.append(dashes.as_str());
            assert(contents@ =~= rule_text(index as int, widths@[index as int], widths@.len() as int));
            let ghost text = contents@;
            separator.chunks.push(StyledText::plain(contents));
            index += 1;
            assert(separator@ =~= done.push(
                StyledTextView { text, style: TextStyle::plain() },
            ));
            assert(rule_runs(widths@).take(index as int) =~= rule_runs(widths@).take(
                index - 1,
            ).push(rule_runs(widths@)[index - 1]));
        }
        assert(rule_runs(widths@).take(index as int) =~= rule_runs(widths@));
        separator
    }

    /// Adds a table.
    pub fn push_table(&mut self, table: Table)
        requires
            table@.wf(),
        ensures
            final(self)@ == old(self)@.with(table_operations(old(self)@.theme, table@)),
            old(self)@.wf() ==> final(self)@.wf(),
    {
        let ghost view = table@;
        let ghost start = self@;
        let widths = Self::column_widths(&table);
        let flattened_header = Self::prepare_table_row(table.header, &widths);
        self.push_text(flattened_header, ElementType::Table);
        self.push_line_break();
        let separator = Self::table_rule(&widths);
        self.push_text(separator, ElementType::Table);
        self.push_line_break();
        let ghost head = self@.operations;
        let ghost theme = self.theme;
        assert(view.rows.take(0) =~= Seq::empty());
        assert(head + rows_operations(theme, view.rows.take(0), widths@) =~= head);
        for row in iter: table.rows
            invariant
                old(self)@.wf() ==> self@.wf(),
                iter.seq().map_values(|row: TableRow| row@) == view.rows,
                view.wf(),
                widths@ == table_widths(view),
                theme == start.theme,
                self@ == (BuilderView {
                    operations: head + rows_operations(
                        theme,
                        view.rows.take(iter.index()),
                        widths@,
                    ),
                    ..start
                }),
        {
            assert(view.rows[iter.index()] == row@);
            assert(view.rows.take(iter.index() + 1).drop_last() =~= view.rows.take(iter.index()));
            assert(view.rows.take(iter.index() + 1).last() == row@);
            let flattened_row = Self::prepare_table_row(row, &widths);
            self.push_text(flattened_row, ElementType::Table);
            self.push_line_break();
            assert(self@.operations =~= head + rows_operations(
                theme,
                view.rows.take(iter.index() + 1),
                widths@,
            ));
        }
        assert(view.rows.take(view.rows.len() as int) =~= view.rows);
        assert(self@.operations =~= start.operations + table_operations(start.theme, view));
    }
}

} // verus!
