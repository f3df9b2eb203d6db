//! Code blocks: the lines that are shown for a block of code.

use crate::elements::{clamped, Code, CodeView};
use crate::text::{
    decimal_digits, display_width, ilog10, lemma_decimal_length, lemma_log10_monotonic, lines_of,
    log10_floor, measure, push_decimal, repeat_char, repeated, split_lines, views_of,
};
use crate::theme::PresentationTheme;
use vstd::prelude::*;
use vstd::string::StringExecFns;

verus! {

/// One line of a code block as it is shown: the code between a prefix and a
/// suffix of padding.
#[derive(Clone, Debug)]
pub struct CodeLine {
    /// The padding on the left, with the line's number where lines are
    /// numbered.
    pub prefix: String,
    /// The code, with a line feed at its end.
    pub code: String,
    /// The padding on the right.
    pub suffix: String,
    /// The line's number, counting from one; none for a line of padding.
    pub line_number: Option<u16>,
}

/// What a [`CodeLine`] holds.
pub struct CodeLineView {
    pub prefix: Seq<char>,
    pub code: Seq<char>,
    pub suffix: Seq<char>,
    pub line_number: Option<u16>,
}

impl View for CodeLine {
    type V = CodeLineView;

    open spec fn view(&self) -> CodeLineView {
        CodeLineView {
            prefix: self.prefix@,
            code: self.code@,
            suffix: self.suffix@,
            line_number: self.line_number,
        }
    }
}

/// The views of a sequence of code lines.
pub open spec fn code_lines_view(lines: Seq<CodeLine>) -> Seq<CodeLineView> {
    lines.map_values(|line: CodeLine| line@)
}

impl CodeLineView {
    /// A line without code, which pads a block at its top or bottom.
    pub open spec fn empty() -> CodeLineView {
        CodeLineView {
            prefix: Seq::empty(),
            code: seq!['\n'],
            suffix: Seq::empty(),
            line_number: None,
        }
    }

    /// The columns that the line takes up: those of its three parts, added.
    pub open spec fn width(self) -> nat {
        display_width(self.prefix) + display_width(self.code) + display_width(self.suffix)
    }
}

/// What stands before the code of the line at `index` (counting from zero)
/// of a block of `total` lines: the padding and, where lines are numbered,
/// the line's number and a space, after as many spaces as the number is
/// shorter than the largest.
pub open spec fn line_prefix(padding: Seq<char>, numbered: bool, total: nat, index: nat) -> Seq<
    char,
> {
    if numbered {
        padding + repeated(' ', (log10_floor(total) - log10_floor(index + 1)) as nat)
            + decimal_digits(index + 1) + seq![' ']
    } else {
        padding
    }
}

/// In a block whose lines are numbered, the prefixes of all lines are
/// equally long: as long as the padding, the digits of the largest number
/// and a space. So the numbers end in the same column.
pub proof fn lemma_numbers_align(padding: Seq<char>, total: nat, index: nat)
    requires
        index < total,
    ensures
        line_prefix(padding, true, total, index).len() == padding.len() + log10_floor(total) + 2,
{
    lemma_log10_monotonic(index + 1, total);
    lemma_decimal_length(index + 1);
}

/// The number of the line at `index`: one more than the index, as far as it
/// fits in 16 bits.
pub open spec fn line_number_at(index: nat) -> Option<u16> {
    if index < u16::MAX {
        Some((index + 1) as u16)
    } else {
        None
    }
}

/// The line that is shown for the line at `index` of a block whose lines are
/// `lines`.
pub open spec fn shown_line(padding: Seq<char>, numbered: bool, lines: Seq<Seq<char>>, index: int) -> CodeLineView {
    CodeLineView {
        prefix: line_prefix(padding, numbered, lines.len(), index as nat),
        code: lines[index].push('\n'),
        suffix: padding,
        line_number: line_number_at(index as nat),
    }
}

/// The lines that are shown for the code itself: one for each line of the
/// contents, between `horizontal_padding` spaces on either side.
pub open spec fn shown_lines(code: CodeView, horizontal_padding: u8) -> Seq<CodeLineView> {
    let lines = lines_of(code.contents);
    let padding = repeated(' ', horizontal_padding as nat);
    Seq::new(
        lines.len(),
        |i: int| shown_line(padding, code.attributes.line_numbers, lines, i),
    )
}

/// The lines that are shown for a block: those of the code, between two
/// empty lines where there is vertical padding.
pub open spec fn prepared_lines(code: CodeView, horizontal_padding: u8, vertical_padding: u8) -> Seq<
    CodeLineView,
> {
    let edge = if vertical_padding > 0 {
        seq![CodeLineView::empty()]
    } else {
        Seq::empty()
    };
    edge + shown_lines(code, horizontal_padding) + edge
}

impl CodeLine {
    /// A line without code.
    pub fn empty() -> (line: Self)
        ensures
            line@ == CodeLineView::empty(),
    {
        let mut code = String::new();
        code.push('\n');
        let line = CodeLine { prefix: String::new(), code, suffix: String::new(), line_number: None };
        assert(line@.code =~= seq!['\n']);
        line
    }

    /// The columns that the line takes up, saturating at the largest `usize`.
    pub fn width(&self) -> (width: usize)
        ensures
            width == clamped(self@.width()),
    {
        let prefix = measure(self.prefix.as_str());
        let code = measure(self.code.as_str());
        let suffix = measure(self.suffix.as_str());
        prefix.saturating_add(code).saturating_add(suffix)
    }
}

/// Prepares the lines of code blocks as a theme asks for.
pub struct CodePreparer<'a> {
    pub theme: &'a PresentationTheme,
}

/// The padding that a theme sets, none where it sets none.
pub open spec fn padding_of(padding: Option<u8>) -> u8 {
    match padding {
        Some(padding) => padding,
        None => 0,
    }
}

impl<'a> CodePreparer<'a> {
    /// The lines that are shown for `code`.
    pub fn prepare(&self, code: &Code) -> (lines: Vec<CodeLine>)
        ensures
            code_lines_view(lines@) == prepared_lines(
                code@,
                padding_of(self.theme.code.padding.horizontal),
                padding_of(self.theme.code.padding.vertical),
            ),
    {
        let mut lines: Vec<CodeLine> = Vec::new();
        let horizontal_padding: u8 = match self.theme.code.padding.horizontal {
            Some(padding) => padding,
            None => 0,
        };
        let vertical_padding: u8 = match self.theme.code.padding.vertical {
            Some(padding) => padding,
            None => 0,
        };
        if vertical_padding > 0 {
            lines.push(CodeLine::empty());
        }
        let ghost edge = code_lines_view(lines@);
        assert(edge =~= if vertical_padding > 0 {
            seq![CodeLineView::empty()]
        } else {
            Seq::empty()
        });
        self.push_lines(code, horizontal_padding, &mut lines);
        let ghost body = code_lines_view(lines@);
        if vertical_padding > 0 {
            lines.push(CodeLine::empty());
            assert(code_lines_view(lines@) =~= body.push(CodeLineView::empty()));
        }
        assert(code_lines_view(lines@) =~= prepared_lines(
            code@,
            horizontal_padding,
            vertical_padding,
        ));
        lines
    }

    /// Appends the lines that are shown for the code itself.
    pub fn push_lines(&self, code: &Code, horizontal_padding: u8, lines: &mut Vec<CodeLine>)
        ensures
            code_lines_view(final(lines)@) == code_lines_view(old(lines)@) + shown_lines(
                code@,
                horizontal_padding,
            ),
    {
        let ghost before = code_lines_view(lines@);
        let ghost expected = shown_lines(code@, horizontal_padding);
        let source = split_lines(code.contents.as_str());
        let ghost texts = lines_of(code@.contents);
        assert(views_of(source@).len() == source.len());
        if source.len() == 0 {
            assert(code_lines_view(lines@) =~= before + expected);
            return ;
        }
        let padding = repeat_char(' ', horizontal_padding as usize);
        let total: usize = source.len();
        let total_lines_width: usize = ilog10(total);
        let mut index: usize = 0;
        assert(before + expected.take(0) =~= before);
        for line in iter: source
            invariant
                index == iter.index(),
                views_of(iter.seq()) == texts,
                texts == lines_of(code@.contents),
                total == texts.len(),
                total_lines_width == log10_floor(total as nat),
                padding@ == repeated(' ', horizontal_padding as nat),
                expected == shown_lines(code@, horizontal_padding),
                code_lines_view(lines@) == before + expected.take(index as int),
        {
            let ghost done = code_lines_view(lines@);
            assert(views_of(iter.seq())[index as int] == line@);
            assert(index < total);
            let mut prefix = padding.clone();
            if code.attributes.line_numbers {
                proof {
                    lemma_log10_monotonic((index + 1) as nat, total as nat);
                }
                let number: usize = index + 1;
                let number_padding: usize = total_lines_width - ilog10(number);
                prefix.append(repeat_char(' ', number_padding).as_str());
                push_decimal(&mut prefix, number);
                prefix.push(' ');
            }
            let mut text = line;
            text.push('\n');
            let line_number: Option<u16> = if index < 65535 {
                Some((index + 1) as u16)
            } else {
                None
            };
            let shown = CodeLine { prefix, code: text, suffix: padding.clone(), line_number };
            proof {
                assert(shown@.prefix =~= line_prefix(
                    padding@,
                    code@.attributes.line_numbers,
                    total as nat,
                    index as nat,
                ));
                assert(shown@ == expected[index as int]);
                assert(expected.take(index + 1) =~= expected.take(index as int).push(
                    expected[index as int],
                ));
            }
            lines.push(shown);
            assert(code_lines_view(lines@) =~= done.push(shown@));
            index += 1;
        }
        assert(expected.take(index as int) =~= expected);
    }
}

} // verus!
