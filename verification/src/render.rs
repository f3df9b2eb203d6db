//! What the dynamic operations draw in one frame.

use crate::highlight::{HighlightContext, HighlightState};
use crate::operation::{
    operations_view, weighted_line, DynamicOperation, DynamicOperationView, FooterGenerator,
    HighlightedLine, HighlightedLineView, PreformattedLine, PreformattedLineView, RenderOperation,
    RenderOperationView, RenderSeparator, WeightedLine, WindowSize,
};
use crate::elements::{StyledText, StyledTextView, Text};
use crate::style::{Colors, TextStyle};
use crate::text::{
    chars_of, decimal, decimal_digits, display_width, measure, repeat_char, repeated, replace_all,
    replaced, string_of,
};
use crate::theme::{Alignment, FooterStyle, Margin};
use vstd::prelude::*;
use vstd::string::StringExecFns;

verus! {

/// Appends one operation.
pub fn push_operation(operations: &mut Vec<RenderOperation>, operation: RenderOperation)
    ensures
        operations_view(final(operations)@) == operations_view(old(operations)@).push(operation@),
{
    operations.push(operation);
    assert(operations_view(operations@) =~= operations_view(old(operations)@).push(operation@));
}

/// What is known of a presentation only when all of it is built.
#[derive(Clone, Debug)]
pub struct FooterContext {
    pub total_slides: usize,
    pub author: String,
}

impl Default for FooterContext {
    fn default() -> (context: Self)
        ensures
            context.total_slides == 0,
            context.author@ == Seq::<char>::empty(),
    {
        FooterContext { total_slides: 0, author: String::new() }
    }
}

/// The character that separators are drawn with.
pub open spec fn separator_glyph() -> char {
    '\u{2014}'
}

/// The character that fills a progress bar where the theme names none.
pub open spec fn bar_glyph() -> char {
    '\u{2588}'
}

/// The number of bytes that `text` takes up in UTF-8.
pub open spec fn byte_length(text: Seq<char>) -> nat {
    vstd::utf8::encode_utf8(text).len()
}

/// The line that a separator draws in a window of `columns` columns: dashes
/// all across it, or the heading between two equal runs of dashes that fill
/// what the heading's bytes leave free.
pub open spec fn separator_text(heading: Seq<char>, columns: u16) -> Seq<char> {
    if heading.len() == 0 {
        repeated(separator_glyph(), columns as nat)
    } else {
        let free = if byte_length(heading) >= columns {
            0
        } else {
            columns - byte_length(heading)
        };
        let dashes = repeated(separator_glyph(), (free / 2) as nat);
        dashes + heading + dashes
    }
}

/// One line of plain text, at the start of its row.
pub open spec fn plain_line(text: Seq<char>) -> RenderOperationView {
    RenderOperationView::RenderText {
        line: weighted_line(seq![StyledTextView { text, style: TextStyle::plain() }]),
        alignment: Alignment::start(),
    }
}

impl RenderSeparator {
    /// A separator with the given heading; an empty heading gives a plain
    /// rule.
    pub fn new(heading: String) -> (separator: Self)
        ensures
            separator.heading == heading,
    {
        RenderSeparator { heading }
    }

    /// What the separator draws in a window of the given size.
    pub open spec fn spec_operations(heading: Seq<char>, columns: u16) -> Seq<
        RenderOperationView,
    > {
        seq![plain_line(separator_text(heading, columns))]
    }

    /// The operations that draw the separator in a window of the given size.
    pub fn as_render_operations(&self, dimensions: &WindowSize) -> (operations: Vec<
        RenderOperation,
    >)
        ensures
            operations_view(operations@) == Self::spec_operations(
                self.heading@,
                dimensions.columns,
            ),
    {
        let glyph = '\u{2014}';
        let columns: usize = dimensions.columns as usize;
        let separator = if self.heading.as_str().is_empty() {
            repeat_char(glyph, columns)
        } else {
            let used: usize = self.heading.as_str().as_bytes().len();
            let free: usize = if used >= columns {
                0
            } else {
                columns - used
            };
            let dashes = repeat_char(glyph, free / 2);
            let mut separator = dashes.clone();
            separator.append(self.heading.as_str());
            separator.append(dashes.as_str());
            separator
        };
        let mut operations: Vec<RenderOperation> = Vec::new();
        push_operation(
            &mut operations,
            RenderOperation::RenderText {
                line: WeightedLine::plain(separator),
                alignment: Alignment::default(),
            },
        );
        assert(operations_view(operations@) =~= Self::spec_operations(
            self.heading@,
            dimensions.columns,
        ));
        operations
    }
}

impl HighlightedLine {
    /// What the line draws when its block's context is `context`: the
    /// highlighted text where the current step covers the line's number, the
    /// plain text elsewhere; then a line break.
    pub open spec fn spec_operations(line: HighlightedLineView, context: HighlightState) -> Seq<
        RenderOperationView,
    > {
        seq![
            RenderOperationView::RenderPreformattedLine(
                PreformattedLineView {
                    text: if context.highlights(line.line_number) {
                        line.highlighted
                    } else {
                        line.not_highlighted
                    },
                    unformatted_length: line.width,
                    block_length: context.block_length,
                    alignment: context.alignment,
                },
            ),
            RenderOperationView::RenderLineBreak,
        ]
    }

    /// The operations that draw the line, given the context of its block.
    pub fn as_render_operations(&self, context: &HighlightContext) -> (operations: Vec<
        RenderOperation,
    >)
        ensures
            operations_view(operations@) == Self::spec_operations(self@, context@),
    {
        let text = if context.highlights(self.line_number) {
            self.highlighted.clone()
        } else {
            self.not_highlighted.clone()
        };
        let mut operations: Vec<RenderOperation> = Vec::new();
        push_operation(
            &mut operations,
            RenderOperation::RenderPreformattedLine(
                PreformattedLine {
                    text,
                    unformatted_length: self.width,
                    block_length: context.block_length,
                    alignment: context.alignment,
                },
            ),
        );
        push_operation(&mut operations, RenderOperation::RenderLineBreak);
        assert(operations_view(operations@) =~= Self::spec_operations(self@, context@));
        operations
    }

    /// The text by which two versions of the line are compared.
    pub fn diffable_content(&self) -> (content: &str)
        ensures
            content@ == self@.highlighted,
    {
        self.highlighted.as_str()
    }
}

/// A footer template with its placeholders filled in: the slide's number,
/// then the number of slides, then the author.
pub open spec fn filled_template(
    template: Seq<char>,
    current_slide: Seq<char>,
    total_slides: nat,
    author: Seq<char>,
) -> Seq<char> {
    replaced(
        replaced(
            replaced(template, "{current_slide}"@, current_slide),
            "{total_slides}"@,
            decimal_digits(total_slides),
        ),
        "{author}"@,
        author,
    )
}

/// The number of columns of a bar that shows slide `current_slide` of
/// `total_slides` (counting from zero) in `columns` columns: the share of the
/// slides seen so far, rounded up, and never more than all columns. Without
/// slides there is no bar.
pub open spec fn progress_columns(columns: nat, current_slide: nat, total_slides: nat) -> nat {
    if total_slides == 0 {
        0
    } else {
        let seen = columns * (current_slide + 1);
        let filled = (seen + total_slides - 1) / (total_slides as int);
        if filled > columns {
            columns
        } else {
            filled as nat
        }
    }
}

/// `index + 1`, or the largest `usize` where that does not fit.
pub open spec fn slide_number(index: usize) -> nat {
    if index == usize::MAX {
        usize::MAX as nat
    } else {
        (index + 1) as nat
    }
}

impl FooterGenerator {
    /// The operation that draws one footer text.
    pub open spec fn spec_template(
        template: Seq<char>,
        current_slide: Seq<char>,
        total_slides: nat,
        author: Seq<char>,
        colors: Colors,
        alignment: Alignment,
    ) -> RenderOperationView {
        RenderOperationView::RenderText {
            line: weighted_line(
                seq![
                    StyledTextView {
                        text: filled_template(template, current_slide, total_slides, author),
                        style: TextStyle { colors, ..TextStyle::plain() },
                    },
                ],
            ),
            alignment,
        }
    }

    /// Fills in a footer template and draws it with the given colors and
    /// alignment.
    pub fn render_template(
        template: &str,
        current_slide: &str,
        context: &FooterContext,
        colors: Colors,
        alignment: Alignment,
    ) -> (operation: RenderOperation)
        ensures
            operation@ == Self::spec_template(
                template@,
                current_slide@,
                context.total_slides as nat,
                context.author@,
                colors,
                alignment,
            ),
    {
        proof {
            reveal_strlit("{current_slide}");
            reveal_strlit("{total_slides}");
            reveal_strlit("{author}");
        }
        let total = decimal(context.total_slides);
        let contents = replace_all(
            &chars_of(template),
            &chars_of("{current_slide}"),
            &chars_of(current_slide),
        );
        let contents = replace_all(
            &contents,
            &chars_of("{total_slides}"),
            &chars_of(total.as_str()),
        );
        let contents = replace_all(
            &contents,
            &chars_of("{author}"),
            &chars_of(context.author.as_str()),
        );
        let contents = string_of(&contents, 0, contents.len());
        assert(contents@ =~= filled_template(
            template@,
            current_slide@,
            context.total_slides as nat,
            context.author@,
        ));
        let text = StyledText::new(contents, TextStyle::default().colors(colors));
        RenderOperation::RenderText { line: WeightedLine::from(Text::single(text)), alignment }
    }

    /// The operations that one optional footer text adds.
    pub open spec fn spec_optional_template(
        template: Option<String>,
        current_slide: Seq<char>,
        total_slides: nat,
        author: Seq<char>,
        colors: Colors,
        alignment: Alignment,
    ) -> Seq<RenderOperationView> {
        match template {
            Some(template) => seq![
                Self::spec_template(
                    template@,
                    current_slide,
                    total_slides,
                    author,
                    colors,
                    alignment,
                ),
            ],
            None => Seq::empty(),
        }
    }

    /// What the footer of slide `current_slide` draws. A template footer
    /// jumps to the row above the last and draws its left, center and right
    /// texts, as far as they are set, each with a margin of one column. A
    /// progress bar jumps to the last row and draws as many fill glyphs as the
    /// progress asks for, counted in glyphs of the glyph's width; a glyph
    /// without width draws no bar.
    pub open spec fn spec_operations(
        current_slide: usize,
        style: FooterStyle,
        total_slides: nat,
        author: Seq<char>,
        columns: u16,
    ) -> Seq<RenderOperationView> {
        match style {
            FooterStyle::Template { left, center, right, colors } => {
                let number = decimal_digits(slide_number(current_slide));
                let margin = Margin::Fixed(1);
                seq![RenderOperationView::JumpToBottomRow { index: 1 }]
                    + Self::spec_optional_template(
                    left,
                    number,
                    total_slides,
                    author,
                    colors,
                    Alignment::Left { margin },
                ) + Self::spec_optional_template(
                    center,
                    number,
                    total_slides,
                    author,
                    colors,
                    Alignment::Center { minimum_size: 0, minimum_margin: margin },
                ) + Self::spec_optional_template(
                    right,
                    number,
                    total_slides,
                    author,
                    colors,
                    Alignment::Right { margin },
                )
            },
            FooterStyle::ProgressBar { character, colors } => {
                let glyph = match character {
                    Some(glyph) => glyph,
                    None => bar_glyph(),
                };
                let glyph_width = display_width(seq![glyph]);
                let glyphs = if glyph_width == 0 {
                    0
                } else {
                    progress_columns(
                        (columns as nat) / glyph_width,
                        current_slide as nat,
                        total_slides,
                    )
                };
                seq![
                    RenderOperationView::JumpToBottomRow { index: 0 },
                    RenderOperationView::RenderText {
                        line: weighted_line(
                            seq![
                                StyledTextView {
                                    text: repeated(glyph, glyphs),
                                    style: TextStyle { colors, ..TextStyle::plain() },
                                },
                            ],
                        ),
                        alignment: Alignment::Left { margin: Margin::Fixed(0) },
                    },
                ]
            },
            FooterStyle::Empty => Seq::empty(),
        }
    }

    /// The operations that draw the footer in a window of the given size.
    pub fn as_render_operations(&self, dimensions: &WindowSize, context: &FooterContext) -> (operations:
        Vec<RenderOperation>)
        ensures
            operations_view(operations@) == Self::spec_operations(
                self.current_slide,
                self.style,
                context.total_slides as nat,
                context.author@,
                dimensions.columns,
            ),
    {
        let mut operations: Vec<RenderOperation> = Vec::new();
        match &self.style {
            FooterStyle::Template { left, center, right, colors } => {
                let current_slide = decimal(self.current_slide.saturating_add(1));
                push_operation(&mut operations, RenderOperation::JumpToBottomRow { index: 1 });
                let margin = Margin::Fixed(1);
                if let Some(text) = left {
                    push_operation(
                        &mut operations,
                        Self::render_template(
                            text.as_str(),
                            current_slide.as_str(),
                            context,
                            *colors,
                            Alignment::Left { margin },
                        ),
                    );
                }
                if let Some(text) = center {
                    push_operation(
                        &mut operations,
                        Self::render_template(
                            text.as_str(),
                            current_slide.as_str(),
                            context,
                            *colors,
                            Alignment::Center { minimum_size: 0, minimum_margin: margin },
                        ),
                    );
                }
                if let Some(text) = right {
                    push_operation(
                        &mut operations,
                        Self::render_template(
                            text.as_str(),
                            current_slide.as_str(),
                            context,
                            *colors,
                            Alignment::Right { margin },
                        ),
                    );
                }
                assert(operations_view(operations@) =~= Self::spec_operations(
                    self.current_slide,
                    self.style,
                    context.total_slides as nat,
                    context.author@,
                    dimensions.columns,
                ));
            },
            FooterStyle::ProgressBar { character, colors } => {
                let glyph = match character {
                    Some(glyph) => *glyph,
                    None => '\u{2588}',
                };
                let mut single = String::new();
                single.push(glyph);
                assert(single@ =~= seq![glyph]);
                let glyph_width = measure(single.as_str());
                let glyphs: usize = if glyph_width == 0 {
                    0
                } else {
                    progress(
                        dimensions.columns as usize / glyph_width,
                        self.current_slide,
                        context.total_slides,
                    )
                };
                let bar = StyledText::new(
                    repeat_char(glyph, glyphs),
                    TextStyle::default().colors(*colors),
                );
                push_operation(&mut operations, RenderOperation::JumpToBottomRow { index: 0 });
                push_operation(
                    &mut operations,
                    RenderOperation::RenderText {
                        line: WeightedLine::from(Text::single(bar)),
                        alignment: Alignment::Left { margin: Margin::Fixed(0) },
                    },
                );
                assert(operations_view(operations@) =~= Self::spec_operations(
                    self.current_slide,
                    self.style,
                    context.total_slides as nat,
                    context.author@,
                    dimensions.columns,
                ));
            },
            FooterStyle::Empty => {
                assert(operations_view(operations@) =~= Seq::empty());
            },
        }
        operations
    }
}

/// The number of columns of a progress bar.
pub fn progress(columns: usize, current_slide: usize, total_slides: usize) -> (filled: usize)
    ensures
        filled == progress_columns(columns as nat, current_slide as nat, total_slides as nat),
{
    if total_slides == 0 {
        return 0;
    }
    let wide_columns: u128 = columns as u128;
    let wide_current: u128 = current_slide as u128;
    let wide_total: u128 = total_slides as u128;
    assert(wide_columns * (wide_current + 1) <= 0xffff_ffff_ffff_ffff * 0x1_0000_0000_0000_0000)
        by (nonlinear_arith)
        requires
            wide_columns <= 0xffff_ffff_ffff_ffff,
            wide_current + 1 <= 0x1_0000_0000_0000_0000,
    ;
    let seen: u128 = wide_columns * (wide_current + 1);
    let filled: u128 = (seen + wide_total - 1) / wide_total;
    if filled > wide_columns {
        columns
    } else {
        filled as usize
    }
}

/// The views of a sequence of contexts.
pub open spec fn states_of(contexts: Seq<HighlightContext>) -> Seq<HighlightState> {
    contexts.map_values(|context: HighlightContext| context@)
}

impl DynamicOperationView {
    /// What the operation draws in a window of `columns` columns, given the
    /// contexts of its chunk and what the footers show.
    pub open spec fn operations(
        self,
        columns: u16,
        contexts: Seq<HighlightState>,
        total_slides: nat,
        author: Seq<char>,
    ) -> Seq<RenderOperationView> {
        match self {
            DynamicOperationView::Separator { heading } => RenderSeparator::spec_operations(
                heading,
                columns,
            ),
            DynamicOperationView::CodeLine(line) => HighlightedLine::spec_operations(
                line,
                contexts[line.context as int],
            ),
            DynamicOperationView::Footer { current_slide, style } => {
                FooterGenerator::spec_operations(current_slide, style, total_slides, author, columns)
            },
        }
    }
}

impl DynamicOperation {
    /// The operations that draw this one in a window of the given size.
    /// `contexts` are the contexts of the chunk that the operation stands
    /// in, `footer` what the footers show.
    pub fn as_render_operations(
        &self,
        dimensions: &WindowSize,
        contexts: &Vec<HighlightContext>,
        footer: &FooterContext,
    ) -> (operations: Vec<RenderOperation>)
        requires
            self@ matches DynamicOperationView::CodeLine(line) ==> line.context < contexts@.len(),
        ensures
            operations_view(operations@) == self@.operations(
                dimensions.columns,
                states_of(contexts@),
                footer.total_slides as nat,
                footer.author@,
            ),
    {
        match self {
            DynamicOperation::Separator(separator) => separator.as_render_operations(dimensions),
            DynamicOperation::CodeLine(line) => line.as_render_operations(&contexts[line.context]),
            DynamicOperation::Footer(generator) => generator.as_render_operations(
                dimensions,
                footer,
            ),
        }
    }

    /// The text by which two versions of the operation are compared: that of
    /// a line of code, none for a separator or a footer.
    pub fn diffable_content(&self) -> (content: Option<&str>)
        ensures
            match self@ {
                DynamicOperationView::CodeLine(line) => content is Some && content->0@
                    == line.highlighted,
                _ => content is None,
            },
    {
        match self {
            DynamicOperation::CodeLine(line) => Some(line.diffable_content()),
            _ => None,
        }
    }
}

} // verus!
