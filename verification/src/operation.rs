//! Render operations: the atomic instructions that a slide is made of.

use crate::elements::{Code, CodeView, StyledText, StyledTextView, Text};
use crate::style::Colors;
use crate::text::{display_width, views_of};
use crate::theme::{Alignment, FooterStyle, Margin};
use vstd::prelude::*;

verus! {

/// The size of the terminal window, in cells and in pixels.
#[derive(Clone, Copy, Debug, PartialEq, Eq)]
pub struct WindowSize {
    pub rows: u16,
    pub columns: u16,
    pub height: u16,
    pub width: u16,
}

/// The margins of a slide.
#[derive(Clone, Copy, Debug, PartialEq, Eq)]
pub struct MarginProperties {
    pub horizontal_margin: Margin,
    pub bottom_slide_margin: u16,
}

/// A loaded image, by the number under which the loader keeps it.
#[derive(Clone, Copy, Debug, PartialEq, Eq)]
pub struct Image {
    pub id: usize,
}

/// A run of text with the number of columns it takes up.
#[derive(Clone, Debug)]
pub struct WeightedText {
    pub text: StyledText,
    pub width: usize,
}

/// What a [`WeightedText`] holds.
pub struct WeightedTextView {
    pub text: StyledTextView,
    pub width: usize,
}

impl View for WeightedText {
    type V = WeightedTextView;

    open spec fn view(&self) -> WeightedTextView {
        WeightedTextView { text: self.text@, width: self.width }
    }
}

/// A run with its width measured.
pub open spec fn weighted(chunk: StyledTextView) -> WeightedTextView {
    WeightedTextView { text: chunk, width: display_width(chunk.text) as usize }
}

impl WeightedText {
    /// Measures `text`.
    pub fn from(text: StyledText) -> (out: Self)
        ensures
            out@ == weighted(text@),
    {
        let width = text.width();
        WeightedText { text, width }
    }
}

/// A line of measured runs.
#[derive(Clone, Debug)]
pub struct WeightedLine {
    pub texts: Vec<WeightedText>,
}

impl View for WeightedLine {
    type V = Seq<WeightedTextView>;

    open spec fn view(&self) -> Seq<WeightedTextView> {
        self.texts@.map_values(|text: WeightedText| text@)
    }
}

/// A line of text that is drawn as it stands, such as a line of code.
#[derive(Clone, Debug)]
pub struct PreformattedLine {
    pub text: String,
    /// The columns that the text takes up.
    pub unformatted_length: usize,
    /// The columns of the widest line of the block that the line belongs to.
    pub block_length: usize,
    pub alignment: Alignment,
}

/// What a [`PreformattedLine`] holds.
pub struct PreformattedLineView {
    pub text: Seq<char>,
    pub unformatted_length: usize,
    pub block_length: usize,
    pub alignment: Alignment,
}

impl View for PreformattedLine {
    type V = PreformattedLineView;

    open spec fn view(&self) -> PreformattedLineView {
        PreformattedLineView {
            text: self.text@,
            unformatted_length: self.unformatted_length,
            block_length: self.block_length,
            alignment: self.alignment,
        }
    }
}

/// A horizontal rule across the window, with an optional heading in it.
#[derive(Clone, Debug)]
pub struct RenderSeparator {
    pub heading: String,
}

/// One line of a code block, highlighted and plain. Which of the two is drawn
/// depends on the block's context, which the line names by its position
/// among the contexts of its chunk.
#[derive(Clone, Debug)]
pub struct HighlightedLine {
    pub highlighted: String,
    pub not_highlighted: String,
    pub line_number: Option<u16>,
    pub width: usize,
    pub context: usize,
}

/// What a [`HighlightedLine`] holds.
pub struct HighlightedLineView {
    pub highlighted: Seq<char>,
    pub not_highlighted: Seq<char>,
    pub line_number: Option<u16>,
    pub width: usize,
    pub context: usize,
}

impl View for HighlightedLine {
    type V = HighlightedLineView;

    open spec fn view(&self) -> HighlightedLineView {
        HighlightedLineView {
            highlighted: self.highlighted@,
            not_highlighted: self.not_highlighted@,
            line_number: self.line_number,
            width: self.width,
            context: self.context,
        }
    }
}

/// Draws the footer of one slide. What it draws depends on the number of
/// slides and on the author, which are known only when the whole presentation
/// is built: the generator is handed them when a frame is drawn.
#[derive(Clone, Debug)]
pub struct FooterGenerator {
    pub current_slide: usize,
    pub style: FooterStyle,
}

/// An operation whose output is computed anew for every frame.
#[derive(Clone, Debug)]
pub enum DynamicOperation {
    Separator(RenderSeparator),
    CodeLine(HighlightedLine),
    Footer(FooterGenerator),
}

/// What a [`DynamicOperation`] holds.
pub enum DynamicOperationView {
    Separator { heading: Seq<char> },
    CodeLine(HighlightedLineView),
    Footer { current_slide: usize, style: FooterStyle },
}

impl View for DynamicOperation {
    type V = DynamicOperationView;

    open spec fn view(&self) -> DynamicOperationView {
        match self {
            DynamicOperation::Separator(separator) => DynamicOperationView::Separator {
                heading: separator.heading@,
            },
            DynamicOperation::CodeLine(line) => DynamicOperationView::CodeLine(line@),
            DynamicOperation::Footer(generator) => DynamicOperationView::Footer {
                current_slide: generator.current_slide,
                style: generator.style,
            },
        }
    }
}

/// How far an on-demand operation has come.
#[derive(Clone, Copy, Debug, PartialEq, Eq)]
pub enum RenderOnDemandState {
    NotStarted,
    Rendering,
    Rendered,
}

impl Default for RenderOnDemandState {
    fn default() -> (state: Self)
        ensures
            state == RenderOnDemandState::NotStarted,
    {
        RenderOnDemandState::NotStarted
    }
}

/// Runs a code block and shows what it prints. The process itself is run
/// elsewhere; the operation keeps what was reported of it.
#[derive(Clone, Debug)]
pub struct RunCodeOperation {
    pub code: Code,
    pub default_colors: Colors,
    pub block_colors: Colors,
    /// Whether a started process has not been seen to finish.
    pub handle: bool,
    pub output_lines: Vec<String>,
    pub state: RenderOnDemandState,
}

/// What a [`RunCodeOperation`] holds.
pub struct RunCodeView {
    pub code: CodeView,
    pub default_colors: Colors,
    pub block_colors: Colors,
    pub handle: bool,
    pub output_lines: Seq<Seq<char>>,
    pub state: RenderOnDemandState,
}

impl View for RunCodeOperation {
    type V = RunCodeView;

    open spec fn view(&self) -> RunCodeView {
        RunCodeView {
            code: self.code@,
            default_colors: self.default_colors,
            block_colors: self.block_colors,
            handle: self.handle,
            output_lines: views_of(self.output_lines@),
            state: self.state,
        }
    }
}

/// One instruction to the drawing backend.
#[derive(Clone, Debug)]
pub enum RenderOperation {
    ClearScreen,
    SetColors(Colors),
    JumpToVerticalCenter,
    /// Jumps to the row that is `index` rows above the bottom.
    JumpToBottomRow { index: u16 },
    RenderText { line: WeightedLine, alignment: Alignment },
    RenderLineBreak,
    RenderImage(Image),
    RenderPreformattedLine(PreformattedLine),
    /// Computed anew for every frame.
    RenderDynamic(DynamicOperation),
    /// Computed anew for every frame, from a process started on demand.
    RenderOnDemand(RunCodeOperation),
    /// Divides the slide into columns of the given relative widths.
    InitColumnLayout { columns: Vec<u8> },
    EnterColumn { column: usize },
    ExitLayout,
    ApplyMargin(MarginProperties),
    PopMargin,
}

/// What a [`RenderOperation`] holds.
pub enum RenderOperationView {
    ClearScreen,
    SetColors(Colors),
    JumpToVerticalCenter,
    JumpToBottomRow { index: u16 },
    RenderText { line: Seq<WeightedTextView>, alignment: Alignment },
    RenderLineBreak,
    RenderImage(Image),
    RenderPreformattedLine(PreformattedLineView),
    RenderDynamic(DynamicOperationView),
    RenderOnDemand(RunCodeView),
    InitColumnLayout { columns: Seq<u8> },
    EnterColumn { column: usize },
    ExitLayout,
    ApplyMargin(MarginProperties),
    PopMargin,
}

impl View for RenderOperation {
    type V = RenderOperationView;

    open spec fn view(&self) -> RenderOperationView {
        match self {
            RenderOperation::ClearScreen => RenderOperationView::ClearScreen,
            RenderOperation::SetColors(colors) => RenderOperationView::SetColors(*colors),
            RenderOperation::JumpToVerticalCenter => RenderOperationView::JumpToVerticalCenter,
            RenderOperation::JumpToBottomRow { index } => RenderOperationView::JumpToBottomRow {
                index: *index,
            },
            RenderOperation::RenderText { line, alignment } => RenderOperationView::RenderText {
                line: line@,
                alignment: *alignment,
            },
            RenderOperation::RenderLineBreak => RenderOperationView::RenderLineBreak,
            RenderOperation::RenderImage(image) => RenderOperationView::RenderImage(*image),
            RenderOperation::RenderPreformattedLine(line) => {
                RenderOperationView::RenderPreformattedLine(line@)
            },
            RenderOperation::RenderDynamic(operation) => RenderOperationView::RenderDynamic(
                operation@,
            ),
            RenderOperation::RenderOnDemand(operation) => RenderOperationView::RenderOnDemand(
                operation@,
            ),
            RenderOperation::InitColumnLayout { columns } => RenderOperationView::InitColumnLayout {
                columns: columns@,
            },
            RenderOperation::EnterColumn { column } => RenderOperationView::EnterColumn {
                column: *column,
            },
            RenderOperation::ExitLayout => RenderOperationView::ExitLayout,
            RenderOperation::ApplyMargin(margin) => RenderOperationView::ApplyMargin(*margin),
            RenderOperation::PopMargin => RenderOperationView::PopMargin,
        }
    }
}

/// The views of a sequence of operations.
pub open spec fn operations_view(operations: Seq<RenderOperation>) -> Seq<RenderOperationView> {
    operations.map_values(|operation: RenderOperation| operation@)
}

/// Each run of `text` with its width measured.
pub open spec fn weighted_line(text: Seq<StyledTextView>) -> Seq<WeightedTextView> {
    text.map_values(|chunk: StyledTextView| weighted(chunk))
}

impl RenderOperationView {
    /// Whether the operation puts something on the screen, rather than moving
    /// the cursor or changing how what follows is drawn.
    pub open spec fn is_visible(self) -> bool {
        match self {
            RenderOperationView::RenderText { .. } => true,
            RenderOperationView::RenderLineBreak => true,
            RenderOperationView::RenderImage(_) => true,
            RenderOperationView::RenderPreformattedLine(_) => true,
            RenderOperationView::RenderDynamic(_) => true,
            RenderOperationView::RenderOnDemand(_) => true,
            _ => false,
        }
    }
}

impl RenderOperation {
    /// Whether the operation puts something on the screen.
    pub fn is_visible(&self) -> (visible: bool)
        ensures
            visible == self@.is_visible(),
    {
        match self {
            RenderOperation::RenderText { .. } => true,
            RenderOperation::RenderLineBreak => true,
            RenderOperation::RenderImage(_) => true,
            RenderOperation::RenderPreformattedLine(_) => true,
            RenderOperation::RenderDynamic(_) => true,
            RenderOperation::RenderOnDemand(_) => true,
            _ => false,
        }
    }
}

impl WeightedLine {
    /// Measures every run of `text`.
    pub fn from(text: Text) -> (line: Self)
        ensures
            line@ == weighted_line(text@),
    {
        let ghost given = text@;
        let mut texts: Vec<WeightedText> = Vec::new();
        for chunk in iter: text.chunks
            invariant
                iter.seq().map_values(|chunk: StyledText| chunk@) == given,
                texts@.map_values(|text: WeightedText| text@) == weighted_line(
                    given.take(iter.index()),
                ),
        {
            let ghost done = texts@.map_values(|text: WeightedText| text@);
            let ghost chunk_view = chunk@;
            texts.push(WeightedText::from(chunk));
            assert(texts@.map_values(|text: WeightedText| text@) =~= done.push(
                weighted(chunk_view),
            ));
            assert(weighted_line(given.take(iter.index() + 1)) =~= weighted_line(
                given.take(iter.index()),
            ).push(weighted(chunk_view)));
        }
        assert(given.take(given.len() as int) =~= given);
        WeightedLine { texts }
    }

    /// A line made of one plain run.
    pub fn plain(text: String) -> (line: Self)
        ensures
            line@ == weighted_line(
                seq![StyledTextView { text: text@, style: crate::style::TextStyle::plain() }],
            ),
    {
        let out = WeightedLine::from(Text::single(StyledText::plain(text)));
        out
    }
}

} // verus!
