//! The builder: compiles the elements of a document into a presentation.
//!
//! The builder walks the elements in order. Operations gather in the chunk
//! in progress; a pause seals the chunk, the end of a slide seals the slide.
//! What the builder remembers of the slide in progress is reset whenever a
//! slide is sealed.

use crate::chunk::{
    code_lines_within, contexts_view, contexts_wf, mutators_within, targets, HighlightMutator,
    SlideChunk, SlideChunkView,
};
use crate::command::CommandParseError;
use crate::elements::{
    restyled, ParagraphElement, ParagraphElementView, StyledText, StyledTextView, Text,
};
use crate::highlight::{HighlightContext, HighlightState};
use crate::highlighter::CodeHighlighter;
use crate::operation::{
    operations_view, weighted_line, DynamicOperation, DynamicOperationView, Image,
    MarginProperties, RenderOperation, RenderOperationView, RenderSeparator, WeightedLine,
    WeightedText,
};
use crate::presentation::{chunks_view, slides_view, Slide, SlideView};
use crate::render::{push_operation, FooterContext};
use crate::resource::{LoadImageError, LoadThemeError, Resources};
use crate::style::{Colors, TextStyle};
use crate::theme::{Alignment, ElementType, HeadingStyle, Margin, PresentationTheme};
use vstd::prelude::*;

verus! {

/// What a build may and may not do.
#[derive(Clone, Copy, Debug)]
pub struct PresentationBuilderOptions {
    /// Whether code blocks are revealed step by step.
    pub allow_mutations: bool,
}

impl Default for PresentationBuilderOptions {
    fn default() -> (options: Self)
        ensures
            options.allow_mutations,
    {
        PresentationBuilderOptions { allow_mutations: true }
    }
}

/// Whether the slide in progress is divided into columns, and where in them
/// the builder stands.
#[derive(Clone, Copy, Debug, PartialEq, Eq)]
pub enum LayoutState {
    /// No layout is open.
    Default,
    /// A layout is open and no column was entered.
    InLayout { columns_count: usize },
    /// A layout is open and the builder stands in one of its columns.
    InColumn { column: usize, columns_count: usize },
}

/// What the element before the current one was, as far as it matters.
#[derive(Clone, Copy, Debug, PartialEq, Eq)]
pub enum LastElement {
    Any,
    /// A list whose last item at depth zero had the given index.
    List { last_index: usize },
}

/// What the builder remembers of the slide in progress.
#[derive(Clone, Copy, Debug, PartialEq, Eq)]
pub struct SlideState {
    /// Whether the element in hand is followed by no line break.
    pub ignore_element_line_break: bool,
    /// Whether a layout was opened and no column entered since.
    pub needs_enter_column: bool,
    /// Whether the chunk sealed last ended in a list.
    pub last_chunk_ended_in_list: bool,
    pub last_element: LastElement,
    pub layout: LayoutState,
}

impl SlideState {
    /// The state at the start of a slide.
    pub open spec fn fresh() -> SlideState {
        SlideState {
            ignore_element_line_break: false,
            needs_enter_column: false,
            last_chunk_ended_in_list: false,
            last_element: LastElement::Any,
            layout: LayoutState::Default,
        }
    }
}

impl Default for SlideState {
    fn default() -> (state: Self)
        ensures
            state == SlideState::fresh(),
    {
        SlideState {
            ignore_element_line_break: false,
            needs_enter_column: false,
            last_chunk_ended_in_list: false,
            last_element: LastElement::Any,
            layout: LayoutState::Default,
        }
    }
}

/// Why a presentation could not be built.
#[derive(Clone, Debug)]
pub enum BuildError {
    LoadImage(LoadImageError),
    InvalidMetadata(String),
    InvalidTheme(LoadThemeError),
    InvalidCodeTheme,
    InvalidLayout(&'static str),
    NoLayout,
    AlreadyInColumn,
    ColumnIndexTooLarge,
    NotInsideColumn,
    CommandParse { line: usize, error: CommandParseError },
}

/// What a [`BuildError`] holds.
pub enum BuildErrorView {
    LoadImage(Seq<char>),
    InvalidMetadata(Seq<char>),
    InvalidTheme(Seq<char>),
    InvalidCodeTheme,
    InvalidLayout(Seq<char>),
    NoLayout,
    AlreadyInColumn,
    ColumnIndexTooLarge,
    NotInsideColumn,
    CommandParse { line: usize, message: Seq<char> },
}

impl View for BuildError {
    type V = BuildErrorView;

    open spec fn view(&self) -> BuildErrorView {
        match self {
            BuildError::LoadImage(error) => BuildErrorView::LoadImage(error.message@),
            BuildError::InvalidMetadata(message) => BuildErrorView::InvalidMetadata(message@),
            BuildError::InvalidTheme(error) => BuildErrorView::InvalidTheme(error.message@),
            BuildError::InvalidCodeTheme => BuildErrorView::InvalidCodeTheme,
            BuildError::InvalidLayout(message) => BuildErrorView::InvalidLayout(message@),
            BuildError::NoLayout => BuildErrorView::NoLayout,
            BuildError::AlreadyInColumn => BuildErrorView::AlreadyInColumn,
            BuildError::ColumnIndexTooLarge => BuildErrorView::ColumnIndexTooLarge,
            BuildError::NotInsideColumn => BuildErrorView::NotInsideColumn,
            BuildError::CommandParse { line, error } => BuildErrorView::CommandParse {
                line: *line,
                message: error.message@,
            },
        }
    }
}

/// The rows that every slide leaves free at its bottom.
pub const DEFAULT_BOTTOM_SLIDE_MARGIN: u16 = 3;

/// Builds a presentation.
pub struct PresentationBuilder<'a> {
    /// The chunks of the slide in progress that are sealed.
    pub slide_chunks: Vec<SlideChunk>,
    /// The operations of the chunk in progress.
    pub chunk_operations: Vec<RenderOperation>,
    /// The contexts of the code blocks of the chunk in progress.
    pub chunk_contexts: Vec<HighlightContext>,
    /// The mutators of the chunk in progress.
    pub chunk_mutators: Vec<HighlightMutator>,
    /// The slides that are sealed.
    pub slides: Vec<Slide>,
    pub highlighter: CodeHighlighter,
    pub theme: PresentationTheme,
    pub resources: &'a Resources,
    pub slide_state: SlideState,
    pub footer_context: FooterContext,
    pub options: PresentationBuilderOptions,
}

/// What a [`PresentationBuilder`] holds.
pub struct BuilderView {
    pub slides: Seq<SlideView>,
    pub slide_chunks: Seq<SlideChunkView>,
    pub operations: Seq<RenderOperationView>,
    pub contexts: Seq<HighlightState>,
    pub mutators: Seq<usize>,
    pub state: SlideState,
    pub theme: PresentationTheme,
    /// The name of the highlighter's theme.
    pub highlighter: Seq<char>,
    pub resources: Resources,
    pub allow_mutations: bool,
    pub author: Seq<char>,
    pub total_slides: usize,
}

impl<'a> View for PresentationBuilder<'a> {
    type V = BuilderView;

    open spec fn view(&self) -> BuilderView {
        BuilderView {
            slides: slides_view(self.slides@),
            slide_chunks: chunks_view(self.slide_chunks@),
            operations: operations_view(self.chunk_operations@),
            contexts: contexts_view(self.chunk_contexts@),
            mutators: targets(self.chunk_mutators@),
            state: self.slide_state,
            theme: self.theme,
            highlighter: self.highlighter.theme(),
            resources: *self.resources,
            allow_mutations: self.options.allow_mutations,
            author: self.footer_context.author@,
            total_slides: self.footer_context.total_slides,
        }
    }
}

/// What opens every slide: the default colors, a cleared screen, the margins,
/// and a line break.
pub open spec fn prelude(theme: PresentationTheme) -> Seq<RenderOperationView> {
    seq![
        RenderOperationView::SetColors(theme.default_style.colors),
        RenderOperationView::ClearScreen,
        RenderOperationView::ApplyMargin(
            MarginProperties {
                horizontal_margin: match theme.default_style.margin {
                    Some(margin) => margin,
                    None => Margin::Fixed(0),
                },
                bottom_slide_margin: DEFAULT_BOTTOM_SLIDE_MARGIN,
            },
        ),
        RenderOperationView::RenderLineBreak,
    ]
}

/// The runs of `text`, those that are inline code in the given colors.
pub open spec fn recolored(text: Seq<StyledTextView>, inline_code: Colors) -> Seq<StyledTextView> {
    text.map_values(
        |chunk: StyledTextView|
            if chunk.style.code {
                StyledTextView {
                    text: chunk.text,
                    style: TextStyle { colors: inline_code, ..chunk.style },
                }
            } else {
                chunk
            },
    )
}

/// The operations that draw `text`: one, or none for a text without runs.
pub open spec fn text_operations(
    text: Seq<StyledTextView>,
    inline_code: Colors,
    alignment: Alignment,
) -> Seq<RenderOperationView> {
    if text.len() == 0 {
        Seq::empty()
    } else {
        seq![
            RenderOperationView::RenderText {
                line: weighted_line(recolored(text, inline_code)),
                alignment,
            },
        ]
    }
}

/// `count` line breaks.
pub open spec fn line_breaks(count: nat) -> Seq<RenderOperationView> {
    Seq::new(count, |i: int| RenderOperationView::RenderLineBreak)
}

/// A plain rule across the window.
pub open spec fn plain_separator() -> RenderOperationView {
    RenderOperationView::RenderDynamic(DynamicOperationView::Separator { heading: Seq::empty() })
}

/// The style of the headings of the given level.
pub open spec fn heading_style(theme: PresentationTheme, level: u8) -> HeadingStyle {
    if level == 1 {
        theme.headings.h1
    } else if level == 2 {
        theme.headings.h2
    } else if level == 3 {
        theme.headings.h3
    } else if level == 4 {
        theme.headings.h4
    } else if level == 5 {
        theme.headings.h5
    } else {
        theme.headings.h6
    }
}

/// The kind of element that a heading of the given level is.
pub open spec fn heading_element(level: u8) -> ElementType {
    if level == 1 {
        ElementType::Heading1
    } else if level == 2 {
        ElementType::Heading2
    } else if level == 3 {
        ElementType::Heading3
    } else if level == 4 {
        ElementType::Heading4
    } else if level == 5 {
        ElementType::Heading5
    } else {
        ElementType::Heading6
    }
}

/// `text` after the prefix and a space, where there is a prefix.
pub open spec fn prefixed(prefix: Option<String>, text: Seq<StyledTextView>) -> Seq<
    StyledTextView,
> {
    match prefix {
        Some(prefix) => seq![
            StyledTextView { text: prefix@.push(' '), style: TextStyle::plain() },
        ] + text,
        None => text,
    }
}

/// The style of titles and headings: bold, in the given colors.
pub open spec fn title_style(colors: Colors) -> TextStyle {
    TextStyle { bold: true, colors, ..TextStyle::plain() }
}

/// The operations of a heading: its text after the theme's prefix, bold and
/// in the theme's colors, then a line break.
pub open spec fn heading_operations(
    theme: PresentationTheme,
    level: u8,
    text: Seq<StyledTextView>,
) -> Seq<RenderOperationView> {
    let style = heading_style(theme, level);
    text_operations(
        restyled(prefixed(style.prefix, text), title_style(style.colors)),
        theme.inline_code,
        theme.spec_alignment(heading_element(level)),
    ) + seq![RenderOperationView::RenderLineBreak]
}

/// The padding that a theme sets, none where it sets none.
pub open spec fn padding_rows(padding: Option<u8>) -> nat {
    match padding {
        Some(padding) => padding as nat,
        None => 0,
    }
}

/// The operations of a slide's title: the padding above it, the text in bold
/// and in the theme's colors, a line break, the padding below it, a rule
/// where the theme asks for one, and a line break.
pub open spec fn slide_title_operations(theme: PresentationTheme, text: Seq<StyledTextView>) -> Seq<
    RenderOperationView,
> {
    let style = theme.slide_title;
    line_breaks(padding_rows(style.padding_top)) + text_operations(
        restyled(text, title_style(style.colors)),
        theme.inline_code,
        theme.spec_alignment(ElementType::SlideTitle),
    ) + seq![RenderOperationView::RenderLineBreak] + line_breaks(
        padding_rows(style.padding_bottom),
    ) + (if style.separator {
        seq![plain_separator()]
    } else {
        Seq::empty()
    }) + seq![RenderOperationView::RenderLineBreak]
}

/// The operations of a paragraph: each of its texts, followed by a line
/// break. The line breaks that the paragraph holds add nothing.
pub open spec fn paragraph_operations(
    theme: PresentationTheme,
    elements: Seq<ParagraphElementView>,
) -> Seq<RenderOperationView>
    decreases elements.len(),
{
    if elements.len() == 0 {
        Seq::empty()
    } else {
        paragraph_operations(theme, elements.drop_last()) + (match elements.last() {
            ParagraphElementView::Text(text) => text_operations(
                text,
                theme.inline_code,
                theme.spec_alignment(ElementType::Paragraph),
            ) + seq![RenderOperationView::RenderLineBreak],
            ParagraphElementView::LineBreak => Seq::empty(),
        })
    }
}

/// The operations of a thematic break: a rule and a line break.
pub open spec fn separator_operations() -> Seq<RenderOperationView> {
    seq![plain_separator(), RenderOperationView::RenderLineBreak]
}

/// The operations of an image: the image, and the default colors again.
pub open spec fn image_operations(theme: PresentationTheme, image: Image) -> Seq<
    RenderOperationView,
> {
    seq![
        RenderOperationView::RenderImage(image),
        RenderOperationView::SetColors(theme.default_style.colors),
    ]
}

impl RenderOperationView {
    /// Whether the operation, if it is a line of code, names one of `count`
    /// contexts.
    pub open spec fn within(self, count: nat) -> bool {
        match self {
            RenderOperationView::RenderDynamic(DynamicOperationView::CodeLine(line)) => line.context
                < count,
            _ => true,
        }
    }
}

impl BuilderView {
    /// The contexts are well formed; the mutators and the lines of code of
    /// the chunk in progress name contexts of that chunk; the sealed chunks
    /// and slides are well formed.
    pub open spec fn wf(self) -> bool {
        &&& contexts_wf(self.contexts)
        &&& mutators_within(self.mutators, self.contexts.len())
        &&& code_lines_within(self.operations, self.contexts.len())
        &&& forall|i: int| 0 <= i < self.slide_chunks.len() ==> (#[trigger] self.slide_chunks[i]).wf()
        &&& forall|i: int| 0 <= i < self.slides.len() ==> (#[trigger] self.slides[i]).wf()
    }

    /// Whether a slide is in progress: something was added to it.
    pub open spec fn begun(self) -> bool {
        self.operations.len() > 0 || self.slide_chunks.len() > 0
    }

    /// The builder with `operations` added to the chunk in progress.
    pub open spec fn with(self, operations: Seq<RenderOperationView>) -> BuilderView {
        BuilderView { operations: self.operations + operations, ..self }
    }

    /// The builder with the element in hand followed by no line break.
    pub open spec fn without_line_break(self) -> BuilderView {
        BuilderView {
            state: SlideState { ignore_element_line_break: true, ..self.state },
            ..self
        }
    }
}

impl<'a> PresentationBuilder<'a> {
    /// What a builder holds that has built nothing yet.
    pub open spec fn new_view(
        highlighter: Seq<char>,
        theme: PresentationTheme,
        resources: Resources,
        allow_mutations: bool,
    ) -> BuilderView {
        BuilderView {
            slides: Seq::empty(),
            slide_chunks: Seq::empty(),
            operations: Seq::empty(),
            contexts: Seq::empty(),
            mutators: Seq::empty(),
            state: SlideState::fresh(),
            theme,
            highlighter,
            resources,
            allow_mutations,
            author: Seq::empty(),
            total_slides: 0,
        }
    }

    /// A builder that has built nothing yet.
    pub fn new(
        default_highlighter: CodeHighlighter,
        default_theme: &PresentationTheme,
        resources: &'a Resources,
        options: PresentationBuilderOptions,
    ) -> (builder: Self)
        ensures
            builder@ == Self::new_view(
                default_highlighter.theme(),
                *default_theme,
                *resources,
                options.allow_mutations,
            ),
            builder@.wf(),
    {
        let builder = PresentationBuilder {
            slide_chunks: Vec::new(),
            chunk_operations: Vec::new(),
            chunk_contexts: Vec::new(),
            chunk_mutators: Vec::new(),
            slides: Vec::new(),
            highlighter: default_highlighter,
            theme: default_theme.clone(),
            resources,
            slide_state: SlideState::default(),
            footer_context: FooterContext::default(),
            options,
        };
        assert(builder@.slides =~= Seq::empty());
        assert(builder@.slide_chunks =~= Seq::empty());
        assert(builder@.operations =~= Seq::empty());
        assert(builder@.contexts =~= Seq::empty());
        assert(builder@.mutators =~= Seq::empty());
        builder
    }

    /// Adds one operation to the chunk in progress.
    pub fn push(&mut self, operation: RenderOperation)
        ensures
            final(self)@ == old(self)@.with(seq![operation@]),
            old(self)@.wf() && operation@.within(old(self)@.contexts.len()) ==> final(self)@.wf(),
    {
        push_operation(&mut self.chunk_operations, operation);
        assert(self@.operations =~= old(self)@.operations + seq![operation@]);
        proof {
            if old(self)@.wf() && operation@.within(old(self)@.contexts.len()) {
                assert forall|i: int| 0 <= i < self@.operations.len() implies (
                #[trigger] self@.operations[i]).within(self@.contexts.len()) by {
                    if i < old(self)@.operations.len() {
                        assert(old(self)@.operations[i].within(self@.contexts.len()));
                    }
                }
            }
        }
    }

    /// Adds a line break.
    pub fn push_line_break(&mut self)
        ensures
            final(self)@ == old(self)@.with(seq![RenderOperationView::RenderLineBreak]),
            old(self)@.wf() ==> final(self)@.wf(),
    {
        self.push(RenderOperation::RenderLineBreak);
    }

    /// Adds `count` line breaks.
    pub fn push_line_breaks(&mut self, count: u8)
        ensures
            final(self)@ == old(self)@.with(line_breaks(count as nat)),
            old(self)@.wf() ==> final(self)@.wf(),
    {
        let mut i: u8 = 0;
        assert(old(self)@.operations + line_breaks(0) =~= old(self)@.operations);
        while i < count
            invariant
                old(self)@.wf() ==> self@.wf(),
                i <= count,
                self@ == old(self)@.with(line_breaks(i as nat)),
            decreases count - i,
        {
            self.push_line_break();
            i += 1;
            assert(self@.operations =~= old(self)@.operations + line_breaks(i as nat));
        }
    }

    /// Adds what opens a slide.
    pub fn push_slide_prelude(&mut self)
        ensures
            final(self)@ == old(self)@.with(prelude(old(self)@.theme)),
            old(self)@.wf() ==> final(self)@.wf(),
    {
        let colors = self.theme.default_style.colors;
        let horizontal_margin = match self.theme.default_style.margin {
            Some(margin) => margin,
            None => Margin::Fixed(0),
        };
        self.push(RenderOperation::SetColors(colors));
        self.push(RenderOperation::ClearScreen);
        self.push(
            RenderOperation::ApplyMargin(
                MarginProperties {
                    horizontal_margin,
                    bottom_slide_margin: DEFAULT_BOTTOM_SLIDE_MARGIN,
                },
            ),
        );
        self.push_line_break();
        assert(self@.operations =~= old(self)@.operations + prelude(old(self)@.theme));
    }

    /// Adds `text` with the given alignment. A text without runs adds
    /// nothing.
    pub fn push_aligned_text(&mut self, text: Text, alignment: Alignment)
        ensures
            final(self)@ == old(self)@.with(
                text_operations(text@, old(self)@.theme.inline_code, alignment),
            ),
            old(self)@.wf() ==> final(self)@.wf(),
    {
        let ghost given = text@;
        let ghost expected = weighted_line(recolored(given, self.theme.inline_code));
        let inline_code = self.theme.inline_code;
        let mut texts: Vec<WeightedText> = Vec::new();
        for chunk in iter: text.chunks
            invariant
                iter.seq().map_values(|chunk: StyledText| chunk@) == given,
                expected == weighted_line(recolored(given, inline_code)),
                texts@.map_values(|text: WeightedText| text@) == expected.take(iter.index()),
        {
            let ghost done = texts@.map_values(|text: WeightedText| text@);
            let mut chunk = chunk;
            if chunk.style.is_code() {
                chunk.style.colors = inline_code;
            }
            let weighed = WeightedText::from(chunk);
            assert(weighed@ == expected[iter.index()]);
            texts.push(weighed);
            assert(texts@.map_values(|text: WeightedText| text@) =~= done.push(weighed@));
            assert(expected.take(iter.index() + 1) =~= expected.take(iter.index()).push(
                expected[iter.index()],
            ));
        }
        assert(expected.take(expected.len() as int) =~= expected);
        if texts.len() > 0 {
            let line = WeightedLine { texts };
            assert(line@ =~= expected);
            self.push(RenderOperation::RenderText { line, alignment });
        } else {
            assert(self@.operations =~= old(self)@.operations + Seq::empty());
        }
    }

    /// Adds `text` with the alignment that the theme gives the kind of
    /// element.
    pub fn push_text(&mut self, text: Text, element_type: ElementType)
        ensures
            final(self)@ == old(self)@.with(
                text_operations(
                    text@,
                    old(self)@.theme.inline_code,
                    old(self)@.theme.spec_alignment(element_type),
                ),
            ),
            old(self)@.wf() ==> final(self)@.wf(),
    {
        let alignment = self.theme.alignment(&element_type);
        self.push_aligned_text(text, alignment);
    }

    /// Adds a heading of the given level.
    pub fn push_heading(&mut self, level: u8, text: Text)
        requires
            1 <= level <= 6,
        ensures
            final(self)@ == old(self)@.with(heading_operations(old(self)@.theme, level, text@)),
            old(self)@.wf() ==> final(self)@.wf(),
    {
        let mut text = text;
        let ghost given = text@;
        let (element_type, prefix, colors) = if level == 1 {
            (ElementType::Heading1, &self.theme.headings.h1.prefix, self.theme.headings.h1.colors)
        } else if level == 2 {
            (ElementType::Heading2, &self.theme.headings.h2.prefix, self.theme.headings.h2.colors)
        } else if level == 3 {
            (ElementType::Heading3, &self.theme.headings.h3.prefix, self.theme.headings.h3.colors)
        } else if level == 4 {
            (ElementType::Heading4, &self.theme.headings.h4.prefix, self.theme.headings.h4.colors)
        } else if level == 5 {
            (ElementType::Heading5, &self.theme.headings.h5.prefix, self.theme.headings.h5.colors)
        } else {
            (ElementType::Heading6, &self.theme.headings.h6.prefix, self.theme.headings.h6.colors)
        };
        if let Some(prefix) = prefix {
            let mut prefix = prefix.clone();
            prefix.push(' ');
            text.chunks.insert(0, StyledText::plain(prefix));
            assert(text@ =~= prefixed(heading_style(self.theme, level).prefix, given));
        }
        let text_style = TextStyle::default().bold().colors(colors);
        text.apply_style(&text_style);
        self.push_text(text, element_type);
        self.push_line_break();
        assert(self@.operations =~= old(self)@.operations + heading_operations(
            old(self)@.theme,
            level,
            given,
        ));
    }

    /// Adds the title of a slide. No line break follows the element.
    pub fn push_slide_title(&mut self, text: Text)
        ensures
            final(self)@ == old(self)@.with(
                slide_title_operations(old(self)@.theme, text@),
            ).without_line_break(),
            old(self)@.wf() ==> final(self)@.wf(),
    {
        let mut text = text;
        let ghost given = text@;
        let style = self.theme.slide_title;
        text.apply_style(&TextStyle::default().bold().colors(style.colors));
        let padding_top: u8 = match style.padding_top {
            Some(padding) => padding,
            None => 0,
        };
        let padding_bottom: u8 = match style.padding_bottom {
            Some(padding) => padding,
            None => 0,
        };
        self.push_line_breaks(padding_top);
        self.push_text(text, ElementType::SlideTitle);
        self.push_line_break();
        self.push_line_breaks(padding_bottom);
        if style.separator {
            self.push(
                RenderOperation::RenderDynamic(
                    DynamicOperation::Separator(RenderSeparator::new(String::new())),
                ),
            );
        }
        self.push_line_break();
        self.slide_state.ignore_element_line_break = true;
        assert(self@.operations =~= old(self)@.operations + slide_title_operations(
            old(self)@.theme,
            given,
        ));
    }

    /// Adds a paragraph.
    pub fn push_paragraph(&mut self, elements: Vec<ParagraphElement>) -> (result: Result<
        (),
        BuildError,
    >)
        ensures
            result is Ok,
            final(self)@ == old(self)@.with(
                paragraph_operations(
                    old(self)@.theme,
                    elements@.map_values(|element: ParagraphElement| element@),
                ),
            ),
            old(self)@.wf() ==> final(self)@.wf(),
    {
        let ghost all = elements@.map_values(|element: ParagraphElement| element@);
        let ghost theme = self.theme;
        assert(all.take(0) =~= Seq::empty());
        assert(old(self)@.operations + paragraph_operations(theme, all.take(0)) =~= old(
            self,
        )@.operations);
        for element in iter: elements
            invariant
                old(self)@.wf() ==> self@.wf(),
                iter.seq().map_values(|element: ParagraphElement| element@) == all,
                theme == old(self)@.theme,
                self@ == old(self)@.with(paragraph_operations(theme, all.take(iter.index()))),
        {
            let ghost before = self@.operations;
            let ghost view = element@;
            assert(all.take(iter.index() + 1).drop_last() =~= all.take(iter.index()));
            assert(all.take(iter.index() + 1).last() == view);
            match element {
                ParagraphElement::Text(text) => {
                    self.push_text(text, ElementType::Paragraph);
                    self.push_line_break();
                },
                ParagraphElement::LineBreak => {},
            }
            assert(self@.operations =~= old(self)@.operations + paragraph_operations(
                theme,
                all.take(iter.index() + 1),
            ));
        }
        assert(all.take(all.len() as int) =~= all);
        Ok(())
    }

    /// Adds a thematic break.
    pub fn push_separator(&mut self)
        ensures
            final(self)@ == old(self)@.with(separator_operations()),
            old(self)@.wf() ==> final(self)@.wf(),
    {
        self.push(
            RenderOperation::RenderDynamic(
                DynamicOperation::Separator(RenderSeparator::new(String::new())),
            ),
        );
        self.push_line_break();
        assert(self@.operations =~= old(self)@.operations + separator_operations());
    }

    /// Adds the image that was loaded from `path`, or fails where none was.
    pub fn push_image(&mut self, path: String) -> (result: Result<(), BuildError>)
        ensures
            match old(self)@.resources.spec_image(path@) {
                Ok(image) => result is Ok && final(self)@ == old(self)@.with(
                    image_operations(old(self)@.theme, image),
                ),
                Err(message) => result is Err && result->Err_0@ == BuildErrorView::LoadImage(
                    message,
                ) && final(self)@ == old(self)@,
            },
            old(self)@.wf() ==> final(self)@.wf(),
    {
        let image = match self.resources.image(path.as_str()) {
            Ok(image) => image,
            Err(error) => {
                return Err(BuildError::LoadImage(error));
            },
        };
        self.push(RenderOperation::RenderImage(image));
        self.push(RenderOperation::SetColors(self.theme.default_style.colors));
        assert(self@.operations =~= old(self)@.operations + image_operations(
            old(self)@.theme,
            image,
        ));
        Ok(())
    }
}

} // verus!
