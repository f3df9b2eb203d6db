//! The content elements that a parsed document is made of.

use crate::style::TextStyle;
use crate::text::{display_width, measure};
use vstd::prelude::*;

verus! {

/// A run of text in one style.
#[derive(Clone, Debug)]
pub struct StyledText {
    pub text: String,
    pub style: TextStyle,
}

/// What a [`StyledText`] holds.
pub struct StyledTextView {
    pub text: Seq<char>,
    pub style: TextStyle,
}

impl View for StyledText {
    type V = StyledTextView;

    open spec fn view(&self) -> StyledTextView {
        StyledTextView { text: self.text@, style: self.style }
    }
}

impl StyledText {
    /// A run of `text` in `style`.
    pub fn new(text: String, style: TextStyle) -> (out: Self)
        ensures
            out@ == (StyledTextView { text: text@, style }),
    {
        StyledText { text, style }
    }

    /// A run of `text` in the plain style.
    pub fn plain(text: String) -> (out: Self)
        ensures
            out@ == (StyledTextView { text: text@, style: TextStyle::plain() }),
    {
        StyledText { text, style: TextStyle::default() }
    }

    /// A run of `text` in the plain style.
    pub fn from(text: &str) -> (out: Self)
        ensures
            out@ == (StyledTextView { text: text@, style: TextStyle::plain() }),
    {
        StyledText { text: text.to_owned(), style: TextStyle::default() }
    }

    /// The number of columns that the run takes up.
    pub fn width(&self) -> (width: usize)
        ensures
            width == display_width(self@.text),
    {
        measure(self.text.as_str())
    }
}

/// The largest `usize` where `n` exceeds it, else `n`.
pub open spec fn clamped(n: nat) -> usize {
    if n > usize::MAX {
        usize::MAX
    } else {
        n as usize
    }
}

/// The columns that a sequence of runs takes up: the sum of their widths.
pub open spec fn total_width(chunks: Seq<StyledTextView>) -> nat
    decreases chunks.len(),
{
    if chunks.len() == 0 {
        0
    } else {
        total_width(chunks.drop_last()) + display_width(chunks.last().text)
    }
}

/// Every run of `chunks` with `style` added to its own.
pub open spec fn restyled(chunks: Seq<StyledTextView>, style: TextStyle) -> Seq<StyledTextView> {
    chunks.map_values(
        |chunk: StyledTextView| StyledTextView { text: chunk.text, style: chunk.style.with(style) },
    )
}

/// A line of text: runs that follow one another.
#[derive(Clone, Debug)]
pub struct Text {
    pub chunks: Vec<StyledText>,
}

impl View for Text {
    type V = Seq<StyledTextView>;

    open spec fn view(&self) -> Seq<StyledTextView> {
        self.chunks@.map_values(|chunk: StyledText| chunk@)
    }
}

impl Text {
    /// A line made of one plain run.
    pub fn from(text: &str) -> (out: Self)
        ensures
            out@ == seq![StyledTextView { text: text@, style: TextStyle::plain() }],
    {
        let mut chunks: Vec<StyledText> = Vec::new();
        chunks.push(StyledText::from(text));
        let out = Text { chunks };
        assert(out@ =~= seq![StyledTextView { text: text@, style: TextStyle::plain() }]);
        out
    }

    /// A line made of one run.
    pub fn single(chunk: StyledText) -> (out: Self)
        ensures
            out@ == seq![chunk@],
    {
        let mut chunks: Vec<StyledText> = Vec::new();
        chunks.push(chunk);
        let out = Text { chunks };
        assert(out@ =~= seq![chunk@]);
        out
    }

    /// The number of columns that the line takes up, saturating at the largest
    /// `usize`.
    pub fn width(&self) -> (width: usize)
        ensures
            width == clamped(total_width(self@)),
    {
        let mut width: usize = 0;
        let mut i: usize = 0;
        while i < self.chunks.len()
            invariant
                i <= self.chunks.len(),
                width == clamped(total_width(self@.take(i as int))),
            decreases self.chunks.len() - i,
        {
            let chunk_width = self.chunks[i].width();
            width = width.saturating_add(chunk_width);
            i += 1;
            assert(self@.take(i as int).drop_last() =~= self@.take(i - 1));
        }
        assert(self@.take(i as int) =~= self@);
        width
    }

    /// Adds the flags and colors of `style` to every run.
    pub fn apply_style(&mut self, style: &TextStyle)
        ensures
            final(self)@ == restyled(old(self)@, *style),
    {
        let mut i: usize = 0;
        while i < self.chunks.len()
            invariant
                i <= self.chunks.len(),
                self.chunks.len() == old(self).chunks.len(),
                forall|k: int|
                    0 <= k < i ==> #[trigger] self.chunks@[k]@ == (StyledTextView {
                        text: old(self).chunks@[k]@.text,
                        style: old(self).chunks@[k]@.style.with(*style),
                    }),
                forall|k: int| i <= k < self.chunks.len() ==> self.chunks@[k] == old(self).chunks@[k],
            decreases self.chunks.len() - i,
        {
            let mut merged = self.chunks[i].style;
            merged.merge(style);
            self.chunks[i].style = merged;
            i += 1;
        }
        assert(self@ =~= restyled(old(self)@, *style));
    }
}

/// How a list item is marked.
#[derive(Clone, Copy, Debug, PartialEq, Eq)]
pub enum ListItemType {
    /// With a bullet.
    Unordered,
    /// With its number and a closing parenthesis.
    OrderedParens,
    /// With its number and a period.
    OrderedPeriod,
}

/// One item of a list, at some depth of nesting.
#[derive(Clone, Debug)]
pub struct ListItem {
    pub depth: u8,
    pub contents: Text,
    pub item_type: ListItemType,
}

/// What a [`ListItem`] holds.
pub struct ListItemView {
    pub depth: u8,
    pub contents: Seq<StyledTextView>,
    pub item_type: ListItemType,
}

impl View for ListItem {
    type V = ListItemView;

    open spec fn view(&self) -> ListItemView {
        ListItemView { depth: self.depth, contents: self.contents@, item_type: self.item_type }
    }
}

/// A part of a paragraph.
#[derive(Clone, Debug)]
pub enum ParagraphElement {
    Text(Text),
    LineBreak,
}

/// What a [`ParagraphElement`] holds.
pub enum ParagraphElementView {
    Text(Seq<StyledTextView>),
    LineBreak,
}

impl View for ParagraphElement {
    type V = ParagraphElementView;

    open spec fn view(&self) -> ParagraphElementView {
        match self {
            ParagraphElement::Text(text) => ParagraphElementView::Text(text@),
            ParagraphElement::LineBreak => ParagraphElementView::LineBreak,
        }
    }
}

/// The language of a code block.
#[derive(Clone, Copy, Debug, PartialEq, Eq)]
pub enum CodeLanguage {
    Bash,
    C,
    Cpp,
    Css,
    Go,
    Haskell,
    Html,
    Java,
    JavaScript,
    Json,
    Lua,
    Makefile,
    Markdown,
    Perl,
    Php,
    Python,
    R,
    Ruby,
    Rust,
    Scala,
    Sql,
    Xml,
    Yaml,
    Unknown,
}

/// Lines of a code block that are highlighted together.
#[derive(Clone, Copy, Debug, PartialEq, Eq)]
pub enum Highlight {
    /// Every line.
    All,
    /// The line with this number.
    Single(u16),
    /// The lines from `start` up to, not including, `end`.
    Range { start: u16, end: u16 },
}

impl Highlight {
    /// Whether the line with the given number is highlighted.
    pub open spec fn covers(self, line_number: u16) -> bool {
        match self {
            Highlight::All => true,
            Highlight::Single(number) => number == line_number,
            Highlight::Range { start, end } => start <= line_number < end,
        }
    }
}

/// One step of a progressive reveal: the lines that it highlights.
#[derive(Clone, Debug)]
pub struct HighlightGroup {
    pub highlights: Vec<Highlight>,
}

impl View for HighlightGroup {
    type V = Seq<Highlight>;

    open spec fn view(&self) -> Seq<Highlight> {
        self.highlights@
    }
}

/// Whether one of `highlights` covers the line with the given number.
pub open spec fn group_covers(highlights: Seq<Highlight>, line_number: u16) -> bool {
    exists|i: int| 0 <= i < highlights.len() && (#[trigger] highlights[i]).covers(line_number)
}

impl HighlightGroup {
    /// The group of the given highlights.
    pub fn new(highlights: Vec<Highlight>) -> (group: Self)
        ensures
            group@ == highlights@,
    {
        HighlightGroup { highlights }
    }

    /// Whether the group highlights the line with the given number.
    pub fn contains(&self, line_number: u16) -> (found: bool)
        ensures
            found == group_covers(self@, line_number),
    {
        let mut i: usize = 0;
        while i < self.highlights.len()
            invariant
                i <= self.highlights.len(),
                forall|k: int| 0 <= k < i ==> !(#[trigger] self@[k]).covers(line_number),
            decreases self.highlights.len() - i,
        {
            let covered = match self.highlights[i] {
                Highlight::All => true,
                Highlight::Single(number) => number == line_number,
                Highlight::Range { start, end } => start <= line_number && line_number < end,
            };
            if covered {
                return true;
            }
            i += 1;
        }
        false
    }
}

/// The views of a sequence of highlight groups.
pub open spec fn groups_view(groups: Seq<HighlightGroup>) -> Seq<Seq<Highlight>> {
    groups.map_values(|group: HighlightGroup| group@)
}

/// What a code block's opening line asks for.
#[derive(Clone, Debug)]
pub struct CodeAttributes {
    /// Whether the block can be run.
    pub execute: bool,
    /// Whether its lines are numbered.
    pub line_numbers: bool,
    /// The steps in which its lines are highlighted.
    pub highlight_groups: Vec<HighlightGroup>,
}

/// What a [`CodeAttributes`] holds.
pub struct CodeAttributesView {
    pub execute: bool,
    pub line_numbers: bool,
    pub highlight_groups: Seq<Seq<Highlight>>,
}

impl View for CodeAttributes {
    type V = CodeAttributesView;

    open spec fn view(&self) -> CodeAttributesView {
        CodeAttributesView {
            execute: self.execute,
            line_numbers: self.line_numbers,
            highlight_groups: groups_view(self.highlight_groups@),
        }
    }
}

impl Default for CodeAttributes {
    fn default() -> (attributes: Self)
        ensures
            attributes@ == (CodeAttributesView {
                execute: false,
                line_numbers: false,
                highlight_groups: Seq::empty(),
            }),
    {
        let attributes = CodeAttributes {
            execute: false,
            line_numbers: false,
            highlight_groups: Vec::new(),
        };
        assert(attributes@.highlight_groups =~= Seq::empty());
        attributes
    }
}

/// A block of code.
#[derive(Clone, Debug)]
pub struct Code {
    pub contents: String,
    pub language: CodeLanguage,
    pub attributes: CodeAttributes,
}

/// What a [`Code`] holds.
pub struct CodeView {
    pub contents: Seq<char>,
    pub language: CodeLanguage,
    pub attributes: CodeAttributesView,
}

impl View for Code {
    type V = CodeView;

    open spec fn view(&self) -> CodeView {
        CodeView {
            contents: self.contents@,
            language: self.language,
            attributes: self.attributes@,
        }
    }
}

/// One row of a table: its cells.
#[derive(Clone, Debug)]
pub struct TableRow(pub Vec<Text>);

impl View for TableRow {
    type V = Seq<Seq<StyledTextView>>;

    open spec fn view(&self) -> Seq<Seq<StyledTextView>> {
        self.0@.map_values(|cell: Text| cell@)
    }
}

/// A table: a header and the rows below it.
#[derive(Clone, Debug)]
pub struct Table {
    pub header: TableRow,
    pub rows: Vec<TableRow>,
}

/// What a [`Table`] holds.
pub struct TableView {
    pub header: Seq<Seq<StyledTextView>>,
    pub rows: Seq<Seq<Seq<StyledTextView>>>,
}

impl View for Table {
    type V = TableView;

    open spec fn view(&self) -> TableView {
        TableView { header: self.header@, rows: self.rows@.map_values(|row: TableRow| row@) }
    }
}

impl TableView {
    /// Every row has as many cells as the header.
    pub open spec fn wf(self) -> bool {
        forall|i: int| 0 <= i < self.rows.len() ==> (#[trigger] self.rows[i]).len() == self.header.len()
    }
}

impl Table {
    /// Whether every row has as many cells as the header.
    pub fn is_well_formed(&self) -> (valid: bool)
        ensures
            valid == self@.wf(),
    {
        let columns = self.header.0.len();
        let mut i: usize = 0;
        while i < self.rows.len()
            invariant
                i <= self.rows.len(),
                columns == self@.header.len(),
                forall|k: int| 0 <= k < i ==> (#[trigger] self@.rows[k]).len() == columns,
            decreases self.rows.len() - i,
        {
            assert(self@.rows[i as int] == self.rows@[i as int]@);
            if self.rows[i].0.len() != columns {
                return false;
            }
            i += 1;
        }
        true
    }

    /// The number of columns: that of the header's cells.
    pub fn columns(&self) -> (columns: usize)
        ensures
            columns == self@.header.len(),
    {
        self.header.0.len()
    }
}

/// A place in the source text; lines and columns count from zero.
#[derive(Clone, Copy, Debug, PartialEq, Eq)]
pub struct LineColumn {
    pub line: usize,
    pub column: usize,
}

/// Where an element starts in the source text.
#[derive(Clone, Copy, Debug, PartialEq, Eq)]
pub struct SourcePosition {
    pub start: LineColumn,
}

impl Default for SourcePosition {
    fn default() -> (position: Self)
        ensures
            position == (SourcePosition { start: LineColumn { line: 0, column: 0 } }),
    {
        SourcePosition { start: LineColumn { line: 0, column: 0 } }
    }
}

/// One block-level element of a document.
#[derive(Clone, Debug)]
pub enum MarkdownElement {
    /// The metadata block that may open a document.
    FrontMatter(String),
    /// A heading underlined in the source: the title of a slide.
    SetexHeading { text: Text },
    /// A heading of level 1 to 6.
    Heading { level: u8, text: Text },
    Paragraph(Vec<ParagraphElement>),
    List(Vec<ListItem>),
    Code(Code),
    Table(Table),
    ThematicBreak,
    /// A comment, which may hold a command.
    Comment { comment: String, source_position: SourcePosition },
    BlockQuote(Vec<String>),
    Image { path: String },
}

/// What a [`MarkdownElement`] holds.
pub enum MarkdownElementView {
    FrontMatter(Seq<char>),
    SetexHeading { text: Seq<StyledTextView> },
    Heading { level: u8, text: Seq<StyledTextView> },
    Paragraph(Seq<ParagraphElementView>),
    List(Seq<ListItemView>),
    Code(CodeView),
    Table(TableView),
    ThematicBreak,
    Comment { comment: Seq<char>, source_position: SourcePosition },
    BlockQuote(Seq<Seq<char>>),
    Image { path: Seq<char> },
}

impl View for MarkdownElement {
    type V = MarkdownElementView;

    open spec fn view(&self) -> MarkdownElementView {
        match self {
            MarkdownElement::FrontMatter(contents) => MarkdownElementView::FrontMatter(contents@),
            MarkdownElement::SetexHeading { text } => MarkdownElementView::SetexHeading {
                text: text@,
            },
            MarkdownElement::Heading { level, text } => MarkdownElementView::Heading {
                level: *level,
                text: text@,
            },
            MarkdownElement::Paragraph(elements) => MarkdownElementView::Paragraph(
                elements@.map_values(|element: ParagraphElement| element@),
            ),
            MarkdownElement::List(items) => MarkdownElementView::List(
                items@.map_values(|item: ListItem| item@),
            ),
            MarkdownElement::Code(code) => MarkdownElementView::Code(code@),
            MarkdownElement::Table(table) => MarkdownElementView::Table(table@),
            MarkdownElement::ThematicBreak => MarkdownElementView::ThematicBreak,
            MarkdownElement::Comment { comment, source_position } => MarkdownElementView::Comment {
                comment: comment@,
                source_position: *source_position,
            },
            MarkdownElement::BlockQuote(lines) => MarkdownElementView::BlockQuote(
                crate::text::views_of(lines@),
            ),
            MarkdownElement::Image { path } => MarkdownElementView::Image { path: path@ },
        }
    }
}

impl MarkdownElementView {
    /// What the builder asks of an element: a heading's level is 1 to 6, and
    /// a table's rows are as long as its header.
    pub open spec fn wf(self) -> bool {
        match self {
            MarkdownElementView::Heading { level, text } => 1 <= level <= 6,
            MarkdownElementView::Table(table) => table.wf(),
            _ => true,
        }
    }
}

impl MarkdownElement {
    /// Whether the element is one that the builder takes.
    pub fn is_well_formed(&self) -> (valid: bool)
        ensures
            valid == self@.wf(),
    {
        match self {
            MarkdownElement::Heading { level, .. } => 1 <= *level && *level <= 6,
            MarkdownElement::Table(table) => table.is_well_formed(),
            _ => true,
        }
    }
}

} // verus!
