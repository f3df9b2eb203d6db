//! The theme: how each kind of element is aligned, colored and padded.

use crate::style::Colors;
use vstd::prelude::*;

verus! {

/// A horizontal margin.
#[derive(Clone, Copy, Debug, PartialEq, Eq)]
pub enum Margin {
    /// A number of columns.
    Fixed(u16),
    /// A percentage of the width.
    Percent(u16),
}

/// Where an element stands on its row.
#[derive(Clone, Copy, Debug, PartialEq, Eq)]
pub enum Alignment {
    Left { margin: Margin },
    Right { margin: Margin },
    Center { minimum_margin: Margin, minimum_size: u16 },
}

impl Alignment {
    /// Left-aligned, with no margin.
    pub open spec fn start() -> Alignment {
        Alignment::Left { margin: Margin::Fixed(0) }
    }

    /// The alignment that `choice` names, left-aligned without margin where it
    /// names none.
    pub open spec fn or_start(choice: Option<Alignment>) -> Alignment {
        match choice {
            Some(alignment) => alignment,
            None => Alignment::start(),
        }
    }
}

impl Default for Alignment {
    fn default() -> (alignment: Self)
        ensures
            alignment == Alignment::start(),
    {
        Alignment::Left { margin: Margin::Fixed(0) }
    }
}

/// The kinds of element that a theme aligns.
#[derive(Clone, Copy, Debug, PartialEq, Eq)]
pub enum ElementType {
    SlideTitle,
    Heading1,
    Heading2,
    Heading3,
    Heading4,
    Heading5,
    Heading6,
    Paragraph,
    List,
    Code,
    PresentationTitle,
    PresentationSubTitle,
    PresentationAuthor,
    Table,
    BlockQuote,
}

/// Where the author's name stands on the introductory slide.
#[derive(Clone, Copy, Debug, PartialEq, Eq)]
pub enum AuthorPositioning {
    BelowTitle,
    PageBottom,
}

/// The style of the title that opens a slide.
#[derive(Clone, Copy, Debug)]
pub struct SlideTitleStyle {
    pub alignment: Option<Alignment>,
    pub separator: bool,
    pub padding_top: Option<u8>,
    pub padding_bottom: Option<u8>,
    pub colors: Colors,
}

/// The style of one heading level.
#[derive(Debug)]
pub struct HeadingStyle {
    pub alignment: Option<Alignment>,
    pub prefix: Option<String>,
    pub colors: Colors,
}

/// The styles of the six heading levels.
#[derive(Debug)]
pub struct HeadingStyles {
    pub h1: HeadingStyle,
    pub h2: HeadingStyle,
    pub h3: HeadingStyle,
    pub h4: HeadingStyle,
    pub h5: HeadingStyle,
    pub h6: HeadingStyle,
}

/// Padding around a code block.
#[derive(Clone, Copy, Debug)]
pub struct PaddingRect {
    pub horizontal: Option<u8>,
    pub vertical: Option<u8>,
}

/// The style of code blocks.
#[derive(Debug)]
pub struct CodeBlockStyle {
    pub alignment: Option<Alignment>,
    pub padding: PaddingRect,
    pub theme_name: Option<String>,
}

/// The style of block quotes.
#[derive(Debug)]
pub struct BlockQuoteStyle {
    pub alignment: Option<Alignment>,
    pub prefix: Option<String>,
    pub colors: Colors,
}

/// The style that applies where nothing else does.
#[derive(Clone, Copy, Debug)]
pub struct DefaultStyle {
    pub margin: Option<Margin>,
    pub colors: Colors,
}

/// The style of one line of the introductory slide.
#[derive(Clone, Copy, Debug)]
pub struct IntroLineStyle {
    pub alignment: Option<Alignment>,
    pub colors: Colors,
}

/// The style of the author's name on the introductory slide.
#[derive(Clone, Copy, Debug)]
pub struct AuthorStyle {
    pub alignment: Option<Alignment>,
    pub colors: Colors,
    pub positioning: AuthorPositioning,
}

/// The style of the introductory slide.
#[derive(Clone, Copy, Debug)]
pub struct IntroSlideStyle {
    pub title: IntroLineStyle,
    pub subtitle: IntroLineStyle,
    pub author: AuthorStyle,
}

/// What stands at the bottom of every slide.
#[derive(Debug)]
pub enum FooterStyle {
    /// Up to three texts, in which placeholders are filled in.
    Template { left: Option<String>, center: Option<String>, right: Option<String>, colors: Colors },
    /// A bar that grows with the slide's number.
    ProgressBar { character: Option<char>, colors: Colors },
    /// Nothing.
    Empty,
}

/// A presentation's theme.
#[derive(Debug)]
pub struct PresentationTheme {
    pub slide_title: SlideTitleStyle,
    pub code: CodeBlockStyle,
    pub execution_output: Colors,
    pub inline_code: Colors,
    pub table: Option<Alignment>,
    pub block_quote: BlockQuoteStyle,
    pub default_style: DefaultStyle,
    pub headings: HeadingStyles,
    pub intro_slide: IntroSlideStyle,
    pub footer: FooterStyle,
}

/// Copies an optional string.
pub fn clone_optional(text: &Option<String>) -> (out: Option<String>)
    ensures
        out == *text,
{
    match text {
        Some(text) => Some(text.clone()),
        None => None,
    }
}

impl Clone for HeadingStyle {
    fn clone(&self) -> (out: Self)
        ensures
            out == *self,
    {
        HeadingStyle {
            alignment: self.alignment,
            prefix: clone_optional(&self.prefix),
            colors: self.colors,
        }
    }
}

impl Clone for HeadingStyles {
    fn clone(&self) -> (out: Self)
        ensures
            out == *self,
    {
        HeadingStyles {
            h1: self.h1.clone(),
            h2: self.h2.clone(),
            h3: self.h3.clone(),
            h4: self.h4.clone(),
            h5: self.h5.clone(),
            h6: self.h6.clone(),
        }
    }
}

impl Clone for CodeBlockStyle {
    fn clone(&self) -> (out: Self)
        ensures
            out == *self,
    {
        CodeBlockStyle {
            alignment: self.alignment,
            padding: self.padding,
            theme_name: clone_optional(&self.theme_name),
        }
    }
}

impl Clone for BlockQuoteStyle {
    fn clone(&self) -> (out: Self)
        ensures
            out == *self,
    {
        BlockQuoteStyle {
            alignment: self.alignment,
            prefix: clone_optional(&self.prefix),
            colors: self.colors,
        }
    }
}

impl Clone for FooterStyle {
    fn clone(&self) -> (out: Self)
        ensures
            out == *self,
    {
        match self {
            FooterStyle::Template { left, center, right, colors } => FooterStyle::Template {
                left: clone_optional(left),
                center: clone_optional(center),
                right: clone_optional(right),
                colors: *colors,
            },
            FooterStyle::ProgressBar { character, colors } => FooterStyle::ProgressBar {
                character: *character,
                colors: *colors,
            },
            FooterStyle::Empty => FooterStyle::Empty,
        }
    }
}

impl Clone for PresentationTheme {
    fn clone(&self) -> (out: Self)
        ensures
            out == *self,
    {
        PresentationTheme {
            slide_title: self.slide_title,
            code: self.code.clone(),
            execution_output: self.execution_output,
            inline_code: self.inline_code,
            table: self.table,
            block_quote: self.block_quote.clone(),
            default_style: self.default_style,
            headings: self.headings.clone(),
            intro_slide: self.intro_slide,
            footer: self.footer.clone(),
        }
    }
}

impl HeadingStyle {
    /// A heading style that sets nothing.
    pub open spec fn unset() -> HeadingStyle {
        HeadingStyle { alignment: None, prefix: None, colors: Colors::unset() }
    }
}

impl PresentationTheme {
    /// The theme that sets nothing: no colors, no padding, no prefixes, an
    /// empty footer, and the author below the title.
    pub open spec fn unset() -> PresentationTheme {
        PresentationTheme {
            slide_title: SlideTitleStyle {
                alignment: None,
                separator: false,
                padding_top: None,
                padding_bottom: None,
                colors: Colors::unset(),
            },
            code: CodeBlockStyle {
                alignment: None,
                padding: PaddingRect { horizontal: None, vertical: None },
                theme_name: None,
            },
            execution_output: Colors::unset(),
            inline_code: Colors::unset(),
            table: None,
            block_quote: BlockQuoteStyle { alignment: None, prefix: None, colors: Colors::unset() },
            default_style: DefaultStyle { margin: None, colors: Colors::unset() },
            headings: HeadingStyles {
                h1: HeadingStyle::unset(),
                h2: HeadingStyle::unset(),
                h3: HeadingStyle::unset(),
                h4: HeadingStyle::unset(),
                h5: HeadingStyle::unset(),
                h6: HeadingStyle::unset(),
            },
            intro_slide: IntroSlideStyle {
                title: IntroLineStyle { alignment: None, colors: Colors::unset() },
                subtitle: IntroLineStyle { alignment: None, colors: Colors::unset() },
                author: AuthorStyle {
                    alignment: None,
                    colors: Colors::unset(),
                    positioning: AuthorPositioning::BelowTitle,
                },
            },
            footer: FooterStyle::Empty,
        }
    }

    /// The alignment that the theme chooses for an element of the given kind:
    /// none for paragraphs and lists.
    pub open spec fn chosen_alignment(&self, element: ElementType) -> Option<Alignment> {
        match element {
            ElementType::SlideTitle => self.slide_title.alignment,
            ElementType::Heading1 => self.headings.h1.alignment,
            ElementType::Heading2 => self.headings.h2.alignment,
            ElementType::Heading3 => self.headings.h3.alignment,
            ElementType::Heading4 => self.headings.h4.alignment,
            ElementType::Heading5 => self.headings.h5.alignment,
            ElementType::Heading6 => self.headings.h6.alignment,
            ElementType::Paragraph => None,
            ElementType::List => None,
            ElementType::Code => self.code.alignment,
            ElementType::PresentationTitle => self.intro_slide.title.alignment,
            ElementType::PresentationSubTitle => self.intro_slide.subtitle.alignment,
            ElementType::PresentationAuthor => self.intro_slide.author.alignment,
            ElementType::Table => self.table,
            ElementType::BlockQuote => self.block_quote.alignment,
        }
    }

    /// The alignment of an element of the given kind: the theme's choice, or
    /// left-aligned without margin.
    pub open spec fn spec_alignment(&self, element: ElementType) -> Alignment {
        Alignment::or_start(self.chosen_alignment(element))
    }

    /// The alignment of an element of the given kind.
    pub fn alignment(&self, element: &ElementType) -> (alignment: Alignment)
        ensures
            alignment == self.spec_alignment(*element),
    {
        let chosen = match element {
            ElementType::SlideTitle => self.slide_title.alignment,
            ElementType::Heading1 => self.headings.h1.alignment,
            ElementType::Heading2 => self.headings.h2.alignment,
            ElementType::Heading3 => self.headings.h3.alignment,
            ElementType::Heading4 => self.headings.h4.alignment,
            ElementType::Heading5 => self.headings.h5.alignment,
            ElementType::Heading6 => self.headings.h6.alignment,
            ElementType::Paragraph => None,
            ElementType::List => None,
            ElementType::Code => self.code.alignment,
            ElementType::PresentationTitle => self.intro_slide.title.alignment,
            ElementType::PresentationSubTitle => self.intro_slide.subtitle.alignment,
            ElementType::PresentationAuthor => self.intro_slide.author.alignment,
            ElementType::Table => self.table,
            ElementType::BlockQuote => self.block_quote.alignment,
        };
        match chosen {
            Some(alignment) => alignment,
            None => Alignment::Left { margin: Margin::Fixed(0) },
        }
    }
}

impl Default for PresentationTheme {
    fn default() -> (theme: Self)
        ensures
            theme == PresentationTheme::unset(),
    {
        let unset = Colors { foreground: None, background: None };
        PresentationTheme {
            slide_title: SlideTitleStyle {
                alignment: None,
                separator: false,
                padding_top: None,
                padding_bottom: None,
                colors: unset,
            },
            code: CodeBlockStyle {
                alignment: None,
                padding: PaddingRect { horizontal: None, vertical: None },
                theme_name: None,
            },
            execution_output: unset,
            inline_code: unset,
            table: None,
            block_quote: BlockQuoteStyle { alignment: None, prefix: None, colors: unset },
            default_style: DefaultStyle { margin: None, colors: unset },
            headings: HeadingStyles {
                h1: HeadingStyle { alignment: None, prefix: None, colors: unset },
                h2: HeadingStyle { alignment: None, prefix: None, colors: unset },
                h3: HeadingStyle { alignment: None, prefix: None, colors: unset },
                h4: HeadingStyle { alignment: None, prefix: None, colors: unset },
                h5: HeadingStyle { alignment: None, prefix: None, colors: unset },
                h6: HeadingStyle { alignment: None, prefix: None, colors: unset },
            },
            intro_slide: IntroSlideStyle {
                title: IntroLineStyle { alignment: None, colors: unset },
                subtitle: IntroLineStyle { alignment: None, colors: unset },
                author: AuthorStyle {
                    alignment: None,
                    colors: unset,
                    positioning: AuthorPositioning::BelowTitle,
                },
            },
            footer: FooterStyle::Empty,
        }
    }
}

} // verus!
