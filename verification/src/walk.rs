//! The walk over a document's elements, from the first to the finished
//! presentation.

use crate::blocks::block_quote_operations;
use crate::builder::{
    heading_operations, image_operations, paragraph_operations, prelude, separator_operations,
    slide_title_operations, BuildError, BuildErrorView, BuilderView, LastElement,
    PresentationBuilder, SlideState,
};
use crate::compile::Step;
use crate::elements::{MarkdownElement, MarkdownElementView};
use crate::operation::RenderOperationView;
use crate::presentation::{Presentation, PresentationView};
use crate::tables::table_operations;
use vstd::prelude::*;

verus! {

impl BuilderView {
    /// The builder with what it remembers of the last element forgotten.
    pub open spec fn forgetful(self) -> BuilderView {
        BuilderView { state: SlideState { last_element: LastElement::Any, ..self.state }, ..self }
    }

    /// What an element leaves. Every element but a list and a comment makes
    /// the builder forget the element before it.
    #[verifier::opaque]
    pub open spec fn after_element(self, element: MarkdownElementView) -> Step {
        let step = match element {
            MarkdownElementView::FrontMatter(_) => Step::done(self.without_line_break()),
            MarkdownElementView::SetexHeading { text } => Step::done(
                self.with(slide_title_operations(self.theme, text)).without_line_break(),
            ),
            MarkdownElementView::Heading { level, text } => Step::done(
                self.with(heading_operations(self.theme, level, text)),
            ),
            MarkdownElementView::Paragraph(elements) => Step::done(
                self.with(paragraph_operations(self.theme, elements)),
            ),
            MarkdownElementView::List(items) => Step::done(self.with_list(items)),
            MarkdownElementView::Code(code) => Step::done(self.with_code(code)),
            MarkdownElementView::Table(table) => Step::done(
                self.with(table_operations(self.theme, table)),
            ),
            MarkdownElementView::ThematicBreak => Step::done(self.with(separator_operations())),
            MarkdownElementView::Comment { comment, source_position } => self.after_comment(
                comment,
                source_position,
            ),
            MarkdownElementView::BlockQuote(lines) => Step::done(
                self.with(block_quote_operations(self.theme, lines)),
            ),
            MarkdownElementView::Image { path } => match self.resources.spec_image(path) {
                Ok(image) => Step::done(self.with(image_operations(self.theme, image))),
                Err(message) => Step::failed(self, BuildErrorView::LoadImage(message)),
            },
        };
        if step.error is None && !(element is List) && !(element is Comment) {
            Step::done(step.builder.forgetful())
        } else {
            step
        }
    }

    /// What one element of the document leaves: the element itself, the
    /// check for content outside a column, and a line break unless the
    /// element asked for none.
    #[verifier::opaque]
    pub open spec fn after_item(self, element: MarkdownElementView) -> Step {
        let step = (BuilderView {
            state: SlideState { ignore_element_line_break: false, ..self.state },
            ..self
        }).after_element(element);
        if step.error is Some {
            step
        } else {
            let checked = step.builder.after_validation();
            if checked.error is Some || checked.builder.state.ignore_element_line_break {
                checked
            } else {
                Step::done(checked.builder.with(seq![RenderOperationView::RenderLineBreak]))
            }
        }
    }

    /// What the given elements leave, one after the other; the first error
    /// ends the build.
    pub open spec fn after_items(self, elements: Seq<MarkdownElementView>) -> Step
        decreases elements.len(),
    {
        if elements.len() == 0 {
            Step::done(self)
        } else {
            let before = self.after_items(elements.drop_last());
            if before.error is Some {
                before
            } else {
                before.builder.after_item(elements.last())
            }
        }
    }
}

/// The views of a sequence of elements.
pub open spec fn elements_view(elements: Seq<MarkdownElement>) -> Seq<MarkdownElementView> {
    elements.map_values(|element: MarkdownElement| element@)
}

/// Whether every element is well formed.
pub open spec fn elements_wf(elements: Seq<MarkdownElementView>) -> bool {
    forall|i: int| 0 <= i < elements.len() ==> (#[trigger] elements[i]).wf()
}

/// What opening the build leaves: a front matter at the start of the
/// document is taken in, the highlighter is chosen, and the first slide is
/// opened unless an introductory slide has done so.
#[verifier::opaque]
pub open spec fn opened(start: BuilderView, elements: Seq<MarkdownElementView>) -> Step {
    let front = if elements.len() > 0 && elements[0] is FrontMatter {
        start.after_front_matter(elements[0]->FrontMatter_0)
    } else {
        Step::done(start)
    };
    if front.error is Some {
        front
    } else {
        let themed = front.builder.after_code_theme();
        if themed.error is Some || themed.builder.operations.len() > 0 {
            themed
        } else {
            Step::done(themed.builder.with(prelude(themed.builder.theme)))
        }
    }
}

/// The presentation that a finished builder hands out: the slide in progress
/// is sealed, unless nothing at all was built, and the first slide is shown.
#[verifier::opaque]
pub open spec fn closed(builder: BuilderView) -> PresentationView {
    let sealed = if builder.operations.len() > 0 || builder.slide_chunks.len() > 0 {
        builder.terminated()
    } else {
        builder
    };
    PresentationView {
        slides: sealed.slides,
        current_slide_index: 0,
        total_slides: sealed.slides.len() as usize,
        author: sealed.author,
    }
}

/// The presentation that a builder makes of the given elements, or the error
/// with which the build fails: the build is opened, the elements follow in
/// order, and the builder is closed.
pub open spec fn built(start: BuilderView, elements: Seq<MarkdownElementView>) -> Result<
    PresentationView,
    BuildErrorView,
> {
    let opening = opened(start, elements);
    if opening.error is Some {
        Err(opening.error->0)
    } else {
        let walked = opening.builder.after_items(elements);
        if walked.error is Some {
            Err(walked.error->0)
        } else {
            Ok(closed(walked.builder))
        }
    }
}

/// Once an element has failed, the elements after it change nothing.
pub proof fn lemma_failure_lasts(
    start: BuilderView,
    elements: Seq<MarkdownElementView>,
    count: int,
)
    requires
        0 <= count <= elements.len(),
        start.after_items(elements.take(count)).error is Some,
    ensures
        start.after_items(elements) == start.after_items(elements.take(count)),
    decreases elements.len() - count,
{
    if count < elements.len() {
        assert(elements.take(count + 1).drop_last() =~= elements.take(count));
        lemma_failure_lasts(start, elements, count + 1);
    } else {
        assert(elements.take(count) =~= elements);
    }
}

impl<'a> PresentationBuilder<'a> {
    /// Takes in one element.
    pub fn process_element(&mut self, element: MarkdownElement) -> (result: Result<(), BuildError>)
        requires
            element@.wf(),
        ensures
            old(self)@.after_element(element@).is(result, final(self)@),
            old(self)@.wf() ==> final(self)@.wf(),
            old(self)@.begun() ==> final(self)@.begun(),
    {
        reveal(BuilderView::after_element);
        let should_clear_last = match &element {
            MarkdownElement::List(_) => false,
            MarkdownElement::Comment { .. } => false,
            _ => true,
        };
        match element {
            MarkdownElement::FrontMatter(_) => {
                self.slide_state.ignore_element_line_break = true;
            },
            MarkdownElement::SetexHeading { text } => self.push_slide_title(text),
            MarkdownElement::Heading { level, text } => self.push_heading(level, text),
            MarkdownElement::Paragraph(elements) => {
                match self.push_paragraph(elements) {
                    Ok(_) => {},
                    Err(error) => {
                        return Err(error);
                    },
                }
            },
            MarkdownElement::List(elements) => self.push_list(elements),
            MarkdownElement::Code(code) => self.push_code(code),
            MarkdownElement::Table(table) => self.push_table(table),
            MarkdownElement::ThematicBreak => self.push_separator(),
            MarkdownElement::Comment { comment, source_position } => {
                match self.process_comment(comment, source_position) {
                    Ok(_) => {},
                    Err(error) => {
                        return Err(error);
                    },
                }
            },
            MarkdownElement::BlockQuote(lines) => self.push_block_quote(lines),
            MarkdownElement::Image { path } => {
                match self.push_image(path) {
                    Ok(_) => {},
                    Err(error) => {
                        return Err(error);
                    },
                }
            },
        }
        if should_clear_last {
            self.slide_state.last_element = LastElement::Any;
        }
        Ok(())
    }

    /// Takes in one element of the document, with the check and the line
    /// break that follow it.
    pub fn process_item(&mut self, element: MarkdownElement) -> (result: Result<(), BuildError>)
        requires
            element@.wf(),
        ensures
            old(self)@.after_item(element@).is(result, final(self)@),
            old(self)@.wf() ==> final(self)@.wf(),
            old(self)@.begun() ==> final(self)@.begun(),
    {
        reveal(BuilderView::after_item);
        self.slide_state.ignore_element_line_break = false;
        match self.process_element(element) {
            Ok(_) => {},
            Err(error) => {
                return Err(error);
            },
        }
        match self.validate_last_operation() {
            Ok(_) => {},
            Err(error) => {
                return Err(error);
            },
        }
        if !self.slide_state.ignore_element_line_break {
            self.push_line_break();
        }
        Ok(())
    }

    /// Opens the build: takes in a front matter at the start of the
    /// document, chooses the highlighter, and opens the first slide.
    pub fn open(&mut self, elements: &Vec<MarkdownElement>) -> (result: Result<(), BuildError>)
        ensures
            opened(old(self)@, elements_view(elements@)).is(result, final(self)@),
            old(self)@.wf() ==> final(self)@.wf(),
            result is Ok ==> final(self)@.begun(),
    {
        reveal(opened);
        if elements.len() > 0 {
            assert(elements_view(elements@)[0] == elements@[0]@);
            if let MarkdownElement::FrontMatter(contents) = &elements[0] {
                match self.process_front_matter(contents.as_str()) {
                    Ok(_) => {},
                    Err(error) => {
                        return Err(error);
                    },
                }
            }
        }
        match self.set_code_theme() {
            Ok(_) => {},
            Err(error) => {
                return Err(error);
            },
        }
        if self.chunk_operations.len() == 0 {
            self.push_slide_prelude();
        }
        Ok(())
    }

    /// Takes in the elements of the document, one after the other.
    pub fn walk(&mut self, elements: Vec<MarkdownElement>) -> (result: Result<(), BuildError>)
        requires
            elements_wf(elements_view(elements@)),
        ensures
            old(self)@.after_items(elements_view(elements@)).is(result, final(self)@),
            old(self)@.wf() ==> final(self)@.wf(),
            old(self)@.begun() ==> final(self)@.begun(),
    {
        let ghost all = elements_view(elements@);
        let ghost start = self@;
        assert(all.take(0) =~= Seq::empty());
        for element in iter: elements
            invariant
                old(self)@.wf() ==> self@.wf(),
                old(self)@.begun() ==> self@.begun(),
                elements_view(iter.seq()) == all,
                elements_wf(all),
                start == old(self)@,
                all == elements_view(elements@),
                Step::done(self@) == start.after_items(all.take(iter.index())),
        {
            assert(all[iter.index()] == element@);
            assert(all.take(iter.index() + 1).drop_last() =~= all.take(iter.index()));
            assert(all.take(iter.index() + 1).last() == element@);
            match self.process_item(element) {
                Ok(_) => {},
                Err(error) => {
                    proof {
                        lemma_failure_lasts(start, all, iter.index() + 1);
                    }
                    return Err(error);
                },
            }
        }
        assert(all.take(all.len() as int) =~= all);
        Ok(())
    }

    /// Closes the build: seals the slide in progress and hands out the
    /// presentation.
    pub fn close(self) -> (presentation: Presentation)
        ensures
            presentation@ == closed(self@),
            self@.wf() && self@.begun() ==> presentation@.wf(),
    {
        reveal(closed);
        let mut builder = self;
        if builder.chunk_operations.len() > 0 || builder.slide_chunks.len() > 0 {
            builder.terminate_slide();
        }
        builder.footer_context.total_slides = builder.slides.len();
        Presentation::new(builder.slides, builder.footer_context)
    }

    /// Builds the presentation of the given elements.
    pub fn build(self, elements: Vec<MarkdownElement>) -> (result: Result<Presentation, BuildError>)
        requires
            elements_wf(elements_view(elements@)),
        ensures
            match built(self@, elements_view(elements@)) {
                Ok(presentation) => result is Ok && result->Ok_0@ == presentation,
                Err(error) => result is Err && result->Err_0@ == error,
            },
            self@.wf() && result is Ok ==> result->Ok_0@.wf(),
    {
        let mut builder = self;
        match builder.open(&elements) {
            Ok(_) => {},
            Err(error) => {
                return Err(error);
            },
        }
        match builder.walk(elements) {
            Ok(_) => {},
            Err(error) => {
                return Err(error);
            },
        }
        Ok(builder.close())
    }
}

} // verus!
