//! Slides, and the presentation that moves through them.

use crate::chunk::{
    advanced, all_applied, all_reset, can_advance, can_retreat, retreated, SlideChunk,
    SlideChunkView,
};
use crate::operation::{operations_view, RenderOperation, RenderOperationView};
use crate::render::FooterContext;
use crate::elements::Code;
use crate::execution::ExecutionState;
use crate::widgets::{
    all_settled, codes_view, launches_used, launches_view, observations_used, observations_view,
    polled_operations, startable_codes, started_operations, watched_widgets, Launch, Observation,
};
use vstd::prelude::*;

verus! {

/// The operations of the given chunks, one chunk after the other.
pub open spec fn chunk_operations(chunks: Seq<SlideChunkView>) -> Seq<RenderOperationView>
    decreases chunks.len(),
{
    if chunks.len() == 0 {
        Seq::empty()
    } else {
        chunk_operations(chunks.drop_last()) + chunks.last().operations
    }
}

/// The views of a sequence of chunks.
pub open spec fn chunks_view(chunks: Seq<SlideChunk>) -> Seq<SlideChunkView> {
    chunks.map_values(|chunk: SlideChunk| chunk@)
}

/// The views of a sequence of borrowed operations.
pub open spec fn borrowed_view(operations: Seq<&RenderOperation>) -> Seq<RenderOperationView> {
    operations.map_values(|operation: &RenderOperation| operation@)
}

impl SlideChunkView {
    /// The chunk with every mutator back at its first step.
    pub open spec fn rewound(self) -> SlideChunkView {
        SlideChunkView { contexts: all_reset(self.contexts, self.mutators), ..self }
    }

    /// The chunk with every mutator at its last step.
    pub open spec fn completed(self) -> SlideChunkView {
        SlideChunkView { contexts: all_applied(self.contexts, self.mutators), ..self }
    }

    /// Whether a mutator of the chunk can step forward.
    pub open spec fn can_step_forward(self) -> bool {
        can_advance(self.contexts, self.mutators)
    }

    /// Whether a mutator of the chunk can step back.
    pub open spec fn can_step_back(self) -> bool {
        can_retreat(self.contexts, self.mutators)
    }

    /// The chunk after one step forward of its first mutator that can.
    pub open spec fn stepped_forward(self) -> SlideChunkView {
        SlideChunkView { contexts: advanced(self.contexts, self.mutators), ..self }
    }

    /// The chunk after one step back of its last mutator that can.
    pub open spec fn stepped_back(self) -> SlideChunkView {
        SlideChunkView { contexts: retreated(self.contexts, self.mutators), ..self }
    }
}

/// What a [`Slide`] holds.
pub struct SlideView {
    pub chunks: Seq<SlideChunkView>,
    pub footer: Seq<RenderOperationView>,
    /// The number of chunks that are shown.
    pub visible_chunks: usize,
}

/// The first `count` chunks completed, the others as they are.
pub open spec fn completed_before(chunks: Seq<SlideChunkView>, count: int) -> Seq<SlideChunkView> {
    Seq::new(
        chunks.len(),
        |i: int|
            if i < count {
                chunks[i].completed()
            } else {
                chunks[i]
            },
    )
}

impl SlideView {
    /// The slide has a chunk, shows at least one and no more than it has, and
    /// its chunks are well formed.
    pub open spec fn wf(self) -> bool {
        &&& 1 <= self.visible_chunks <= self.chunks.len() <= usize::MAX
        &&& forall|i: int| 0 <= i < self.chunks.len() ==> (#[trigger] self.chunks[i]).wf()
    }

    /// The position of the chunk that was revealed last.
    pub open spec fn current_chunk(self) -> int {
        if self.visible_chunks == 0 {
            0
        } else {
            self.visible_chunks - 1
        }
    }

    /// The operations that are shown: those of the visible chunks, then the
    /// footer.
    pub open spec fn visible_operations(self) -> Seq<RenderOperationView> {
        chunk_operations(self.chunks.take(self.visible_chunks as int)) + self.footer
    }

    /// All operations: those of every chunk, then the footer.
    pub open spec fn all_operations(self) -> Seq<RenderOperationView> {
        chunk_operations(self.chunks) + self.footer
    }

    /// The slide with only its first chunk shown, that chunk rewound.
    pub open spec fn at_first_chunk(self) -> SlideView {
        SlideView {
            visible_chunks: 1,
            chunks: self.chunks.update(0, self.chunks[0].rewound()),
            ..self
        }
    }

    /// The slide with all chunks shown and completed.
    pub open spec fn at_last_chunk(self) -> SlideView {
        SlideView {
            visible_chunks: self.chunks.len() as usize,
            chunks: completed_before(self.chunks, self.chunks.len() as int),
            ..self
        }
    }

    /// The slide with the chunk at `index` revealed last, or the last chunk
    /// where the slide has fewer; the chunks before it are completed.
    pub open spec fn at_chunk(self, index: usize) -> SlideView {
        let visible = if index < self.chunks.len() {
            index + 1
        } else {
            self.chunks.len() as int
        };
        SlideView {
            visible_chunks: visible as usize,
            chunks: completed_before(self.chunks, visible - 1),
            ..self
        }
    }

    /// Whether there is a step forward within the slide.
    pub open spec fn can_move_next(self) -> bool {
        self.chunks[self.current_chunk()].can_step_forward() || self.visible_chunks
            < self.chunks.len()
    }

    /// One step forward within the slide: a step of the current chunk's
    /// mutators, or else the next chunk revealed and rewound.
    pub open spec fn moved_next(self) -> SlideView {
        let current = self.current_chunk();
        if self.chunks[current].can_step_forward() {
            SlideView { chunks: self.chunks.update(current, self.chunks[current].stepped_forward()), ..self }
        } else if self.visible_chunks < self.chunks.len() {
            SlideView {
                visible_chunks: (self.visible_chunks + 1) as usize,
                chunks: self.chunks.update(current + 1, self.chunks[current + 1].rewound()),
                ..self
            }
        } else {
            self
        }
    }

    /// Whether there is a step back within the slide.
    pub open spec fn can_move_previous(self) -> bool {
        self.chunks[self.current_chunk()].can_step_back() || self.visible_chunks > 1
    }

    /// One step back within the slide: a step back of the current chunk's
    /// mutators, or else the current chunk hidden and the one before it
    /// completed.
    pub open spec fn moved_previous(self) -> SlideView {
        let current = self.current_chunk();
        if self.chunks[current].can_step_back() {
            SlideView { chunks: self.chunks.update(current, self.chunks[current].stepped_back()), ..self }
        } else if self.visible_chunks > 1 {
            SlideView {
                visible_chunks: (self.visible_chunks - 1) as usize,
                chunks: self.chunks.update(current - 1, self.chunks[current - 1].completed()),
                ..self
            }
        } else {
            self
        }
    }
}

/// One slide: its chunks, of which the first few are shown, and its footer.
#[derive(Clone, Debug)]
pub struct Slide {
    chunks: Vec<SlideChunk>,
    footer: Vec<RenderOperation>,
    visible_chunks: usize,
}

impl View for Slide {
    type V = SlideView;

    closed spec fn view(&self) -> SlideView {
        SlideView {
            chunks: chunks_view(self.chunks@),
            footer: operations_view(self.footer@),
            visible_chunks: self.visible_chunks,
        }
    }
}

impl Slide {
    /// A slide that shows its first chunk.
    pub fn new(chunks: Vec<SlideChunk>, footer: Vec<RenderOperation>) -> (slide: Self)
        ensures
            slide@ == (SlideView {
                chunks: chunks_view(chunks@),
                footer: operations_view(footer@),
                visible_chunks: 1,
            }),
    {
        Slide { chunks, footer, visible_chunks: 1 }
    }

    /// The slide's chunks.
    pub fn chunks(&self) -> (chunks: &Vec<SlideChunk>)
        ensures
            chunks_view(chunks@) == self@.chunks,
    {
        &self.chunks
    }

    /// The slide's footer.
    pub fn footer(&self) -> (footer: &Vec<RenderOperation>)
        ensures
            operations_view(footer@) == self@.footer,
    {
        &self.footer
    }

    /// The position of the chunk that was revealed last.
    pub fn current_chunk_index(&self) -> (index: usize)
        ensures
            index == self@.current_chunk(),
    {
        if self.visible_chunks == 0 {
            0
        } else {
            self.visible_chunks - 1
        }
    }

    /// The operations that are shown.
    pub fn iter_operations(&self) -> (operations: Vec<&RenderOperation>)
        requires
            self@.wf(),
        ensures
            borrowed_view(operations@) == self@.visible_operations(),
    {
        let mut operations: Vec<&RenderOperation> = Vec::new();
        let ghost chunks = self@.chunks;
        let mut i: usize = 0;
        assert(chunks.take(0) =~= Seq::empty());
        assert(borrowed_view(operations@) =~= Seq::empty());
        while i < self.visible_chunks
            invariant
                i <= self.visible_chunks <= self.chunks.len(),
                chunks == self@.chunks,
                borrowed_view(operations@) == chunk_operations(chunks.take(i as int)),
            decreases self.visible_chunks - i,
        {
            let ghost before = borrowed_view(operations@);
            let chunk = self.chunks[i].operations();
            let mut k: usize = 0;
            assert(before + chunks[i as int].operations.take(0) =~= before);
            while k < chunk.len()
                invariant
                    k <= chunk.len(),
                    0 <= i < chunks.len(),
                    operations_view(chunk@) == chunks[i as int].operations,
                    borrowed_view(operations@) == before + chunks[i as int].operations.take(
                        k as int,
                    ),
                decreases chunk.len() - k,
            {
                operations.push(&chunk[k]);
                k += 1;
                proof {
                    let inner = chunks[i as int].operations;
                    assert(inner[k - 1] == chunk@[k - 1]@);
                    assert(inner.take(k as int) =~= inner.take(k - 1).push(inner[k - 1]));
                    assert(borrowed_view(operations@) =~= (before + inner.take(k - 1)).push(
                        inner[k - 1],
                    ));
                    assert(borrowed_view(operations@) =~= before + inner.take(k as int));
                }
            }
            i += 1;
            proof {
                assert(chunks[i - 1].operations.take(k as int) =~= chunks[i - 1].operations);
                assert(chunks.take(i as int).drop_last() =~= chunks.take(i - 1));
            }
        }
        let ghost before = borrowed_view(operations@);
        let mut k: usize = 0;
        assert(before + self@.footer.take(0) =~= before);
        while k < self.footer.len()
            invariant
                k <= self.footer.len(),
                borrowed_view(operations@) == before + self@.footer.take(k as int),
            decreases self.footer.len() - k,
        {
            operations.push(&self.footer[k]);
            k += 1;
            proof {
                let footer = self@.footer;
                assert(footer[k - 1] == self.footer@[k - 1]@);
                assert(footer.take(k as int) =~= footer.take(k - 1).push(footer[k - 1]));
                assert(borrowed_view(operations@) =~= (before + footer.take(k - 1)).push(
                    footer[k - 1],
                ));
                assert(borrowed_view(operations@) =~= before + footer.take(k as int));
            }
        }
        assert(self@.footer.take(k as int) =~= self@.footer);
        operations
    }

    /// All operations, the slide given up.
    pub fn into_operations(self) -> (operations: Vec<RenderOperation>)
        ensures
            operations_view(operations@) == self@.all_operations(),
    {
        let ghost chunks = self@.chunks;
        let ghost footer = self@.footer;
        let mut operations: Vec<RenderOperation> = Vec::new();
        assert(chunks.take(0) =~= Seq::empty());
        assert(operations_view(operations@) =~= Seq::empty());
        for chunk in iter: self.chunks
            invariant
                chunks_view(iter.seq()) == chunks,
                operations_view(operations@) == chunk_operations(chunks.take(iter.index())),
        {
            let ghost before = operations_view(operations@);
            let ghost index = iter.index();
            let mut taken = chunk.into_operations();
            let ghost added = operations_view(taken@);
            operations.append(&mut taken);
            proof {
                assert(operations_view(operations@) =~= before + added);
                assert(chunks.take(index + 1).drop_last() =~= chunks.take(index));
                assert(chunks.take(index + 1).last() == chunks[index]);
            }
        }
        assert(chunks.take(chunks.len() as int) =~= chunks);
        let ghost before = operations_view(operations@);
        let mut tail = self.footer;
        operations.append(&mut tail);
        assert(operations_view(operations@) =~= before + footer);
        operations
    }

    /// Shows the first chunk only, rewound.
    pub fn show_first_chunk(&mut self)
        requires
            old(self)@.wf(),
        ensures
            final(self)@ == old(self)@.at_first_chunk(),
            final(self)@.wf(),
    {
        self.visible_chunks = 1;
        let ghost chunks = self@.chunks;
        assert(chunks[0].wf());
        self.chunks[0].reset_mutations();
        proof {
            assert(self@.chunks =~= chunks.update(0, chunks[0].rewound()));
            assert forall|i: int| 0 <= i < self@.chunks.len() implies (#[trigger] self@.chunks[i]).wf() by {
                if i != 0 {
                    assert(chunks[i].wf());
                }
            }
        }
    }

    /// Completes the first `count` chunks.
    fn complete_before(&mut self, count: usize)
        requires
            old(self)@.wf(),
            count <= old(self)@.chunks.len(),
        ensures
            final(self)@ == (SlideView {
                chunks: completed_before(old(self)@.chunks, count as int),
                ..old(self)@
            }),
            final(self)@.wf(),
    {
        let ghost chunks = self@.chunks;
        let mut i: usize = 0;
        assert(completed_before(chunks, 0) =~= chunks);
        while i < count
            invariant
                i <= count <= self.chunks.len(),
                chunks == old(self)@.chunks,
                self@ == (SlideView { chunks: completed_before(chunks, i as int), ..old(self)@ }),
                self@.wf(),
            decreases count - i,
        {
            let ghost before = self@.chunks;
            assert(before[i as int].wf());
            self.chunks[i].apply_all_mutations();
            proof {
                assert(before[i as int] == chunks[i as int]);
                assert(self@.chunks =~= before.update(i as int, before[i as int].completed()));
                assert(self@.chunks =~= completed_before(chunks, i + 1));
                assert forall|k: int| 0 <= k < self@.chunks.len() implies (
                #[trigger] self@.chunks[k]).wf() by {
                    if k != i {
                        assert(before[k].wf());
                    }
                }
            }
            i += 1;
        }
    }

    /// Shows all chunks, completed.
    pub fn show_all_chunks(&mut self)
        requires
            old(self)@.wf(),
        ensures
            final(self)@ == old(self)@.at_last_chunk(),
            final(self)@.wf(),
    {
        self.visible_chunks = self.chunks.len();
        self.complete_before(self.chunks.len());
    }

    /// Reveals the chunks up to the one at `chunk_index`, or all of them
    /// where the slide has fewer, and completes those before the last one
    /// revealed.
    pub fn jump_chunk(&mut self, chunk_index: usize)
        requires
            old(self)@.wf(),
        ensures
            final(self)@ == old(self)@.at_chunk(chunk_index),
            final(self)@.wf(),
    {
        let visible: usize = if chunk_index < self.chunks.len() {
            chunk_index + 1
        } else {
            self.chunks.len()
        };
        self.visible_chunks = visible;
        self.complete_before(visible - 1);
    }

    /// Takes one step forward within the slide, and says whether there was
    /// one.
    pub fn move_next(&mut self) -> (moved: bool)
        requires
            old(self)@.wf(),
        ensures
            moved == old(self)@.can_move_next(),
            final(self)@ == old(self)@.moved_next(),
            final(self)@.wf(),
    {
        let ghost chunks = self@.chunks;
        let current: usize = self.visible_chunks - 1;
        assert(chunks[current as int].wf());
        if self.chunks[current].mutate_next() {
            proof {
                assert(self@.chunks =~= chunks.update(
                    current as int,
                    chunks[current as int].stepped_forward(),
                ));
                assert forall|i: int| 0 <= i < self@.chunks.len() implies (
                #[trigger] self@.chunks[i]).wf() by {
                    if i != current {
                        assert(chunks[i].wf());
                    }
                }
            }
            return true;
        }
        assert(self@.chunks =~= chunks.update(current as int, chunks[current as int]));
        assert(self@.chunks =~= chunks);
        if self.visible_chunks == self.chunks.len() {
            return false;
        }
        self.visible_chunks += 1;
        assert(chunks[current + 1].wf());
        self.chunks[current + 1].reset_mutations();
        proof {
            assert(self@.chunks =~= chunks.update(current + 1, chunks[current + 1].rewound()));
            assert forall|i: int| 0 <= i < self@.chunks.len() implies (#[trigger] self@.chunks[i]).wf() by {
                if i != current + 1 {
                    assert(chunks[i].wf());
                }
            }
        }
        true
    }

    /// Takes one step back within the slide, and says whether there was one.
    pub fn move_previous(&mut self) -> (moved: bool)
        requires
            old(self)@.wf(),
        ensures
            moved == old(self)@.can_move_previous(),
            final(self)@ == old(self)@.moved_previous(),
            final(self)@.wf(),
    {
        let ghost chunks = self@.chunks;
        let current: usize = self.visible_chunks - 1;
        assert(chunks[current as int].wf());
        if self.chunks[current].mutate_previous() {
            proof {
                assert(self@.chunks =~= chunks.update(
                    current as int,
                    chunks[current as int].stepped_back(),
                ));
                assert forall|i: int| 0 <= i < self@.chunks.len() implies (
                #[trigger] self@.chunks[i]).wf() by {
                    if i != current {
                        assert(chunks[i].wf());
                    }
                }
            }
            return true;
        }
        assert(self@.chunks =~= chunks.update(current as int, chunks[current as int]));
        assert(self@.chunks =~= chunks);
        if self.visible_chunks == 1 {
            return false;
        }
        self.visible_chunks -= 1;
        assert(chunks[current - 1].wf());
        self.chunks[current - 1].apply_all_mutations();
        proof {
            assert(self@.chunks =~= chunks.update(current - 1, chunks[current - 1].completed()));
            assert forall|i: int| 0 <= i < self@.chunks.len() implies (#[trigger] self@.chunks[i]).wf() by {
                if i != current - 1 {
                    assert(chunks[i].wf());
                }
            }
        }
        true
    }
}

/// The views of a sequence of slides.
pub open spec fn slides_view(slides: Seq<Slide>) -> Seq<SlideView> {
    slides.map_values(|slide: Slide| slide@)
}

/// What a [`Presentation`] holds.
pub struct PresentationView {
    pub slides: Seq<SlideView>,
    /// The position of the slide that is shown.
    pub current_slide_index: usize,
    /// The number of slides that the footers show.
    pub total_slides: usize,
    /// The author that the footers show.
    pub author: Seq<char>,
}

impl PresentationView {
    /// The presentation has a slide, the cursor names one of its slides, and
    /// every slide is well formed.
    pub open spec fn wf(self) -> bool {
        &&& self.current_slide_index < self.slides.len()
        &&& forall|i: int| 0 <= i < self.slides.len() ==> (#[trigger] self.slides[i]).wf()
    }

    /// The slide that is shown.
    pub open spec fn current_slide(self) -> SlideView {
        self.slides[self.current_slide_index as int]
    }

    /// The cursor: the position of the slide that is shown, and that of the
    /// chunk revealed last in it.
    pub open spec fn cursor(self) -> (usize, int) {
        (self.current_slide_index, self.current_slide().current_chunk())
    }

    /// The presentation with the slide that is shown replaced.
    pub open spec fn with_current(self, slide: SlideView) -> PresentationView {
        PresentationView {
            slides: self.slides.update(self.current_slide_index as int, slide),
            ..self
        }
    }

    /// The presentation at the first chunk of the slide at `index`; unchanged
    /// where it has no such slide.
    pub open spec fn at_slide(self, index: usize) -> PresentationView {
        if index < self.slides.len() {
            PresentationView {
                current_slide_index: index,
                slides: self.slides.update(index as int, self.slides[index as int].at_first_chunk()),
                ..self
            }
        } else {
            self
        }
    }

    /// The presentation with the chunk at `index` of the current slide
    /// revealed last, or that slide's last chunk where it has fewer.
    pub open spec fn at_chunk(self, index: usize) -> PresentationView {
        self.with_current(self.current_slide().at_chunk(index))
    }

    /// Whether there is a step forward: within the current slide, or to a
    /// slide after it.
    pub open spec fn can_move_next(self) -> bool {
        self.current_slide().can_move_next() || self.current_slide_index + 1 < self.slides.len()
    }

    /// One step forward: within the current slide where it has one, else to
    /// the first chunk of the next slide.
    pub open spec fn moved_next(self) -> PresentationView {
        if self.current_slide().can_move_next() {
            self.with_current(self.current_slide().moved_next())
        } else if self.current_slide_index + 1 < self.slides.len() {
            self.at_slide((self.current_slide_index + 1) as usize)
        } else {
            self
        }
    }

    /// Whether there is a step back: within the current slide, or to a slide
    /// before it.
    pub open spec fn can_move_previous(self) -> bool {
        self.current_slide().can_move_previous() || self.current_slide_index > 0
    }

    /// One step back: within the current slide where it has one, else to the
    /// previous slide with all its chunks shown.
    pub open spec fn moved_previous(self) -> PresentationView {
        if self.current_slide().can_move_previous() {
            self.with_current(self.current_slide().moved_previous())
        } else if self.current_slide_index > 0 {
            let index = self.current_slide_index - 1;
            PresentationView {
                current_slide_index: index as usize,
                slides: self.slides.update(index, self.slides[index].at_last_chunk()),
                ..self
            }
        } else {
            self
        }
    }
}

/// Replacing one slide by a well-formed one keeps the presentation well
/// formed.
pub proof fn lemma_replace_slide(presentation: PresentationView, index: int, slide: SlideView)
    requires
        presentation.wf(),
        slide.wf(),
        0 <= index < presentation.slides.len(),
    ensures
        (PresentationView {
            slides: presentation.slides.update(index, slide),
            ..presentation
        }).wf(),
        (PresentationView {
            current_slide_index: index as usize,
            slides: presentation.slides.update(index, slide),
            ..presentation
        }).wf(),
{
    let slides = presentation.slides.update(index, slide);
    assert forall|i: int| 0 <= i < slides.len() implies (#[trigger] slides[i]).wf() by {
        if i != index {
            assert(presentation.slides[i].wf());
        }
    }
}

/// A jump to a slide and then to a chunk, both of which exist, leaves the
/// cursor at that slide and that chunk.
pub proof fn lemma_jump_sets_cursor(presentation: PresentationView, slide: usize, chunk: usize)
    requires
        presentation.wf(),
        slide < presentation.slides.len(),
        chunk < presentation.slides[slide as int].chunks.len(),
    ensures
        presentation.at_slide(slide).at_chunk(chunk).cursor() == (slide, chunk as int),
{
    assert(presentation.slides[slide as int].wf());
}

/// A presentation: its slides, and which of them is shown.
#[derive(Clone, Debug)]
pub struct Presentation {
    slides: Vec<Slide>,
    current_slide_index: usize,
    footer_context: FooterContext,
}

impl View for Presentation {
    type V = PresentationView;

    closed spec fn view(&self) -> PresentationView {
        PresentationView {
            slides: slides_view(self.slides@),
            current_slide_index: self.current_slide_index,
            total_slides: self.footer_context.total_slides,
            author: self.footer_context.author@,
        }
    }
}

impl Presentation {
    /// A presentation that shows the first of `slides`. The footers are drawn
    /// with what `footer_context` holds.
    pub fn new(slides: Vec<Slide>, footer_context: FooterContext) -> (presentation: Self)
        ensures
            presentation@ == (PresentationView {
                slides: slides_view(slides@),
                current_slide_index: 0,
                total_slides: footer_context.total_slides,
                author: footer_context.author@,
            }),
    {
        Presentation { slides, current_slide_index: 0, footer_context }
    }

    /// The slides.
    pub fn iter_slides(&self) -> (slides: &Vec<Slide>)
        ensures
            slides_view(slides@) == self@.slides,
    {
        &self.slides
    }

    /// The slides, the presentation given up.
    pub fn into_slides(self) -> (slides: Vec<Slide>)
        ensures
            slides_view(slides@) == self@.slides,
    {
        self.slides
    }

    /// What the footers are drawn with.
    pub fn footer_context(&self) -> (context: &FooterContext)
        ensures
            context.total_slides == self@.total_slides,
            context.author@ == self@.author,
    {
        &self.footer_context
    }

    /// The slide that is shown.
    pub fn current_slide(&self) -> (slide: &Slide)
        requires
            self@.wf(),
        ensures
            slide@ == self@.current_slide(),
    {
        &self.slides[self.current_slide_index]
    }

    /// The position of the slide that is shown.
    pub fn current_slide_index(&self) -> (index: usize)
        ensures
            index == self@.current_slide_index,
    {
        self.current_slide_index
    }

    /// The position of the chunk that was revealed last in the current slide.
    pub fn current_chunk(&self) -> (index: usize)
        requires
            self@.wf(),
        ensures
            (self@.current_slide_index, index as int) == self@.cursor(),
    {
        self.slides[self.current_slide_index].current_chunk_index()
    }

    /// Goes to the first chunk of the slide at `slide_index`, and says
    /// whether the presentation has such a slide.
    pub fn jump_slide(&mut self, slide_index: usize) -> (jumped: bool)
        requires
            old(self)@.wf(),
        ensures
            jumped == (slide_index < old(self)@.slides.len()),
            final(self)@ == old(self)@.at_slide(slide_index),
            final(self)@.wf(),
    {
        if slide_index < self.slides.len() {
            let ghost before = self@;
            assert(before.slides[slide_index as int].wf());
            self.current_slide_index = slide_index;
            self.slides[slide_index].show_first_chunk();
            proof {
                assert(self@.slides =~= before.slides.update(
                    slide_index as int,
                    before.slides[slide_index as int].at_first_chunk(),
                ));
                lemma_replace_slide(
                    before,
                    slide_index as int,
                    before.slides[slide_index as int].at_first_chunk(),
                );
            }
            true
        } else {
            false
        }
    }

    /// Goes to the first chunk of the first slide.
    pub fn jump_first_slide(&mut self) -> (jumped: bool)
        requires
            old(self)@.wf(),
        ensures
            jumped,
            final(self)@ == old(self)@.at_slide(0),
            final(self)@.wf(),
    {
        self.jump_slide(0)
    }

    /// Goes to the first chunk of the last slide.
    pub fn jump_last_slide(&mut self) -> (jumped: bool)
        requires
            old(self)@.wf(),
        ensures
            jumped,
            final(self)@ == old(self)@.at_slide((old(self)@.slides.len() - 1) as usize),
            final(self)@.wf(),
    {
        let last: usize = self.slides.len() - 1;
        self.jump_slide(last)
    }

    /// Reveals the chunks of the current slide up to the one at
    /// `chunk_index`.
    pub fn jump_chunk(&mut self, chunk_index: usize)
        requires
            old(self)@.wf(),
        ensures
            final(self)@ == old(self)@.at_chunk(chunk_index),
            final(self)@.wf(),
    {
        let ghost before = self@;
        let current = self.current_slide_index;
        assert(before.slides[current as int].wf());
        self.slides[current].jump_chunk(chunk_index);
        proof {
            assert(self@.slides =~= before.slides.update(
                current as int,
                before.current_slide().at_chunk(chunk_index),
            ));
            lemma_replace_slide(before, current as int, before.current_slide().at_chunk(chunk_index));
        }
    }

    /// Takes one step forward, and says whether there was one.
    pub fn jump_next_slide(&mut self) -> (moved: bool)
        requires
            old(self)@.wf(),
        ensures
            moved == old(self)@.can_move_next(),
            final(self)@ == old(self)@.moved_next(),
            final(self)@.wf(),
    {
        let ghost before = self@;
        let current = self.current_slide_index;
        assert(before.slides[current as int].wf());
        if self.slides[current].move_next() {
            proof {
                assert(self@.slides =~= before.slides.update(
                    current as int,
                    before.current_slide().moved_next(),
                ));
                lemma_replace_slide(before, current as int, before.current_slide().moved_next());
            }
            return true;
        }
        proof {
            assert(self@.slides =~= before.slides.update(current as int, before.current_slide()));
            assert(self@.slides =~= before.slides);
        }
        if current < self.slides.len() - 1 {
            self.jump_slide(current + 1)
        } else {
            false
        }
    }

    /// Takes one step back, and says whether there was one.
    pub fn jump_previous_slide(&mut self) -> (moved: bool)
        requires
            old(self)@.wf(),
        ensures
            moved == old(self)@.can_move_previous(),
            final(self)@ == old(self)@.moved_previous(),
            final(self)@.wf(),
    {
        let ghost before = self@;
        let current = self.current_slide_index;
        assert(before.slides[current as int].wf());
        if self.slides[current].move_previous() {
            proof {
                assert(self@.slides =~= before.slides.update(
                    current as int,
                    before.current_slide().moved_previous(),
                ));
                lemma_replace_slide(before, current as int, before.current_slide().moved_previous());
            }
            return true;
        }
        proof {
            assert(self@.slides =~= before.slides.update(current as int, before.current_slide()));
            assert(self@.slides =~= before.slides);
        }
        if current > 0 {
            assert(before.slides[current - 1].wf());
            self.current_slide_index = current - 1;
            self.slides[current - 1].show_all_chunks();
            proof {
                assert(self@.slides =~= before.slides.update(
                    current - 1,
                    before.slides[current - 1].at_last_chunk(),
                ));
                lemma_replace_slide(before, current - 1, before.slides[current - 1].at_last_chunk());
            }
            true
        } else {
            false
        }
    }
}

/// The chunks after their widgets that were not started were told to start,
/// chunk after chunk, each widget with the next of the launches.
pub open spec fn started_chunks(
    chunks: Seq<SlideChunkView>,
    launches: Seq<Result<(), Seq<char>>>,
) -> Seq<SlideChunkView>
    decreases chunks.len(),
{
    if chunks.len() == 0 {
        chunks
    } else {
        seq![
            SlideChunkView {
                operations: started_operations(chunks[0].operations, launches),
                ..chunks[0]
            },
        ] + started_chunks(
            chunks.drop_first(),
            launches.skip(launches_used(chunks[0].operations, launches.len()) as int),
        )
    }
}

/// The number of launches that the chunks take up.
pub open spec fn chunks_launches_used(chunks: Seq<SlideChunkView>, launches: nat) -> nat
    decreases chunks.len(),
{
    if chunks.len() == 0 {
        0
    } else {
        let first = launches_used(chunks[0].operations, launches);
        first + chunks_launches_used(chunks.drop_first(), (launches - first) as nat)
    }
}

/// The chunks after their widgets whose processes are watched took in what
/// was seen, chunk after chunk, each widget the next of the observations.
pub open spec fn polled_chunks(chunks: Seq<SlideChunkView>, observed: Seq<Observation>) -> Seq<
    SlideChunkView,
>
    decreases chunks.len(),
{
    if chunks.len() == 0 {
        chunks
    } else {
        seq![
            SlideChunkView {
                operations: polled_operations(chunks[0].operations, observed),
                ..chunks[0]
            },
        ] + polled_chunks(
            chunks.drop_first(),
            observed.skip(observations_used(chunks[0].operations, observed.len()) as int),
        )
    }
}

/// Whether every operation of every chunk is done.
pub open spec fn chunks_settled(chunks: Seq<SlideChunkView>) -> bool {
    forall|i: int| 0 <= i < chunks.len() ==> all_settled((#[trigger] chunks[i]).operations)
}

impl SlideView {
    /// The chunks that are shown.
    pub open spec fn visible(self) -> Seq<SlideChunkView> {
        self.chunks.take(self.visible_chunks as int)
    }

    /// The slide after the widgets that are shown were told to start.
    pub open spec fn widgets_started(self, launches: Seq<Result<(), Seq<char>>>) -> SlideView {
        SlideView {
            chunks: started_chunks(self.visible(), launches) + self.chunks.skip(
                self.visible_chunks as int,
            ),
            ..self
        }
    }

    /// The slide after the widgets that are shown took in what was seen.
    pub open spec fn widgets_polled(self, observed: Seq<Observation>) -> SlideView {
        SlideView {
            chunks: polled_chunks(self.visible(), observed) + self.chunks.skip(
                self.visible_chunks as int,
            ),
            ..self
        }
    }
}

/// What is found in two runs of operations is what is found in the first,
/// then what is found in the second.
pub proof fn lemma_startable_concat(head: Seq<RenderOperationView>, tail: Seq<RenderOperationView>)
    ensures
        startable_codes(head + tail) == startable_codes(head) + startable_codes(tail),
        watched_widgets(head + tail) == watched_widgets(head) + watched_widgets(tail),
    decreases tail.len(),
{
    if tail.len() == 0 {
        assert(head + tail =~= head);
        assert(startable_codes(head) + Seq::<crate::elements::CodeView>::empty()
            =~= startable_codes(head));
    } else {
        assert((head + tail).drop_last() =~= head + tail.drop_last());
        lemma_startable_concat(head, tail.drop_last());
        let last = if tail.last().startable() {
            seq![tail.last()->RenderOnDemand_0.code]
        } else {
            Seq::empty()
        };
        assert((startable_codes(head) + startable_codes(tail.drop_last())) + last
            =~= startable_codes(head) + (startable_codes(tail.drop_last()) + last));
    }
}

impl Slide {
    /// The code of every widget that is shown and was not started, in
    /// order: the processes to launch before the widgets are told to start.
    pub fn startable_codes(&self) -> (codes: Vec<&Code>)
        requires
            self@.wf(),
        ensures
            codes_view(codes@) == startable_codes(chunk_operations(self@.visible())),
    {
        let mut codes: Vec<&Code> = Vec::new();
        let ghost shown = self@.visible();
        let mut i: usize = 0;
        assert(shown.take(0) =~= Seq::empty());
        assert(codes_view(codes@) =~= Seq::empty());
        while i < self.visible_chunks
            invariant
                i <= self.visible_chunks <= self.chunks.len(),
                shown == self@.visible(),
                codes_view(codes@) == startable_codes(chunk_operations(shown.take(i as int))),
            decreases self.visible_chunks - i,
        {
            let ghost done = codes_view(codes@);
            let mut found = self.chunks[i].startable_codes();
            let ghost added = codes_view(found@);
            codes.append(&mut found);
            proof {
                assert(codes_view(codes@) =~= done + added);
                assert(shown.take(i + 1).drop_last() =~= shown.take(i as int));
                assert(shown.take(i + 1).last() == self@.chunks[i as int]);
                lemma_startable_concat(
                    chunk_operations(shown.take(i as int)),
                    self@.chunks[i as int].operations,
                );
            }
            i += 1;
        }
        assert(shown.take(i as int) =~= shown);
        codes
    }

    /// The number of widgets that are shown and whose processes are watched:
    /// the processes to look at before the widgets are polled. The count
    /// stops at the largest `usize`.
    pub fn watched_count(&self) -> (count: usize)
        requires
            self@.wf(),
        ensures
            count == crate::elements::clamped(watched_widgets(chunk_operations(self@.visible()))),
    {
        let mut count: usize = 0;
        let ghost shown = self@.visible();
        let mut i: usize = 0;
        assert(shown.take(0) =~= Seq::empty());
        while i < self.visible_chunks
            invariant
                i <= self.visible_chunks <= self.chunks.len(),
                shown == self@.visible(),
                count == crate::elements::clamped(
                    watched_widgets(chunk_operations(shown.take(i as int))),
                ),
            decreases self.visible_chunks - i,
        {
            count = count.saturating_add(self.chunks[i].watched_count());
            proof {
                assert(shown.take(i + 1).drop_last() =~= shown.take(i as int));
                assert(shown.take(i + 1).last() == self@.chunks[i as int]);
                lemma_startable_concat(
                    chunk_operations(shown.take(i as int)),
                    self@.chunks[i as int].operations,
                );
            }
            i += 1;
        }
        assert(shown.take(i as int) =~= shown);
        count
    }

    /// Tells the widgets that are shown and were not started to start, each
    /// with the next of `launches`, and says whether one did.
    pub fn render_widgets(&mut self, launches: Vec<Launch>) -> (started: bool)
        requires
            old(self)@.wf(),
        ensures
            final(self)@ == old(self)@.widgets_started(launches_view(launches@)),
            started == (chunks_launches_used(old(self)@.visible(), launches@.len()) > 0),
            final(self)@.wf(),
    {
        let ghost all = self@.chunks;
        let ghost shown = self@.visible();
        let ghost given = launches_view(launches@);
        let ghost total = launches@.len();
        let mut launches = launches;
        let mut started = false;
        let mut i: usize = 0;
        let ghost used: nat = 0;
        proof {
            assert(shown.skip(0) =~= shown);
            assert(given.skip(0) =~= given);
            assert(all.take(0) + started_chunks(shown, given) =~= started_chunks(shown, given));
        }
        while i < self.visible_chunks
            invariant
                i <= self.visible_chunks <= self.chunks.len(),
                all == old(self)@.chunks,
                shown == old(self)@.visible(),
                total == given.len(),
                self@.footer == old(self)@.footer,
                self@.visible_chunks == old(self)@.visible_chunks,
                self@.chunks.len() == all.len(),
                self@.wf(),
                used <= total,
                launches_view(launches@) == given.skip(used as int),
                self@.chunks.skip(i as int) == all.skip(i as int),
                self@.chunks.take(i as int) + started_chunks(
                    shown.skip(i as int),
                    given.skip(used as int),
                ) == started_chunks(shown, given),
                used + chunks_launches_used(shown.skip(i as int), (total - used) as nat)
                    == chunks_launches_used(shown, total),
                started == (used > 0),
            decreases self.visible_chunks - i,
        {
            let ghost now = self@.chunks;
            let ghost rest = shown.skip(i as int);
            let ghost left = given.skip(used as int);
            let ghost before_exec = self.chunks@;
            assert(rest[0] == all[i as int]);
            assert(now.skip(i as int)[0] == now[i as int]);
            assert(now[i as int].wf());
            assert(rest.drop_first() =~= shown.skip(i + 1));
            assert(launches_view(launches@).len() == launches@.len());
            let began = self.chunks[i].start_widgets(&mut launches);
            started = started || began;
            proof {
                let after = self@.chunks;
                let taken = launches_used(all[i as int].operations, left.len());
                assert(left.skip(taken as int) =~= given.skip((used + taken) as int));
                assert forall|k: int| 0 <= k < after.len() implies (#[trigger] after[k]).wf() by {
                    if k != i {
                        assert(self.chunks@[k] == before_exec[k]);
                        assert(now[k].wf());
                    }
                }
                assert(after.skip(i + 1) =~= all.skip(i + 1)) by {
                    assert forall|k: int| 0 <= k < all.len() - i - 1 implies #[trigger] after.skip(
                        i + 1,
                    )[k] == all.skip(i + 1)[k] by {
                        assert(self.chunks@[k + i + 1] == before_exec[k + i + 1]);
                        assert(now.skip(i as int)[k + 1] == all.skip(i as int)[k + 1]);
                    }
                }
                assert(after.take(i + 1) =~= now.take(i as int).push(after[i as int]));
                used = used + taken;
                assert(after.take(i + 1) + started_chunks(
                    shown.skip(i + 1),
                    given.skip(used as int),
                ) =~= started_chunks(shown, given));
            }
            i += 1;
        }
        proof {
            assert(shown.skip(i as int) =~= Seq::empty());
            assert(self@.chunks.take(i as int) + Seq::<SlideChunkView>::empty()
                =~= self@.chunks.take(i as int));
            assert(self@.chunks =~= self@.chunks.take(i as int) + self@.chunks.skip(i as int));
        }
        started
    }

    /// Has the widgets that are shown and whose processes are watched take
    /// in what was seen, each the next of `observed`, and says whether every
    /// operation that is shown is done.
    pub fn poll_widgets(&mut self, observed: Vec<ExecutionState>) -> (settled: bool)
        requires
            old(self)@.wf(),
        ensures
            final(self)@ == old(self)@.widgets_polled(observations_view(observed@)),
            settled == chunks_settled(final(self)@.visible()),
            final(self)@.wf(),
    {
        let ghost all = self@.chunks;
        let ghost shown = self@.visible();
        let ghost given = observations_view(observed@);
        let ghost total = observed@.len();
        let mut observed = observed;
        let mut settled = true;
        let mut i: usize = 0;
        let ghost used: nat = 0;
        proof {
            assert(shown.skip(0) =~= shown);
            assert(given.skip(0) =~= given);
            assert(all.take(0) + polled_chunks(shown, given) =~= polled_chunks(shown, given));
        }
        while i < self.visible_chunks
            invariant
                i <= self.visible_chunks <= self.chunks.len(),
                all == old(self)@.chunks,
                shown == old(self)@.visible(),
                total == given.len(),
                self@.footer == old(self)@.footer,
                self@.visible_chunks == old(self)@.visible_chunks,
                self@.chunks.len() == all.len(),
                self@.wf(),
                used <= total,
                observations_view(observed@) == given.skip(used as int),
                self@.chunks.skip(i as int) == all.skip(i as int),
                self@.chunks.take(i as int) + polled_chunks(
                    shown.skip(i as int),
                    given.skip(used as int),
                ) == polled_chunks(shown, given),
                settled == chunks_settled(self@.chunks.take(i as int)),
            decreases self.visible_chunks - i,
        {
            let ghost now = self@.chunks;
            let ghost rest = shown.skip(i as int);
            let ghost left = given.skip(used as int);
            let ghost before_exec = self.chunks@;
            assert(rest[0] == all[i as int]);
            assert(now.skip(i as int)[0] == now[i as int]);
            assert(now[i as int].wf());
            assert(rest.drop_first() =~= shown.skip(i + 1));
            assert(observations_view(observed@).len() == observed@.len());
            let done = self.chunks[i].poll_widgets(&mut observed);
            proof {
                let after = self@.chunks;
                let taken = observations_used(all[i as int].operations, left.len());
                assert(left.skip(taken as int) =~= given.skip((used + taken) as int));
                assert forall|k: int| 0 <= k < after.len() implies (#[trigger] after[k]).wf() by {
                    if k != i {
                        assert(self.chunks@[k] == before_exec[k]);
                        assert(now[k].wf());
                    }
                }
                assert(after.skip(i + 1) =~= all.skip(i + 1)) by {
                    assert forall|k: int| 0 <= k < all.len() - i - 1 implies #[trigger] after.skip(
                        i + 1,
                    )[k] == all.skip(i + 1)[k] by {
                        assert(self.chunks@[k + i + 1] == before_exec[k + i + 1]);
                        assert(now.skip(i as int)[k + 1] == all.skip(i as int)[k + 1]);
                    }
                }
                assert(after.take(i + 1) =~= now.take(i as int).push(after[i as int]));
                used = used + taken;
                assert(after.take(i + 1) + polled_chunks(
                    shown.skip(i + 1),
                    given.skip(used as int),
                ) =~= polled_chunks(shown, given));
                assert(chunks_settled(after.take(i + 1)) == (chunks_settled(now.take(i as int))
                    && all_settled(after[i as int].operations))) by {
                    if chunks_settled(after.take(i + 1)) {
                        assert(all_settled(after.take(i + 1)[i as int].operations));
                        assert forall|k: int| 0 <= k < i implies all_settled(
                            (#[trigger] now.take(i as int)[k]).operations,
                        ) by {
                            assert(all_settled(after.take(i + 1)[k].operations));
                        }
                    } else if chunks_settled(now.take(i as int)) && all_settled(
                        after[i as int].operations,
                    ) {
                        assert forall|k: int| 0 <= k < i + 1 implies all_settled(
                            (#[trigger] after.take(i + 1)[k]).operations,
                        ) by {
                            if k < i {
                                assert(all_settled(now.take(i as int)[k].operations));
                            }
                        }
                    }
                }
            }
            settled = settled && done;
            i += 1;
        }
        proof {
            assert(shown.skip(i as int) =~= Seq::empty());
            assert(self@.chunks.take(i as int) + Seq::<SlideChunkView>::empty()
                =~= self@.chunks.take(i as int));
            assert(self@.chunks =~= self@.chunks.take(i as int) + self@.chunks.skip(i as int));
        }
        settled
    }
}

impl PresentationView {
    /// The presentation after the widgets of the current slide were told to
    /// start.
    pub open spec fn widgets_started(self, launches: Seq<Result<(), Seq<char>>>) -> PresentationView {
        self.with_current(self.current_slide().widgets_started(launches))
    }

    /// The presentation after the widgets of the current slide took in what
    /// was seen.
    pub open spec fn widgets_polled(self, observed: Seq<Observation>) -> PresentationView {
        self.with_current(self.current_slide().widgets_polled(observed))
    }

    /// Whether a widget of the current slide would start, given as many
    /// launches.
    pub open spec fn starts_widget(self, launches: nat) -> bool {
        chunks_launches_used(self.current_slide().visible(), launches) > 0
    }
}

impl Presentation {
    /// The code of every widget of the current slide that is shown and was
    /// not started, in order.
    pub fn startable_codes(&self) -> (codes: Vec<&Code>)
        requires
            self@.wf(),
        ensures
            codes_view(codes@) == startable_codes(
                chunk_operations(self@.current_slide().visible()),
            ),
    {
        assert(self@.slides[self.current_slide_index as int].wf());
        self.slides[self.current_slide_index].startable_codes()
    }

    /// The number of widgets of the current slide that are shown and whose
    /// processes are watched.
    pub fn watched_count(&self) -> (count: usize)
        requires
            self@.wf(),
        ensures
            count == crate::elements::clamped(
                watched_widgets(chunk_operations(self@.current_slide().visible())),
            ),
    {
        assert(self@.slides[self.current_slide_index as int].wf());
        self.slides[self.current_slide_index].watched_count()
    }

    /// Tells the widgets of the current slide that were not started to
    /// start, each with the next of `launches`, and says whether one did.
    pub fn render_slide_widgets(&mut self, launches: Vec<Launch>) -> (started: bool)
        requires
            old(self)@.wf(),
        ensures
            final(self)@ == old(self)@.widgets_started(launches_view(launches@)),
            started == old(self)@.starts_widget(launches@.len()),
            final(self)@.wf(),
    {
        let ghost before = self@;
        let current = self.current_slide_index;
        assert(before.slides[current as int].wf());
        let started = self.slides[current].render_widgets(launches);
        proof {
            assert(self@.slides =~= before.slides.update(
                current as int,
                before.current_slide().widgets_started(launches_view(launches@)),
            ));
            lemma_replace_slide(
                before,
                current as int,
                before.current_slide().widgets_started(launches_view(launches@)),
            );
        }
        started
    }

    /// Has the widgets of the current slide take in what was seen of their
    /// processes, and says whether every operation of the slide that is
    /// shown is done.
    pub fn widgets_rendered(&mut self, observed: Vec<ExecutionState>) -> (settled: bool)
        requires
            old(self)@.wf(),
        ensures
            final(self)@ == old(self)@.widgets_polled(observations_view(observed@)),
            settled == chunks_settled(final(self)@.current_slide().visible()),
            final(self)@.wf(),
    {
        let ghost before = self@;
        let current = self.current_slide_index;
        assert(before.slides[current as int].wf());
        let settled = self.slides[current].poll_widgets(observed);
        proof {
            assert(self@.slides =~= before.slides.update(
                current as int,
                before.current_slide().widgets_polled(observations_view(observed@)),
            ));
            lemma_replace_slide(
                before,
                current as int,
                before.current_slide().widgets_polled(observations_view(observed@)),
            );
        }
        settled
    }
}

} // verus!
