//! A chunk: the part of a slide that is revealed in one step.

use crate::highlight::{HighlightContext, HighlightState};
use crate::operation::{operations_view, DynamicOperationView, RenderOperation, RenderOperationView};
use crate::execution::ExecutionState;
use crate::widgets::{
    all_settled, codes_view, launches_used, launches_view, observations_used, observations_view,
    polled_operations, startable_codes, started_operations, watched_widgets, Launch, Observation,
};
use vstd::prelude::*;

verus! {

/// Steps through the highlight groups of one code block. The mutator names the
/// block's context by its position among the contexts of the chunk.
#[derive(Clone, Copy, Debug, PartialEq, Eq)]
pub struct HighlightMutator {
    pub context: usize,
}

/// The views of a sequence of contexts.
pub open spec fn contexts_view(contexts: Seq<HighlightContext>) -> Seq<HighlightState> {
    contexts.map_values(|context: HighlightContext| context@)
}

/// The contexts that a sequence of mutators names.
pub open spec fn targets(mutators: Seq<HighlightMutator>) -> Seq<usize> {
    mutators.map_values(|mutator: HighlightMutator| mutator.context)
}

/// Whether one of the contexts that `mutators` names can step forward.
pub open spec fn can_advance(contexts: Seq<HighlightState>, mutators: Seq<usize>) -> bool {
    exists|i: int| 0 <= i < mutators.len() && (#[trigger] contexts[mutators[i] as int]).can_advance()
}

/// Whether one of the contexts that `mutators` names can step back.
pub open spec fn can_retreat(contexts: Seq<HighlightState>, mutators: Seq<usize>) -> bool {
    exists|i: int| 0 <= i < mutators.len() && (#[trigger] contexts[mutators[i] as int]).current > 0
}

/// The contexts after the first mutator that can step forward has done so.
pub open spec fn advanced(contexts: Seq<HighlightState>, mutators: Seq<usize>) -> Seq<
    HighlightState,
>
    decreases mutators.len(),
{
    if mutators.len() == 0 {
        contexts
    } else {
        let first = mutators[0] as int;
        if contexts[first].can_advance() {
            contexts.update(first, contexts[first].advanced())
        } else {
            advanced(contexts, mutators.drop_first())
        }
    }
}

/// The contexts after the last mutator that can step back has done so.
pub open spec fn retreated(contexts: Seq<HighlightState>, mutators: Seq<usize>) -> Seq<
    HighlightState,
>
    decreases mutators.len(),
{
    if mutators.len() == 0 {
        contexts
    } else {
        let last = mutators.last() as int;
        if contexts[last].current > 0 {
            contexts.update(last, contexts[last].retreated())
        } else {
            retreated(contexts, mutators.drop_last())
        }
    }
}

/// The contexts after every mutator went back to its first step.
pub open spec fn all_reset(contexts: Seq<HighlightState>, mutators: Seq<usize>) -> Seq<
    HighlightState,
>
    decreases mutators.len(),
{
    if mutators.len() == 0 {
        contexts
    } else {
        let last = mutators.last() as int;
        let before = all_reset(contexts, mutators.drop_last());
        before.update(last, before[last].reset())
    }
}

/// The contexts after every mutator went to its last step.
pub open spec fn all_applied(contexts: Seq<HighlightState>, mutators: Seq<usize>) -> Seq<
    HighlightState,
>
    decreases mutators.len(),
{
    if mutators.len() == 0 {
        contexts
    } else {
        let last = mutators.last() as int;
        let before = all_applied(contexts, mutators.drop_last());
        before.update(last, before[last].at_end())
    }
}

/// Whether every code line among `operations` names one of `count` contexts.
pub open spec fn code_lines_within(operations: Seq<RenderOperationView>, count: nat) -> bool {
    forall|i: int|
        0 <= i < operations.len() ==> match #[trigger] operations[i] {
            RenderOperationView::RenderDynamic(DynamicOperationView::CodeLine(line)) => line.context
                < count,
            _ => true,
        }
}

/// Whether every context is well formed.
pub open spec fn contexts_wf(contexts: Seq<HighlightState>) -> bool {
    forall|i: int| 0 <= i < contexts.len() ==> (#[trigger] contexts[i]).wf()
}

/// Whether every mutator names one of `count` contexts.
pub open spec fn mutators_within(mutators: Seq<usize>, count: nat) -> bool {
    forall|i: int| 0 <= i < mutators.len() ==> #[trigger] mutators[i] < count
}

/// What a [`SlideChunk`] holds.
pub struct SlideChunkView {
    pub operations: Seq<RenderOperationView>,
    pub contexts: Seq<HighlightState>,
    pub mutators: Seq<usize>,
}

impl SlideChunkView {
    /// The contexts are well formed, and the mutators and the code lines name
    /// contexts of this chunk.
    pub open spec fn wf(self) -> bool {
        &&& contexts_wf(self.contexts)
        &&& mutators_within(self.mutators, self.contexts.len())
        &&& code_lines_within(self.operations, self.contexts.len())
    }
}

/// The operations that are revealed together, with the contexts of the code
/// blocks among them and the mutators that step through those.
#[derive(Clone, Debug)]
pub struct SlideChunk {
    operations: Vec<RenderOperation>,
    contexts: Vec<HighlightContext>,
    mutators: Vec<HighlightMutator>,
}

impl View for SlideChunk {
    type V = SlideChunkView;

    closed spec fn view(&self) -> SlideChunkView {
        SlideChunkView {
            operations: operations_view(self.operations@),
            contexts: contexts_view(self.contexts@),
            mutators: targets(self.mutators@),
        }
    }
}

/// The contexts stay well formed under any single step.
pub proof fn lemma_update_wf(contexts: Seq<HighlightState>, at: int, context: HighlightState)
    requires
        contexts_wf(contexts),
        context.wf(),
        0 <= at < contexts.len(),
    ensures
        contexts_wf(contexts.update(at, context)),
{
    assert forall|i: int| 0 <= i < contexts.len() implies (#[trigger] contexts.update(
        at,
        context,
    )[i]).wf() by {
        if i != at {
            assert(contexts[i].wf());
        }
    }
}

impl SlideChunk {
    /// A chunk of the given operations, contexts and mutators.
    pub fn new(
        operations: Vec<RenderOperation>,
        contexts: Vec<HighlightContext>,
        mutators: Vec<HighlightMutator>,
    ) -> (chunk: Self)
        ensures
            chunk@ == (SlideChunkView {
                operations: operations_view(operations@),
                contexts: contexts_view(contexts@),
                mutators: targets(mutators@),
            }),
    {
        SlideChunk { operations, contexts, mutators }
    }

    /// The chunk's operations.
    pub fn operations(&self) -> (operations: &Vec<RenderOperation>)
        ensures
            operations_view(operations@) == self@.operations,
    {
        &self.operations
    }

    /// The chunk's operations, the chunk given up.
    pub fn into_operations(self) -> (operations: Vec<RenderOperation>)
        ensures
            operations_view(operations@) == self@.operations,
    {
        self.operations
    }

    /// The contexts of the chunk's code blocks.
    pub fn contexts(&self) -> (contexts: &Vec<HighlightContext>)
        ensures
            contexts_view(contexts@) == self@.contexts,
    {
        &self.contexts
    }

    /// The chunk's last operation.
    pub fn last_operation(&self) -> (last: Option<&RenderOperation>)
        ensures
            match last {
                Some(operation) => self@.operations.len() > 0 && operation@
                    == self@.operations.last(),
                None => self@.operations.len() == 0,
            },
    {
        if self.operations.len() == 0 {
            None
        } else {
            Some(&self.operations[self.operations.len() - 1])
        }
    }

    /// Drops the chunk's last operation, if it has one.
    pub fn pop_last(&mut self)
        ensures
            final(self)@ == (SlideChunkView {
                operations: if old(self)@.operations.len() > 0 {
                    old(self)@.operations.drop_last()
                } else {
                    old(self)@.operations
                },
                ..old(self)@
            }),
            old(self)@.wf() ==> final(self)@.wf(),
    {
        let popped = self.operations.pop();
        proof {
            if popped is Some {
                assert(self@.operations =~= old(self)@.operations.drop_last());
            }
            if old(self)@.wf() {
                assert forall|i: int| 0 <= i < self@.operations.len() implies match
                    #[trigger] self@.operations[i] {
                    RenderOperationView::RenderDynamic(
                        DynamicOperationView::CodeLine(line),
                    ) => line.context < self@.contexts.len(),
                    _ => true,
                } by {
                    assert(self@.operations[i] == old(self)@.operations[i]);
                }
            }
        }
    }

    /// Lets the first mutator that can step forward do so, and says whether
    /// one did.
    pub fn mutate_next(&mut self) -> (moved: bool)
        requires
            old(self)@.wf(),
        ensures
            moved == can_advance(old(self)@.contexts, old(self)@.mutators),
            final(self)@ == (SlideChunkView {
                contexts: advanced(old(self)@.contexts, old(self)@.mutators),
                ..old(self)@
            }),
            !moved ==> final(self)@ == old(self)@,
            final(self)@.wf(),
    {
        let ghost contexts = self@.contexts;
        let ghost mutators = self@.mutators;
        let mut i: usize = 0;
        assert(mutators.skip(0) =~= mutators);
        while i < self.mutators.len()
            invariant
                i <= self.mutators.len(),
                self@ == old(self)@,
                contexts == self@.contexts,
                mutators == self@.mutators,
                self@.wf(),
                forall|k: int| 0 <= k < i ==> !(#[trigger] contexts[mutators[k] as int]).can_advance(),
                advanced(contexts, mutators) == advanced(contexts, mutators.skip(i as int)),
            decreases self.mutators.len() - i,
        {
            let target = self.mutators[i].context;
            assert(mutators[i as int] == target);
            assert(target < contexts.len());
            assert(contexts[target as int].wf());
            assert(mutators.skip(i as int)[0] == target);
            assert(mutators.skip(i as int).drop_first() =~= mutators.skip(i + 1));
            if self.contexts[target].mutate_next() {
                proof {
                    assert(self@.contexts =~= contexts.update(
                        target as int,
                        contexts[target as int].advanced(),
                    ));
                    lemma_update_wf(contexts, target as int, contexts[target as int].advanced());
                    assert(self@.operations == old(self)@.operations);
                }
                return true;
            }
            assert(self@.contexts =~= contexts);
            i += 1;
        }
        false
    }

    /// Lets the last mutator that can step back do so, and says whether one
    /// did.
    pub fn mutate_previous(&mut self) -> (moved: bool)
        requires
            old(self)@.wf(),
        ensures
            moved == can_retreat(old(self)@.contexts, old(self)@.mutators),
            final(self)@ == (SlideChunkView {
                contexts: retreated(old(self)@.contexts, old(self)@.mutators),
                ..old(self)@
            }),
            !moved ==> final(self)@ == old(self)@,
            final(self)@.wf(),
    {
        let ghost contexts = self@.contexts;
        let ghost mutators = self@.mutators;
        let mut i: usize = self.mutators.len();
        assert(mutators.take(i as int) =~= mutators);
        while i > 0
            invariant
                i <= self.mutators.len(),
                self@ == old(self)@,
                contexts == self@.contexts,
                mutators == self@.mutators,
                self@.wf(),
                forall|k: int|
                    i <= k < mutators.len() ==> (#[trigger] contexts[mutators[k] as int]).current
                        == 0,
                retreated(contexts, mutators) == retreated(contexts, mutators.take(i as int)),
            decreases i,
        {
            let target = self.mutators[i - 1].context;
            assert(mutators[i - 1] == target);
            assert(target < contexts.len());
            assert(contexts[target as int].wf());
            assert(mutators.take(i as int).last() == target);
            assert(mutators.take(i as int).drop_last() =~= mutators.take(i - 1));
            if self.contexts[target].mutate_previous() {
                proof {
                    assert(self@.contexts =~= contexts.update(
                        target as int,
                        contexts[target as int].retreated(),
                    ));
                    lemma_update_wf(contexts, target as int, contexts[target as int].retreated());
                }
                return true;
            }
            assert(self@.contexts =~= contexts);
            i -= 1;
        }
        false
    }

    /// Sends every mutator back to its first step.
    pub fn reset_mutations(&mut self)
        requires
            old(self)@.wf(),
        ensures
            final(self)@ == (SlideChunkView {
                contexts: all_reset(old(self)@.contexts, old(self)@.mutators),
                ..old(self)@
            }),
            final(self)@.wf(),
    {
        let ghost contexts = self@.contexts;
        let ghost mutators = self@.mutators;
        let mut i: usize = 0;
        assert(mutators.take(0) =~= Seq::<usize>::empty());
        while i < self.mutators.len()
            invariant
                i <= self.mutators.len(),
                old(self)@.wf(),
                contexts == old(self)@.contexts,
                mutators == old(self)@.mutators,
                self@ == (SlideChunkView {
                    contexts: all_reset(contexts, mutators.take(i as int)),
                    ..old(self)@
                }),
                self@.wf(),
            decreases self.mutators.len() - i,
        {
            let target = self.mutators[i].context;
            let ghost before = self@.contexts;
            assert(mutators[i as int] == target);
            assert(before[target as int].wf());
            self.contexts[target].reset_mutations();
            i += 1;
            proof {
                assert(mutators.take(i as int).drop_last() =~= mutators.take(i - 1));
                assert(self@.contexts =~= before.update(target as int, before[target as int].reset()));
                lemma_update_wf(before, target as int, before[target as int].reset());
            }
        }
        assert(mutators.take(i as int) =~= mutators);
    }

    /// Sends every mutator to its last step.
    pub fn apply_all_mutations(&mut self)
        requires
            old(self)@.wf(),
        ensures
            final(self)@ == (SlideChunkView {
                contexts: all_applied(old(self)@.contexts, old(self)@.mutators),
                ..old(self)@
            }),
            final(self)@.wf(),
    {
        let ghost contexts = self@.contexts;
        let ghost mutators = self@.mutators;
        let mut i: usize = 0;
        assert(mutators.take(0) =~= Seq::<usize>::empty());
        while i < self.mutators.len()
            invariant
                i <= self.mutators.len(),
                old(self)@.wf(),
                contexts == old(self)@.contexts,
                mutators == old(self)@.mutators,
                self@ == (SlideChunkView {
                    contexts: all_applied(contexts, mutators.take(i as int)),
                    ..old(self)@
                }),
                self@.wf(),
            decreases self.mutators.len() - i,
        {
            let target = self.mutators[i].context;
            let ghost before = self@.contexts;
            assert(mutators[i as int] == target);
            assert(before[target as int].wf());
            self.contexts[target].apply_all_mutations();
            i += 1;
            proof {
                assert(mutators.take(i as int).drop_last() =~= mutators.take(i - 1));
                assert(self@.contexts =~= before.update(
                    target as int,
                    before[target as int].at_end(),
                ));
                lemma_update_wf(before, target as int, before[target as int].at_end());
            }
        }
        assert(mutators.take(i as int) =~= mutators);
    }
}

/// Whether an operation is as it was, or was a widget and is one.
pub open spec fn same_or_widget(before: RenderOperationView, after: RenderOperationView) -> bool {
    after == before || (before is RenderOnDemand && after is RenderOnDemand)
}

/// Changing a widget leaves the code lines where they are.
pub proof fn lemma_code_lines_stay(
    before: Seq<RenderOperationView>,
    after: Seq<RenderOperationView>,
    count: nat,
)
    requires
        code_lines_within(before, count),
        before.len() == after.len(),
        forall|i: int| 0 <= i < before.len() ==> #[trigger] same_or_widget(before[i], after[i]),
    ensures
        code_lines_within(after, count),
{
    assert forall|i: int| 0 <= i < after.len() implies match #[trigger] after[i] {
        RenderOperationView::RenderDynamic(DynamicOperationView::CodeLine(line)) => line.context
            < count,
        _ => true,
    } by {
        assert(same_or_widget(before[i], after[i]));
        if after[i] == before[i] {
            assert(match before[i] {
                RenderOperationView::RenderDynamic(
                    DynamicOperationView::CodeLine(line),
                ) => line.context < count,
                _ => true,
            });
        }
    }
}

impl SlideChunk {
    /// The code of every widget of the chunk that was not started, in order.
    pub fn startable_codes(&self) -> (codes: Vec<&crate::elements::Code>)
        ensures
            codes_view(codes@) == startable_codes(self@.operations),
    {
        let mut codes: Vec<&crate::elements::Code> = Vec::new();
        let ghost all = self@.operations;
        let mut i: usize = 0;
        assert(all.take(0) =~= Seq::empty());
        assert(codes_view(codes@) =~= Seq::empty());
        while i < self.operations.len()
            invariant
                i <= self.operations.len(),
                all == self@.operations,
                codes_view(codes@) == startable_codes(all.take(i as int)),
            decreases self.operations.len() - i,
        {
            let ghost done = codes_view(codes@);
            assert(all.take(i + 1).drop_last() =~= all.take(i as int));
            assert(all.take(i + 1).last() == self.operations@[i as int]@);
            if let Some(code) = self.operations[i].startable_code() {
                codes.push(code);
                assert(codes_view(codes@) =~= done.push(code@));
            }
            i += 1;
        }
        assert(all.take(i as int) =~= all);
        codes
    }

    /// The number of widgets of the chunk whose processes are watched.
    pub fn watched_count(&self) -> (count: usize)
        ensures
            count == watched_widgets(self@.operations),
    {
        let mut count: usize = 0;
        let ghost all = self@.operations;
        let mut i: usize = 0;
        assert(all.take(0) =~= Seq::empty());
        while i < self.operations.len()
            invariant
                i <= self.operations.len(),
                count <= i,
                all == self@.operations,
                count == watched_widgets(all.take(i as int)),
            decreases self.operations.len() - i,
        {
            assert(all.take(i + 1).drop_last() =~= all.take(i as int));
            assert(all.take(i + 1).last() == self.operations@[i as int]@);
            if self.operations[i].is_watched() {
                count += 1;
            }
            i += 1;
        }
        assert(all.take(i as int) =~= all);
        count
    }

    /// Tells the widgets of the chunk that were not started to start, each
    /// with the next of `launches`, and says whether one did. The launches
    /// that were taken up are removed.
    pub fn start_widgets(&mut self, launches: &mut Vec<Launch>) -> (started: bool)
        ensures
            final(self)@ == (SlideChunkView {
                operations: started_operations(
                    old(self)@.operations,
                    launches_view(old(launches)@),
                ),
                ..old(self)@
            }),
            launches_view(final(launches)@) == launches_view(old(launches)@).skip(
                launches_used(old(self)@.operations, old(launches)@.len()) as int,
            ),
            launches_used(old(self)@.operations, old(launches)@.len()) <= old(launches)@.len(),
            started == (launches_used(old(self)@.operations, old(launches)@.len()) > 0),
            old(self)@.wf() ==> final(self)@.wf(),
    {
        let ghost all = self@.operations;
        let ghost given = launches_view(launches@);
        let ghost total = launches@.len();
        let mut started = false;
        let mut i: usize = 0;
        let ghost used: nat = 0;
        assert(all.skip(0) =~= all);
        assert(given.skip(0) =~= given);
        assert(all.take(0) + started_operations(all, given) =~= started_operations(all, given));
        while i < self.operations.len()
            invariant
                i <= self.operations.len(),
                all == old(self)@.operations,
                given == launches_view(old(launches)@),
                total == old(launches)@.len(),
                self@.contexts == old(self)@.contexts,
                self@.mutators == old(self)@.mutators,
                self@.operations.len() == all.len(),
                used <= total,
                launches_view(launches@) == given.skip(used as int),
                self@.operations.skip(i as int) == all.skip(i as int),
                self@.operations.take(i as int) + started_operations(
                    all.skip(i as int),
                    given.skip(used as int),
                ) == started_operations(all, given),
                used + launches_used(all.skip(i as int), (total - used) as nat) == launches_used(
                    all,
                    total,
                ),
                started == (used > 0),
                forall|k: int|
                    0 <= k < all.len() ==> #[trigger] same_or_widget(all[k], self@.operations[k]),
            decreases self.operations.len() - i,
        {
            let ghost now = self@.operations;
            let ghost before_exec = self.operations@;
            let ghost rest = all.skip(i as int);
            let ghost left = given.skip(used as int);
            assert(rest[0] == all[i as int]);
            assert(now.skip(i as int)[0] == now[i as int]);
            assert(rest.drop_first() =~= all.skip(i + 1));
            assert(launches_view(launches@).len() == launches@.len());
            if launches.len() > 0 && self.operations[i].startable_code().is_some() {
                let launch = launches.remove(0);
                assert(launch_is(launch, left[0])) by {
                    assert(launches_view(old(launches)@).skip(used as int)[0] == left[0]);
                }
                let begun = self.operations[i].start_render(launch);
                started = true;
                proof {
                    assert(left.drop_first() =~= given.skip((used + 1) as int));
                    assert(launches_view(launches@) =~= given.skip((used + 1) as int));
                    used = used + 1;
                }
            }
            proof {
                let after = self@.operations;
                assert forall|k: int| 0 <= k < all.len() implies #[trigger] same_or_widget(
                    all[k],
                    after[k],
                ) by {
                    assert(same_or_widget(all[k], now[k]));
                    if k != i {
                        assert(self.operations@[k] == before_exec[k]);
                    } else {
                        assert(now[i as int] == all[i as int]);
                    }
                }
                assert(after.skip(i + 1) =~= all.skip(i + 1)) by {
                    assert forall|k: int| 0 <= k < all.len() - i - 1 implies #[trigger] after.skip(
                        i + 1,
                    )[k] == all.skip(i + 1)[k] by {
                        assert(now.skip(i as int)[k + 1] == all.skip(i as int)[k + 1]);
                    }
                }
                assert(after.take(i + 1) =~= now.take(i as int).push(after[i as int]));
                assert(after.take(i + 1) + started_operations(
                    all.skip(i + 1),
                    given.skip(used as int),
                ) =~= started_operations(all, given));
            }
            i += 1;
        }
        proof {
            assert(self@.operations.take(i as int) =~= self@.operations);
            assert(all.skip(i as int) =~= Seq::empty());
            assert(self@.operations + Seq::<RenderOperationView>::empty() =~= self@.operations);
            if old(self)@.wf() {
                lemma_code_lines_stay(all, self@.operations, self@.contexts.len());
            }
        }
        started
    }

    /// Has the widgets of the chunk whose processes are watched take in what
    /// was seen, each the next of `observed`, and says whether every
    /// operation of the chunk is done. The observations that were taken up
    /// are removed.
    pub fn poll_widgets(&mut self, observed: &mut Vec<ExecutionState>) -> (settled: bool)
        ensures
            final(self)@ == (SlideChunkView {
                operations: polled_operations(
                    old(self)@.operations,
                    observations_view(old(observed)@),
                ),
                ..old(self)@
            }),
            observations_view(final(observed)@) == observations_view(old(observed)@).skip(
                observations_used(old(self)@.operations, old(observed)@.len()) as int,
            ),
            observations_used(old(self)@.operations, old(observed)@.len()) <= old(observed)@.len(),
            settled == all_settled(final(self)@.operations),
            old(self)@.wf() ==> final(self)@.wf(),
    {
        let ghost all = self@.operations;
        let ghost given = observations_view(observed@);
        let ghost total = observed@.len();
        let mut settled = true;
        let mut i: usize = 0;
        let ghost used: nat = 0;
        assert(all.skip(0) =~= all);
        assert(given.skip(0) =~= given);
        assert(all.take(0) + polled_operations(all, given) =~= polled_operations(all, given));
        while i < self.operations.len()
            invariant
                i <= self.operations.len(),
                all == old(self)@.operations,
                given == observations_view(old(observed)@),
                total == old(observed)@.len(),
                self@.contexts == old(self)@.contexts,
                self@.mutators == old(self)@.mutators,
                self@.operations.len() == all.len(),
                used <= total,
                observations_view(observed@) == given.skip(used as int),
                self@.operations.skip(i as int) == all.skip(i as int),
                self@.operations.take(i as int) + polled_operations(
                    all.skip(i as int),
                    given.skip(used as int),
                ) == polled_operations(all, given),
                used + observations_used(all.skip(i as int), (total - used) as nat)
                    == observations_used(all, total),
                settled == all_settled(self@.operations.take(i as int)),
                forall|k: int|
                    0 <= k < all.len() ==> #[trigger] same_or_widget(all[k], self@.operations[k]),
            decreases self.operations.len() - i,
        {
            let ghost now = self@.operations;
            let ghost before_exec = self.operations@;
            let ghost rest = all.skip(i as int);
            let ghost left = given.skip(used as int);
            assert(rest[0] == all[i as int]);
            assert(now.skip(i as int)[0] == now[i as int]);
            assert(rest.drop_first() =~= all.skip(i + 1));
            assert(observations_view(observed@).len() == observed@.len());
            let done = if observed.len() > 0 && self.operations[i].is_watched() {
                let seen = observed.remove(0);
                assert(Observation { output: crate::text::views_of(seen.output@), status: seen.status }
                    == left[0]) by {
                    assert(observations_view(old(observed)@).skip(used as int)[0] == left[0]);
                }
                let done = self.operations[i].poll_state(seen);
                proof {
                    assert(left.drop_first() =~= given.skip((used + 1) as int));
                    assert(observations_view(observed@) =~= given.skip((used + 1) as int));
                    used = used + 1;
                }
                done
            } else {
                self.operations[i].is_settled()
            };
            proof {
                let after = self@.operations;
                assert forall|k: int| 0 <= k < all.len() implies #[trigger] same_or_widget(
                    all[k],
                    after[k],
                ) by {
                    assert(same_or_widget(all[k], now[k]));
                    if k != i {
                        assert(self.operations@[k] == before_exec[k]);
                    } else {
                        assert(now[i as int] == all[i as int]);
                    }
                }
                assert(after.skip(i + 1) =~= all.skip(i + 1)) by {
                    assert forall|k: int| 0 <= k < all.len() - i - 1 implies #[trigger] after.skip(
                        i + 1,
                    )[k] == all.skip(i + 1)[k] by {
                        assert(now.skip(i as int)[k + 1] == all.skip(i as int)[k + 1]);
                    }
                }
                assert(after.take(i + 1) =~= now.take(i as int).push(after[i as int]));
                assert(after.take(i + 1) + polled_operations(
                    all.skip(i + 1),
                    given.skip(used as int),
                ) =~= polled_operations(all, given));
                assert(all_settled(after.take(i + 1)) == (all_settled(now.take(i as int))
                    && after[i as int].settled())) by {
                    if all_settled(after.take(i + 1)) {
                        assert(after.take(i + 1)[i as int].settled());
                        assert forall|k: int| 0 <= k < i implies (#[trigger] now.take(
                            i as int,
                        )[k]).settled() by {
                            assert(after.take(i + 1)[k].settled());
                        }
                    }
                }
            }
            settled = settled && done;
            i += 1;
        }
        proof {
            assert(self@.operations.take(i as int) =~= self@.operations);
            assert(all.skip(i as int) =~= Seq::empty());
            assert(self@.operations + Seq::<RenderOperationView>::empty() =~= self@.operations);
            if old(self)@.wf() {
                lemma_code_lines_stay(all, self@.operations, self@.contexts.len());
            }
        }
        settled
    }
}

/// Whether `launch` is the launch that `view` describes.
pub open spec fn launch_is(launch: Launch, view: Result<(), Seq<char>>) -> bool {
    crate::widgets::launch_view(launch) == view
}

} // verus!
