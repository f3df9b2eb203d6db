//! Progressive reveal of a code block: a cursor over its highlight groups.
//!
//! All lines of one block share one context. The cursor in it names the group
//! that is highlighted now; stepping moves the cursor and touches nothing
//! else, so a step costs the same whatever the block's size.

use crate::elements::{group_covers, groups_view, Highlight, HighlightGroup};
use crate::theme::Alignment;
use vstd::prelude::*;

verus! {

/// What the lines of one code block share.
#[derive(Clone, Debug)]
pub struct HighlightContext {
    /// The reveal steps, each the lines that it highlights.
    pub groups: Vec<HighlightGroup>,
    /// The step that is shown.
    pub current: usize,
    /// The width of the block's widest line.
    pub block_length: usize,
    pub alignment: Alignment,
}

/// What a [`HighlightContext`] holds.
pub struct HighlightState {
    pub groups: Seq<Seq<Highlight>>,
    pub current: usize,
    pub block_length: usize,
    pub alignment: Alignment,
}

impl View for HighlightContext {
    type V = HighlightState;

    open spec fn view(&self) -> HighlightState {
        HighlightState {
            groups: groups_view(self.groups@),
            current: self.current,
            block_length: self.block_length,
            alignment: self.alignment,
        }
    }
}

impl HighlightState {
    /// The cursor names one of the steps; without steps it is zero.
    pub open spec fn wf(self) -> bool {
        &&& self.groups.len() <= usize::MAX
        &&& if self.groups.len() == 0 {
            self.current == 0
        } else {
            self.current < self.groups.len()
        }
    }

    /// Whether a step follows the current one.
    pub open spec fn can_advance(self) -> bool {
        self.current + 1 < self.groups.len()
    }

    /// One step forward, unless the last step is shown.
    pub open spec fn advanced(self) -> HighlightState {
        if self.can_advance() {
            HighlightState { current: (self.current + 1) as usize, ..self }
        } else {
            self
        }
    }

    /// `times` steps forward, stopping at the last step.
    pub open spec fn advanced_by(self, times: nat) -> HighlightState
        decreases times,
    {
        if times == 0 {
            self
        } else {
            self.advanced().advanced_by((times - 1) as nat)
        }
    }

    /// One step back, unless the first step is shown.
    pub open spec fn retreated(self) -> HighlightState {
        if self.current > 0 {
            HighlightState { current: (self.current - 1) as usize, ..self }
        } else {
            self
        }
    }

    /// Back at the first step.
    pub open spec fn reset(self) -> HighlightState {
        HighlightState { current: 0, ..self }
    }

    /// At the last step.
    pub open spec fn at_end(self) -> HighlightState {
        HighlightState {
            current: if self.groups.len() > 0 {
                (self.groups.len() - 1) as usize
            } else {
                0
            },
            ..self
        }
    }

    /// Whether the line with the given number is highlighted at the current
    /// step. A line without a number never is.
    pub open spec fn highlights(self, line_number: Option<u16>) -> bool {
        &&& line_number is Some
        &&& self.current < self.groups.len()
        &&& group_covers(self.groups[self.current as int], line_number->0)
    }
}

impl HighlightContext {
    /// A context that shows the first of `groups`.
    pub fn new(groups: Vec<HighlightGroup>, block_length: usize, alignment: Alignment) -> (context:
        Self)
        ensures
            context@ == (HighlightState {
                groups: groups_view(groups@),
                current: 0,
                block_length,
                alignment,
            }),
            context@.wf(),
    {
        assert(groups_view(groups@).len() == groups.len());
        HighlightContext { groups, current: 0, block_length, alignment }
    }

    /// Moves one step forward; `false`, with nothing changed, at the last step.
    pub fn mutate_next(&mut self) -> (moved: bool)
        requires
            old(self)@.wf(),
        ensures
            moved == old(self)@.can_advance(),
            final(self)@ == old(self)@.advanced(),
            final(self)@.wf(),
    {
        if self.groups.len() > 0 && self.current < self.groups.len() - 1 {
            self.current += 1;
            true
        } else {
            false
        }
    }

    /// Moves one step back; `false`, with nothing changed, at the first step.
    pub fn mutate_previous(&mut self) -> (moved: bool)
        requires
            old(self)@.wf(),
        ensures
            moved == (old(self)@.current > 0),
            final(self)@ == old(self)@.retreated(),
            final(self)@.wf(),
    {
        if self.current == 0 {
            false
        } else {
            self.current -= 1;
            true
        }
    }

    /// Goes back to the first step.
    pub fn reset_mutations(&mut self)
        requires
            old(self)@.wf(),
        ensures
            final(self)@ == old(self)@.reset(),
            final(self)@.wf(),
    {
        self.current = 0;
    }

    /// Goes to the last step.
    pub fn apply_all_mutations(&mut self)
        requires
            old(self)@.wf(),
        ensures
            final(self)@ == old(self)@.at_end(),
            final(self)@.wf(),
    {
        self.current = if self.groups.len() > 0 {
            self.groups.len() - 1
        } else {
            0
        };
    }

    /// The current step and the number of steps.
    pub fn mutations(&self) -> (progress: (usize, usize))
        ensures
            progress.0 == self@.current,
            progress.1 == self@.groups.len(),
    {
        (self.current, self.groups.len())
    }

    /// Whether the line with the given number is highlighted now.
    pub fn highlights(&self, line_number: Option<u16>) -> (highlighted: bool)
        ensures
            highlighted == self@.highlights(line_number),
    {
        match line_number {
            Some(number) => {
                if self.current < self.groups.len() {
                    assert(self@.groups[self.current as int] == self.groups@[self.current as int]@);
                    self.groups[self.current].contains(number)
                } else {
                    false
                }
            },
            None => false,
        }
    }
}

/// However often a reveal was advanced, a reset shows its first step again.
pub proof fn lemma_reset_after_advancing(state: HighlightState, times: nat)
    requires
        state.wf(),
    ensures
        state.advanced_by(times).reset().current == 0,
        state.advanced_by(times).reset() == state.reset(),
        state.advanced_by(times).wf(),
    decreases times,
{
    if times > 0 {
        lemma_reset_after_advancing(state.advanced(), (times - 1) as nat);
    }
}

/// Going to the last step and then one step back shows the step before the
/// last; with a single step, or none, it shows the first.
pub proof fn lemma_retreat_from_end(state: HighlightState)
    requires
        state.wf(),
    ensures
        state.groups.len() >= 2 ==> state.at_end().retreated().current == state.groups.len() - 2,
        state.groups.len() <= 1 ==> state.at_end().retreated().current == 0,
        state.at_end().retreated().wf(),
{
}

} // verus!
