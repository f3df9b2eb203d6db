//! Widgets: the on-demand operations of a slide, started and watched.
//!
//! Processes are launched and watched by the caller. The functions here are
//! told, in the order of the operations, how each launch ended and what was
//! seen of each process, and bring the operations up to date.

use crate::elements::{Code, CodeView};
use crate::execution::{ExecutionState, ProcessStatus};
use crate::operation::{RenderOnDemandState, RenderOperation, RenderOperationView};
use crate::text::views_of;
use vstd::prelude::*;

verus! {

/// How the attempt to launch a process ended: well, or with an error.
pub type Launch = Result<(), String>;

/// What a launch holds.
pub open spec fn launch_view(launch: Launch) -> Result<(), Seq<char>> {
    match launch {
        Ok(_) => Ok(()),
        Err(error) => Err(error@),
    }
}

/// The views of a sequence of launches.
pub open spec fn launches_view(launches: Seq<Launch>) -> Seq<Result<(), Seq<char>>> {
    launches.map_values(|launch: Launch| launch_view(launch))
}

/// What was seen of a process: its output and its status.
pub struct Observation {
    pub output: Seq<Seq<char>>,
    pub status: ProcessStatus,
}

/// The views of a sequence of execution states.
pub open spec fn observations_view(observed: Seq<ExecutionState>) -> Seq<Observation> {
    observed.map_values(
        |state: ExecutionState| Observation { output: views_of(state.output@), status: state.status },
    )
}

impl RenderOperationView {
    /// Whether the operation is a widget that was not started.
    pub open spec fn startable(self) -> bool {
        match self {
            RenderOperationView::RenderOnDemand(widget) => widget.state
                == RenderOnDemandState::NotStarted,
            _ => false,
        }
    }

    /// Whether the operation is a widget whose process is watched.
    pub open spec fn watched(self) -> bool {
        match self {
            RenderOperationView::RenderOnDemand(widget) => widget.handle,
            _ => false,
        }
    }

    /// Whether the operation is done: it is no widget, or one in its last
    /// state.
    pub open spec fn settled(self) -> bool {
        match self {
            RenderOperationView::RenderOnDemand(widget) => widget.state
                == RenderOnDemandState::Rendered,
            _ => true,
        }
    }

    /// The operation after it was told to start.
    pub open spec fn started(self, launch: Result<(), Seq<char>>) -> RenderOperationView {
        match self {
            RenderOperationView::RenderOnDemand(widget) => RenderOperationView::RenderOnDemand(
                widget.started(launch),
            ),
            _ => self,
        }
    }

    /// The operation after its process was seen.
    pub open spec fn polled(self, observation: Observation) -> RenderOperationView {
        match self {
            RenderOperationView::RenderOnDemand(widget) => RenderOperationView::RenderOnDemand(
                widget.polled(observation.output, observation.status),
            ),
            _ => self,
        }
    }
}

/// The operations after the widgets among them that were not started were
/// told to start, each with the next of the launches, as far as those go.
pub open spec fn started_operations(
    operations: Seq<RenderOperationView>,
    launches: Seq<Result<(), Seq<char>>>,
) -> Seq<RenderOperationView>
    decreases operations.len(),
{
    if operations.len() == 0 {
        operations
    } else if operations[0].startable() && launches.len() > 0 {
        seq![operations[0].started(launches[0])] + started_operations(
            operations.drop_first(),
            launches.drop_first(),
        )
    } else {
        seq![operations[0]] + started_operations(operations.drop_first(), launches)
    }
}

/// The number of launches that the operations take up.
pub open spec fn launches_used(operations: Seq<RenderOperationView>, launches: nat) -> nat
    decreases operations.len(),
{
    if operations.len() == 0 || launches == 0 {
        0
    } else if operations[0].startable() {
        1 + launches_used(operations.drop_first(), (launches - 1) as nat)
    } else {
        launches_used(operations.drop_first(), launches)
    }
}

/// The operations after the widgets among them whose processes are watched
/// took in what was seen, each the next of the observations, as far as those
/// go.
pub open spec fn polled_operations(
    operations: Seq<RenderOperationView>,
    observed: Seq<Observation>,
) -> Seq<RenderOperationView>
    decreases operations.len(),
{
    if operations.len() == 0 {
        operations
    } else if operations[0].watched() && observed.len() > 0 {
        seq![operations[0].polled(observed[0])] + polled_operations(
            operations.drop_first(),
            observed.drop_first(),
        )
    } else {
        seq![operations[0]] + polled_operations(operations.drop_first(), observed)
    }
}

/// The number of observations that the operations take up.
pub open spec fn observations_used(operations: Seq<RenderOperationView>, observed: nat) -> nat
    decreases operations.len(),
{
    if operations.len() == 0 || observed == 0 {
        0
    } else if operations[0].watched() {
        1 + observations_used(operations.drop_first(), (observed - 1) as nat)
    } else {
        observations_used(operations.drop_first(), observed)
    }
}

/// The code of every widget among the operations that was not started, in
/// order.
pub open spec fn startable_codes(operations: Seq<RenderOperationView>) -> Seq<CodeView>
    decreases operations.len(),
{
    if operations.len() == 0 {
        Seq::empty()
    } else {
        startable_codes(operations.drop_last()) + (if operations.last().startable() {
            seq![operations.last()->RenderOnDemand_0.code]
        } else {
            Seq::empty()
        })
    }
}

/// The number of widgets among the operations whose processes are watched.
pub open spec fn watched_widgets(operations: Seq<RenderOperationView>) -> nat
    decreases operations.len(),
{
    if operations.len() == 0 {
        0
    } else {
        watched_widgets(operations.drop_last()) + (if operations.last().watched() {
            1nat
        } else {
            0nat
        })
    }
}

/// The views of a sequence of borrowed codes.
pub open spec fn codes_view(codes: Seq<&Code>) -> Seq<CodeView> {
    codes.map_values(|code: &Code| code@)
}

/// Whether every operation is done.
pub open spec fn all_settled(operations: Seq<RenderOperationView>) -> bool {
    forall|i: int| 0 <= i < operations.len() ==> (#[trigger] operations[i]).settled()
}

impl RenderOperation {
    /// Starts the operation, if it is a widget that was not started, and
    /// says whether it did.
    pub fn start_render(&mut self, launch: Launch) -> (started: bool)
        ensures
            started == old(self)@.startable(),
            final(self)@ == old(self)@.started(launch_view(launch)),
    {
        match self {
            RenderOperation::RenderOnDemand(widget) => widget.start_render(launch),
            _ => false,
        }
    }

    /// Takes in what was seen of the operation's process and says whether
    /// the operation is done.
    pub fn poll_state(&mut self, observed: ExecutionState) -> (settled: bool)
        ensures
            final(self)@ == old(self)@.polled(
                Observation { output: views_of(observed.output@), status: observed.status },
            ),
            settled == final(self)@.settled(),
    {
        match self {
            RenderOperation::RenderOnDemand(widget) => match widget.poll_state(observed) {
                RenderOnDemandState::Rendered => true,
                _ => false,
            },
            _ => true,
        }
    }

    /// The code of the operation, if it is a widget that was not started.
    pub fn startable_code(&self) -> (code: Option<&Code>)
        ensures
            code is Some == self@.startable(),
            code is Some ==> code->0@ == self@->RenderOnDemand_0.code,
    {
        match self {
            RenderOperation::RenderOnDemand(widget) => match widget.state() {
                RenderOnDemandState::NotStarted => Some(widget.code()),
                _ => None,
            },
            _ => None,
        }
    }

    /// Whether the operation is a widget whose process is watched.
    pub fn is_watched(&self) -> (watched: bool)
        ensures
            watched == self@.watched(),
    {
        match self {
            RenderOperation::RenderOnDemand(widget) => widget.has_handle(),
            _ => false,
        }
    }

    /// Whether the operation is done.
    pub fn is_settled(&self) -> (settled: bool)
        ensures
            settled == self@.settled(),
    {
        match self {
            RenderOperation::RenderOnDemand(widget) => match widget.state() {
                RenderOnDemandState::Rendered => true,
                _ => false,
            },
            _ => true,
        }
    }
}

} // verus!
