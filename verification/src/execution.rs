//! The operation that runs a code block on demand and shows its output.
//!
//! The operation starts out invisible. Once started it shows what the
//! process has printed so far, and it is done when the process was seen to
//! finish. Starting and watching the process is the caller's part: the
//! operation is told what came of it.

use crate::elements::Code;
use crate::operation::{
    operations_view, DynamicOperation, DynamicOperationView, PreformattedLine,
    PreformattedLineView, RenderOnDemandState, RenderOperation, RenderOperationView,
    RenderSeparator, RunCodeOperation, RunCodeView, WindowSize,
};
use crate::render::{byte_length, push_operation};
use crate::style::Colors;
use crate::text::{chunk_chars, chunks_of, views_of};
use crate::theme::Alignment;
use vstd::prelude::*;

verus! {

/// Whether a process runs, and how it ended.
#[derive(Clone, Copy, Debug, PartialEq, Eq)]
pub enum ProcessStatus {
    Running,
    Success,
    Failure,
}

impl ProcessStatus {
    /// Whether the process has ended.
    pub open spec fn finished(self) -> bool {
        self != ProcessStatus::Running
    }

    /// Whether the process has ended.
    pub fn is_finished(&self) -> (finished: bool)
        ensures
            finished == self.finished(),
    {
        match self {
            ProcessStatus::Running => false,
            ProcessStatus::Success => true,
            ProcessStatus::Failure => true,
        }
    }
}

/// What a process has printed so far, and its status.
#[derive(Clone, Debug)]
pub struct ExecutionState {
    pub output: Vec<String>,
    pub status: ProcessStatus,
}

/// The line that is added to the output of a process that failed.
pub open spec fn failure_marker() -> Seq<char> {
    "[finished with error]"@
}

/// The heading of the separator above the output.
pub open spec fn status_heading(state: RenderOnDemandState) -> Seq<char> {
    if state == RenderOnDemandState::Rendered {
        " [done] "@
    } else {
        " [running] "@
    }
}

/// The operation that draws one piece of output: the text as it stands, its
/// length counted in bytes.
pub open spec fn output_piece(piece: Seq<char>) -> RenderOperationView {
    RenderOperationView::RenderPreformattedLine(
        PreformattedLineView {
            text: piece,
            unformatted_length: byte_length(piece) as usize,
            block_length: byte_length(piece) as usize,
            alignment: Alignment::start(),
        },
    )
}

/// Each piece on a row of its own.
pub open spec fn pieces_operations(pieces: Seq<Seq<char>>) -> Seq<RenderOperationView>
    decreases pieces.len(),
{
    if pieces.len() == 0 {
        Seq::empty()
    } else {
        pieces_operations(pieces.drop_last()) + seq![
            output_piece(pieces.last()),
            RenderOperationView::RenderLineBreak,
        ]
    }
}

/// The output lines, each cut into pieces of `columns` characters. In a
/// window without columns nothing is drawn.
pub open spec fn output_operations(lines: Seq<Seq<char>>, columns: u16) -> Seq<
    RenderOperationView,
>
    decreases lines.len(),
{
    if lines.len() == 0 {
        Seq::empty()
    } else {
        output_operations(lines.drop_last(), columns) + pieces_operations(
            chunks_of(lines.last(), columns as nat),
        )
    }
}

impl RunCodeView {
    /// A process is only watched while the operation is rendering.
    pub open spec fn wf(self) -> bool {
        self.handle ==> self.state == RenderOnDemandState::Rendering
    }

    /// What the operation draws: nothing before it was started; afterwards a
    /// separator that tells whether the process still runs, the output in the
    /// block's colors, and the default colors again.
    pub open spec fn operations(self, columns: u16) -> Seq<RenderOperationView> {
        if self.state == RenderOnDemandState::NotStarted {
            Seq::empty()
        } else {
            seq![
                RenderOperationView::RenderLineBreak,
                RenderOperationView::RenderDynamic(
                    DynamicOperationView::Separator { heading: status_heading(self.state) },
                ),
                RenderOperationView::RenderLineBreak,
                RenderOperationView::RenderLineBreak,
                RenderOperationView::SetColors(self.block_colors),
            ] + output_operations(self.output_lines, columns) + seq![
                RenderOperationView::SetColors(self.default_colors),
            ]
        }
    }

    /// The operation after it was told to start, the attempt to launch the
    /// process having ended as `launch` says. An operation that was started
    /// before stays as it is.
    pub open spec fn started(self, launch: Result<(), Seq<char>>) -> RunCodeView {
        if self.state != RenderOnDemandState::NotStarted {
            self
        } else {
            match launch {
                Ok(_) => RunCodeView {
                    handle: true,
                    state: RenderOnDemandState::Rendering,
                    ..self
                },
                Err(error) => RunCodeView {
                    output_lines: seq![error],
                    state: RenderOnDemandState::Rendered,
                    ..self
                },
            }
        }
    }

    /// The operation after its process was seen with the given output and
    /// status. Without a process to watch nothing changes.
    pub open spec fn polled(self, output: Seq<Seq<char>>, status: ProcessStatus) -> RunCodeView {
        if !self.handle {
            self
        } else {
            RunCodeView {
                handle: !status.finished(),
                state: if status.finished() {
                    RenderOnDemandState::Rendered
                } else {
                    self.state
                },
                output_lines: if status == ProcessStatus::Failure {
                    output.push(failure_marker())
                } else {
                    output
                },
                ..self
            }
        }
    }
}

impl RunCodeOperation {
    /// An operation for `code` that was not started yet.
    pub fn new(code: Code, default_colors: Colors, block_colors: Colors) -> (operation: Self)
        ensures
            operation@ == (RunCodeView {
                code: code@,
                default_colors,
                block_colors,
                handle: false,
                output_lines: Seq::empty(),
                state: RenderOnDemandState::NotStarted,
            }),
            operation@.wf(),
    {
        let operation = RunCodeOperation {
            code,
            default_colors,
            block_colors,
            handle: false,
            output_lines: Vec::new(),
            state: RenderOnDemandState::default(),
        };
        assert(operation@.output_lines =~= Seq::empty());
        operation
    }

    /// The code that the operation runs.
    pub fn code(&self) -> (code: &Code)
        ensures
            code@ == self@.code,
    {
        &self.code
    }

    /// How far the operation has come.
    pub fn state(&self) -> (state: RenderOnDemandState)
        ensures
            state == self@.state,
    {
        self.state
    }

    /// Whether a process is being watched.
    pub fn has_handle(&self) -> (watched: bool)
        ensures
            watched == self@.handle,
    {
        self.handle
    }

    /// The operation that draws one piece of output.
    pub fn render_line(line: String) -> (operation: RenderOperation)
        ensures
            operation@ == output_piece(line@),
    {
        let line_len: usize = line.as_str().as_bytes().len();
        RenderOperation::RenderPreformattedLine(
            PreformattedLine {
                text: line,
                unformatted_length: line_len,
                block_length: line_len,
                alignment: Alignment::default(),
            },
        )
    }

    /// The operations that draw the output in a window of the given size.
    pub fn as_render_operations(&self, dimensions: &WindowSize) -> (operations: Vec<
        RenderOperation,
    >)
        ensures
            operations_view(operations@) == self@.operations(dimensions.columns),
    {
        let mut operations: Vec<RenderOperation> = Vec::new();
        if let RenderOnDemandState::NotStarted = self.state {
            assert(operations_view(operations@) =~= Seq::empty());
            return operations;
        }
        let heading = match self.state {
            RenderOnDemandState::Rendered => " [done] ",
            _ => " [running] ",
        };
        let separator = RenderSeparator::new(heading.to_owned());
        push_operation(&mut operations, RenderOperation::RenderLineBreak);
        push_operation(
            &mut operations,
            RenderOperation::RenderDynamic(DynamicOperation::Separator(separator)),
        );
        push_operation(&mut operations, RenderOperation::RenderLineBreak);
        push_operation(&mut operations, RenderOperation::RenderLineBreak);
        push_operation(&mut operations, RenderOperation::SetColors(self.block_colors));
        let ghost head = operations_view(operations@);
        let ghost lines = self@.output_lines;
        let columns: usize = dimensions.columns as usize;
        let mut i: usize = 0;
        assert(lines.take(0) =~= Seq::empty());
        assert(head + Seq::<RenderOperationView>::empty() =~= head);
        while i < self.output_lines.len()
            invariant
                i <= self.output_lines.len(),
                lines == views_of(self.output_lines@),
                columns == dimensions.columns,
                operations_view(operations@) == head + output_operations(
                    lines.take(i as int),
                    dimensions.columns,
                ),
            decreases self.output_lines.len() - i,
        {
            let ghost before = operations_view(operations@);
            let pieces: Vec<String> = if columns > 0 {
                chunk_chars(self.output_lines[i].as_str(), columns)
            } else {
                Vec::new()
            };
            assert(views_of(pieces@) =~= chunks_of(lines[i as int], columns as nat));
            let ghost all = views_of(pieces@);
            assert(all.take(0) =~= Seq::empty());
            assert(before + Seq::<RenderOperationView>::empty() =~= before);
            for piece in iter: pieces
                invariant
                    views_of(iter.seq()) == all,
                    operations_view(operations@) == before + pieces_operations(
                        all.take(iter.index()),
                    ),
            {
                let ghost done = operations_view(operations@);
                let ghost text = piece@;
                push_operation(&mut operations, Self::render_line(piece));
                push_operation(&mut operations, RenderOperation::RenderLineBreak);
                proof {
                    let next = all.take(iter.index() + 1);
                    assert(next.drop_last() =~= all.take(iter.index()));
                    assert(next.last() == text);
                    assert(operations_view(operations@) =~= before + pieces_operations(next));
                }
            }
            i += 1;
            proof {
                assert(all.take(all.len() as int) =~= all);
                assert(lines.take(i as int).drop_last() =~= lines.take(i - 1));
                assert(operations_view(operations@) =~= head + output_operations(
                    lines.take(i as int),
                    dimensions.columns,
                ));
            }
        }
        assert(lines.take(i as int) =~= lines);
        push_operation(&mut operations, RenderOperation::SetColors(self.default_colors));
        proof {
            reveal_strlit(" [done] ");
            reveal_strlit(" [running] ");
            assert(operations_view(operations@) =~= self@.operations(dimensions.columns));
        }
        operations
    }

    /// Nothing: the output of a process is not compared.
    pub fn diffable_content(&self) -> (content: Option<&str>)
        ensures
            content is None,
    {
        None
    }

    /// Starts the operation, if it was not started before, and says whether
    /// it did. `launch` tells how the attempt to launch the process ended: on
    /// success the process is watched from now on; on failure the error is
    /// all the output there is, and the operation is done.
    pub fn start_render(&mut self, launch: Result<(), String>) -> (started: bool)
        ensures
            started == (old(self)@.state == RenderOnDemandState::NotStarted),
            final(self)@ == old(self)@.started(
                match launch {
                    Ok(_) => Ok(()),
                    Err(error) => Err(error@),
                },
            ),
            old(self)@.wf() ==> final(self)@.wf(),
    {
        match self.state {
            RenderOnDemandState::NotStarted => {},
            _ => {
                return false;
            },
        }
        match launch {
            Ok(_) => {
                self.handle = true;
                self.state = RenderOnDemandState::Rendering;
            },
            Err(error) => {
                let mut lines: Vec<String> = Vec::new();
                lines.push(error);
                self.output_lines = lines;
                self.state = RenderOnDemandState::Rendered;
                assert(self@.output_lines =~= seq![error@]);
            },
        }
        true
    }

    /// Takes in what was seen of the process, if one is watched, and returns
    /// how far the operation has come. The output seen replaces what was
    /// known; a process that has ended is watched no longer and leaves the
    /// operation done; one that failed gets a marker line after its output.
    pub fn poll_state(&mut self, observed: ExecutionState) -> (state: RenderOnDemandState)
        ensures
            final(self)@ == old(self)@.polled(views_of(observed.output@), observed.status),
            state == final(self)@.state,
            old(self)@.wf() ==> final(self)@.wf(),
    {
        if self.handle {
            let ExecutionState { output, status } = observed;
            if status.is_finished() {
                self.handle = false;
                self.state = RenderOnDemandState::Rendered;
            }
            self.output_lines = output;
            if let ProcessStatus::Failure = status {
                self.output_lines.push("[finished with error]".to_owned());
                assert(self@.output_lines =~= views_of(observed.output@).push(failure_marker()));
            }
        }
        self.state
    }
}

} // verus!
