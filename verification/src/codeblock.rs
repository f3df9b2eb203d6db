//! Code blocks: how the builder lays them out.
//!
//! Every line of a block is prepared twice, highlighted as code of the
//! block's language and as plain text, so that stepping through the block's
//! highlight groups only picks one of the two.

use crate::builder::{BuilderView, PresentationBuilder};
use crate::code::{
    code_lines_view, padding_of, prepared_lines, CodeLine, CodeLineView, CodePreparer,
};
use crate::chunk::HighlightMutator;
use crate::elements::{
    clamped, groups_view, Code, CodeLanguage, CodeView, Highlight, HighlightGroup,
};
use crate::highlight::{HighlightContext, HighlightState};
use crate::highlighter::{highlighted_with, padded_with};
use crate::operation::{
    DynamicOperation, DynamicOperationView, HighlightedLine, HighlightedLineView,
    RenderOnDemandState, RenderOperation, RenderOperationView, RunCodeOperation, RunCodeView,
};
use crate::text::{chars_of, string_of, views_of};
use crate::theme::ElementType;
use vstd::prelude::*;
use vstd::string::StringExecFns;

verus! {

/// The width of the widest of the given lines.
pub open spec fn widest(lines: Seq<CodeLineView>) -> usize
    decreases lines.len(),
{
    if lines.len() == 0 {
        0
    } else {
        let before = widest(lines.drop_last());
        let width = clamped(lines.last().width());
        if width > before {
            width
        } else {
            before
        }
    }
}

/// The groups in which a block is revealed: those it declares, or a single
/// group of all lines where stepping is not allowed.
pub open spec fn shown_groups(allow_mutations: bool, code: CodeView) -> Seq<Seq<Highlight>> {
    if allow_mutations {
        code.attributes.highlight_groups
    } else {
        seq![seq![Highlight::All]]
    }
}

/// A line put together: the prefix and the code, without the line feed that
/// ends them, and the suffix.
pub open spec fn joined(prefix: Seq<char>, code: Seq<char>, suffix: Seq<char>) -> Seq<char> {
    let head = prefix + code;
    (if head.len() > 0 {
        head.drop_last()
    } else {
        head
    }) + suffix
}

/// The code of each line.
pub open spec fn codes_of(lines: Seq<CodeLineView>) -> Seq<Seq<char>> {
    lines.map_values(|line: CodeLineView| line.code)
}

/// The prefix of each line.
pub open spec fn prefixes_of(lines: Seq<CodeLineView>) -> Seq<Seq<char>> {
    lines.map_values(|line: CodeLineView| line.prefix)
}

/// The suffix of each line.
pub open spec fn suffixes_of(lines: Seq<CodeLineView>) -> Seq<Seq<char>> {
    lines.map_values(|line: CodeLineView| line.suffix)
}

/// The lines of a block, each highlighted as code of the language and as
/// plain text, its padding styled as padding.
pub open spec fn highlighted_lines(
    highlighter: Seq<char>,
    language: CodeLanguage,
    lines: Seq<CodeLineView>,
    context: usize,
) -> Seq<HighlightedLineView> {
    let highlighted = highlighted_with(highlighter, language, codes_of(lines));
    let plain = highlighted_with(highlighter, CodeLanguage::Unknown, codes_of(lines));
    let prefixes = padded_with(highlighter, prefixes_of(lines));
    let suffixes = padded_with(highlighter, suffixes_of(lines));
    Seq::new(
        lines.len(),
        |i: int|
            HighlightedLineView {
                highlighted: joined(prefixes[i], highlighted[i], suffixes[i]),
                not_highlighted: joined(prefixes[i], plain[i], suffixes[i]),
                line_number: lines[i].line_number,
                width: clamped(lines[i].width()),
                context,
            },
    )
}

/// One dynamic operation for each line.
pub open spec fn code_line_operations(lines: Seq<HighlightedLineView>) -> Seq<RenderOperationView> {
    lines.map_values(
        |line: HighlightedLineView|
            RenderOperationView::RenderDynamic(DynamicOperationView::CodeLine(line)),
    )
}

/// The views of a sequence of highlighted lines.
pub open spec fn highlighted_view(lines: Seq<HighlightedLine>) -> Seq<HighlightedLineView> {
    lines.map_values(|line: HighlightedLine| line@)
}

impl BuilderView {
    /// The lines that are shown for `code` under the builder's theme.
    pub open spec fn prepared(self, code: CodeView) -> Seq<CodeLineView> {
        prepared_lines(
            code,
            padding_of(self.theme.code.padding.horizontal),
            padding_of(self.theme.code.padding.vertical),
        )
    }

    /// The context that the lines of `code` share.
    pub open spec fn code_context(self, code: CodeView) -> HighlightState {
        HighlightState {
            groups: shown_groups(self.allow_mutations, code),
            current: 0,
            block_length: widest(self.prepared(code)),
            alignment: self.theme.spec_alignment(ElementType::Code),
        }
    }

    /// The highlighted lines of `code`, which name the context that is added
    /// for them.
    pub open spec fn code_lines(self, code: CodeView) -> Seq<HighlightedLineView> {
        highlighted_lines(
            self.highlighter,
            code.language,
            self.prepared(code),
            self.contexts.len() as usize,
        )
    }

    /// The operation that runs `code` on demand, not started.
    pub open spec fn code_execution(self, code: CodeView) -> RenderOperationView {
        RenderOperationView::RenderOnDemand(
            RunCodeView {
                code,
                default_colors: self.theme.default_style.colors,
                block_colors: self.theme.execution_output,
                handle: false,
                output_lines: Seq::empty(),
                state: RenderOnDemandState::NotStarted,
            },
        )
    }

    /// The builder after a code block: its lines are added, with the context
    /// that they share; a mutator is added where stepping is allowed and the
    /// block has more than one group; an operation that runs the code is
    /// added where the block can be run.
    pub open spec fn with_code(self, code: CodeView) -> BuilderView {
        BuilderView {
            operations: self.operations + code_line_operations(self.code_lines(code)) + (
            if code.attributes.execute {
                seq![self.code_execution(code)]
            } else {
                Seq::empty()
            }),
            contexts: self.contexts.push(self.code_context(code)),
            mutators: if self.allow_mutations && shown_groups(self.allow_mutations, code).len()
                > 1 {
                self.mutators.push(self.contexts.len() as usize)
            } else {
                self.mutators
            },
            ..self
        }
    }
}

/// Puts a line together.
pub fn join(prefix: &str, code: &str, suffix: &str) -> (line: String)
    ensures
        line@ == joined(prefix@, code@, suffix@),
{
    let mut head = chars_of(prefix);
    let mut tail = chars_of(code);
    head.append(&mut tail);
    let kept: usize = if head.len() > 0 {
        head.len() - 1
    } else {
        0
    };
    let mut line = string_of(&head, 0, kept);
    line.append(suffix);
    assert(line@ =~= joined(prefix@, code@, suffix@));
    line
}

/// Copies highlight groups.
pub fn clone_groups(groups: &Vec<HighlightGroup>) -> (out: Vec<HighlightGroup>)
    ensures
        groups_view(out@) == groups_view(groups@),
{
    let mut out: Vec<HighlightGroup> = Vec::new();
    let mut i: usize = 0;
    assert(groups_view(out@) =~= groups_view(groups@).take(0));
    while i < groups.len()
        invariant
            i <= groups.len(),
            groups_view(out@) == groups_view(groups@).take(i as int),
        decreases groups.len() - i,
    {
        let ghost done = groups_view(out@);
        let source = &groups[i].highlights;
        let mut highlights: Vec<Highlight> = Vec::new();
        let mut k: usize = 0;
        while k < source.len()
            invariant
                k <= source.len(),
                highlights@ == source@.take(k as int),
            decreases source.len() - k,
        {
            highlights.push(source[k]);
            k += 1;
            assert(highlights@ =~= source@.take(k as int));
        }
        assert(source@.take(k as int) =~= source@);
        out.push(HighlightGroup::new(highlights));
        i += 1;
        assert(groups_view(out@) =~= done.push(groups@[i - 1]@));
        assert(groups_view(groups@).take(i as int) =~= groups_view(groups@).take(i - 1).push(
            groups@[i - 1]@,
        ));
    }
    assert(groups_view(groups@).take(i as int) =~= groups_view(groups@));
    out
}

impl<'a> PresentationBuilder<'a> {
    /// Prepares the lines of `code`, highlighted and plain, and the context
    /// that they share.
    pub fn highlight_lines(&self, code: &Code) -> (prepared: (Vec<HighlightedLine>, HighlightContext))
        ensures
            highlighted_view(prepared.0@) == self@.code_lines(code@),
            prepared.1@ == self@.code_context(code@),
            prepared.1@.wf(),
    {
        let lines = CodePreparer { theme: &self.theme }.prepare(code);
        let ghost shown = code_lines_view(lines@);
        assert(shown == self@.prepared(code@));
        let context_index: usize = self.chunk_contexts.len();
        assert(context_index == self@.contexts.len());
        let mut block_length: usize = 0;
        let mut codes: Vec<String> = Vec::new();
        let mut prefixes: Vec<String> = Vec::new();
        let mut suffixes: Vec<String> = Vec::new();
        let mut i: usize = 0;
        assert(shown.take(0) =~= Seq::empty());
        assert(views_of(codes@) =~= codes_of(shown.take(0)));
        assert(views_of(prefixes@) =~= prefixes_of(shown.take(0)));
        assert(views_of(suffixes@) =~= suffixes_of(shown.take(0)));
        while i < lines.len()
            invariant
                i <= lines.len(),
                shown == code_lines_view(lines@),
                block_length == widest(shown.take(i as int)),
                views_of(codes@) == codes_of(shown.take(i as int)),
                views_of(prefixes@) == prefixes_of(shown.take(i as int)),
                views_of(suffixes@) == suffixes_of(shown.take(i as int)),
            decreases lines.len() - i,
        {
            let ghost done_codes = views_of(codes@);
            let ghost done_prefixes = views_of(prefixes@);
            let ghost done_suffixes = views_of(suffixes@);
            assert(shown[i as int] == lines@[i as int]@);
            let width = lines[i].width();
            if width > block_length {
                block_length = width;
            }
            codes.push(lines[i].code.clone());
            prefixes.push(lines[i].prefix.clone());
            suffixes.push(lines[i].suffix.clone());
            i += 1;
            proof {
                let now = shown.take(i as int);
                assert(now.drop_last() =~= shown.take(i - 1));
                assert(now.last() == shown[i - 1]);
                assert(views_of(codes@) =~= done_codes.push(shown[i - 1].code));
                assert(views_of(prefixes@) =~= done_prefixes.push(shown[i - 1].prefix));
                assert(views_of(suffixes@) =~= done_suffixes.push(shown[i - 1].suffix));
                assert(codes_of(now) =~= codes_of(now.drop_last()).push(now.last().code));
                assert(prefixes_of(now) =~= prefixes_of(now.drop_last()).push(now.last().prefix));
                assert(suffixes_of(now) =~= suffixes_of(now.drop_last()).push(now.last().suffix));
            }
        }
        assert(shown.take(i as int) =~= shown);
        let highlighted = self.highlighter.highlight(&code.language, &codes);
        let plain = self.highlighter.highlight(&CodeLanguage::Unknown, &codes);
        let padded_prefixes = self.highlighter.pad(&prefixes);
        let padded_suffixes = self.highlighter.pad(&suffixes);
        let groups = if self.options.allow_mutations {
            clone_groups(&code.attributes.highlight_groups)
        } else {
            let mut all: Vec<Highlight> = Vec::new();
            all.push(Highlight::All);
            let mut groups: Vec<HighlightGroup> = Vec::new();
            groups.push(HighlightGroup::new(all));
            assert(groups_view(groups@) =~= seq![seq![Highlight::All]]);
            groups
        };
        let context = HighlightContext::new(
            groups,
            block_length,
            self.theme.alignment(&ElementType::Code),
        );
        let ghost expected = self@.code_lines(code@);
        let mut output: Vec<HighlightedLine> = Vec::new();
        let mut i: usize = 0;
        assert(highlighted_view(output@) =~= expected.take(0));
        assert(codes.len() == lines.len()) by {
            assert(views_of(codes@).len() == codes.len());
            assert(codes_of(shown).len() == shown.len());
        }
        assert(prefixes.len() == lines.len()) by {
            assert(views_of(prefixes@).len() == prefixes.len());
            assert(prefixes_of(shown).len() == shown.len());
        }
        assert(suffixes.len() == lines.len()) by {
            assert(views_of(suffixes@).len() == suffixes.len());
            assert(suffixes_of(shown).len() == shown.len());
        }
        while i < lines.len()
            invariant
                i <= lines.len(),
                shown == code_lines_view(lines@),
                shown == self@.prepared(code@),
                context_index == self@.contexts.len(),
                expected == self@.code_lines(code@),
                highlighted.len() == lines.len(),
                plain.len() == lines.len(),
                padded_prefixes.len() == lines.len(),
                padded_suffixes.len() == lines.len(),
                views_of(highlighted@) == highlighted_with(
                    self.highlighter.theme(),
                    code.language,
                    codes_of(shown),
                ),
                views_of(plain@) == highlighted_with(
                    self.highlighter.theme(),
                    CodeLanguage::Unknown,
                    codes_of(shown),
                ),
                views_of(padded_prefixes@) == padded_with(self.highlighter.theme(), prefixes_of(shown)),
                views_of(padded_suffixes@) == padded_with(self.highlighter.theme(), suffixes_of(shown)),
                highlighted_view(output@) == expected.take(i as int),
            decreases lines.len() - i,
        {
            let ghost done = highlighted_view(output@);
            assert(shown[i as int] == lines@[i as int]@);
            assert(views_of(highlighted@)[i as int] == highlighted@[i as int]@);
            assert(views_of(plain@)[i as int] == plain@[i as int]@);
            assert(views_of(padded_prefixes@)[i as int] == padded_prefixes@[i as int]@);
            assert(views_of(padded_suffixes@)[i as int] == padded_suffixes@[i as int]@);
            let line = HighlightedLine {
                highlighted: join(
                    padded_prefixes[i].as_str(),
                    highlighted[i].as_str(),
                    padded_suffixes[i].as_str(),
                ),
                not_highlighted: join(
                    padded_prefixes[i].as_str(),
                    plain[i].as_str(),
                    padded_suffixes[i].as_str(),
                ),
                line_number: lines[i].line_number,
                width: lines[i].width(),
                context: context_index,
            };
            assert(line@ == expected[i as int]);
            output.push(line);
            i += 1;
            assert(highlighted_view(output@) =~= done.push(expected[i - 1]));
            assert(expected.take(i as int) =~= expected.take(i - 1).push(expected[i - 1]));
        }
        assert(expected.take(i as int) =~= expected);
        (output, context)
    }

    /// Adds the operation that runs `code` on demand.
    pub fn push_code_execution(&mut self, code: Code)
        ensures
            final(self)@ == old(self)@.with(seq![old(self)@.code_execution(code@)]),
            old(self)@.wf() ==> final(self)@.wf(),
    {
        let operation = RunCodeOperation::new(
            code,
            self.theme.default_style.colors,
            self.theme.execution_output,
        );
        self.push(RenderOperation::RenderOnDemand(operation));
    }

    /// Adds a code block.
    pub fn push_code(&mut self, code: Code)
        ensures
            final(self)@ == old(self)@.with_code(code@),
            old(self)@.wf() ==> final(self)@.wf(),
    {
        let ghost start = self@;
        let ghost view = code@;
        let (lines, context) = self.highlight_lines(&code);
        let ghost all = highlighted_view(lines@);
        let context_index: usize = self.chunk_contexts.len();
        let multiple: bool = context.mutations().1 > 1;
        self.chunk_contexts.push(context);
        assert(self@.contexts =~= start.contexts.push(start.code_context(view)));
        if self.options.allow_mutations && multiple {
            self.chunk_mutators.push(HighlightMutator { context: context_index });
            assert(self@.mutators =~= start.mutators.push(context_index));
        }
        let ghost prepared = self@;
        proof {
            if start.wf() {
                assert forall|i: int| 0 <= i < prepared.contexts.len() implies (
                #[trigger] prepared.contexts[i]).wf() by {
                    if i < start.contexts.len() {
                        assert(start.contexts[i].wf());
                    }
                }
                assert forall|i: int| 0 <= i < prepared.mutators.len() implies
                    #[trigger] prepared.mutators[i] < prepared.contexts.len() by {
                    if i < start.mutators.len() {
                        assert(start.mutators[i] < start.contexts.len());
                    }
                }
                assert forall|i: int| 0 <= i < prepared.operations.len() implies (
                #[trigger] prepared.operations[i]).within(prepared.contexts.len()) by {
                    assert(start.operations[i].within(start.contexts.len()));
                }
                assert(prepared.wf());
            }
            assert(start.operations + code_line_operations(all.take(0)) =~= start.operations);
        }
        for line in iter: lines
            invariant
                highlighted_view(iter.seq()) == all,
                all == start.code_lines(view),
                context_index == start.contexts.len(),
                prepared.contexts.len() == start.contexts.len() + 1,
                prepared.operations == start.operations,
                start.wf() ==> self@.wf(),
                self@ == prepared.with(code_line_operations(all.take(iter.index()))),
        {
            assert(all[iter.index()] == line@);
            assert(all.len() == start.prepared(view).len());
            assert(start.code_lines(view)[iter.index()].context == context_index);
            self.push(RenderOperation::RenderDynamic(DynamicOperation::CodeLine(line)));
            assert(self@.operations =~= start.operations + code_line_operations(
                all.take(iter.index() + 1),
            ));
        }
        assert(all.take(all.len() as int) =~= all);
        if code.attributes.execute {
            self.push_code_execution(code);
        }
        assert(self@.operations =~= start.with_code(view).operations);
    }
}

} // verus!
