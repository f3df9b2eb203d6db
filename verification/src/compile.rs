//! Commands, slides and the build itself.

use crate::builder::{
    prelude, text_operations, title_style, BuildError, BuildErrorView, BuilderView, LastElement,
    LayoutState, PresentationBuilder, SlideState,
};
use crate::chunk::{HighlightMutator, SlideChunk, SlideChunkView};
use crate::command::{text_command, CommentCommand, CommentCommandView};
use crate::elements::{SourcePosition, StyledText, StyledTextView, Text};
use crate::highlight::HighlightContext;
use crate::highlighter::{known_theme, CodeHighlighter};
use crate::metadata::{
    text_metadata, MetadataView, PresentationMetadata, PresentationThemeMetadata,
    ThemeMetadataView,
};
use crate::numbering::following;
use crate::operation::{
    operations_view, DynamicOperation, DynamicOperationView, FooterGenerator, RenderOperation,
    RenderOperationView,
};
use crate::presentation::{Slide, SlideView};
use crate::style::{Colors, TextStyle};
use crate::text::{chars_of, contains_char, is_text, string_of, trim, trimmed};
use crate::theme::{AuthorPositioning, ElementType, PresentationTheme};
use vstd::prelude::*;
use vstd::string::StringExecFns;

verus! {

/// What a step of the build leaves: the builder after it, and the error with
/// which it failed, if it did.
pub struct Step {
    pub builder: BuilderView,
    pub error: Option<BuildErrorView>,
}

impl Step {
    /// A step that went well.
    pub open spec fn done(builder: BuilderView) -> Step {
        Step { builder, error: None }
    }

    /// A step that failed.
    pub open spec fn failed(builder: BuilderView, error: BuildErrorView) -> Step {
        Step { builder, error: Some(error) }
    }

    /// Whether `result` and the builder `after` are what the step leaves.
    pub open spec fn is(self, result: Result<(), BuildError>, after: BuilderView) -> bool {
        &&& after == self.builder
        &&& match self.error {
            None => result is Ok,
            Some(error) => result is Err && result->Err_0@ == error,
        }
    }
}

/// The footer of the slide at the given position: the layout is left, the
/// margin dropped, and the footer drawn.
pub open spec fn footer_operations(theme: PresentationTheme, slide: usize) -> Seq<
    RenderOperationView,
> {
    seq![
        RenderOperationView::ExitLayout,
        RenderOperationView::PopMargin,
        RenderOperationView::RenderDynamic(
            DynamicOperationView::Footer { current_slide: slide, style: theme.footer },
        ),
    ]
}

/// Whether a comment is a note of the author's rather than a command: it
/// spans several lines, or it is one of the fold markers `{{{` and `}}}`.
pub open spec fn ignorable(comment: Seq<char>) -> bool {
    ||| comment.contains('\n')
    ||| trimmed(comment) == "{{{"@
    ||| trimmed(comment) == "}}}"@
}

/// What is wrong with the widths of a column layout, if anything: there
/// must be a column, and no column may have the width zero.
pub open spec fn layout_problem(columns: Seq<u8>) -> Option<Seq<char>> {
    if columns.len() == 0 {
        Some("need at least one column"@)
    } else if columns.contains(0u8) {
        Some("can't have zero sized columns"@)
    } else {
        None
    }
}

/// A run of text in the given colors.
pub open spec fn colored(text: Seq<char>, colors: Colors) -> Seq<StyledTextView> {
    seq![StyledTextView { text, style: TextStyle { colors, ..TextStyle::plain() } }]
}

/// The text of an optional text, empty where there is none.
pub open spec fn text_or_empty(text: Option<Seq<char>>) -> Seq<char> {
    match text {
        Some(text) => text,
        None => Seq::empty(),
    }
}

/// The operations of the introductory slide: the title in the middle of the
/// window, the subtitle below it, and the author below them or at the
/// bottom of the window, as the theme says.
pub open spec fn intro_operations(theme: PresentationTheme, metadata: MetadataView) -> Seq<
    RenderOperationView,
> {
    let styles = theme.intro_slide;
    seq![RenderOperationView::JumpToVerticalCenter] + text_operations(
        seq![
            StyledTextView {
                text: text_or_empty(metadata.title),
                style: title_style(styles.title.colors),
            },
        ],
        theme.inline_code,
        theme.spec_alignment(ElementType::PresentationTitle),
    ) + seq![RenderOperationView::RenderLineBreak] + (match metadata.sub_title {
        Some(sub_title) => text_operations(
            colored(sub_title, styles.subtitle.colors),
            theme.inline_code,
            theme.spec_alignment(ElementType::PresentationSubTitle),
        ) + seq![RenderOperationView::RenderLineBreak],
        None => Seq::empty(),
    }) + (match metadata.author {
        Some(author) => (match styles.author.positioning {
            AuthorPositioning::BelowTitle => seq![
                RenderOperationView::RenderLineBreak,
                RenderOperationView::RenderLineBreak,
                RenderOperationView::RenderLineBreak,
            ],
            AuthorPositioning::PageBottom => seq![
                RenderOperationView::JumpToBottomRow { index: 0 },
            ],
        }) + text_operations(
            colored(author, styles.author.colors),
            theme.inline_code,
            theme.spec_alignment(ElementType::PresentationAuthor),
        ),
        None => Seq::empty(),
    })
}

/// The message for a front matter that names a theme and a theme file.
pub open spec fn conflict_message() -> Seq<char> {
    "cannot have both theme path and theme name"@
}

/// The message for a theme name that is not known.
pub open spec fn missing_theme_message(name: Seq<char>) -> Seq<char> {
    "theme '"@ + name + "' does not exist"@
}

/// The message for overrides that cannot be merged.
pub open spec fn invalid_theme_message(reason: Seq<char>) -> Seq<char> {
    "invalid theme: "@ + reason
}

/// The reason given where overrides are asked for and none were resolved.
pub open spec fn unresolved_message() -> Seq<char> {
    "the overrides were not resolved"@
}

/// The theme that a front matter names. A name and a path together are an
/// error. A name stands for a known theme, a path for a theme file that was
/// loaded; without either the theme in use stays.
pub open spec fn chosen_theme(
    theme: PresentationTheme,
    resources: crate::resource::Resources,
    metadata: ThemeMetadataView,
) -> Result<PresentationTheme, BuildErrorView> {
    if metadata.name is Some && metadata.path is Some {
        Err(BuildErrorView::InvalidMetadata(conflict_message()))
    } else if metadata.name is Some {
        match resources.spec_named_theme(metadata.name->0) {
            Some(theme) => Ok(theme),
            None => Err(BuildErrorView::InvalidMetadata(missing_theme_message(metadata.name->0))),
        }
    } else if metadata.path is Some {
        match resources.spec_theme(metadata.path->0) {
            Ok(theme) => Ok(theme),
            Err(message) => Err(BuildErrorView::InvalidTheme(message)),
        }
    } else {
        Ok(theme)
    }
}

impl BuilderView {
    /// The chunk in progress, sealed.
    pub open spec fn sealed_chunk(self) -> SlideChunkView {
        SlideChunkView {
            operations: self.operations,
            contexts: self.contexts,
            mutators: self.mutators,
        }
    }

    /// The builder after a pause: the chunk in progress is sealed and a new
    /// one started; whether the sealed chunk ended in a list is remembered.
    pub open spec fn paused(self) -> BuilderView {
        BuilderView {
            slide_chunks: self.slide_chunks.push(self.sealed_chunk()),
            operations: Seq::empty(),
            contexts: Seq::empty(),
            mutators: Seq::empty(),
            state: SlideState {
                last_chunk_ended_in_list: self.state.last_element is List,
                ..self.state
            },
            ..self
        }
    }

    /// The slide in progress, sealed.
    pub open spec fn sealed_slide(self) -> SlideView {
        SlideView {
            chunks: self.slide_chunks.push(self.sealed_chunk()),
            footer: footer_operations(self.theme, self.slides.len() as usize),
            visible_chunks: 1,
        }
    }

    /// The builder after the end of a slide: the slide in progress is sealed
    /// with its footer, and a new one is started with its prelude and a
    /// fresh state.
    pub open spec fn terminated(self) -> BuilderView {
        BuilderView {
            slides: self.slides.push(self.sealed_slide()),
            slide_chunks: Seq::empty(),
            operations: prelude(self.theme),
            contexts: Seq::empty(),
            mutators: Seq::empty(),
            state: SlideState::fresh(),
            ..self
        }
    }

    /// What entering the column at `column` leaves: an error where no layout
    /// is open, where the column is the current one, or where the layout has
    /// no such column.
    pub open spec fn after_column(self, column: usize) -> Step {
        match self.state.layout {
            LayoutState::Default => Step::failed(self, BuildErrorView::NoLayout),
            LayoutState::InLayout { columns_count } => if column >= columns_count {
                Step::failed(self, BuildErrorView::ColumnIndexTooLarge)
            } else {
                Step::done(self.in_column(column, columns_count))
            },
            LayoutState::InColumn { column: current, columns_count } => if current == column {
                Step::failed(self, BuildErrorView::AlreadyInColumn)
            } else if column >= columns_count {
                Step::failed(self, BuildErrorView::ColumnIndexTooLarge)
            } else {
                Step::done(self.in_column(column, columns_count))
            },
        }
    }

    /// The builder in the given column of a layout of `columns_count`
    /// columns.
    pub open spec fn in_column(self, column: usize, columns_count: usize) -> BuilderView {
        BuilderView {
            operations: self.operations.push(RenderOperationView::EnterColumn { column }),
            state: SlideState {
                layout: LayoutState::InColumn { column, columns_count },
                ..self.state
            },
            ..self
        }
    }

    /// What a command leaves. No line break follows a command.
    #[verifier::opaque]
    pub open spec fn after_command(self, command: CommentCommandView) -> Step {
        let step = match command {
            CommentCommandView::Pause => Step::done(self.paused()),
            CommentCommandView::EndSlide => Step::done(self.terminated()),
            CommentCommandView::InitColumnLayout(columns) => match layout_problem(columns) {
                Some(problem) => Step::failed(self, BuildErrorView::InvalidLayout(problem)),
                None => Step::done(
                    BuilderView {
                        operations: self.operations.push(
                            RenderOperationView::InitColumnLayout { columns },
                        ),
                        state: SlideState {
                            layout: LayoutState::InLayout { columns_count: columns.len() as usize },
                            needs_enter_column: true,
                            ..self.state
                        },
                        ..self
                    },
                ),
            },
            CommentCommandView::ResetLayout => Step::done(
                BuilderView {
                    operations: self.operations + seq![
                        RenderOperationView::ExitLayout,
                        RenderOperationView::RenderLineBreak,
                    ],
                    state: SlideState { layout: LayoutState::Default, ..self.state },
                    ..self
                },
            ),
            CommentCommandView::Column(column) => self.after_column(column),
        };
        if step.error is None {
            Step::done(step.builder.without_line_break())
        } else {
            step
        }
    }

    /// What a comment leaves: nothing where it is a note; else what the
    /// command in it leaves, or an error that names the comment's line,
    /// counted from one.
    #[verifier::opaque]
    pub open spec fn after_comment(self, comment: Seq<char>, position: SourcePosition) -> Step {
        if ignorable(comment) {
            Step::done(self)
        } else {
            match text_command(comment) {
                Ok(command) => self.after_command(command),
                Err(message) => Step::failed(
                    self,
                    BuildErrorView::CommandParse { line: following(position.start.line), message },
                ),
            }
        }
    }

    /// Whether the check after an element finds content outside a column:
    /// a layout was opened, and the last operation is neither the opening of
    /// the layout nor the entry into a column nor the exit from the layout.
    pub open spec fn column_violation(self) -> bool {
        &&& self.state.needs_enter_column
        &&& self.operations.len() > 0
        &&& !(self.operations.last() is InitColumnLayout)
        &&& !(self.operations.last() is EnterColumn)
        &&& !(self.operations.last() is ExitLayout)
    }

    /// The builder after the check: once something follows the opening of
    /// the layout, the check is not made again.
    pub open spec fn validated(self) -> BuilderView {
        if self.state.needs_enter_column && self.operations.len() > 0 && !(
        self.operations.last() is InitColumnLayout) {
            BuilderView {
                state: SlideState { needs_enter_column: false, ..self.state },
                ..self
            }
        } else {
            self
        }
    }

    /// What the check after an element leaves.
    pub open spec fn after_validation(self) -> Step {
        Step {
            builder: self.validated(),
            error: if self.column_violation() {
                Some(BuildErrorView::NotInsideColumn)
            } else {
                None
            },
        }
    }

    /// What choosing the theme leaves: the theme that the front matter names
    /// or, where it asks for overrides, the theme that results when they are
    /// merged onto it. Where the overrides cannot be merged, the theme that
    /// was named stays.
    #[verifier::opaque]
    pub open spec fn after_theme(self, metadata: ThemeMetadataView) -> Step {
        match chosen_theme(self.theme, self.resources, metadata) {
            Err(error) => Step::failed(self, error),
            Ok(theme) => if !metadata.overrides {
                Step::done(BuilderView { theme, ..self })
            } else {
                match self.resources.overridden_theme {
                    Some(Ok(merged)) => Step::done(BuilderView { theme: merged, ..self }),
                    Some(Err(reason)) => Step::failed(
                        BuilderView { theme, ..self },
                        BuildErrorView::InvalidMetadata(invalid_theme_message(reason@)),
                    ),
                    None => Step::failed(
                        BuilderView { theme, ..self },
                        BuildErrorView::InvalidMetadata(
                            invalid_theme_message(unresolved_message()),
                        ),
                    ),
                }
            },
        }
    }

    /// What choosing the highlighter leaves: where the theme names a code
    /// theme, the highlighter for it, or an error where it is not known.
    pub open spec fn after_code_theme(self) -> Step {
        match self.theme.code.theme_name {
            Some(name) => if known_theme(name@) {
                Step::done(BuilderView { highlighter: name@, ..self })
            } else {
                Step::failed(self, BuildErrorView::InvalidCodeTheme)
            },
            None => Step::done(self),
        }
    }

    /// The builder after the introductory slide.
    pub open spec fn with_intro_slide(self, metadata: MetadataView) -> BuilderView {
        self.with(intro_operations(self.theme, metadata)).terminated()
    }

    /// What the front matter leaves. The author is kept for the footers and
    /// the theme chosen; a front matter with a title, a subtitle or an
    /// author gives an introductory slide.
    #[verifier::opaque]
    pub open spec fn after_front_matter(self, contents: Seq<char>) -> Step {
        match text_metadata(contents) {
            Err(message) => Step::failed(self, BuildErrorView::InvalidMetadata(message)),
            Ok(metadata) => {
                let themed = (BuilderView {
                    author: text_or_empty(metadata.author),
                    ..self
                }).after_theme(metadata.theme);
                if themed.error is Some {
                    themed
                } else if metadata.title is Some || metadata.sub_title is Some
                    || metadata.author is Some {
                    Step::done(
                        themed.builder.with(prelude(themed.builder.theme)).with_intro_slide(
                            metadata,
                        ),
                    )
                } else {
                    themed
                }
            },
        }
    }
}

impl<'a> PresentationBuilder<'a> {
    /// The footer of the slide in progress.
    pub fn generate_footer(&mut self) -> (footer: Vec<RenderOperation>)
        ensures
            final(self)@ == old(self)@,
            operations_view(footer@) == footer_operations(
                old(self)@.theme,
                old(self)@.slides.len() as usize,
            ),
            old(self)@.wf() ==> final(self)@.wf(),
    {
        let generator = FooterGenerator {
            style: self.theme.footer.clone(),
            current_slide: self.slides.len(),
        };
        let mut footer: Vec<RenderOperation> = Vec::new();
        footer.push(RenderOperation::ExitLayout);
        footer.push(RenderOperation::PopMargin);
        footer.push(RenderOperation::RenderDynamic(DynamicOperation::Footer(generator)));
        assert(operations_view(footer@) =~= footer_operations(
            self@.theme,
            self@.slides.len() as usize,
        ));
        assert(self@.slides.len() == self.slides.len());
        footer
    }

    /// Seals the chunk in progress and hands it out.
    fn take_chunk(&mut self) -> (chunk: SlideChunk)
        ensures
            chunk@ == old(self)@.sealed_chunk(),
            final(self)@ == (BuilderView {
                operations: Seq::empty(),
                contexts: Seq::empty(),
                mutators: Seq::empty(),
                ..old(self)@
            }),
            old(self)@.wf() ==> final(self)@.wf(),
    {
        let mut operations: Vec<RenderOperation> = Vec::new();
        let mut contexts: Vec<HighlightContext> = Vec::new();
        let mut mutators: Vec<HighlightMutator> = Vec::new();
        std::mem::swap(&mut self.chunk_operations, &mut operations);
        std::mem::swap(&mut self.chunk_contexts, &mut contexts);
        std::mem::swap(&mut self.chunk_mutators, &mut mutators);
        assert(self@.operations =~= Seq::empty());
        assert(self@.contexts =~= Seq::empty());
        assert(self@.mutators =~= Seq::empty());
        SlideChunk::new(operations, contexts, mutators)
    }

    /// Ends the chunk in progress.
    pub fn process_pause(&mut self)
        ensures
            final(self)@ == old(self)@.paused(),
            old(self)@.wf() ==> final(self)@.wf(),
    {
        self.slide_state.last_chunk_ended_in_list = match self.slide_state.last_element {
            LastElement::List { .. } => true,
            LastElement::Any => false,
        };
        let chunk = self.take_chunk();
        self.slide_chunks.push(chunk);
        assert(self@.slide_chunks =~= old(self)@.slide_chunks.push(old(self)@.sealed_chunk()));
    }

    /// Ends the slide in progress.
    pub fn terminate_slide(&mut self)
        ensures
            final(self)@ == old(self)@.terminated(),
            old(self)@.wf() ==> final(self)@.wf(),
    {
        let footer = self.generate_footer();
        let chunk = self.take_chunk();
        self.slide_chunks.push(chunk);
        let mut chunks: Vec<SlideChunk> = Vec::new();
        std::mem::swap(&mut self.slide_chunks, &mut chunks);
        assert(crate::presentation::chunks_view(chunks@) =~= old(self)@.slide_chunks.push(
            old(self)@.sealed_chunk(),
        ));
        let count: usize = chunks.len();
        let slide = Slide::new(chunks, footer);
        proof {
            if old(self)@.wf() {
                let sealed = old(self)@.sealed_slide();
                assert(slide@ == sealed);
                assert(sealed.chunks.len() == count);
                assert forall|i: int| 0 <= i < sealed.chunks.len() implies (
                #[trigger] sealed.chunks[i]).wf() by {
                    if i < old(self)@.slide_chunks.len() {
                        assert(old(self)@.slide_chunks[i].wf());
                    }
                }
                assert(sealed.wf());
            }
        }
        self.slides.push(slide);
        self.push_slide_prelude();
        self.slide_state = SlideState::default();
        assert(self@.slides =~= old(self)@.slides.push(old(self)@.sealed_slide()));
        proof {
            if old(self)@.wf() {
                assert forall|i: int| 0 <= i < self@.slides.len() implies (
                #[trigger] self@.slides[i]).wf() by {
                    if i < old(self)@.slides.len() {
                        assert(old(self)@.slides[i].wf());
                    }
                }
            }
        }
        assert(self@.slide_chunks =~= Seq::empty());
        assert(self@.operations =~= prelude(old(self)@.theme));
    }

    /// Whether a comment is a note rather than a command.
    pub fn should_ignore_comment(comment: &str) -> (ignore: bool)
        ensures
            ignore == ignorable(comment@),
    {
        let comment = chars_of(comment);
        if contains_char(&comment, '\n') {
            return true;
        }
        let (start, end) = trim(&comment);
        let kept = chars_of(string_of(&comment, start, end).as_str());
        is_text(&kept, "{{{") || is_text(&kept, "}}}")
    }

    /// Checks the widths of a column layout.
    pub fn validate_column_layout(columns: &Vec<u8>) -> (result: Result<(), BuildError>)
        ensures
            match layout_problem(columns@) {
                Some(problem) => result is Err && result->Err_0@ == BuildErrorView::InvalidLayout(
                    problem,
                ),
                None => result is Ok,
            },
    {
        if columns.len() == 0 {
            return Err(BuildError::InvalidLayout("need at least one column"));
        }
        let mut i: usize = 0;
        while i < columns.len()
            invariant
                i <= columns.len(),
                forall|k: int| 0 <= k < i ==> columns@[k] != 0,
            decreases columns.len() - i,
        {
            if columns[i] == 0 {
                return Err(BuildError::InvalidLayout("can't have zero sized columns"));
            }
            i += 1;
        }
        Ok(())
    }

    /// Enters the column at `column`.
    fn enter_column(&mut self, column: usize) -> (result: Result<(), BuildError>)
        ensures
            old(self)@.after_column(column).is(result, final(self)@),
            old(self)@.wf() ==> final(self)@.wf(),
    {
        let (current_column, columns_count) = match self.slide_state.layout {
            LayoutState::InColumn { column, columns_count } => (Some(column), columns_count),
            LayoutState::InLayout { columns_count } => (None, columns_count),
            LayoutState::Default => {
                return Err(BuildError::NoLayout);
            },
        };
        let same = match current_column {
            Some(current) => current == column,
            None => false,
        };
        if same {
            return Err(BuildError::AlreadyInColumn);
        } else if column >= columns_count {
            return Err(BuildError::ColumnIndexTooLarge);
        }
        self.slide_state.layout = LayoutState::InColumn { column, columns_count };
        self.push(RenderOperation::EnterColumn { column });
        assert(self@.operations =~= old(self)@.operations.push(
            RenderOperationView::EnterColumn { column },
        ));
        Ok(())
    }

    /// Carries out a command.
    pub fn process_command(&mut self, command: CommentCommand) -> (result: Result<(), BuildError>)
        ensures
            old(self)@.after_command(command@).is(result, final(self)@),
            old(self)@.wf() ==> final(self)@.wf(),
            old(self)@.begun() ==> final(self)@.begun(),
    {
        reveal(BuilderView::after_command);
        match command {
            CommentCommand::Pause => self.process_pause(),
            CommentCommand::EndSlide => self.terminate_slide(),
            CommentCommand::InitColumnLayout(columns) => {
                match Self::validate_column_layout(&columns) {
                    Ok(_) => {},
                    Err(error) => {
                        return Err(error);
                    },
                }
                self.slide_state.layout = LayoutState::InLayout { columns_count: columns.len() };
                let ghost view = columns@;
                self.push(RenderOperation::InitColumnLayout { columns });
                self.slide_state.needs_enter_column = true;
                assert(self@.operations =~= old(self)@.operations.push(
                    RenderOperationView::InitColumnLayout { columns: view },
                ));
            },
            CommentCommand::ResetLayout => {
                self.slide_state.layout = LayoutState::Default;
                self.push(RenderOperation::ExitLayout);
                self.push(RenderOperation::RenderLineBreak);
                assert(self@.operations =~= old(self)@.operations + seq![
                    RenderOperationView::ExitLayout,
                    RenderOperationView::RenderLineBreak,
                ]);
            },
            CommentCommand::Column(column) => {
                match self.enter_column(column) {
                    Ok(_) => {},
                    Err(error) => {
                        return Err(error);
                    },
                }
            },
        }
        self.slide_state.ignore_element_line_break = true;
        Ok(())
    }

    /// Takes in a comment: a note is passed over, a command carried out.
    pub fn process_comment(&mut self, comment: String, source_position: SourcePosition) -> (result:
        Result<(), BuildError>)
        ensures
            old(self)@.after_comment(comment@, source_position).is(result, final(self)@),
            old(self)@.wf() ==> final(self)@.wf(),
            old(self)@.begun() ==> final(self)@.begun(),
    {
        reveal(BuilderView::after_comment);
        if Self::should_ignore_comment(comment.as_str()) {
            return Ok(());
        }
        let command = match CommentCommand::from_str(comment.as_str()) {
            Ok(command) => command,
            Err(error) => {
                return Err(
                    BuildError::CommandParse {
                        line: source_position.start.line.saturating_add(1),
                        error,
                    },
                );
            },
        };
        self.process_command(command)
    }

    /// Checks that no content stands outside a column of an open layout.
    pub fn validate_last_operation(&mut self) -> (result: Result<(), BuildError>)
        ensures
            old(self)@.after_validation().is(result, final(self)@),
            old(self)@.wf() ==> final(self)@.wf(),
    {
        if !self.slide_state.needs_enter_column {
            return Ok(());
        }
        if self.chunk_operations.len() == 0 {
            return Ok(());
        }
        let last = &self.chunk_operations[self.chunk_operations.len() - 1];
        assert(last@ == self@.operations.last());
        let last_valid = match last {
            RenderOperation::InitColumnLayout { .. } => {
                return Ok(());
            },
            RenderOperation::EnterColumn { .. } => true,
            RenderOperation::ExitLayout => true,
            _ => false,
        };
        self.slide_state.needs_enter_column = false;
        if last_valid {
            Ok(())
        } else {
            Err(BuildError::NotInsideColumn)
        }
    }
}

impl<'a> PresentationBuilder<'a> {
    /// The theme that a front matter names, given the theme in use.
    pub fn choose_theme(
        theme: &PresentationTheme,
        resources: &crate::resource::Resources,
        metadata: &PresentationThemeMetadata,
    ) -> (result: Result<PresentationTheme, BuildError>)
        ensures
            match chosen_theme(*theme, *resources, metadata@) {
                Ok(chosen) => result == Ok::<PresentationTheme, BuildError>(chosen),
                Err(error) => result is Err && result->Err_0@ == error,
            },
    {
        if metadata.name.is_some() && metadata.path.is_some() {
            return Err(
                BuildError::InvalidMetadata("cannot have both theme path and theme name".to_owned()),
            );
        }
        if let Some(theme_name) = &metadata.name {
            return match resources.named_theme(theme_name.as_str()) {
                Some(theme) => Ok(theme),
                None => {
                    let mut message = "theme '".to_owned();
                    message.append(theme_name.as_str());
                    message.append("' does not exist");
                    assert(message@ =~= missing_theme_message(theme_name@));
                    Err(BuildError::InvalidMetadata(message))
                },
            };
        }
        if let Some(theme_path) = &metadata.path {
            return match resources.theme(theme_path.as_str()) {
                Ok(theme) => Ok(theme),
                Err(error) => Err(BuildError::InvalidTheme(error)),
            };
        }
        Ok(theme.clone())
    }

    /// Chooses the theme that the front matter asks for.
    pub fn set_theme(&mut self, metadata: &PresentationThemeMetadata) -> (result: Result<
        (),
        BuildError,
    >)
        ensures
            old(self)@.after_theme(metadata@).is(result, final(self)@),
            old(self)@.wf() ==> final(self)@.wf(),
    {
        reveal(BuilderView::after_theme);
        match Self::choose_theme(&self.theme, self.resources, metadata) {
            Ok(theme) => {
                self.theme = theme;
            },
            Err(error) => {
                return Err(error);
            },
        }
        if metadata.overrides {
            match &self.resources.overridden_theme {
                Some(Ok(theme)) => {
                    self.theme = theme.clone();
                },
                Some(Err(reason)) => {
                    let mut message = "invalid theme: ".to_owned();
                    message.append(reason.as_str());
                    return Err(BuildError::InvalidMetadata(message));
                },
                None => {
                    let mut message = "invalid theme: ".to_owned();
                    message.append("the overrides were not resolved");
                    return Err(BuildError::InvalidMetadata(message));
                },
            }
        }
        Ok(())
    }

    /// Chooses the highlighter that the theme asks for.
    pub fn set_code_theme(&mut self) -> (result: Result<(), BuildError>)
        ensures
            old(self)@.after_code_theme().is(result, final(self)@),
            old(self)@.wf() ==> final(self)@.wf(),
    {
        if let Some(theme) = &self.theme.code.theme_name {
            match CodeHighlighter::new(theme.as_str()) {
                Ok(highlighter) => {
                    self.highlighter = highlighter;
                },
                Err(_) => {
                    return Err(BuildError::InvalidCodeTheme);
                },
            }
        }
        Ok(())
    }

    /// Adds the introductory slide and ends it.
    pub fn push_intro_slide(&mut self, metadata: PresentationMetadata)
        ensures
            final(self)@ == old(self)@.with_intro_slide(metadata@),
            old(self)@.wf() ==> final(self)@.wf(),
    {
        let ghost view = metadata@;
        let ghost start = self@;
        let styles = self.theme.intro_slide;
        let title = StyledText::new(
            match metadata.title {
                Some(title) => title,
                None => String::new(),
            },
            TextStyle::default().bold().colors(styles.title.colors),
        );
        self.push(RenderOperation::JumpToVerticalCenter);
        self.push_text(Text::single(title), ElementType::PresentationTitle);
        self.push_line_break();
        if let Some(text) = metadata.sub_title {
            let sub_title = StyledText::new(text, TextStyle::default().colors(styles.subtitle.colors));
            self.push_text(Text::single(sub_title), ElementType::PresentationSubTitle);
            self.push_line_break();
        }
        if let Some(text) = metadata.author {
            let author = StyledText::new(text, TextStyle::default().colors(styles.author.colors));
            match styles.author.positioning {
                AuthorPositioning::BelowTitle => {
                    self.push_line_break();
                    self.push_line_break();
                    self.push_line_break();
                },
                AuthorPositioning::PageBottom => {
                    self.push(RenderOperation::JumpToBottomRow { index: 0 });
                },
            }
            self.push_text(Text::single(author), ElementType::PresentationAuthor);
        }
        assert(self@.operations =~= start.operations + intro_operations(start.theme, view));
        self.terminate_slide();
    }

    /// Takes in the front matter.
    pub fn process_front_matter(&mut self, contents: &str) -> (result: Result<(), BuildError>)
        ensures
            old(self)@.after_front_matter(contents@).is(result, final(self)@),
            old(self)@.wf() ==> final(self)@.wf(),
    {
        reveal(BuilderView::after_front_matter);
        let metadata = match PresentationMetadata::from_str(contents) {
            Ok(metadata) => metadata,
            Err(message) => {
                return Err(BuildError::InvalidMetadata(message));
            },
        };
        self.footer_context.author = match &metadata.author {
            Some(author) => author.clone(),
            None => String::new(),
        };
        match self.set_theme(&metadata.theme) {
            Ok(_) => {},
            Err(error) => {
                return Err(error);
            },
        }
        if metadata.title.is_some() || metadata.sub_title.is_some() || metadata.author.is_some() {
            self.push_slide_prelude();
            self.push_intro_slide(metadata);
        }
        Ok(())
    }
}

} // verus!
