//! The session: one presentation, shown, moved through and reloaded.
//!
//! The presenter decides; reading commands, reading the document, drawing
//! and running processes are the caller's part. Each function takes what the
//! caller has read or seen and says what is to be done next.

use crate::builder::{BuildError, PresentationBuilder, PresentationBuilderOptions};
use crate::elements::MarkdownElement;
use crate::execution::ExecutionState;
use crate::highlighter::CodeHighlighter;
use crate::presentation::{chunks_settled, Presentation, PresentationView};
use crate::resource::Resources;
use crate::theme::PresentationTheme;
use crate::walk::{built, elements_view, elements_wf};
use crate::widgets::{launches_view, observations_view, Launch};
use std::collections::HashSet;
use vstd::prelude::*;

verus! {

broadcast use vstd::std_specs::hash::group_hash_axioms;

/// This presentation mode.
#[derive(Clone, Copy, Debug, PartialEq, Eq)]
pub enum PresentMode {
    /// The presentation is being written: it is reloaded when the document
    /// changes.
    Development,
    /// The presentation is being given: it is never reloaded.
    Presentation,
    /// The presentation is being exported: code blocks are shown whole.
    Export,
}

/// What the user asks for.
#[derive(Clone, Copy, Debug, PartialEq, Eq)]
pub enum Command {
    Redraw,
    JumpNextSlide,
    JumpPreviousSlide,
    JumpFirstSlide,
    JumpLastSlide,
    /// Go to the slide with the given number, counted from one.
    JumpSlide(u32),
    /// Run the widgets of the current slide.
    RenderWidgets,
    Reload,
    /// Reload, and load images and themes anew.
    HardReload,
    Exit,
}

/// What is to be done after a command.
#[derive(Clone, Copy, Debug, PartialEq, Eq)]
pub enum CommandSideEffect {
    Exit,
    Redraw,
    PollWidgets,
    Reload,
    /// Nothing is to be done.
    Nothing,
}

/// Why a frame could not be drawn.
#[derive(Clone, Debug)]
pub enum RenderError {
    /// The window is too small for the slide.
    TerminalTooSmall,
    /// Anything else.
    Other(String),
}

/// What is to be drawn.
#[derive(Debug)]
pub enum RenderTarget<'a> {
    /// The current slide of the presentation.
    Slide(&'a Presentation),
    /// The error, above the presentation that was shown before it.
    Error(&'a String),
}

/// What the presenter shows.
#[derive(Debug)]
pub enum PresenterState {
    /// Nothing yet.
    Empty,
    /// A presentation.
    Presenting(Presentation),
    /// An error that a reload gave, and the presentation shown before it.
    Failure { error: String, presentation: Presentation },
}

/// What a [`PresenterState`] holds.
pub enum PresenterStateView {
    Empty,
    Presenting(PresentationView),
    Failure { error: Seq<char>, presentation: PresentationView },
}

impl View for PresenterState {
    type V = PresenterStateView;

    open spec fn view(&self) -> PresenterStateView {
        match self {
            PresenterState::Empty => PresenterStateView::Empty,
            PresenterState::Presenting(presentation) => PresenterStateView::Presenting(
                presentation@,
            ),
            PresenterState::Failure { error, presentation } => PresenterStateView::Failure {
                error: error@,
                presentation: presentation@,
            },
        }
    }
}

impl PresenterStateView {
    /// The presentation that is shown, under an error or not.
    pub open spec fn presentation(self) -> PresentationView
        recommends
            !(self is Empty),
    {
        match self {
            PresenterStateView::Presenting(presentation) => presentation,
            PresenterStateView::Failure { presentation, .. } => presentation,
            PresenterStateView::Empty => arbitrary(),
        }
    }

    /// Whatever presentation the state holds is well formed.
    pub open spec fn wf(self) -> bool {
        self is Empty || self.presentation().wf()
    }
}

impl PresenterState {
    /// The presentation that is shown.
    pub fn presentation(&self) -> (presentation: &Presentation)
        requires
            !(self@ is Empty),
        ensures
            presentation@ == self@.presentation(),
    {
        match self {
            PresenterState::Presenting(presentation) => presentation,
            PresenterState::Failure { presentation, .. } => presentation,
            PresenterState::Empty => unreached(),
        }
    }

    /// The presentation that is shown, to be changed.
    pub fn presentation_mut(&mut self) -> (presentation: &mut Presentation)
        requires
            !(old(self)@ is Empty),
        ensures
            presentation@ == old(self)@.presentation(),
            final(self)@ == (match old(self)@ {
                PresenterStateView::Presenting(_) => PresenterStateView::Presenting(
                    final(presentation)@,
                ),
                PresenterStateView::Failure { error, .. } => PresenterStateView::Failure {
                    error,
                    presentation: final(presentation)@,
                },
                PresenterStateView::Empty => PresenterStateView::Empty,
            }),
    {
        match self {
            PresenterState::Presenting(presentation) => presentation,
            PresenterState::Failure { presentation, .. } => presentation,
            PresenterState::Empty => unreached(),
        }
    }

    /// The presentation that is shown, the state given up.
    pub fn into_presentation(self) -> (presentation: Presentation)
        requires
            !(self@ is Empty),
        ensures
            presentation@ == self@.presentation(),
    {
        match self {
            PresenterState::Presenting(presentation) => presentation,
            PresenterState::Failure { presentation, .. } => presentation,
            PresenterState::Empty => unreached(),
        }
    }
}

/// Why a presentation could not be loaded.
#[derive(Clone, Debug)]
pub enum LoadPresentationError {
    /// The document could not be parsed.
    Parse(String),
    /// The document could not be read.
    Reading(String),
    /// The presentation could not be built.
    Processing(BuildError),
}

impl LoadPresentationError {
    /// The message with which the error is shown.
    pub open spec fn message(self) -> Seq<char> {
        match self {
            LoadPresentationError::Parse(reason) => reason@,
            LoadPresentationError::Reading(reason) => "reading presentation: "@ + reason@,
            LoadPresentationError::Processing(error) => error@.message(),
        }
    }

    /// The message with which the error is shown.
    pub fn to_string(&self) -> (message: String)
        ensures
            message@ == self.message(),
    {
        match self {
            LoadPresentationError::Parse(reason) => reason.clone(),
            LoadPresentationError::Reading(reason) => crate::message::concat(
                "reading presentation: ",
                reason.as_str(),
            ),
            LoadPresentationError::Processing(error) => error.to_string(),
        }
    }
}

/// Why a session ended.
#[derive(Clone, Debug)]
pub enum PresentationError {
    Render(RenderError),
    LoadPresentation(LoadPresentationError),
    Io(String),
    Fatal(String),
}

impl RenderError {
    /// The message with which the error is shown.
    pub open spec fn message(self) -> Seq<char> {
        match self {
            RenderError::TerminalTooSmall => "terminal is too small"@,
            RenderError::Other(reason) => reason@,
        }
    }

    /// The message with which the error is shown.
    pub fn to_string(&self) -> (message: String)
        ensures
            message@ == self.message(),
    {
        match self {
            RenderError::TerminalTooSmall => "terminal is too small".to_owned(),
            RenderError::Other(reason) => reason.clone(),
        }
    }
}

impl PresentationError {
    /// The message with which the error is shown.
    pub open spec fn message(self) -> Seq<char> {
        match self {
            PresentationError::Render(error) => error.message(),
            PresentationError::LoadPresentation(error) => error.message(),
            PresentationError::Io(reason) => "io: "@ + reason@,
            PresentationError::Fatal(reason) => "fatal error: "@ + reason@,
        }
    }

    /// The message with which the error is shown.
    pub fn to_string(&self) -> (message: String)
        ensures
            message@ == self.message(),
    {
        match self {
            PresentationError::Render(error) => error.to_string(),
            PresentationError::LoadPresentation(error) => error.to_string(),
            PresentationError::Io(reason) => crate::message::concat("io: ", reason.as_str()),
            PresentationError::Fatal(reason) => crate::message::concat(
                "fatal error: ",
                reason.as_str(),
            ),
        }
    }
}

/// Where two presentations first differ.
#[derive(Clone, Copy, Debug, PartialEq, Eq)]
pub struct Modification {
    pub slide_index: usize,
    pub chunk_index: usize,
}

/// A slideshow presenter.
pub struct Presenter<'a> {
    pub default_theme: &'a PresentationTheme,
    pub default_highlighter: CodeHighlighter,
    pub resources: Resources,
    pub mode: PresentMode,
    pub state: PresenterState,
    /// The slides on which processes run.
    pub slides_with_pending_widgets: HashSet<usize>,
}

/// What a [`Presenter`] holds.
pub struct PresenterView {
    pub mode: PresentMode,
    pub state: PresenterStateView,
    pub pending: Set<usize>,
}

impl<'a> View for Presenter<'a> {
    type V = PresenterView;

    open spec fn view(&self) -> PresenterView {
        PresenterView {
            mode: self.mode,
            state: self.state@,
            pending: self.slides_with_pending_widgets@,
        }
    }
}

impl PresenterStateView {
    /// The state with its presentation replaced.
    pub open spec fn with_presentation(self, presentation: PresentationView) -> PresenterStateView {
        match self {
            PresenterStateView::Presenting(_) => PresenterStateView::Presenting(presentation),
            PresenterStateView::Failure { error, .. } => PresenterStateView::Failure {
                error,
                presentation,
            },
            PresenterStateView::Empty => PresenterStateView::Empty,
        }
    }
}

/// The slide that a command names: numbers count from one, and zero stands
/// for the first slide too.
pub open spec fn slide_named(number: u32) -> usize {
    if number == 0 {
        0
    } else {
        (number - 1) as usize
    }
}

impl PresenterView {
    /// The presentation after a command that moves through it, and whether
    /// the command changed what is shown.
    pub open spec fn navigated(presentation: PresentationView, command: Command) -> (
        PresentationView,
        bool,
    ) {
        match command {
            Command::Redraw => (presentation, true),
            Command::JumpNextSlide => (presentation.moved_next(), presentation.can_move_next()),
            Command::JumpPreviousSlide => (
                presentation.moved_previous(),
                presentation.can_move_previous(),
            ),
            Command::JumpFirstSlide => (presentation.at_slide(0), true),
            Command::JumpLastSlide => (
                presentation.at_slide((presentation.slides.len() - 1) as usize),
                true,
            ),
            Command::JumpSlide(number) => (
                presentation.at_slide(slide_named(number)),
                slide_named(number) < presentation.slides.len(),
            ),
            _ => (presentation, false),
        }
    }

    /// The presenter after a command, given how the launches of the current
    /// slide's widgets ended. Reloading and leaving change nothing here.
    /// Every other command needs a presentation that is shown without an
    /// error, and changes nothing otherwise.
    pub open spec fn after_command(self, command: Command, launches: Seq<Result<(), Seq<char>>>) -> PresenterView {
        match command {
            Command::Reload => self,
            Command::HardReload => self,
            Command::Exit => self,
            _ => match self.state {
                PresenterStateView::Presenting(presentation) => match command {
                    Command::RenderWidgets => PresenterView {
                        state: PresenterStateView::Presenting(
                            presentation.widgets_started(launches),
                        ),
                        pending: if presentation.starts_widget(launches.len()) {
                            self.pending.insert(presentation.current_slide_index)
                        } else {
                            self.pending
                        },
                        ..self
                    },
                    _ => PresenterView {
                        state: PresenterStateView::Presenting(
                            Self::navigated(presentation, command).0,
                        ),
                        ..self
                    },
                },
                _ => self,
            },
        }
    }

    /// What is to be done after a command.
    pub open spec fn side_effect(self, command: Command, launches: nat) -> CommandSideEffect {
        match command {
            Command::Reload => CommandSideEffect::Reload,
            Command::HardReload => CommandSideEffect::Reload,
            Command::Exit => CommandSideEffect::Exit,
            _ => match self.state {
                PresenterStateView::Presenting(presentation) => match command {
                    Command::RenderWidgets => if presentation.starts_widget(launches) {
                        CommandSideEffect::PollWidgets
                    } else {
                        CommandSideEffect::Nothing
                    },
                    _ => if Self::navigated(presentation, command).1 {
                        CommandSideEffect::Redraw
                    } else {
                        CommandSideEffect::Nothing
                    },
                },
                _ => CommandSideEffect::Nothing,
            },
        }
    }

    /// Where a reloaded presentation is shown: where it first differs from
    /// the one before it, or where that one was shown.
    pub open spec fn reload_target(self, modification: Option<Modification>) -> (usize, usize) {
        match modification {
            Some(modification) => (modification.slide_index, modification.chunk_index),
            None => (
                self.state.presentation().cursor().0,
                self.state.presentation().cursor().1 as usize,
            ),
        }
    }

    /// The presenter after a reload that gave `loaded`. While a talk is
    /// given nothing is reloaded. Else no slide has processes running any
    /// more; a presentation that was loaded is shown at the reload target
    /// (or at its start, or at the slide's last chunk, where it has no such
    /// slide or chunk); an error is shown above the presentation shown so
    /// far.
    pub open spec fn reloaded(
        self,
        loaded: Result<PresentationView, Seq<char>>,
        modification: Option<Modification>,
    ) -> PresenterView {
        if self.mode == PresentMode::Presentation {
            self
        } else {
            let target = self.reload_target(modification);
            PresenterView {
                pending: Set::empty(),
                state: match loaded {
                    Ok(presentation) => PresenterStateView::Presenting(
                        presentation.at_slide(target.0).at_chunk(target.1),
                    ),
                    Err(error) => PresenterStateView::Failure {
                        error,
                        presentation: self.state.presentation(),
                    },
                },
                ..self
            }
        }
    }

    /// The presenter after its widgets were looked at: where processes run
    /// on the current slide, its widgets take in what was seen, and once all
    /// are done the slide is no longer one on which processes run.
    pub open spec fn widgets_updated(self, observed: Seq<crate::widgets::Observation>) -> PresenterView {
        let presentation = self.state.presentation();
        let current = presentation.current_slide_index;
        if self.pending.contains(current) {
            let polled = presentation.widgets_polled(observed);
            PresenterView {
                state: self.state.with_presentation(polled),
                pending: if chunks_settled(polled.current_slide().visible()) {
                    self.pending.remove(current)
                } else {
                    self.pending
                },
                ..self
            }
        } else {
            self
        }
    }

    /// How often the slide is to be drawn when the widgets are looked at:
    /// not at all where no process runs on the slide; once where one does;
    /// once more where the widgets have just become done.
    pub open spec fn redraws(self, observed: Seq<crate::widgets::Observation>) -> nat {
        let presentation = self.state.presentation();
        if !self.pending.contains(presentation.current_slide_index) {
            0
        } else if chunks_settled(
            presentation.widgets_polled(observed).current_slide().visible(),
        ) {
            2
        } else {
            1
        }
    }
}

impl<'a> Presenter<'a> {
    /// Construct a new presenter.
    pub fn new(
        default_theme: &'a PresentationTheme,
        default_highlighter: CodeHighlighter,
        resources: Resources,
        mode: PresentMode,
    ) -> (presenter: Self)
        ensures
            presenter@ == (PresenterView {
                mode,
                state: PresenterStateView::Empty,
                pending: Set::empty(),
            }),
            presenter.default_theme == default_theme,
            presenter.default_highlighter == default_highlighter,
            presenter.resources == resources,
    {
        Presenter {
            default_theme,
            default_highlighter,
            resources,
            mode,
            state: PresenterState::Empty,
            slides_with_pending_widgets: HashSet::new(),
        }
    }

    /// The options with which presentations are built: code blocks are
    /// revealed step by step unless the presentation is exported.
    pub fn options(&self) -> (options: PresentationBuilderOptions)
        ensures
            options.allow_mutations == (self.mode != PresentMode::Export),
    {
        let mut options = PresentationBuilderOptions::default();
        if let PresentMode::Export = self.mode {
            options.allow_mutations = false;
        }
        options
    }

    /// Builds the presentation of a document's elements.
    pub fn load_presentation(&self, elements: Vec<MarkdownElement>) -> (result: Result<
        Presentation,
        LoadPresentationError,
    >)
        requires
            elements_wf(elements_view(elements@)),
        ensures
            match built(
                PresentationBuilder::new_view(
                    self.default_highlighter.theme(),
                    *self.default_theme,
                    self.resources,
                    self.mode != PresentMode::Export,
                ),
                elements_view(elements@),
            ) {
                Ok(presentation) => result is Ok && result->Ok_0@ == presentation,
                Err(error) => result matches Err(LoadPresentationError::Processing(e)) && e@
                    == error,
            },
            result is Ok ==> result->Ok_0@.wf(),
    {
        let builder = PresentationBuilder::new(
            self.default_highlighter.clone(),
            self.default_theme,
            &self.resources,
            self.options(),
        );
        match builder.build(elements) {
            Ok(presentation) => Ok(presentation),
            Err(error) => Err(LoadPresentationError::Processing(error)),
        }
    }

    /// Shows a presentation.
    pub fn show(&mut self, presentation: Presentation)
        ensures
            final(self)@ == (PresenterView {
                state: PresenterStateView::Presenting(presentation@),
                ..old(self)@
            }),
            final(self).default_theme == old(self).default_theme,
            final(self).default_highlighter == old(self).default_highlighter,
            final(self).resources == old(self).resources,
    {
        self.state = PresenterState::Presenting(presentation);
    }

    /// Whether the presentation is reloaded when the document changes.
    pub fn reloads(&self) -> (reloads: bool)
        ensures
            reloads == (self@.mode != PresentMode::Presentation),
    {
        match self.mode {
            PresentMode::Presentation => false,
            _ => true,
        }
    }

    /// What is to be drawn: the presentation, or the error above it.
    pub fn render(&self) -> (target: RenderTarget<'_>)
        requires
            !(self@.state is Empty),
        ensures
            match target {
                RenderTarget::Slide(presentation) => self@.state
                    == PresenterStateView::Presenting(presentation@),
                RenderTarget::Error(error) => self@.state is Failure && self@.state->error
                    == error@,
            },
    {
        match &self.state {
            PresenterState::Presenting(presentation) => RenderTarget::Slide(presentation),
            PresenterState::Failure { error, .. } => RenderTarget::Error(error),
            PresenterState::Empty => unreached(),
        }
    }

    /// What comes of drawing: a window that is too small is no error, since
    /// it will be drawn again when its size changes.
    pub fn rendered(result: Result<(), RenderError>) -> (outcome: Result<(), RenderError>)
        ensures
            match result {
                Ok(_) => outcome is Ok,
                Err(RenderError::TerminalTooSmall) => outcome is Ok,
                Err(RenderError::Other(reason)) => outcome == Err::<(), RenderError>(
                    RenderError::Other(reason),
                ),
            },
    {
        match result {
            Err(RenderError::TerminalTooSmall) => Ok(()),
            other => other,
        }
    }

    /// Looks at the widgets of the current slide, given what was seen of
    /// their processes, and says how often the slide is to be drawn.
    pub fn update_widgets(&mut self, observed: Vec<ExecutionState>) -> (redraws: usize)
        requires
            !(old(self)@.state is Empty),
            old(self)@.state.wf(),
        ensures
            final(self)@ == old(self)@.widgets_updated(observations_view(observed@)),
            redraws == old(self)@.redraws(observations_view(observed@)),
            final(self)@.state.wf(),
            !(final(self)@.state is Empty),
            final(self).default_theme == old(self).default_theme,
            final(self).default_highlighter == old(self).default_highlighter,
            final(self).resources == old(self).resources,
    {
        let current_index = self.state.presentation().current_slide_index();
        if self.slides_with_pending_widgets.contains(&current_index) {
            let settled = self.state.presentation_mut().widgets_rendered(observed);
            if settled {
                self.slides_with_pending_widgets.remove(&current_index);
                2
            } else {
                1
            }
        } else {
            0
        }
    }

    /// Carries out a command and says what is to be done next. `launches`
    /// tells how the launches of the current slide's widgets ended; it is
    /// looked at only where the widgets are to be run.
    pub fn apply_command(&mut self, command: Command, launches: Vec<Launch>) -> (effect:
        CommandSideEffect)
        requires
            old(self)@.state.wf(),
        ensures
            final(self)@ == old(self)@.after_command(command, launches_view(launches@)),
            effect == old(self)@.side_effect(command, launches@.len()),
            final(self)@.state.wf(),
            final(self).default_theme == old(self).default_theme,
            final(self).default_highlighter == old(self).default_highlighter,
            command != Command::HardReload || old(self)@.mode != PresentMode::Development
                ==> final(self).resources == old(self).resources,
            command == Command::HardReload && old(self)@.mode == PresentMode::Development ==> {
                &&& final(self).resources.images@.len() == 0
                &&& final(self).resources.themes@.len() == 0
                &&& final(self).resources.overridden_theme is None
                &&& final(self).resources.named_themes == old(self).resources.named_themes
            },
    {
        match command {
            Command::Reload => {
                return CommandSideEffect::Reload;
            },
            Command::HardReload => {
                if let PresentMode::Development = self.mode {
                    self.resources.clear();
                }
                return CommandSideEffect::Reload;
            },
            Command::Exit => {
                return CommandSideEffect::Exit;
            },
            _ => {},
        }
        let presentation = match &mut self.state {
            PresenterState::Presenting(presentation) => presentation,
            _ => {
                return CommandSideEffect::Nothing;
            },
        };
        let needs_redraw = match command {
            Command::Redraw => true,
            Command::JumpNextSlide => presentation.jump_next_slide(),
            Command::JumpPreviousSlide => presentation.jump_previous_slide(),
            Command::JumpFirstSlide => presentation.jump_first_slide(),
            Command::JumpLastSlide => presentation.jump_last_slide(),
            Command::JumpSlide(number) => {
                let index: usize = if number == 0 {
                    0
                } else {
                    (number - 1) as usize
                };
                presentation.jump_slide(index)
            },
            Command::RenderWidgets => {
                let current = presentation.current_slide_index();
                if presentation.render_slide_widgets(launches) {
                    self.slides_with_pending_widgets.insert(current);
                    return CommandSideEffect::PollWidgets;
                } else {
                    return CommandSideEffect::Nothing;
                }
            },
            _ => false,
        };
        if needs_redraw {
            CommandSideEffect::Redraw
        } else {
            CommandSideEffect::Nothing
        }
    }

    /// Takes in what a reload gave: the presentation that was loaded, or the
    /// error, and where the presentation first differs from the one shown.
    pub fn try_reload(
        &mut self,
        loaded: Result<Presentation, LoadPresentationError>,
        modification: Option<Modification>,
    )
        requires
            !(old(self)@.state is Empty),
            old(self)@.state.wf(),
            loaded is Ok ==> loaded->Ok_0@.wf(),
        ensures
            final(self)@ == old(self)@.reloaded(
                match loaded {
                    Ok(presentation) => Ok(presentation@),
                    Err(error) => Err(error.message()),
                },
                modification,
            ),
            final(self)@.state.wf(),
            !(final(self)@.state is Empty),
            final(self).default_theme == old(self).default_theme,
            final(self).default_highlighter == old(self).default_highlighter,
            final(self).resources == old(self).resources,
    {
        if let PresentMode::Presentation = self.mode {
            return ;
        }
        self.slides_with_pending_widgets.clear();
        match loaded {
            Ok(presentation) => {
                let mut presentation = presentation;
                let current = self.state.presentation();
                let (slide, chunk) = match modification {
                    Some(modification) => (modification.slide_index, modification.chunk_index),
                    None => (current.current_slide_index(), current.current_chunk()),
                };
                presentation.jump_slide(slide);
                presentation.jump_chunk(chunk);
                self.state = PresenterState::Presenting(presentation);
            },
            Err(error) => {
                let mut state = PresenterState::Empty;
                std::mem::swap(&mut self.state, &mut state);
                let presentation = state.into_presentation();
                self.state = PresenterState::Failure { error: error.to_string(), presentation };
            },
        }
    }
}

/// After a reload in which the presentation was loaded, the cursor stands at
/// the reload target: where the new presentation first differs from the old
/// one, or, where it does not differ, where the old one was shown. This
/// holds where the new presentation has the slide and the chunk that the
/// target names.
pub proof fn lemma_reload_cursor(
    presenter: PresenterView,
    loaded: PresentationView,
    modification: Option<Modification>,
)
    requires
        presenter.mode != PresentMode::Presentation,
        !(presenter.state is Empty),
        presenter.state.wf(),
        loaded.wf(),
        presenter.reload_target(modification).0 < loaded.slides.len(),
        presenter.reload_target(modification).1 < loaded.slides[presenter.reload_target(
            modification,
        ).0 as int].chunks.len(),
    ensures
        presenter.reloaded(Ok(loaded), modification).state.presentation().cursor() == (
            presenter.reload_target(modification).0,
            presenter.reload_target(modification).1 as int,
        ),
        modification is None ==> presenter.reloaded(
            Ok(loaded),
            modification,
        ).state.presentation().cursor() == presenter.state.presentation().cursor(),
{
    let target = presenter.reload_target(modification);
    crate::presentation::lemma_jump_sets_cursor(loaded, target.0, target.1);
    if modification is None {
        let shown = presenter.state.presentation();
        assert(shown.slides[shown.current_slide_index as int].wf());
    }
}

} // verus!
