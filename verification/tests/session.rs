use presenterm::builder::{PresentationBuilder, PresentationBuilderOptions};
use presenterm::elements::{
    Code, CodeAttributes, CodeLanguage, Highlight, HighlightGroup, ListItem, ListItemType,
    MarkdownElement, SourcePosition, Text,
};
use presenterm::execution::{ExecutionState, ProcessStatus};
use presenterm::highlighter::CodeHighlighter;
use presenterm::operation::{DynamicOperation, RenderOperation};
use presenterm::presentation::Presentation;
use presenterm::presenter::{
    Command, CommandSideEffect, LoadPresentationError, Modification, PresentMode,
    PresentationError, Presenter, PresenterState, RenderError, RenderTarget,
};
use presenterm::resource::Resources;
use presenterm::theme::PresentationTheme;

fn comment(text: &str) -> MarkdownElement {
    MarkdownElement::Comment { comment: text.into(), source_position: SourcePosition::default() }
}

fn heading(text: &str) -> MarkdownElement {
    MarkdownElement::Heading { level: 1, text: Text::from(text) }
}

fn code(groups: u16, execute: bool) -> MarkdownElement {
    MarkdownElement::Code(Code {
        contents: "one\ntwo\nthree\n".into(),
        language: CodeLanguage::Rust,
        attributes: CodeAttributes {
            execute,
            line_numbers: false,
            highlight_groups: (1..=groups).map(|line| HighlightGroup::new(vec![Highlight::Single(line)])).collect(),
        },
    })
}

fn build_in(mode_allows_steps: bool, elements: Vec<MarkdownElement>) -> Presentation {
    let highlighter = CodeHighlighter::new("base16-ocean.dark").unwrap();
    let theme = PresentationTheme::default();
    let resources = Resources::new();
    let options = PresentationBuilderOptions { allow_mutations: mode_allows_steps };
    PresentationBuilder::new(highlighter, &theme, &resources, options).build(elements).unwrap()
}

fn build(elements: Vec<MarkdownElement>) -> Presentation {
    build_in(true, elements)
}

/// Three slides: two chunks, then a code block revealed in three steps, then one chunk.
fn talk() -> Presentation {
    build(vec![
        heading("first"),
        comment("pause"),
        heading("more"),
        comment("end_slide"),
        code(3, false),
        comment("end_slide"),
        heading("last"),
    ])
}

fn cursor(presentation: &Presentation) -> (usize, usize) {
    (presentation.current_slide_index(), presentation.current_chunk())
}

fn steps(presentation: &Presentation) -> Vec<(usize, usize)> {
    presentation.current_slide().chunks().iter().flat_map(|chunk| chunk.contexts().iter().map(|c| c.mutations())).collect()
}

#[test]
fn presentations_are_walked_forward_and_back() {
    let mut presentation = talk();
    assert_eq!(presentation.iter_slides().len(), 3);
    assert_eq!(cursor(&presentation), (0, 0));
    assert!(!presentation.jump_previous_slide());
    assert!(presentation.jump_next_slide());
    assert_eq!(cursor(&presentation), (0, 1));
    assert!(presentation.jump_next_slide());
    assert_eq!(cursor(&presentation), (1, 0));
    assert_eq!(steps(&presentation), vec![(0, 3)]);
    assert!(presentation.jump_next_slide());
    assert_eq!(cursor(&presentation), (1, 0));
    assert_eq!(steps(&presentation), vec![(1, 3)]);
    assert!(presentation.jump_next_slide());
    assert_eq!(steps(&presentation), vec![(2, 3)]);
    assert!(presentation.jump_next_slide());
    assert_eq!(cursor(&presentation), (2, 0));
    assert!(!presentation.jump_next_slide());
    assert_eq!(cursor(&presentation), (2, 0));

    assert!(presentation.jump_previous_slide());
    assert_eq!(cursor(&presentation), (1, 0));
    assert_eq!(steps(&presentation), vec![(2, 3)]);
    assert!(presentation.jump_previous_slide());
    assert_eq!(steps(&presentation), vec![(1, 3)]);
    assert!(presentation.jump_previous_slide());
    assert!(presentation.jump_previous_slide());
    // Going back shows all of the slide before.
    assert_eq!(cursor(&presentation), (0, 1));
    assert!(presentation.jump_previous_slide());
    assert_eq!(cursor(&presentation), (0, 0));
    assert!(!presentation.jump_previous_slide());
}

#[test]
fn jumps_stay_within_the_presentation() {
    let mut presentation = talk();
    assert!(presentation.jump_last_slide());
    assert_eq!(cursor(&presentation), (2, 0));
    assert!(!presentation.jump_slide(3));
    assert_eq!(cursor(&presentation), (2, 0));
    assert!(presentation.jump_slide(0));
    presentation.jump_chunk(7);
    assert_eq!(cursor(&presentation), (0, 1));
    presentation.jump_chunk(0);
    assert_eq!(cursor(&presentation), (0, 0));
    assert!(presentation.jump_slide(1));
    presentation.jump_next_slide();
    assert_eq!(steps(&presentation), vec![(1, 3)]);
    // A jump to a slide shows it from its start.
    assert!(presentation.jump_slide(1));
    assert_eq!(steps(&presentation), vec![(0, 3)]);
    assert!(presentation.jump_first_slide());
    assert_eq!(cursor(&presentation), (0, 0));
}

#[test]
fn visible_operations_grow_with_the_chunks() {
    let mut presentation = talk();
    let shown = presentation.current_slide().iter_operations().len();
    let all = presentation.iter_slides()[0].chunks().iter().map(|chunk| chunk.operations().len()).sum::<usize>()
        + presentation.iter_slides()[0].footer().len();
    assert!(shown < all);
    presentation.jump_next_slide();
    assert_eq!(presentation.current_slide().iter_operations().len(), all);
    assert_eq!(presentation.footer_context().total_slides, 3);
}

#[test]
fn code_is_shown_whole_where_steps_are_not_allowed() {
    let stepped = build(vec![code(3, false)]);
    let chunk = &stepped.iter_slides()[0].chunks()[0];
    assert_eq!(chunk.contexts().len(), 1);
    assert_eq!(chunk.contexts()[0].mutations(), (0, 3));
    assert!(chunk.contexts()[0].highlights(Some(1)) && !chunk.contexts()[0].highlights(Some(2)));

    let mut whole = build_in(false, vec![code(3, false)]);
    let context = &whole.iter_slides()[0].chunks()[0].contexts()[0];
    assert_eq!(context.mutations(), (0, 1));
    assert!(context.highlights(Some(1)) && context.highlights(Some(3)));
    assert!(!whole.jump_next_slide());

    let mut single = build(vec![code(1, false)]);
    assert!(!single.jump_next_slide());
    let lines = single.iter_slides()[0].chunks()[0]
        .operations()
        .iter()
        .filter(|op| matches!(op, RenderOperation::RenderDynamic(DynamicOperation::CodeLine(_))))
        .count();
    assert_eq!(lines, 3);
}

#[test]
fn lists_go_on_after_a_pause() {
    let item = |depth, text: &str| ListItem { depth, contents: Text::from(text), item_type: ListItemType::OrderedParens };
    let presentation = build(vec![
        MarkdownElement::List(vec![item(0, "a"), item(0, "b")]),
        comment("pause"),
        MarkdownElement::List(vec![item(1, "nested"), item(0, "c")]),
        comment("pause"),
        heading("break"),
        MarkdownElement::List(vec![item(0, "fresh")]),
    ]);
    let operations = presentation.into_slides().into_iter().next().unwrap().into_operations();
    let texts: Vec<String> = operations
        .iter()
        .filter_map(|operation| match operation {
            RenderOperation::RenderText { line, .. } => Some(line.texts.iter().map(|t| t.text.text.as_str()).collect()),
            _ => None,
        })
        .collect();
    assert_eq!(texts, vec!["   1) ", "a", "   2) ", "b", "      1) ", "nested", "   3) ", "c", "break", "   1) ", "fresh"]);
}

#[test]
fn bullets_follow_the_depth() {
    let item = |depth| ListItem { depth, contents: Text::from("x"), item_type: ListItemType::Unordered };
    let presentation = build(vec![MarkdownElement::List(vec![item(0), item(1), item(2), item(3)])]);
    let operations = presentation.into_slides().into_iter().next().unwrap().into_operations();
    let marks: Vec<String> = operations
        .iter()
        .filter_map(|operation| match operation {
            RenderOperation::RenderText { line, .. } if line.texts[0].text.text != "x" => {
                Some(line.texts[0].text.text.clone())
            }
            _ => None,
        })
        .collect();
    assert_eq!(marks, vec!["   •", "      ◦", "         ▪", "            ▪"]);
    let margins: Vec<_> = operations
        .iter()
        .filter_map(|operation| match operation {
            RenderOperation::RenderText { line, alignment } if line.texts[0].text.text == "x" => Some(*alignment),
            _ => None,
        })
        .collect();
    assert_eq!(
        margins[0],
        presenterm::theme::Alignment::Left { margin: presenterm::theme::Margin::Fixed(6) }
    );
}

#[test]
fn numbering_survives_a_depth_that_was_never_entered() {
    let item = |depth| ListItem { depth, contents: Text::from("x"), item_type: ListItemType::Unordered };
    let mut iterator = presenterm::numbering::ListIterator::new(vec![item(3), item(3), item(1), item(0), item(0)], 5);
    let mut indexes = Vec::new();
    while let Some(next) = iterator.next() {
        indexes.push(next.index);
    }
    assert_eq!(indexes, vec![0, 1, 0, 0, 1]);
    assert!(iterator.next().is_none());
}

fn presenter(theme: &PresentationTheme, mode: PresentMode) -> Presenter<'_> {
    Presenter::new(theme, CodeHighlighter::new("base16-ocean.dark").unwrap(), Resources::new(), mode)
}

fn shown(presenter: &Presenter) -> (usize, usize) {
    cursor(presenter.state.presentation())
}

#[test]
fn commands_move_through_the_presentation() {
    let theme = PresentationTheme::default();
    let mut presenter = presenter(&theme, PresentMode::Development);
    assert!(matches!(presenter.state, PresenterState::Empty));
    assert_eq!(presenter.apply_command(Command::JumpNextSlide, vec![]), CommandSideEffect::Nothing);
    assert_eq!(presenter.apply_command(Command::Reload, vec![]), CommandSideEffect::Reload);
    assert_eq!(presenter.apply_command(Command::Exit, vec![]), CommandSideEffect::Exit);

    presenter.show(talk());
    assert!(matches!(presenter.render(), RenderTarget::Slide(_)));
    assert_eq!(presenter.apply_command(Command::Redraw, vec![]), CommandSideEffect::Redraw);
    assert_eq!(presenter.apply_command(Command::JumpPreviousSlide, vec![]), CommandSideEffect::Nothing);
    assert_eq!(presenter.apply_command(Command::JumpNextSlide, vec![]), CommandSideEffect::Redraw);
    assert_eq!(shown(&presenter), (0, 1));
    assert_eq!(presenter.apply_command(Command::JumpLastSlide, vec![]), CommandSideEffect::Redraw);
    assert_eq!(shown(&presenter), (2, 0));
    assert_eq!(presenter.apply_command(Command::JumpNextSlide, vec![]), CommandSideEffect::Nothing);
    assert_eq!(presenter.apply_command(Command::JumpSlide(2), vec![]), CommandSideEffect::Redraw);
    assert_eq!(shown(&presenter), (1, 0));
    assert_eq!(presenter.apply_command(Command::JumpSlide(0), vec![]), CommandSideEffect::Redraw);
    assert_eq!(shown(&presenter), (0, 0));
    assert_eq!(presenter.apply_command(Command::JumpSlide(4), vec![]), CommandSideEffect::Nothing);
    assert_eq!(shown(&presenter), (0, 0));
    assert_eq!(presenter.apply_command(Command::JumpFirstSlide, vec![]), CommandSideEffect::Redraw);
    assert_eq!(presenter.apply_command(Command::HardReload, vec![]), CommandSideEffect::Reload);
    assert_eq!(presenter.apply_command(Command::RenderWidgets, vec![]), CommandSideEffect::Nothing);
}

#[test]
fn hard_reloads_forget_what_was_loaded_while_developing() {
    let theme = PresentationTheme::default();
    let image = |path: &str| presenterm::resource::LoadedImage {
        path: path.into(),
        outcome: Ok(presenterm::operation::Image { id: 1 }),
    };
    let mut developing = presenter(&theme, PresentMode::Development);
    developing.resources.images.push(image("a.png"));
    developing.apply_command(Command::Reload, vec![]);
    assert_eq!(developing.resources.images.len(), 1);
    developing.apply_command(Command::HardReload, vec![]);
    assert!(developing.resources.images.is_empty());

    let mut presenting = presenter(&theme, PresentMode::Presentation);
    presenting.resources.images.push(image("a.png"));
    presenting.apply_command(Command::HardReload, vec![]);
    assert_eq!(presenting.resources.images.len(), 1);
}

#[test]
fn reloads_keep_the_cursor_or_go_to_the_change() {
    let theme = PresentationTheme::default();
    let mut presenter = presenter(&theme, PresentMode::Development);
    presenter.show(talk());
    presenter.apply_command(Command::JumpNextSlide, vec![]);
    assert_eq!(shown(&presenter), (0, 1));
    presenter.slides_with_pending_widgets.insert(0);

    presenter.try_reload(Ok(talk()), None);
    assert_eq!(shown(&presenter), (0, 1));
    assert!(presenter.slides_with_pending_widgets.is_empty());
    assert!(matches!(presenter.state, PresenterState::Presenting(_)));

    presenter.try_reload(Ok(talk()), Some(Modification { slide_index: 2, chunk_index: 0 }));
    assert_eq!(shown(&presenter), (2, 0));
    presenter.try_reload(Ok(talk()), Some(Modification { slide_index: 0, chunk_index: 1 }));
    assert_eq!(shown(&presenter), (0, 1));
    // A change beyond the end leaves the new presentation at its start.
    presenter.try_reload(Ok(talk()), Some(Modification { slide_index: 9, chunk_index: 0 }));
    assert_eq!(shown(&presenter), (0, 0));
}

#[test]
fn a_failed_reload_keeps_the_presentation_under_an_error() {
    let theme = PresentationTheme::default();
    let mut presenter = presenter(&theme, PresentMode::Development);
    presenter.show(talk());
    presenter.apply_command(Command::JumpLastSlide, vec![]);
    presenter.try_reload(Err(LoadPresentationError::Reading("gone".into())), None);
    match presenter.render() {
        RenderTarget::Error(error) => assert_eq!(error, "reading presentation: gone"),
        other => panic!("{other:?}"),
    }
    assert_eq!(shown(&presenter), (2, 0));
    // Nothing moves while the error is shown.
    assert_eq!(presenter.apply_command(Command::JumpFirstSlide, vec![]), CommandSideEffect::Nothing);
    assert_eq!(shown(&presenter), (2, 0));
    presenter.try_reload(Ok(talk()), None);
    assert!(matches!(presenter.render(), RenderTarget::Slide(_)));
    assert_eq!(shown(&presenter), (2, 0));
}

#[test]
fn nothing_is_reloaded_while_a_talk_is_given() {
    let theme = PresentationTheme::default();
    let mut presenter = presenter(&theme, PresentMode::Presentation);
    assert!(!presenter.reloads());
    presenter.show(talk());
    presenter.apply_command(Command::JumpNextSlide, vec![]);
    presenter.slides_with_pending_widgets.insert(0);
    presenter.try_reload(Err(LoadPresentationError::Parse("bad".into())), None);
    assert!(matches!(presenter.state, PresenterState::Presenting(_)));
    presenter.try_reload(Ok(talk()), Some(Modification { slide_index: 2, chunk_index: 0 }));
    assert_eq!(shown(&presenter), (0, 1));
    assert_eq!(presenter.slides_with_pending_widgets.len(), 1);
}

#[test]
fn presentations_are_loaded_as_the_mode_says() {
    let theme = PresentationTheme::default();
    let exporting = presenter(&theme, PresentMode::Export);
    assert!(!exporting.options().allow_mutations);
    assert!(exporting.reloads());
    let loaded = exporting.load_presentation(vec![code(3, false)]).unwrap();
    assert_eq!(loaded.iter_slides()[0].chunks()[0].contexts()[0].mutations(), (0, 1));

    let developing = presenter(&theme, PresentMode::Development);
    assert!(developing.options().allow_mutations);
    let loaded = developing.load_presentation(vec![code(3, false)]).unwrap();
    assert_eq!(loaded.iter_slides()[0].chunks()[0].contexts()[0].mutations(), (0, 3));
    match developing.load_presentation(vec![comment("column: 1")]) {
        Err(LoadPresentationError::Processing(error)) => {
            assert_eq!(error.to_string(), "can't enter layout: no layout defined")
        }
        other => panic!("{:?}", other.map(|_| ())),
    }
}

#[test]
fn a_small_window_is_no_error() {
    assert!(Presenter::rendered(Ok(())).is_ok());
    assert!(Presenter::rendered(Err(RenderError::TerminalTooSmall)).is_ok());
    match Presenter::rendered(Err(RenderError::Other("broken pipe".into()))) {
        Err(RenderError::Other(reason)) => assert_eq!(reason, "broken pipe"),
        other => panic!("{other:?}"),
    }
}

#[test]
fn errors_have_their_messages() {
    assert_eq!(PresentationError::Io("disk".into()).to_string(), "io: disk");
    assert_eq!(PresentationError::Fatal("oops".into()).to_string(), "fatal error: oops");
    assert_eq!(PresentationError::Render(RenderError::Other("x".into())).to_string(), "x");
    assert_eq!(
        PresentationError::LoadPresentation(LoadPresentationError::Reading("y".into())).to_string(),
        "reading presentation: y"
    );
    assert_eq!(LoadPresentationError::Parse("line 3".into()).to_string(), "line 3");
}

#[test]
fn widgets_are_started_and_watched() {
    let theme = PresentationTheme::default();
    let mut presenter = presenter(&theme, PresentMode::Development);
    presenter.show(build(vec![code(1, true), code(1, true), comment("end_slide"), code(1, true)]));
    assert_eq!(presenter.state.presentation().startable_codes().len(), 2);
    assert_eq!(presenter.state.presentation().watched_count(), 0);
    assert_eq!(presenter.update_widgets(vec![]), 0);

    // Without launches nothing starts.
    assert_eq!(presenter.apply_command(Command::RenderWidgets, vec![]), CommandSideEffect::Nothing);
    let launches = vec![Ok(()), Err("cannot run".to_string())];
    assert_eq!(presenter.apply_command(Command::RenderWidgets, launches), CommandSideEffect::PollWidgets);
    assert!(presenter.slides_with_pending_widgets.contains(&0));
    assert_eq!(presenter.state.presentation().startable_codes().len(), 0);
    assert_eq!(presenter.state.presentation().watched_count(), 1);
    assert_eq!(presenter.apply_command(Command::RenderWidgets, vec![Ok(())]), CommandSideEffect::Nothing);

    let running = ExecutionState { output: vec!["working".into()], status: ProcessStatus::Running };
    assert_eq!(presenter.update_widgets(vec![running]), 1);
    assert!(presenter.slides_with_pending_widgets.contains(&0));
    let done = ExecutionState { output: vec!["worked".into()], status: ProcessStatus::Success };
    assert_eq!(presenter.update_widgets(vec![done]), 2);
    assert!(presenter.slides_with_pending_widgets.is_empty());
    assert_eq!(presenter.update_widgets(vec![]), 0);

    let outputs: Vec<Vec<String>> = presenter.state.presentation().current_slide().chunks()[0]
        .operations()
        .iter()
        .filter_map(|operation| match operation {
            RenderOperation::RenderOnDemand(widget) => Some(widget.output_lines.clone()),
            _ => None,
        })
        .collect();
    assert_eq!(outputs, vec![vec!["worked".to_string()], vec!["cannot run".to_string()]]);

    // The widgets of another slide were not touched.
    presenter.apply_command(Command::JumpLastSlide, vec![]);
    assert_eq!(presenter.state.presentation().startable_codes().len(), 1);
}
