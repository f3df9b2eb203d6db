use presenterm::code::{CodeLine, CodePreparer};
use presenterm::codeblock::join;
use presenterm::elements::{
    Code, CodeAttributes, CodeLanguage, Highlight, HighlightGroup, StyledText, Text,
};
use presenterm::execution::{ExecutionState, ProcessStatus};
use presenterm::highlight::HighlightContext;
use presenterm::highlighter::CodeHighlighter;
use presenterm::operation::{
    DynamicOperation, FooterGenerator, HighlightedLine, RenderOnDemandState, RenderOperation,
    RenderSeparator, RunCodeOperation, WeightedLine, WindowSize,
};
use presenterm::render::{progress, FooterContext};
use presenterm::style::{Color, Colors, TextStyle};
use presenterm::theme::{Alignment, FooterStyle, Margin, PresentationTheme};

fn window(columns: u16) -> WindowSize {
    WindowSize { rows: 24, columns, height: 0, width: 0 }
}

fn text_of(operation: &RenderOperation) -> String {
    match operation {
        RenderOperation::RenderText { line, .. } => line.texts.iter().map(|text| text.text.text.as_str()).collect(),
        RenderOperation::RenderPreformattedLine(line) => line.text.clone(),
        other => panic!("{other:?} holds no text"),
    }
}

fn red() -> Colors {
    Colors { foreground: Some(Color::Red), background: None }
}

#[test]
fn separators_fill_the_window() {
    let plain = RenderSeparator::new(String::new()).as_render_operations(&window(5));
    assert_eq!(plain.len(), 1);
    assert_eq!(text_of(&plain[0]), "—————");

    let headed = RenderSeparator::new(" [done] ".to_string()).as_render_operations(&window(20));
    assert_eq!(text_of(&headed[0]), "—————— [done] ——————");

    let narrow = RenderSeparator::new(" [running] ".to_string()).as_render_operations(&window(4));
    assert_eq!(text_of(&narrow[0]), " [running] ");
}

#[test]
fn footer_templates_are_filled_in() {
    let generator = FooterGenerator {
        current_slide: 1,
        style: FooterStyle::Template {
            left: Some("{current_slide} / {total_slides}".into()),
            center: None,
            right: Some("by {author}, {author}".into()),
            colors: red(),
        },
    };
    let context = FooterContext { total_slides: 12, author: "bob".into() };
    let operations = generator.as_render_operations(&window(80), &context);
    assert_eq!(operations.len(), 3);
    assert!(matches!(operations[0], RenderOperation::JumpToBottomRow { index: 1 }));
    assert_eq!(text_of(&operations[1]), "2 / 12");
    assert_eq!(text_of(&operations[2]), "by bob, bob");
    match &operations[1] {
        RenderOperation::RenderText { line, alignment } => {
            assert_eq!(*alignment, Alignment::Left { margin: Margin::Fixed(1) });
            assert_eq!(line.texts[0].text.style.colors, red());
            assert_eq!(line.texts[0].width, 6);
        }
        other => panic!("{other:?}"),
    }
    match &operations[2] {
        RenderOperation::RenderText { alignment, .. } => {
            assert_eq!(*alignment, Alignment::Right { margin: Margin::Fixed(1) })
        }
        other => panic!("{other:?}"),
    }
}

#[test]
fn footer_template_is_rendered_alone() {
    let context = FooterContext { total_slides: 3, author: "ann".into() };
    let operation = FooterGenerator::render_template(
        "{author}: {current_slide}/{total_slides} {unknown}",
        "1",
        &context,
        Colors::default(),
        Alignment::Center { minimum_size: 0, minimum_margin: Margin::Fixed(1) },
    );
    assert_eq!(text_of(&operation), "ann: 1/3 {unknown}");
}

#[test]
fn progress_bars_round_up() {
    assert_eq!(progress(10, 0, 3), 4);
    assert_eq!(progress(10, 1, 3), 7);
    assert_eq!(progress(10, 2, 3), 10);
    assert_eq!(progress(10, 5, 3), 10);
    assert_eq!(progress(10, 0, 0), 0);
    assert_eq!(progress(0, 0, 1), 0);
    assert_eq!(progress(65535, usize::MAX, usize::MAX), 65535);
    assert_eq!(progress(usize::MAX, usize::MAX, usize::MAX), usize::MAX);
    assert_eq!(progress(usize::MAX, 0, 2), usize::MAX / 2 + 1);

    let bar = |character, columns, current_slide, total_slides| {
        let generator =
            FooterGenerator { current_slide, style: FooterStyle::ProgressBar { character, colors: red() } };
        let context = FooterContext { total_slides, author: String::new() };
        let operations = generator.as_render_operations(&window(columns), &context);
        assert_eq!(operations.len(), 2);
        assert!(matches!(operations[0], RenderOperation::JumpToBottomRow { index: 0 }));
        text_of(&operations[1])
    };
    assert_eq!(bar(None, 10, 0, 3), "████");
    assert_eq!(bar(Some('='), 9, 1, 2), "=========");
    // A glyph that is two columns wide fills half as many places.
    assert_eq!(bar(Some('＝'), 10, 0, 2), "＝＝＝");
    // A glyph without width draws no bar.
    assert_eq!(bar(Some('\u{200b}'), 10, 0, 2), "");
}

#[test]
fn empty_footers_draw_nothing() {
    let generator = FooterGenerator { current_slide: 0, style: FooterStyle::Empty };
    let context = FooterContext { total_slides: 1, author: String::new() };
    assert!(generator.as_render_operations(&window(10), &context).is_empty());
}

#[test]
fn code_lines_follow_the_reveal() {
    let groups = vec![
        HighlightGroup::new(vec![Highlight::Single(1), Highlight::Range { start: 3, end: 5 }]),
        HighlightGroup::new(vec![Highlight::All]),
    ];
    let mut context = HighlightContext::new(groups, 9, Alignment::default());
    let line = |number| HighlightedLine {
        highlighted: "bright".into(),
        not_highlighted: "plain".into(),
        line_number: number,
        width: 5,
        context: 0,
    };
    let shown = |context: &HighlightContext, number| {
        let operations = line(number).as_render_operations(context);
        assert_eq!(operations.len(), 2);
        assert!(matches!(operations[1], RenderOperation::RenderLineBreak));
        match &operations[0] {
            RenderOperation::RenderPreformattedLine(line) => {
                assert_eq!(line.unformatted_length, 5);
                assert_eq!(line.block_length, 9);
                line.text.clone()
            }
            other => panic!("{other:?}"),
        }
    };
    assert_eq!(shown(&context, Some(1)), "bright");
    assert_eq!(shown(&context, Some(2)), "plain");
    assert_eq!(shown(&context, Some(3)), "bright");
    assert_eq!(shown(&context, Some(4)), "bright");
    assert_eq!(shown(&context, Some(5)), "plain");
    assert_eq!(shown(&context, None), "plain");
    assert_eq!(line(Some(1)).diffable_content(), "bright");

    assert_eq!(context.mutations(), (0, 2));
    assert!(context.mutate_next());
    assert!(!context.mutate_next());
    assert_eq!(context.mutations(), (1, 2));
    assert_eq!(shown(&context, Some(2)), "bright");
    assert_eq!(shown(&context, None), "plain");
    assert!(context.mutate_previous());
    assert!(!context.mutate_previous());
    assert_eq!(context.mutations(), (0, 2));
}

#[test]
fn reveal_returns_to_its_first_step() {
    let groups = |count: u16| (0..count).map(|line| HighlightGroup::new(vec![Highlight::Single(line)])).collect();
    let mut context = HighlightContext::new(groups(4), 0, Alignment::default());
    for _ in 0..7 {
        context.mutate_next();
    }
    assert_eq!(context.mutations(), (3, 4));
    context.reset_mutations();
    assert_eq!(context.mutations(), (0, 4));
    context.apply_all_mutations();
    assert_eq!(context.mutations(), (3, 4));
    assert!(context.mutate_previous());
    assert_eq!(context.mutations(), (2, 4));

    let mut single = HighlightContext::new(groups(1), 0, Alignment::default());
    single.apply_all_mutations();
    assert!(!single.mutate_previous());
    assert_eq!(single.mutations(), (0, 1));

    let mut none = HighlightContext::new(groups(0), 0, Alignment::default());
    none.apply_all_mutations();
    assert!(!none.mutate_next());
    assert!(!none.highlights(Some(1)));
    assert_eq!(none.mutations(), (0, 0));
}

#[test]
fn code_is_padded_as_the_theme_says() {
    let mut theme = PresentationTheme::default();
    theme.code.padding.horizontal = Some(2);
    theme.code.padding.vertical = Some(1);
    let code = Code {
        contents: "fn main() {\r\n}\n\nlast".into(),
        language: CodeLanguage::Rust,
        attributes: CodeAttributes::default(),
    };
    let lines = CodePreparer { theme: &theme }.prepare(&code);
    let codes: Vec<&str> = lines.iter().map(|line| line.code.as_str()).collect();
    assert_eq!(codes, vec!["\n", "fn main() {\n", "}\n", "\n", "last\n", "\n"]);
    let prefixes: Vec<&str> = lines.iter().map(|line| line.prefix.as_str()).collect();
    assert_eq!(prefixes, vec!["", "  ", "  ", "  ", "  ", ""]);
    let suffixes: Vec<&str> = lines.iter().map(|line| line.suffix.as_str()).collect();
    assert_eq!(suffixes, prefixes);
    let numbers: Vec<Option<u16>> = lines.iter().map(|line| line.line_number).collect();
    assert_eq!(numbers, vec![None, Some(1), Some(2), Some(3), Some(4), None]);
    assert_eq!(lines[1].width(), 2 + 11 + 2);

    let empty = Code { contents: String::new(), language: CodeLanguage::Rust, attributes: CodeAttributes::default() };
    assert_eq!(CodePreparer { theme: &theme }.prepare(&empty).len(), 2);
    assert_eq!(CodePreparer { theme: &PresentationTheme::default() }.prepare(&empty).len(), 0);
    assert_eq!(CodeLine::empty().code, "\n");
}

#[test]
fn numbered_lines_align() {
    let mut theme = PresentationTheme::default();
    theme.code.padding.horizontal = Some(1);
    let code = Code {
        contents: "x\n".repeat(100),
        language: CodeLanguage::Unknown,
        attributes: CodeAttributes { line_numbers: true, ..Default::default() },
    };
    let lines = CodePreparer { theme: &theme }.prepare(&code);
    assert_eq!(lines[0].prefix, "   1 ");
    assert_eq!(lines[8].prefix, "   9 ");
    assert_eq!(lines[9].prefix, "  10 ");
    assert_eq!(lines[98].prefix, "  99 ");
    assert_eq!(lines[99].prefix, " 100 ");
    assert!(lines.iter().all(|line| line.prefix.len() == 5));
}

#[test]
fn highlighting_changes_the_text() {
    let highlighter = CodeHighlighter::new("base16-ocean.dark").unwrap();
    let lines = vec!["fn main() {}\n".to_string(), "// done\n".to_string()];
    let highlighted = highlighter.highlight(&CodeLanguage::Rust, &lines);
    let plain = highlighter.highlight(&CodeLanguage::Unknown, &lines);
    assert_eq!(highlighted.len(), 2);
    assert_eq!(plain.len(), 2);
    for (index, line) in lines.iter().enumerate() {
        assert_ne!(&highlighted[index], line);
        assert_ne!(&plain[index], line);
        assert!(highlighted[index].contains('\u{1b}'));
        assert!(highlighted[index].ends_with('\n'));
        assert!(plain[index].contains(line.as_str()));
    }
    assert_ne!(highlighted[0], plain[0]);
    // The same input gives the same output.
    assert_eq!(highlighted, highlighter.highlight(&CodeLanguage::Rust, &lines));

    let padded = highlighter.pad(&vec!["  ".to_string(), " 12 ".to_string()]);
    assert_eq!(padded.len(), 2);
    assert!(padded[0].contains('\u{1b}') && padded[0].ends_with("  "));
    assert!(padded[1].ends_with(" 12 "));
    assert_ne!(padded[1], " 12 ");
}

#[test]
fn lines_are_joined_without_their_line_feed() {
    assert_eq!(join("> ", "code\n", " <"), "> code <");
    assert_eq!(join("", "", "end"), "end");
    assert_eq!(join("ab", "", ""), "a");
}

#[test]
fn widths_are_measured_in_columns() {
    assert_eq!(StyledText::from("hello").width(), 5);
    assert_eq!(StyledText::from("Ｈｅ").width(), 4);
    assert_eq!(StyledText::from("").width(), 0);
    let mut text = Text::from("ａ");
    text.chunks.push(StyledText::new("bc".into(), TextStyle::default().bold()));
    assert_eq!(text.width(), 4);
    let line = WeightedLine::from(text);
    assert_eq!(line.texts.iter().map(|text| text.width).collect::<Vec<_>>(), vec![2, 2]);
    assert!(line.texts[1].text.style.bold);
}

#[test]
fn styles_are_merged() {
    let mut text = Text::from("a");
    text.chunks.push(StyledText::new("b".into(), TextStyle::default().italics().colors(red())));
    let blue = Colors { foreground: Some(Color::Blue), background: Some(Color::Black) };
    text.apply_style(&TextStyle::default().bold().colors(blue));
    assert!(text.chunks[0].style.bold && !text.chunks[0].style.italics);
    assert_eq!(text.chunks[0].style.colors, blue);
    assert!(text.chunks[1].style.bold && text.chunks[1].style.italics);
    assert_eq!(text.chunks[1].style.colors, Colors { foreground: Some(Color::Red), background: Some(Color::Black) });
    assert!(TextStyle::default().code().is_code());
    assert!(TextStyle::default().strikethrough().strikethrough);
}

fn runnable() -> RunCodeOperation {
    let code = Code {
        contents: "echo hi".into(),
        language: CodeLanguage::Bash,
        attributes: CodeAttributes { execute: true, ..Default::default() },
    };
    RunCodeOperation::new(code, Colors::default(), red())
}

#[test]
fn widgets_are_invisible_until_started() {
    let mut operation = runnable();
    assert_eq!(operation.state(), RenderOnDemandState::NotStarted);
    assert!(operation.as_render_operations(&window(10)).is_empty());
    assert!(operation.diffable_content().is_none());
    // Without a process nothing is taken in.
    let state = operation.poll_state(ExecutionState { output: vec!["x".into()], status: ProcessStatus::Success });
    assert_eq!(state, RenderOnDemandState::NotStarted);
    assert!(operation.as_render_operations(&window(10)).is_empty());
}

#[test]
fn widgets_show_output_wrapped_to_the_window() {
    let mut operation = runnable();
    assert!(operation.start_render(Ok(())));
    assert!(!operation.start_render(Ok(())));
    assert!(operation.has_handle());
    assert_eq!(operation.state(), RenderOnDemandState::Rendering);

    let seen = ExecutionState { output: vec!["hello world".into(), "".into(), "héé".into()], status: ProcessStatus::Running };
    assert_eq!(operation.poll_state(seen), RenderOnDemandState::Rendering);
    let operations = operation.as_render_operations(&window(5));
    assert!(matches!(operations[0], RenderOperation::RenderLineBreak));
    match &operations[1] {
        RenderOperation::RenderDynamic(DynamicOperation::Separator(separator)) => {
            assert_eq!(separator.heading, " [running] ")
        }
        other => panic!("{other:?}"),
    }
    assert!(matches!(operations[2], RenderOperation::RenderLineBreak));
    assert!(matches!(operations[3], RenderOperation::RenderLineBreak));
    assert!(matches!(&operations[4], RenderOperation::SetColors(colors) if *colors == red()));
    let lines: Vec<String> = operations[5..operations.len() - 1]
        .iter()
        .filter(|op| !matches!(op, RenderOperation::RenderLineBreak))
        .map(text_of)
        .collect();
    assert_eq!(lines, vec!["hello", " worl", "d", "héé"]);
    assert_eq!(operations.len(), 5 + 2 * 4 + 1);
    match &operations[operations.len() - 3] {
        RenderOperation::RenderPreformattedLine(line) => {
            assert_eq!(line.unformatted_length, 5);
            assert_eq!(line.block_length, 5);
        }
        other => panic!("{other:?}"),
    }
    assert!(matches!(operations.last(), Some(RenderOperation::SetColors(colors)) if *colors == Colors::default()));
    // Nothing can be drawn in a window without columns.
    assert_eq!(operation.as_render_operations(&window(0)).len(), 6);

    let failed = ExecutionState { output: vec!["boom".into()], status: ProcessStatus::Failure };
    assert_eq!(operation.poll_state(failed), RenderOnDemandState::Rendered);
    assert!(!operation.has_handle());
    let operations = operation.as_render_operations(&window(80));
    match &operations[1] {
        RenderOperation::RenderDynamic(DynamicOperation::Separator(separator)) => {
            assert_eq!(separator.heading, " [done] ")
        }
        other => panic!("{other:?}"),
    }
    assert_eq!(text_of(&operations[5]), "boom");
    assert_eq!(text_of(&operations[7]), "[finished with error]");
    // A process that has ended is looked at no more.
    let late = ExecutionState { output: vec!["late".into()], status: ProcessStatus::Success };
    assert_eq!(operation.poll_state(late), RenderOnDemandState::Rendered);
    assert_eq!(text_of(&operation.as_render_operations(&window(80))[5]), "boom");
}

#[test]
fn a_failed_launch_is_shown_as_output() {
    let mut operation = runnable();
    assert!(operation.start_render(Err("no such program".into())));
    assert_eq!(operation.state(), RenderOnDemandState::Rendered);
    assert!(!operation.has_handle());
    let operations = operation.as_render_operations(&window(80));
    assert_eq!(text_of(&operations[5]), "no such program");
    assert_eq!(operations.len(), 8);
    assert!(ProcessStatus::Failure.is_finished() && ProcessStatus::Success.is_finished());
    assert!(!ProcessStatus::Running.is_finished());
}

#[test]
fn dynamic_operations_are_drawn_with_what_they_need() {
    let contexts = vec![
        HighlightContext::new(vec![HighlightGroup::new(vec![Highlight::Single(9)])], 3, Alignment::default()),
        HighlightContext::new(vec![HighlightGroup::new(vec![Highlight::All])], 7, Alignment::default()),
    ];
    let footer = FooterContext { total_slides: 2, author: "eve".into() };
    let line = DynamicOperation::CodeLine(HighlightedLine {
        highlighted: "bright".into(),
        not_highlighted: "plain".into(),
        line_number: Some(1),
        width: 5,
        context: 1,
    });
    let drawn = line.as_render_operations(&window(40), &contexts, &footer);
    assert_eq!(text_of(&drawn[0]), "bright");
    assert_eq!(line.diffable_content(), Some("bright"));

    let separator = DynamicOperation::Separator(RenderSeparator::new(String::new()));
    assert_eq!(text_of(&separator.as_render_operations(&window(3), &contexts, &footer)[0]), "———");
    assert_eq!(separator.diffable_content(), None);

    let generator = DynamicOperation::Footer(FooterGenerator {
        current_slide: 0,
        style: FooterStyle::Template { left: None, center: Some("{author}".into()), right: None, colors: red() },
    });
    let drawn = generator.as_render_operations(&window(40), &contexts, &footer);
    assert_eq!(text_of(&drawn[1]), "eve");
    assert_eq!(generator.diffable_content(), None);
}

#[test]
fn the_known_code_themes_are_those_that_syntect_brings() {
    let listed = [
        "base16-ocean.dark",
        "base16-eighties.dark",
        "base16-mocha.dark",
        "base16-ocean.light",
        "InspiredGitHub",
        "Solarized (dark)",
        "Solarized (light)",
    ];
    for name in listed {
        assert!(CodeHighlighter::new(name).is_ok(), "{name} is missing");
    }
    let brought = syntect::highlighting::ThemeSet::load_defaults();
    let mut names: Vec<&str> = brought.themes.keys().map(|name| name.as_str()).collect();
    names.sort();
    let mut expected = listed.to_vec();
    expected.sort();
    assert_eq!(names, expected);
    assert!(CodeHighlighter::new("base16-ocean.Dark").is_err());
    assert!(CodeHighlighter::new("").is_err());
}
