use presenterm::builder::{BuildError, PresentationBuilder, PresentationBuilderOptions};
use presenterm::command::{CommandParseError, CommentCommand};
use presenterm::elements::{LineColumn, MarkdownElement, SourcePosition, Table, TableRow, Text};
use presenterm::highlighter::CodeHighlighter;
use presenterm::metadata::{PresentationMetadata, PresentationThemeMetadata};
use presenterm::operation::{Image, RenderOperation};
use presenterm::presentation::Presentation;
use presenterm::resource::{LoadedImage, LoadedTheme, NamedTheme, Resources};
use presenterm::theme::{AuthorPositioning, FooterStyle, PresentationTheme};

fn build_with(
    theme: &PresentationTheme,
    resources: &Resources,
    elements: Vec<MarkdownElement>,
) -> Result<Presentation, BuildError> {
    let highlighter = CodeHighlighter::new("base16-ocean.dark").unwrap();
    let builder = PresentationBuilder::new(highlighter, theme, resources, PresentationBuilderOptions::default());
    builder.build(elements)
}

fn build(elements: Vec<MarkdownElement>) -> Result<Presentation, BuildError> {
    build_with(&PresentationTheme::default(), &Resources::new(), elements)
}

fn comment_at(comment: &str, line: usize) -> MarkdownElement {
    MarkdownElement::Comment {
        comment: comment.into(),
        source_position: SourcePosition { start: LineColumn { line, column: 0 } },
    }
}

fn comment(text: &str) -> MarkdownElement {
    comment_at(text, 0)
}

fn error_of(elements: Vec<MarkdownElement>) -> BuildError {
    match build(elements) {
        Ok(_) => panic!("the build went well"),
        Err(error) => error,
    }
}

fn yaml_text(text: &str) -> serde_yaml::Value {
    serde_yaml::Value::String(text.to_string())
}

fn yaml_number(number: u64) -> serde_yaml::Value {
    serde_yaml::Value::Number(serde_yaml::Number::from(number))
}

fn yaml_map(key: serde_yaml::Value, value: serde_yaml::Value) -> serde_yaml::Value {
    let mut mapping = serde_yaml::Mapping::new();
    mapping.insert(key, value);
    serde_yaml::Value::Mapping(mapping)
}

fn message_of(result: Result<CommentCommand, CommandParseError>) -> String {
    match result {
        Ok(command) => panic!("parsed as {command:?}"),
        Err(error) => error.message,
    }
}

#[test]
fn words_name_commands() {
    assert_eq!(CommentCommand::from_value(&yaml_text("pause")).unwrap(), CommentCommand::Pause);
    assert_eq!(CommentCommand::from_value(&yaml_text("end_slide")).unwrap(), CommentCommand::EndSlide);
    assert_eq!(CommentCommand::from_value(&yaml_text("reset_layout")).unwrap(), CommentCommand::ResetLayout);
    let message = message_of(CommentCommand::from_value(&yaml_text("column")));
    assert_eq!(
        message,
        "unknown command, expected one of `pause`, `end_slide`, `column_layout`, `column`, `reset_layout`"
    );
}

#[test]
fn mappings_name_commands() {
    let widths = serde_yaml::Value::Sequence(vec![yaml_number(3), yaml_number(255)]);
    assert_eq!(
        CommentCommand::from_value(&yaml_map(yaml_text("column_layout"), widths)).unwrap(),
        CommentCommand::InitColumnLayout(vec![3, 255])
    );
    assert_eq!(
        CommentCommand::from_value(&yaml_map(yaml_text("column"), yaml_number(7))).unwrap(),
        CommentCommand::Column(7)
    );
}

#[test]
fn malformed_commands_are_told_apart() {
    let too_wide = serde_yaml::Value::Sequence(vec![yaml_number(256)]);
    assert_eq!(
        message_of(CommentCommand::from_value(&yaml_map(yaml_text("column_layout"), too_wide))),
        "invalid column widths, expected a sequence of integers from 0 to 255"
    );
    assert_eq!(
        message_of(CommentCommand::from_value(&yaml_map(yaml_text("column_layout"), yaml_number(1)))),
        "invalid column widths, expected a sequence of integers from 0 to 255"
    );
    assert_eq!(
        message_of(CommentCommand::from_value(&yaml_map(yaml_text("column"), yaml_text("one")))),
        "invalid column, expected a non-negative integer"
    );
    assert_eq!(
        message_of(CommentCommand::from_value(&yaml_map(yaml_text("pause"), serde_yaml::Value::Null))),
        "unknown command, expected one of `pause`, `end_slide`, `column_layout`, `column`, `reset_layout`"
    );
    assert_eq!(
        message_of(CommentCommand::from_value(&yaml_map(yaml_number(1), yaml_number(1)))),
        "expected a command word or a mapping with a single key"
    );
    assert_eq!(
        message_of(CommentCommand::from_value(&yaml_number(3))),
        "expected a command word or a mapping with a single key"
    );
    let mut two = serde_yaml::Mapping::new();
    two.insert(yaml_text("column"), yaml_number(1));
    two.insert(yaml_text("pause"), serde_yaml::Value::Null);
    assert_eq!(
        message_of(CommentCommand::from_value(&serde_yaml::Value::Mapping(two))),
        "expected a command word or a mapping with a single key"
    );
}

#[test]
fn syntax_errors_lose_their_position() {
    let error = match CommentCommand::from_str("column: [1") {
        Ok(command) => panic!("parsed as {command:?}"),
        Err(error) => error,
    };
    assert!(error.message.contains(" at line"), "the message is {}", error.message);
    let shown = error.to_string();
    assert!(!shown.contains(" at line"));
    assert!(error.message.starts_with(&shown));
    assert!(!shown.is_empty());
}

#[test]
fn parse_errors_name_the_line_counted_from_one() {
    match error_of(vec![comment_at("no_such_command", 41)]) {
        BuildError::CommandParse { line, error } => {
            assert_eq!(line, 42);
            assert!(error.message.starts_with("unknown command"));
        }
        other => panic!("the error is {other:?}"),
    }
    let shown = error_of(vec![comment_at("no_such_command", 41)]).to_string();
    assert_eq!(
        shown,
        "error parsing command at line 42: unknown command, expected one of `pause`, `end_slide`, `column_layout`, `column`, `reset_layout`"
    );
}

#[test]
fn layout_errors_have_their_messages() {
    assert_eq!(error_of(vec![comment("column: 0")]).to_string(), "can't enter layout: no layout defined");
    assert_eq!(
        error_of(vec![comment("column_layout: [1, 2]"), comment("column: 1"), comment("column: 1")]).to_string(),
        "can't enter layout column: already in it"
    );
    assert_eq!(
        error_of(vec![comment("column_layout: [1, 2]"), comment("column: 2")]).to_string(),
        "can't enter layout column: column index too large"
    );
    assert_eq!(
        error_of(vec![comment("column_layout: [1]"), MarkdownElement::Heading { level: 2, text: Text::from("x") }])
            .to_string(),
        "need to enter layout column explicitly using `column` command"
    );
    assert_eq!(error_of(vec![comment("column_layout: []")]).to_string(), "invalid layout: need at least one column");
    assert_eq!(
        error_of(vec![comment("column_layout: [2, 0]")]).to_string(),
        "invalid layout: can't have zero sized columns"
    );
}

#[test]
fn columns_can_be_entered_in_any_order() {
    let elements = vec![
        comment("column_layout: [1, 2, 1]"),
        comment("column: 2"),
        MarkdownElement::ThematicBreak,
        comment("column: 0"),
        MarkdownElement::ThematicBreak,
        comment("reset_layout"),
        MarkdownElement::ThematicBreak,
    ];
    let presentation = build(elements).unwrap();
    let slides = presentation.into_slides();
    assert_eq!(slides.len(), 1);
    let operations = slides.into_iter().next().unwrap().into_operations();
    let columns: Vec<usize> = operations
        .iter()
        .filter_map(|operation| match operation {
            RenderOperation::EnterColumn { column } => Some(*column),
            _ => None,
        })
        .collect();
    assert_eq!(columns, vec![2, 0]);
    assert!(operations.iter().any(|op| matches!(op, RenderOperation::InitColumnLayout { columns } if columns == &vec![1, 2, 1])));
}

#[test]
fn notes_are_passed_over() {
    let presentation = build(vec![comment("a note\nover two lines"), comment(" {{{ "), comment("}}}")]).unwrap();
    assert_eq!(presentation.iter_slides().len(), 1);
}

#[test]
fn images_come_from_what_was_loaded() {
    let mut resources = Resources::new();
    resources.images.push(LoadedImage { path: "a.png".into(), outcome: Ok(Image { id: 7 }) });
    resources.images.push(LoadedImage { path: "b.png".into(), outcome: Err("no such file".into()) });
    let theme = PresentationTheme::default();
    let presentation = build_with(&theme, &resources, vec![MarkdownElement::Image { path: "a.png".into() }]).unwrap();
    let operations = presentation.into_slides().into_iter().next().unwrap().into_operations();
    assert!(operations.iter().any(|op| matches!(op, RenderOperation::RenderImage(Image { id: 7 }))));

    let failed = build_with(&theme, &resources, vec![MarkdownElement::Image { path: "b.png".into() }]);
    assert_eq!(failed.err().unwrap().to_string(), "loading image: no such file");
    let missing = build_with(&theme, &resources, vec![MarkdownElement::Image { path: "c.png".into() }]);
    assert_eq!(missing.err().unwrap().to_string(), "loading image: the file was not loaded");
}

#[test]
fn front_matter_is_read() {
    let metadata = PresentationMetadata::from_str("title: Hello\nsub_title: there\nauthor: bob\nextra: 1").unwrap();
    assert_eq!(metadata.title.as_deref(), Some("Hello"));
    assert_eq!(metadata.sub_title.as_deref(), Some("there"));
    assert_eq!(metadata.author.as_deref(), Some("bob"));
    assert_eq!(metadata.theme.name, None);
    assert_eq!(metadata.theme.path, None);
    assert!(!metadata.theme.overrides);

    let metadata =
        PresentationMetadata::from_str("title: ~\ntheme:\n  name: dark\n  override:\n    footer:\n      style: empty").unwrap();
    assert_eq!(metadata.title, None);
    assert_eq!(metadata.theme.name.as_deref(), Some("dark"));
    assert!(metadata.theme.overrides);

    assert_eq!(PresentationMetadata::from_str("just a text").err().unwrap(), "expected a mapping");
    assert_eq!(PresentationMetadata::from_str("title: [1]").err().unwrap(), "expected a text");
    assert_eq!(PresentationMetadata::from_str("theme: dark").err().unwrap(), "expected a mapping");
    assert!(PresentationMetadata::from_str("title: [1").is_err());
}

#[test]
fn front_matter_errors_have_their_messages() {
    let front = |text: &str| vec![MarkdownElement::FrontMatter(text.to_string())];
    assert_eq!(
        error_of(front("title: [1]")).to_string(),
        "invalid presentation metadata: expected a text"
    );
    assert_eq!(
        error_of(front("theme:\n  name: a\n  path: b")).to_string(),
        "invalid presentation metadata: cannot have both theme path and theme name"
    );
    assert_eq!(
        error_of(front("theme:\n  name: nope")).to_string(),
        "invalid presentation metadata: theme 'nope' does not exist"
    );
    assert_eq!(error_of(front("theme:\n  path: nope.yaml")).to_string(), "invalid theme: the file was not loaded");
    assert_eq!(
        error_of(front("theme:\n  override:\n    x: 1")).to_string(),
        "invalid presentation metadata: invalid theme: the overrides were not resolved"
    );
}

#[test]
fn themes_are_chosen_by_name_path_and_override() {
    let mut named = PresentationTheme::default();
    named.footer = FooterStyle::ProgressBar { character: Some('='), colors: Default::default() };
    let mut loaded = PresentationTheme::default();
    loaded.intro_slide.author.positioning = AuthorPositioning::PageBottom;
    let mut merged = PresentationTheme::default();
    merged.slide_title.separator = true;

    let mut resources = Resources::new();
    resources.named_themes.push(NamedTheme { name: "bar".into(), theme: named });
    resources.themes.push(LoadedTheme { path: "mine.yaml".into(), outcome: Ok(loaded) });
    resources.themes.push(LoadedTheme { path: "bad.yaml".into(), outcome: Err("malformed".into()) });
    let theme = PresentationTheme::default();

    let by_name = build_with(&theme, &resources, vec![MarkdownElement::FrontMatter("theme:\n  name: bar".into())]);
    let footer = by_name.unwrap().into_slides().into_iter().next().unwrap().into_operations().pop().unwrap();
    assert!(matches!(
        footer,
        RenderOperation::RenderDynamic(presenterm::operation::DynamicOperation::Footer(generator))
            if matches!(generator.style, FooterStyle::ProgressBar { character: Some('='), .. })
    ));

    let by_path = build_with(
        &theme,
        &resources,
        vec![MarkdownElement::FrontMatter("author: bob\ntheme:\n  path: mine.yaml".into())],
    );
    let intro = by_path.unwrap().into_slides().into_iter().next().unwrap().into_operations();
    assert!(intro.iter().any(|op| matches!(op, RenderOperation::JumpToBottomRow { index: 0 })));

    let failing = build_with(&theme, &resources, vec![MarkdownElement::FrontMatter("theme:\n  path: bad.yaml".into())]);
    assert_eq!(failing.err().unwrap().to_string(), "invalid theme: malformed");

    resources.overridden_theme = Some(Ok(merged));
    let overridden = build_with(
        &theme,
        &resources,
        vec![
            MarkdownElement::FrontMatter("theme:\n  override:\n    slide_title:\n      separator: true".into()),
            MarkdownElement::SetexHeading { text: Text::from("title") },
        ],
    );
    let operations = overridden.unwrap().into_slides().into_iter().next().unwrap().into_operations();
    let separators = operations
        .iter()
        .filter(|op| matches!(op, RenderOperation::RenderDynamic(presenterm::operation::DynamicOperation::Separator(_))))
        .count();
    assert_eq!(separators, 1);

    resources.overridden_theme = Some(Err("unknown field".into()));
    let unmergeable =
        build_with(&theme, &resources, vec![MarkdownElement::FrontMatter("theme:\n  override:\n    x: 1".into())]);
    assert_eq!(
        unmergeable.err().unwrap().to_string(),
        "invalid presentation metadata: invalid theme: unknown field"
    );
}

#[test]
fn unknown_code_themes_are_refused() {
    let mut theme = PresentationTheme::default();
    theme.code.theme_name = Some("no such theme".into());
    let failed = build_with(&theme, &Resources::new(), vec![]);
    assert_eq!(failed.err().unwrap().to_string(), "invalid code highlighter theme");
    theme.code.theme_name = Some("InspiredGitHub".into());
    assert!(build_with(&theme, &Resources::new(), vec![]).is_ok());
    assert!(CodeHighlighter::new("no such theme").is_err());
}

#[test]
fn malformed_elements_are_recognized() {
    let heading = |level| MarkdownElement::Heading { level, text: Text::from("x") };
    assert!(!heading(0).is_well_formed());
    assert!(heading(1).is_well_formed());
    assert!(heading(6).is_well_formed());
    assert!(!heading(7).is_well_formed());
    let row = |cells: usize| TableRow((0..cells).map(|_| Text::from("c")).collect());
    let table = |rows: Vec<usize>| Table { header: row(2), rows: rows.into_iter().map(row).collect() };
    assert!(table(vec![]).is_well_formed());
    assert!(table(vec![2, 2]).is_well_formed());
    assert!(!table(vec![2, 3]).is_well_formed());
    assert!(!MarkdownElement::Table(table(vec![1])).is_well_formed());
    assert!(MarkdownElement::ThematicBreak.is_well_formed());
}

#[test]
fn the_theme_of_a_front_matter_is_chosen() {
    let mut named = PresentationTheme::default();
    named.slide_title.separator = true;
    let mut resources = Resources::new();
    resources.named_themes.push(NamedTheme { name: "lined".into(), theme: named });
    let theme = PresentationTheme::default();
    let choice = |name: Option<&str>, path: Option<&str>| PresentationThemeMetadata {
        name: name.map(String::from),
        path: path.map(String::from),
        overrides: false,
    };
    assert!(!PresentationBuilder::choose_theme(&theme, &resources, &choice(None, None)).unwrap().slide_title.separator);
    assert!(PresentationBuilder::choose_theme(&theme, &resources, &choice(Some("lined"), None)).unwrap().slide_title.separator);
    assert!(PresentationBuilder::choose_theme(&theme, &resources, &choice(Some("lined"), Some("x"))).is_err());
    assert!(PresentationBuilder::choose_theme(&theme, &resources, &choice(None, Some("x"))).is_err());
}

#[test]
fn a_note_at_the_start_of_a_slide_adds_a_line_break() {
    let presentation = build(vec![comment("a note\nof two lines"), MarkdownElement::ThematicBreak]).unwrap();
    let operations = presentation.into_slides().into_iter().next().unwrap().into_operations();
    let visible: Vec<_> = operations.iter().filter(|operation| operation.is_visible()).collect();
    assert!(matches!(visible[0], RenderOperation::RenderLineBreak));
    assert!(matches!(visible[1], RenderOperation::RenderLineBreak));
    assert!(matches!(visible[2], RenderOperation::RenderDynamic(_)));
}

#[test]
fn block_quotes_set_their_colors_and_the_default_ones_again() {
    let mut theme = PresentationTheme::default();
    theme.block_quote.prefix = Some("▍ ".into());
    let presentation =
        build_with(&theme, &Resources::new(), vec![MarkdownElement::BlockQuote(vec!["wide ＷＷ".into(), "x".into()])])
            .unwrap();
    let operations = presentation.into_slides().into_iter().next().unwrap().into_operations();
    let colors = operations.iter().filter(|operation| matches!(operation, RenderOperation::SetColors(_))).count();
    assert_eq!(colors, 3);
    let lines: Vec<_> = operations
        .iter()
        .filter_map(|operation| match operation {
            RenderOperation::RenderPreformattedLine(line) => Some(line),
            _ => None,
        })
        .collect();
    assert_eq!(lines.len(), 2);
    assert_eq!(lines[0].text, "▍ wide ＷＷ");
    assert_eq!(lines[0].unformatted_length, 11);
    assert_eq!(lines[0].block_length, 11);
    assert_eq!(lines[1].text, "▍ x");
    assert_eq!(lines[1].unformatted_length, 3);
    assert_eq!(lines[1].block_length, 11);
}

#[test]
fn the_introductory_slide_shows_what_the_front_matter_holds() {
    let front = MarkdownElement::FrontMatter("title: Talk\nsub_title: about things\nauthor: ann".into());
    let presentation = build(vec![front, MarkdownElement::ThematicBreak]).unwrap();
    assert_eq!(presentation.footer_context().author, "ann");
    let slides = presentation.into_slides();
    assert_eq!(slides.len(), 2);
    let intro = slides.into_iter().next().unwrap().into_operations();
    assert!(intro.iter().any(|operation| matches!(operation, RenderOperation::JumpToVerticalCenter)));
    let texts: Vec<(String, bool)> = intro
        .iter()
        .filter_map(|operation| match operation {
            RenderOperation::RenderText { line, .. } => {
                Some((line.texts[0].text.text.clone(), line.texts[0].text.style.bold))
            }
            _ => None,
        })
        .collect();
    assert_eq!(
        texts,
        vec![("Talk".to_string(), true), ("about things".to_string(), false), ("ann".to_string(), false)]
    );
    let breaks = intro.iter().filter(|operation| matches!(operation, RenderOperation::RenderLineBreak)).count();
    assert_eq!(breaks, 1 + 1 + 1 + 3);
}
