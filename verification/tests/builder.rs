use presenterm::builder::{BuildError, PresentationBuilder, PresentationBuilderOptions};
use presenterm::code::CodePreparer;
use presenterm::command::CommentCommand;
use presenterm::elements::{
    Code, CodeAttributes, CodeLanguage, ListItem, ListItemType, MarkdownElement, SourcePosition,
    Table, TableRow, Text,
};
use presenterm::highlighter::CodeHighlighter;
use presenterm::numbering::ListIterator;
use presenterm::operation::RenderOperation;
use presenterm::presentation::{Presentation, Slide};
use presenterm::resource::Resources;
use presenterm::theme::PresentationTheme;

fn build_presentation(elements: Vec<MarkdownElement>) -> Presentation {
    try_build_presentation(elements).expect("build failed")
}

fn try_build_presentation(elements: Vec<MarkdownElement>) -> Result<Presentation, BuildError> {
    let highlighter = CodeHighlighter::new("base16-ocean.dark").unwrap();
    let theme = PresentationTheme::default();
    let resources = Resources::new();
    let options = PresentationBuilderOptions::default();
    let builder = PresentationBuilder::new(highlighter, &theme, &resources, options);
    builder.build(elements)
}

fn build_comment(comment: &str) -> MarkdownElement {
    MarkdownElement::Comment { comment: comment.into(), source_position: SourcePosition::default() }
}

fn build_pause() -> MarkdownElement {
    build_comment("pause")
}

fn build_end_slide() -> MarkdownElement {
    build_comment("end_slide")
}

fn build_column_layout(width: u8) -> MarkdownElement {
    build_comment(&format!("column_layout: [{width}]"))
}

fn build_column(column: u8) -> MarkdownElement {
    build_comment(&format!("column: {column}"))
}

fn list_item(depth: u8, contents: &str, item_type: ListItemType) -> ListItem {
    ListItem { depth, contents: Text::from(contents), item_type }
}

fn extract_text_lines(operations: &[RenderOperation]) -> Vec<String> {
    let mut output = Vec::new();
    let mut current_line = String::new();
    for operation in operations {
        match operation {
            RenderOperation::RenderText { line, .. } => {
                let texts: Vec<_> = line.texts.iter().map(|text| text.text.text.clone()).collect();
                current_line.push_str(&texts.join(""));
            }
            RenderOperation::RenderLineBreak if !current_line.is_empty() => {
                output.push(std::mem::take(&mut current_line));
            }
            _ => (),
        };
    }
    if !current_line.is_empty() {
        output.push(current_line);
    }
    output
}

fn extract_slide_text_lines(slide: Slide) -> Vec<String> {
    let operations: Vec<_> = slide.into_operations().into_iter().filter(|op| op.is_visible()).collect();
    extract_text_lines(&operations)
}

#[test]
fn prelude_appears_once() {
    let elements = vec![
        MarkdownElement::FrontMatter("author: bob".to_string()),
        MarkdownElement::Heading { text: Text::from("hello"), level: 1 },
        build_end_slide(),
        MarkdownElement::Heading { text: Text::from("bye"), level: 1 },
    ];
    let presentation = build_presentation(elements);
    for (index, slide) in presentation.iter_slides().iter().enumerate() {
        let clear_screen_count =
            slide.iter_operations().into_iter().filter(|op| matches!(op, RenderOperation::ClearScreen)).count();
        let set_colors_count =
            slide.iter_operations().into_iter().filter(|op| matches!(op, RenderOperation::SetColors(_))).count();
        assert_eq!(clear_screen_count, 1, "{clear_screen_count} clear screens in slide {index}");
        assert_eq!(set_colors_count, 1, "{set_colors_count} clear screens in slide {index}");
    }
}

#[test]
fn slides_start_with_one_newline() {
    let elements = vec![
        MarkdownElement::FrontMatter("author: bob".to_string()),
        MarkdownElement::Heading { text: Text::from("hello"), level: 1 },
        build_end_slide(),
        MarkdownElement::Heading { text: Text::from("bye"), level: 1 },
    ];
    let presentation = build_presentation(elements);
    assert_eq!(presentation.iter_slides().iter().count(), 3);

    // The introductory slide is laid out in its own way.
    let slides = presentation.into_slides().into_iter().skip(1);
    for slide in slides {
        let mut ops = slide.into_operations().into_iter().filter(|op| op.is_visible());
        assert!(matches!(ops.next(), Some(RenderOperation::RenderLineBreak)));
        assert!(!matches!(ops.next(), Some(RenderOperation::RenderLineBreak)));
    }
}

#[test]
fn table() {
    let elements = vec![MarkdownElement::Table(Table {
        header: TableRow(vec![Text::from("key"), Text::from("value"), Text::from("other")]),
        rows: vec![TableRow(vec![Text::from("potato"), Text::from("bar"), Text::from("yes")])],
    })];
    let slides = build_presentation(elements).into_slides();
    let lines = extract_slide_text_lines(slides.into_iter().next().unwrap());
    let expected_lines = &["key    │ value │ other", "───────┼───────┼──────", "potato │ bar   │ yes  "];
    assert_eq!(lines, expected_lines);
}

#[test]
fn layout_without_init() {
    let elements = vec![build_column(0)];
    let result = try_build_presentation(elements);
    assert!(result.is_err());
}

#[test]
fn already_in_column() {
    let elements = vec![build_comment("column_layout: [1]"), build_comment("column: 0"), build_comment("column: 0")];
    let result = try_build_presentation(elements);
    assert!(result.is_err());
}

#[test]
fn column_index_overflow() {
    let elements = vec![build_comment("column_layout: [1]"), build_comment("column: 1")];
    let result = try_build_presentation(elements);
    assert!(result.is_err());
}

#[test]
fn operation_without_enter_column() {
    let elements = vec![build_comment("column_layout: [1]"), MarkdownElement::ThematicBreak];
    let result = try_build_presentation(elements);
    assert!(result.is_err());
}

#[test]
fn end_slide_inside_layout() {
    let elements = vec![build_column_layout(1), build_end_slide()];
    let presentation = build_presentation(elements);
    assert_eq!(presentation.iter_slides().iter().count(), 2);
}

#[test]
fn end_slide_inside_column() {
    let elements = vec![build_column_layout(1), build_column(0), build_end_slide()];
    let presentation = build_presentation(elements);
    assert_eq!(presentation.iter_slides().iter().count(), 2);
}

#[test]
fn pause_inside_layout() {
    let elements = vec![build_column_layout(1), build_pause(), build_column(0)];
    let presentation = build_presentation(elements);
    assert_eq!(presentation.iter_slides().iter().count(), 1);
}

#[test]
fn iterate_list() {
    let iter = ListIterator::new(
        vec![
            list_item(0, "0", ListItemType::Unordered),
            list_item(0, "1", ListItemType::Unordered),
            list_item(1, "00", ListItemType::Unordered),
            list_item(1, "01", ListItemType::Unordered),
            list_item(1, "02", ListItemType::Unordered),
            list_item(2, "001", ListItemType::Unordered),
            list_item(0, "2", ListItemType::Unordered),
        ],
        0,
    );
    let expected_indexes = [0, 1, 0, 1, 2, 0, 2];
    let indexes: Vec<_> = iter.collect().into_iter().map(|item| item.index).collect();
    assert_eq!(indexes, expected_indexes);
}

#[test]
fn iterate_list_starting_from_other() {
    let list = ListIterator::new(
        vec![list_item(0, "0", ListItemType::Unordered), list_item(0, "1", ListItemType::Unordered)],
        3,
    );
    let expected_indexes = [3, 4];
    let indexes: Vec<_> = list.collect().into_iter().map(|item| item.index).collect();
    assert_eq!(indexes, expected_indexes);
}

#[test]
fn ordered_list_with_pauses() {
    let elements = vec![
        MarkdownElement::List(vec![
            list_item(0, "one", ListItemType::OrderedPeriod),
            list_item(1, "one_one", ListItemType::OrderedPeriod),
            list_item(1, "one_two", ListItemType::OrderedPeriod),
        ]),
        build_pause(),
        MarkdownElement::List(vec![list_item(0, "two", ListItemType::OrderedPeriod)]),
    ];
    let slides = build_presentation(elements).into_slides();
    let lines = extract_slide_text_lines(slides.into_iter().next().unwrap());
    let expected_lines = &["   1. one", "      1. one_one", "      2. one_two", "   2. two"];
    assert_eq!(lines, expected_lines);
}

#[test]
fn pause_after_list() {
    let elements = vec![
        MarkdownElement::List(vec![list_item(0, "one", ListItemType::OrderedPeriod)]),
        build_pause(),
        MarkdownElement::Heading { level: 1, text: Text::from("hi") },
        MarkdownElement::List(vec![list_item(0, "two", ListItemType::OrderedPeriod)]),
    ];
    let slides = build_presentation(elements).into_slides();
    let first_chunk = &slides[0];
    let operations = first_chunk.iter_operations();
    let last_operation = &operations[operations.len() - 4];
    assert!(matches!(last_operation, RenderOperation::RenderLineBreak), "last operation is {last_operation:?}");
}

#[test]
fn code_with_line_numbers() {
    let total_lines = 11;
    let input_lines = "hi\n".repeat(total_lines);
    let code = Code {
        contents: input_lines,
        language: CodeLanguage::Unknown,
        attributes: CodeAttributes { line_numbers: true, ..Default::default() },
    };
    let lines = CodePreparer { theme: &Default::default() }.prepare(&code);
    assert_eq!(lines.len(), total_lines);

    let mut lines = lines.into_iter().enumerate();
    for (index, line) in lines.by_ref().take(9) {
        let line_number = index + 1;
        assert_eq!(&line.prefix, &format!(" {line_number} "));
    }
    for (index, line) in lines {
        let line_number = index + 1;
        assert_eq!(&line.prefix, &format!("{line_number} "));
    }
}

#[test]
fn invalid_layout_empty() {
    assert!(try_build_presentation(vec![build_comment("column_layout: []")]).is_err());
}

#[test]
fn invalid_layout_zero() {
    assert!(try_build_presentation(vec![build_comment("column_layout: [0]")]).is_err());
}

#[test]
fn invalid_layout_one_is_zero() {
    assert!(try_build_presentation(vec![build_comment("column_layout: [1, 0]")]).is_err());
}

#[test]
fn command_formatting() {
    let cases = vec![
        ("pause", CommentCommand::Pause),
        (" pause ", CommentCommand::Pause),
        ("end_slide", CommentCommand::EndSlide),
        ("column_layout: [1, 2]", CommentCommand::InitColumnLayout(vec![1, 2])),
        ("column: 1", CommentCommand::Column(1)),
        ("reset_layout", CommentCommand::ResetLayout),
    ];
    for (input, expected) in cases {
        let parsed = CommentCommand::from_str(input).expect("deserialization failed");
        assert_eq!(parsed, expected);
    }
}

#[test]
fn ignore_comments() {
    for comment in ["hello\nworld", "{{{", "}}}"] {
        assert!(PresentationBuilder::should_ignore_comment(comment));
    }
    assert!(PresentationBuilder::should_ignore_comment("  {{{ "));
    assert!(!PresentationBuilder::should_ignore_comment("pause"));
    assert!(!PresentationBuilder::should_ignore_comment("{{"));
}
