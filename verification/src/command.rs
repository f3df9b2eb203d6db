//! The commands that a comment may hold.
//!
//! A command is a small YAML document: one of the words `pause`, `end_slide`
//! and `reset_layout`, or a mapping with the single key `column_layout`,
//! whose value is a list of widths, or `column`, whose value is an index.

use crate::text::{before_marker, chars_of, is_text, strip_from};
use crate::yaml::{
    entries_view, error_message, mapping_entries, parse_document, yaml_document, yaml_entries,
    yaml_items, yaml_mapping, yaml_message, yaml_text, yaml_unsigned,
};
use vstd::prelude::*;

verus! {

/// A command.
#[derive(Clone, Debug, PartialEq, Eq)]
pub enum CommentCommand {
    /// Ends the current chunk.
    Pause,
    /// Ends the current slide.
    EndSlide,
    /// Divides the slide into columns of the given relative widths.
    InitColumnLayout(Vec<u8>),
    /// Enters the column at the given position.
    Column(usize),
    /// Leaves the column layout.
    ResetLayout,
}

/// What a [`CommentCommand`] holds.
pub enum CommentCommandView {
    Pause,
    EndSlide,
    InitColumnLayout(Seq<u8>),
    Column(usize),
    ResetLayout,
}

impl View for CommentCommand {
    type V = CommentCommandView;

    open spec fn view(&self) -> CommentCommandView {
        match self {
            CommentCommand::Pause => CommentCommandView::Pause,
            CommentCommand::EndSlide => CommentCommandView::EndSlide,
            CommentCommand::InitColumnLayout(columns) => CommentCommandView::InitColumnLayout(
                columns@,
            ),
            CommentCommand::Column(column) => CommentCommandView::Column(*column),
            CommentCommand::ResetLayout => CommentCommandView::ResetLayout,
        }
    }
}

/// Why a comment is no command. The message may end in a position, which
/// counts from the start of the comment and is left out when the error is
/// shown.
#[derive(Clone, Debug)]
pub struct CommandParseError {
    pub message: String,
}

/// What marks the position at the end of a message.
pub open spec fn position_marker() -> Seq<char> {
    " at line"@
}

impl CommandParseError {
    /// The message without the position that may end it.
    pub fn to_string(&self) -> (shown: String)
        ensures
            shown@ == before_marker(self.message@, position_marker()),
    {
        strip_from(&chars_of(self.message.as_str()), &chars_of(" at line"))
    }
}

/// The message for a document that is neither a word nor a mapping with one
/// key.
pub open spec fn shape_message() -> Seq<char> {
    "expected a command word or a mapping with a single key"@
}

/// The message for a word or a key that names no command.
pub open spec fn unknown_message() -> Seq<char> {
    "unknown command, expected one of `pause`, `end_slide`, `column_layout`, `column`, `reset_layout`"@
}

/// The message for column widths that are no list of integers from 0 to 255.
pub open spec fn widths_message() -> Seq<char> {
    "invalid column widths, expected a sequence of integers from 0 to 255"@
}

/// The message for a column that is no index.
pub open spec fn index_message() -> Seq<char> {
    "invalid column, expected a non-negative integer"@
}

/// The command that a single word names.
pub open spec fn word_command(word: Seq<char>) -> Result<CommentCommandView, Seq<char>> {
    if word == "pause"@ {
        Ok(CommentCommandView::Pause)
    } else if word == "end_slide"@ {
        Ok(CommentCommandView::EndSlide)
    } else if word == "reset_layout"@ {
        Ok(CommentCommandView::ResetLayout)
    } else {
        Err(unknown_message())
    }
}

/// Whether every item is an integer from 0 to 255.
pub open spec fn all_widths(items: Seq<serde_yaml::Value>) -> bool {
    forall|i: int|
        0 <= i < items.len() ==> {
            &&& (#[trigger] yaml_unsigned(items[i])) is Some
            &&& yaml_unsigned(items[i])->0 <= u8::MAX
        }
}

/// The widths that a sequence of integers from 0 to 255 holds.
pub open spec fn widths_of(items: Seq<serde_yaml::Value>) -> Seq<u8> {
    Seq::new(items.len(), |i: int| yaml_unsigned(items[i])->0 as u8)
}

/// The command that a key and its value make.
pub open spec fn entry_command(key: Seq<char>, value: serde_yaml::Value) -> Result<
    CommentCommandView,
    Seq<char>,
> {
    if key == "column_layout"@ {
        match yaml_items(value) {
            Some(items) => if all_widths(items) {
                Ok(CommentCommandView::InitColumnLayout(widths_of(items)))
            } else {
                Err(widths_message())
            },
            None => Err(widths_message()),
        }
    } else if key == "column"@ {
        match yaml_unsigned(value) {
            Some(index) => if index <= usize::MAX {
                Ok(CommentCommandView::Column(index as usize))
            } else {
                Err(index_message())
            },
            None => Err(index_message()),
        }
    } else {
        Err(unknown_message())
    }
}

/// The command that a document holds, or the message that says why it holds
/// none.
pub open spec fn document_command(document: serde_yaml::Value) -> Result<
    CommentCommandView,
    Seq<char>,
> {
    match yaml_text(document) {
        Some(word) => word_command(word),
        None => match yaml_mapping(document) {
            Some(mapping) => {
                let entries = yaml_entries(mapping);
                if entries.len() == 1 {
                    match yaml_text(entries[0].0) {
                        Some(key) => entry_command(key, entries[0].1),
                        None => Err(shape_message()),
                    }
                } else {
                    Err(shape_message())
                }
            },
            None => Err(shape_message()),
        },
    }
}

/// The command that a comment's text holds: that of the document it is read
/// as, or the message of the error that reading it gave.
pub open spec fn text_command(text: Seq<char>) -> Result<CommentCommandView, Seq<char>> {
    match yaml_document(text) {
        Ok(document) => document_command(document),
        Err(error) => Err(yaml_message(error)),
    }
}

/// Whether `result` is the command or the error that `expected` describes.
pub open spec fn command_result_is(
    result: Result<CommentCommand, CommandParseError>,
    expected: Result<CommentCommandView, Seq<char>>,
) -> bool {
    match result {
        Ok(command) => expected == Ok::<CommentCommandView, Seq<char>>(command@),
        Err(error) => expected == Err::<CommentCommandView, Seq<char>>(error.message@),
    }
}

fn failure(message: &str) -> (result: Result<CommentCommand, CommandParseError>)
    ensures
        command_result_is(result, Err(message@)),
{
    Err(CommandParseError { message: message.to_owned() })
}

impl CommentCommand {
    /// The command that a single word names.
    fn from_word(word: &str) -> (result: Result<CommentCommand, CommandParseError>)
        ensures
            command_result_is(result, word_command(word@)),
    {
        let word = chars_of(word);
        if is_text(&word, "pause") {
            Ok(CommentCommand::Pause)
        } else if is_text(&word, "end_slide") {
            Ok(CommentCommand::EndSlide)
        } else if is_text(&word, "reset_layout") {
            Ok(CommentCommand::ResetLayout)
        } else {
            failure(
                "unknown command, expected one of `pause`, `end_slide`, `column_layout`, `column`, `reset_layout`",
            )
        }
    }

    /// The widths that a list of integers from 0 to 255 holds.
    fn widths(items: &Vec<serde_yaml::Value>) -> (widths: Option<Vec<u8>>)
        ensures
            match widths {
                Some(widths) => all_widths(items@) && widths@ == widths_of(items@),
                None => !all_widths(items@),
            },
    {
        let mut widths: Vec<u8> = Vec::new();
        let mut i: usize = 0;
        while i < items.len()
            invariant
                i <= items.len(),
                all_widths(items@.take(i as int)),
                widths@ == widths_of(items@.take(i as int)),
            decreases items.len() - i,
        {
            match items[i].as_u64() {
                Some(width) => {
                    if width > 255 {
                        return None;
                    }
                    widths.push(width as u8);
                },
                None => {
                    return None;
                },
            }
            i += 1;
            proof {
                assert(widths@ =~= widths_of(items@.take(i as int)));
                assert forall|k: int| 0 <= k < i implies {
                    &&& (#[trigger] yaml_unsigned(items@.take(i as int)[k])) is Some
                    &&& yaml_unsigned(items@.take(i as int)[k])->0 <= u8::MAX
                } by {
                    if k < i - 1 {
                        assert(items@.take(i as int)[k] == items@.take(i - 1)[k]);
                    }
                }
            }
        }
        assert(items@.take(i as int) =~= items@);
        Some(widths)
    }

    /// The command that a key and its value make.
    fn from_entry(key: &str, value: &serde_yaml::Value) -> (result: Result<
        CommentCommand,
        CommandParseError,
    >)
        ensures
            command_result_is(result, entry_command(key@, *value)),
    {
        let key = chars_of(key);
        if is_text(&key, "column_layout") {
            match value.as_sequence() {
                Some(items) => match Self::widths(items) {
                    Some(widths) => Ok(CommentCommand::InitColumnLayout(widths)),
                    None => failure(
                        "invalid column widths, expected a sequence of integers from 0 to 255",
                    ),
                },
                None => failure(
                    "invalid column widths, expected a sequence of integers from 0 to 255",
                ),
            }
        } else if is_text(&key, "column") {
            match value.as_u64() {
                Some(index) => {
                    if index <= usize::MAX as u64 {
                        Ok(CommentCommand::Column(index as usize))
                    } else {
                        failure("invalid column, expected a non-negative integer")
                    }
                },
                None => failure("invalid column, expected a non-negative integer"),
            }
        } else {
            failure(
                "unknown command, expected one of `pause`, `end_slide`, `column_layout`, `column`, `reset_layout`",
            )
        }
    }

    /// Reads the command that a parsed document holds.
    pub fn from_value(document: &serde_yaml::Value) -> (result: Result<
        CommentCommand,
        CommandParseError,
    >)
        ensures
            command_result_is(result, document_command(*document)),
    {
        if let Some(word) = document.as_str() {
            return Self::from_word(word);
        }
        let mapping = match document.as_mapping() {
            Some(mapping) => mapping,
            None => {
                return failure("expected a command word or a mapping with a single key");
            },
        };
        let entries = mapping_entries(mapping);
        if entries.len() != 1 {
            assert(entries_view(entries@).len() == entries@.len());
            return failure("expected a command word or a mapping with a single key");
        }
        let (key, value) = entries[0];
        assert(entries_view(entries@)[0] == (*key, *value));
        match key.as_str() {
            Some(key) => Self::from_entry(key, value),
            None => failure("expected a command word or a mapping with a single key"),
        }
    }

    /// Reads the command that `text` holds.
    pub fn from_str(text: &str) -> (result: Result<CommentCommand, CommandParseError>)
        ensures
            command_result_is(result, text_command(text@)),
    {
        match parse_document(text) {
            Ok(document) => Self::from_value(&document),
            Err(error) => Err(CommandParseError { message: error_message(&error) }),
        }
    }
}

} // verus!
