//! The messages with which errors are shown.

use crate::builder::{BuildError, BuildErrorView};
use crate::command::position_marker;
use crate::text::{before_marker, decimal_digits, push_decimal};
use vstd::prelude::*;
use vstd::string::StringExecFns;

verus! {

impl BuildErrorView {
    /// The message with which the error is shown.
    pub open spec fn message(self) -> Seq<char> {
        match self {
            BuildErrorView::LoadImage(reason) => "loading image: "@ + reason,
            BuildErrorView::InvalidMetadata(reason) => "invalid presentation metadata: "@ + reason,
            BuildErrorView::InvalidTheme(reason) => "invalid theme: "@ + reason,
            BuildErrorView::InvalidCodeTheme => "invalid code highlighter theme"@,
            BuildErrorView::InvalidLayout(reason) => "invalid layout: "@ + reason,
            BuildErrorView::NoLayout => "can't enter layout: no layout defined"@,
            BuildErrorView::AlreadyInColumn => "can't enter layout column: already in it"@,
            BuildErrorView::ColumnIndexTooLarge => "can't enter layout column: column index too large"@,
            BuildErrorView::NotInsideColumn => "need to enter layout column explicitly using `column` command"@,
            BuildErrorView::CommandParse { line, message } => "error parsing command at line "@
                + decimal_digits(line as nat) + ": "@ + before_marker(message, position_marker()),
        }
    }
}

/// `head` followed by `tail`.
pub fn concat(head: &str, tail: &str) -> (out: String)
    ensures
        out@ == head@ + tail@,
{
    let mut out = head.to_owned();
    out.append(tail);
    out
}

impl BuildError {
    /// The message with which the error is shown.
    pub fn to_string(&self) -> (message: String)
        ensures
            message@ == self@.message(),
    {
        match self {
            BuildError::LoadImage(error) => concat("loading image: ", error.message.as_str()),
            BuildError::InvalidMetadata(reason) => concat(
                "invalid presentation metadata: ",
                reason.as_str(),
            ),
            BuildError::InvalidTheme(error) => concat("invalid theme: ", error.message.as_str()),
            BuildError::InvalidCodeTheme => "invalid code highlighter theme".to_owned(),
            BuildError::InvalidLayout(reason) => concat("invalid layout: ", reason),
            BuildError::NoLayout => "can't enter layout: no layout defined".to_owned(),
            BuildError::AlreadyInColumn => "can't enter layout column: already in it".to_owned(),
            BuildError::ColumnIndexTooLarge => "can't enter layout column: column index too large".to_owned(),
            BuildError::NotInsideColumn => "need to enter layout column explicitly using `column` command".to_owned(),
            BuildError::CommandParse { line, error } => {
                let mut message = "error parsing command at line ".to_owned();
                push_decimal(&mut message, *line);
                message.append(": ");
                message.append(error.to_string().as_str());
                message
            },
        }
    }
}

} // verus!
