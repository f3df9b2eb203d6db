//! The front matter: what a document says of itself before its first slide.
//!
//! The front matter is a YAML mapping. The keys `title`, `sub_title` and
//! `author` hold texts; the key `theme` holds a mapping with the keys `name`,
//! `path` and `override`. Other keys are passed over.

use crate::text::{chars_of, is_text};
use crate::yaml::{
    entries_view, error_message, mapping_entries, parse_document, yaml_document, yaml_entries,
    yaml_mapping, yaml_message, yaml_null, yaml_text,
};
use vstd::prelude::*;

verus! {

/// The theme that a front matter asks for.
#[derive(Clone, Debug)]
pub struct PresentationThemeMetadata {
    /// The name of a theme.
    pub name: Option<String>,
    /// The path of a theme file.
    pub path: Option<String>,
    /// Whether overrides are to be merged onto the theme.
    pub overrides: bool,
}

/// What a front matter holds.
#[derive(Clone, Debug)]
pub struct PresentationMetadata {
    pub title: Option<String>,
    pub sub_title: Option<String>,
    pub author: Option<String>,
    pub theme: PresentationThemeMetadata,
}

/// The view of an optional string.
pub open spec fn optional_view(text: Option<String>) -> Option<Seq<char>> {
    match text {
        Some(text) => Some(text@),
        None => None,
    }
}

/// What a [`PresentationThemeMetadata`] holds.
pub struct ThemeMetadataView {
    pub name: Option<Seq<char>>,
    pub path: Option<Seq<char>>,
    pub overrides: bool,
}

/// What a [`PresentationMetadata`] holds.
pub struct MetadataView {
    pub title: Option<Seq<char>>,
    pub sub_title: Option<Seq<char>>,
    pub author: Option<Seq<char>>,
    pub theme: ThemeMetadataView,
}

impl View for PresentationThemeMetadata {
    type V = ThemeMetadataView;

    open spec fn view(&self) -> ThemeMetadataView {
        ThemeMetadataView {
            name: optional_view(self.name),
            path: optional_view(self.path),
            overrides: self.overrides,
        }
    }
}

impl View for PresentationMetadata {
    type V = MetadataView;

    open spec fn view(&self) -> MetadataView {
        MetadataView {
            title: optional_view(self.title),
            sub_title: optional_view(self.sub_title),
            author: optional_view(self.author),
            theme: self.theme@,
        }
    }
}

impl ThemeMetadataView {
    /// A front matter that asks for no theme.
    pub open spec fn unset() -> ThemeMetadataView {
        ThemeMetadataView { name: None, path: None, overrides: false }
    }
}

/// The position of the first entry whose key is the text `name`, or the
/// number of entries where there is none.
pub open spec fn key_position(
    entries: Seq<(serde_yaml::Value, serde_yaml::Value)>,
    name: Seq<char>,
) -> int
    decreases entries.len(),
{
    if entries.len() == 0 || yaml_text(entries[0].0) == Some(name) {
        0
    } else {
        1 + key_position(entries.drop_first(), name)
    }
}

/// The value under the key `name`, if the mapping has that key.
pub open spec fn entry_value(
    entries: Seq<(serde_yaml::Value, serde_yaml::Value)>,
    name: Seq<char>,
) -> Option<serde_yaml::Value> {
    let at = key_position(entries, name);
    if at < entries.len() {
        Some(entries[at].1)
    } else {
        None
    }
}

/// The message for a value that should be a text and is none.
pub open spec fn text_message() -> Seq<char> {
    "expected a text"@
}

/// The message for a value that should be a mapping and is none.
pub open spec fn mapping_message() -> Seq<char> {
    "expected a mapping"@
}

/// The text under the key `name`: none where the key is missing or its value
/// is null; an error where the value is anything but a text.
pub open spec fn text_entry(
    entries: Seq<(serde_yaml::Value, serde_yaml::Value)>,
    name: Seq<char>,
) -> Result<Option<Seq<char>>, Seq<char>> {
    match entry_value(entries, name) {
        Some(value) => match yaml_text(value) {
            Some(text) => Ok(Some(text)),
            None => if yaml_null(value) {
                Ok(None)
            } else {
                Err(text_message())
            },
        },
        None => Ok(None),
    }
}

/// The theme that the value under `theme` asks for.
pub open spec fn theme_metadata(value: Option<serde_yaml::Value>) -> Result<
    ThemeMetadataView,
    Seq<char>,
> {
    match value {
        None => Ok(ThemeMetadataView::unset()),
        Some(value) => match yaml_mapping(value) {
            Some(mapping) => {
                let entries = yaml_entries(mapping);
                match text_entry(entries, "name"@) {
                    Err(message) => Err(message),
                    Ok(name) => match text_entry(entries, "path"@) {
                        Err(message) => Err(message),
                        Ok(path) => Ok(
                            ThemeMetadataView {
                                name,
                                path,
                                overrides: match entry_value(entries, "override"@) {
                                    Some(overrides) => !yaml_null(overrides),
                                    None => false,
                                },
                            },
                        ),
                    },
                }
            },
            None => if yaml_null(value) {
                Ok(ThemeMetadataView::unset())
            } else {
                Err(mapping_message())
            },
        },
    }
}

/// What a document holds as front matter, or the message that says why it is
/// none.
pub open spec fn document_metadata(document: serde_yaml::Value) -> Result<MetadataView, Seq<char>> {
    match yaml_mapping(document) {
        None => Err(mapping_message()),
        Some(mapping) => {
            let entries = yaml_entries(mapping);
            match text_entry(entries, "title"@) {
                Err(message) => Err(message),
                Ok(title) => match text_entry(entries, "sub_title"@) {
                    Err(message) => Err(message),
                    Ok(sub_title) => match text_entry(entries, "author"@) {
                        Err(message) => Err(message),
                        Ok(author) => match theme_metadata(entry_value(entries, "theme"@)) {
                            Err(message) => Err(message),
                            Ok(theme) => Ok(MetadataView { title, sub_title, author, theme }),
                        },
                    },
                },
            }
        },
    }
}

/// What a text holds as front matter: that of the document it is read as, or
/// the message of the error that reading it gave.
pub open spec fn text_metadata(text: Seq<char>) -> Result<MetadataView, Seq<char>> {
    match yaml_document(text) {
        Ok(document) => document_metadata(document),
        Err(error) => Err(yaml_message(error)),
    }
}

/// Whether `result` is the metadata or the message that `expected`
/// describes.
pub open spec fn metadata_result_is(
    result: Result<PresentationMetadata, String>,
    expected: Result<MetadataView, Seq<char>>,
) -> bool {
    match result {
        Ok(metadata) => expected == Ok::<MetadataView, Seq<char>>(metadata@),
        Err(message) => expected == Err::<MetadataView, Seq<char>>(message@),
    }
}

/// Where no key before `at` is the text `name`, and the key at `at` is, or
/// `at` is the number of entries, the first such key is at `at`.
pub proof fn lemma_key_position(
    entries: Seq<(serde_yaml::Value, serde_yaml::Value)>,
    name: Seq<char>,
    at: int,
)
    requires
        0 <= at <= entries.len(),
        forall|k: int| 0 <= k < at ==> yaml_text(entries[k].0) != Some(name),
        at < entries.len() ==> yaml_text(entries[at].0) == Some(name),
    ensures
        key_position(entries, name) == at,
    decreases entries.len(),
{
    if at > 0 {
        assert forall|k: int| 0 <= k < at - 1 implies yaml_text(entries.drop_first()[k].0) != Some(
            name,
        ) by {
            assert(entries.drop_first()[k] == entries[k + 1]);
        }
        lemma_key_position(entries.drop_first(), name, at - 1);
    }
}

/// The value under the key `name`.
fn find_entry<'a>(
    entries: &Vec<(&'a serde_yaml::Value, &'a serde_yaml::Value)>,
    name: &str,
) -> (value: Option<&'a serde_yaml::Value>)
    ensures
        match value {
            Some(value) => entry_value(entries_view(entries@), name@) == Some(*value),
            None => entry_value(entries_view(entries@), name@) is None,
        },
{
    let ghost all = entries_view(entries@);
    let mut i: usize = 0;
    while i < entries.len()
        invariant
            i <= entries.len(),
            all == entries_view(entries@),
            forall|k: int| 0 <= k < i ==> yaml_text(all[k].0) != Some(name@),
        decreases entries.len() - i,
    {
        let (key, value) = entries[i];
        assert(all[i as int] == (*key, *value));
        let found = match key.as_str() {
            Some(key) => is_text(&chars_of(key), name),
            None => false,
        };
        if found {
            proof {
                lemma_key_position(all, name@, i as int);
            }
            return Some(value);
        }
        i += 1;
    }
    proof {
        lemma_key_position(all, name@, i as int);
    }
    None
}

/// The text under the key `name`.
fn text_of(entries: &Vec<(&serde_yaml::Value, &serde_yaml::Value)>, name: &str) -> (text: Result<
    Option<String>,
    String,
>)
    ensures
        match text {
            Ok(text) => text_entry(entries_view(entries@), name@) == Ok::<
                Option<Seq<char>>,
                Seq<char>,
            >(optional_view(text)),
            Err(message) => text_entry(entries_view(entries@), name@) == Err::<
                Option<Seq<char>>,
                Seq<char>,
            >(message@),
        },
{
    match find_entry(entries, name) {
        Some(value) => match value.as_str() {
            Some(text) => Ok(Some(text.to_owned())),
            None => if value.is_null() {
                Ok(None)
            } else {
                Err("expected a text".to_owned())
            },
        },
        None => Ok(None),
    }
}

impl PresentationThemeMetadata {
    /// Reads what the value under `theme` asks for.
    pub fn from_value(value: Option<&serde_yaml::Value>) -> (result: Result<Self, String>)
        ensures
            match result {
                Ok(theme) => theme_metadata(
                    match value {
                        Some(value) => Some(*value),
                        None => None,
                    },
                ) == Ok::<ThemeMetadataView, Seq<char>>(theme@),
                Err(message) => theme_metadata(
                    match value {
                        Some(value) => Some(*value),
                        None => None,
                    },
                ) == Err::<ThemeMetadataView, Seq<char>>(message@),
            },
    {
        let value = match value {
            Some(value) => value,
            None => {
                return Ok(PresentationThemeMetadata { name: None, path: None, overrides: false });
            },
        };
        let mapping = match value.as_mapping() {
            Some(mapping) => mapping,
            None => {
                if value.is_null() {
                    return Ok(
                        PresentationThemeMetadata { name: None, path: None, overrides: false },
                    );
                }
                return Err("expected a mapping".to_owned());
            },
        };
        let entries = mapping_entries(mapping);
        let name = match text_of(&entries, "name") {
            Ok(name) => name,
            Err(message) => {
                return Err(message);
            },
        };
        let path = match text_of(&entries, "path") {
            Ok(path) => path,
            Err(message) => {
                return Err(message);
            },
        };
        let overrides = match find_entry(&entries, "override") {
            Some(overrides) => !overrides.is_null(),
            None => false,
        };
        Ok(PresentationThemeMetadata { name, path, overrides })
    }
}

impl PresentationMetadata {
    /// Reads the front matter that a parsed document holds.
    pub fn from_value(document: &serde_yaml::Value) -> (result: Result<Self, String>)
        ensures
            metadata_result_is(result, document_metadata(*document)),
    {
        let mapping = match document.as_mapping() {
            Some(mapping) => mapping,
            None => {
                return Err("expected a mapping".to_owned());
            },
        };
        let entries = mapping_entries(mapping);
        let title = match text_of(&entries, "title") {
            Ok(title) => title,
            Err(message) => {
                return Err(message);
            },
        };
        let sub_title = match text_of(&entries, "sub_title") {
            Ok(sub_title) => sub_title,
            Err(message) => {
                return Err(message);
            },
        };
        let author = match text_of(&entries, "author") {
            Ok(author) => author,
            Err(message) => {
                return Err(message);
            },
        };
        let theme = match PresentationThemeMetadata::from_value(find_entry(&entries, "theme")) {
            Ok(theme) => theme,
            Err(message) => {
                return Err(message);
            },
        };
        Ok(PresentationMetadata { title, sub_title, author, theme })
    }

    /// Reads the front matter that `text` holds.
    pub fn from_str(text: &str) -> (result: Result<Self, String>)
        ensures
            metadata_result_is(result, text_metadata(text@)),
    {
        match parse_document(text) {
            Ok(document) => Self::from_value(&document),
            Err(error) => Err(error_message(&error)),
        }
    }
}

} // verus!
