//! The images and themes that were loaded for a build.
//!
//! Loading is the caller's part. What was loaded, and what failed to load,
//! is handed to the builder as a table that is looked up by path or by name.

use crate::operation::Image;
use crate::text::{chars_of, same_chars};
use crate::theme::PresentationTheme;
use vstd::prelude::*;

verus! {

/// Why an image could not be had.
#[derive(Clone, Debug)]
pub struct LoadImageError {
    pub message: String,
}

/// Why a theme could not be had.
#[derive(Clone, Debug)]
pub struct LoadThemeError {
    pub message: String,
}

/// An image file and what came of loading it.
#[derive(Debug)]
pub struct LoadedImage {
    pub path: String,
    pub outcome: Result<Image, String>,
}

/// A theme file and what came of loading it.
#[derive(Debug)]
pub struct LoadedTheme {
    pub path: String,
    pub outcome: Result<PresentationTheme, String>,
}

/// A theme that is known by its name.
#[derive(Clone, Debug)]
pub struct NamedTheme {
    pub name: String,
    pub theme: PresentationTheme,
}

/// What was loaded for a build.
#[derive(Debug)]
pub struct Resources {
    pub images: Vec<LoadedImage>,
    pub themes: Vec<LoadedTheme>,
    pub named_themes: Vec<NamedTheme>,
    /// The theme that results when the overrides of the front matter are
    /// merged onto the theme it names, or why they cannot be merged; `None`
    /// where no overrides were resolved.
    pub overridden_theme: Option<Result<PresentationTheme, String>>,
}

/// The message for a path that was not loaded.
pub open spec fn not_loaded_message() -> Seq<char> {
    "the file was not loaded"@
}

/// The position of the first image with the given path, or the number of
/// images where there is none.
pub open spec fn image_position(images: Seq<LoadedImage>, path: Seq<char>) -> int
    decreases images.len(),
{
    if images.len() == 0 || images[0].path@ == path {
        0
    } else {
        1 + image_position(images.drop_first(), path)
    }
}

/// The position of the first theme file with the given path, or the number
/// of theme files where there is none.
pub open spec fn theme_position(themes: Seq<LoadedTheme>, path: Seq<char>) -> int
    decreases themes.len(),
{
    if themes.len() == 0 || themes[0].path@ == path {
        0
    } else {
        1 + theme_position(themes.drop_first(), path)
    }
}

/// The position of the first theme with the given name, or the number of
/// named themes where there is none.
pub open spec fn name_position(themes: Seq<NamedTheme>, name: Seq<char>) -> int
    decreases themes.len(),
{
    if themes.len() == 0 || themes[0].name@ == name {
        0
    } else {
        1 + name_position(themes.drop_first(), name)
    }
}

/// The position is that of the first image with the path, where one exists
/// before `end` and none before `at`.
pub proof fn lemma_image_position(images: Seq<LoadedImage>, path: Seq<char>, at: int)
    requires
        0 <= at <= images.len(),
        forall|k: int| 0 <= k < at ==> images[k].path@ != path,
        at < images.len() ==> images[at].path@ == path,
    ensures
        image_position(images, path) == at,
    decreases images.len(),
{
    if at > 0 {
        assert forall|k: int| 0 <= k < at - 1 implies images.drop_first()[k].path@ != path by {
            assert(images.drop_first()[k] == images[k + 1]);
        }
        lemma_image_position(images.drop_first(), path, at - 1);
    }
}

/// As [`lemma_image_position`], for theme files.
pub proof fn lemma_theme_position(themes: Seq<LoadedTheme>, path: Seq<char>, at: int)
    requires
        0 <= at <= themes.len(),
        forall|k: int| 0 <= k < at ==> themes[k].path@ != path,
        at < themes.len() ==> themes[at].path@ == path,
    ensures
        theme_position(themes, path) == at,
    decreases themes.len(),
{
    if at > 0 {
        assert forall|k: int| 0 <= k < at - 1 implies themes.drop_first()[k].path@ != path by {
            assert(themes.drop_first()[k] == themes[k + 1]);
        }
        lemma_theme_position(themes.drop_first(), path, at - 1);
    }
}

/// As [`lemma_image_position`], for named themes.
pub proof fn lemma_name_position(themes: Seq<NamedTheme>, name: Seq<char>, at: int)
    requires
        0 <= at <= themes.len(),
        forall|k: int| 0 <= k < at ==> themes[k].name@ != name,
        at < themes.len() ==> themes[at].name@ == name,
    ensures
        name_position(themes, name) == at,
    decreases themes.len(),
{
    if at > 0 {
        assert forall|k: int| 0 <= k < at - 1 implies themes.drop_first()[k].name@ != name by {
            assert(themes.drop_first()[k] == themes[k + 1]);
        }
        lemma_name_position(themes.drop_first(), name, at - 1);
    }
}

impl Resources {
    /// What looking up the image at `path` gives: the outcome of the first
    /// entry with that path, or an error that says that nothing was loaded
    /// from there.
    pub open spec fn spec_image(&self, path: Seq<char>) -> Result<Image, Seq<char>> {
        let at = image_position(self.images@, path);
        if at < self.images@.len() {
            match self.images@[at].outcome {
                Ok(image) => Ok(image),
                Err(message) => Err(message@),
            }
        } else {
            Err(not_loaded_message())
        }
    }

    /// What looking up the theme file at `path` gives.
    pub open spec fn spec_theme(&self, path: Seq<char>) -> Result<PresentationTheme, Seq<char>> {
        let at = theme_position(self.themes@, path);
        if at < self.themes@.len() {
            match self.themes@[at].outcome {
                Ok(theme) => Ok(theme),
                Err(message) => Err(message@),
            }
        } else {
            Err(not_loaded_message())
        }
    }

    /// The theme of the given name, if there is one.
    pub open spec fn spec_named_theme(&self, name: Seq<char>) -> Option<PresentationTheme> {
        let at = name_position(self.named_themes@, name);
        if at < self.named_themes@.len() {
            Some(self.named_themes@[at].theme)
        } else {
            None
        }
    }

    /// A table that holds nothing.
    pub fn new() -> (resources: Self)
        ensures
            resources.images@.len() == 0,
            resources.themes@.len() == 0,
            resources.named_themes@.len() == 0,
            resources.overridden_theme is None,
    {
        Resources {
            images: Vec::new(),
            themes: Vec::new(),
            named_themes: Vec::new(),
            overridden_theme: None,
        }
    }

    /// Forgets the images and theme files that were loaded. The themes that
    /// are known by name stay.
    pub fn clear(&mut self)
        ensures
            final(self).images@.len() == 0,
            final(self).themes@.len() == 0,
            final(self).named_themes == old(self).named_themes,
            final(self).overridden_theme is None,
    {
        self.images = Vec::new();
        self.themes = Vec::new();
        self.overridden_theme = None;
    }

    /// The image that was loaded from `path`.
    pub fn image(&self, path: &str) -> (image: Result<Image, LoadImageError>)
        ensures
            match image {
                Ok(image) => self.spec_image(path@) == Ok::<Image, Seq<char>>(image),
                Err(error) => self.spec_image(path@) == Err::<Image, Seq<char>>(error.message@),
            },
    {
        let wanted = chars_of(path);
        let mut i: usize = 0;
        while i < self.images.len()
            invariant
                i <= self.images.len(),
                wanted@ == path@,
                forall|k: int| 0 <= k < i ==> self.images@[k].path@ != path@,
            decreases self.images.len() - i,
        {
            if same_chars(&chars_of(self.images[i].path.as_str()), &wanted) {
                proof {
                    lemma_image_position(self.images@, path@, i as int);
                }
                return match &self.images[i].outcome {
                    Ok(image) => Ok(*image),
                    Err(message) => Err(LoadImageError { message: message.clone() }),
                };
            }
            i += 1;
        }
        proof {
            lemma_image_position(self.images@, path@, i as int);
        }
        Err(LoadImageError { message: "the file was not loaded".to_owned() })
    }

    /// The theme that was loaded from the file at `path`.
    pub fn theme(&self, path: &str) -> (theme: Result<PresentationTheme, LoadThemeError>)
        ensures
            match theme {
                Ok(theme) => self.spec_theme(path@) == Ok::<PresentationTheme, Seq<char>>(theme),
                Err(error) => self.spec_theme(path@) == Err::<PresentationTheme, Seq<char>>(
                    error.message@,
                ),
            },
    {
        let wanted = chars_of(path);
        let mut i: usize = 0;
        while i < self.themes.len()
            invariant
                i <= self.themes.len(),
                wanted@ == path@,
                forall|k: int| 0 <= k < i ==> self.themes@[k].path@ != path@,
            decreases self.themes.len() - i,
        {
            if same_chars(&chars_of(self.themes[i].path.as_str()), &wanted) {
                proof {
                    lemma_theme_position(self.themes@, path@, i as int);
                }
                return match &self.themes[i].outcome {
                    Ok(theme) => Ok(theme.clone()),
                    Err(message) => Err(LoadThemeError { message: message.clone() }),
                };
            }
            i += 1;
        }
        proof {
            lemma_theme_position(self.themes@, path@, i as int);
        }
        Err(LoadThemeError { message: "the file was not loaded".to_owned() })
    }

    /// The theme of the given name.
    pub fn named_theme(&self, name: &str) -> (theme: Option<PresentationTheme>)
        ensures
            theme == self.spec_named_theme(name@),
    {
        let wanted = chars_of(name);
        let mut i: usize = 0;
        while i < self.named_themes.len()
            invariant
                i <= self.named_themes.len(),
                wanted@ == name@,
                forall|k: int| 0 <= k < i ==> self.named_themes@[k].name@ != name@,
            decreases self.named_themes.len() - i,
        {
            if same_chars(&chars_of(self.named_themes[i].name.as_str()), &wanted) {
                proof {
                    lemma_name_position(self.named_themes@, name@, i as int);
                }
                return Some(self.named_themes[i].theme.clone());
            }
            i += 1;
        }
        proof {
            lemma_name_position(self.named_themes@, name@, i as int);
        }
        None
    }
}

} // verus!
