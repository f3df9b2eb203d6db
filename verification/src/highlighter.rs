//! Syntax highlighting, done by `syntect`.
//!
//! The highlighter turns lines of code into lines with terminal escape
//! codes. What it writes is `syntect`'s business: the contracts here give the
//! results names and claim no more of them than that the same input gives the
//! same output.

use crate::elements::CodeLanguage;
use crate::text::views_of;
use syntect::easy::HighlightLines;
use syntect::highlighting::ThemeSet;
use syntect::parsing::SyntaxSet;
use syntect::util::as_24_bit_terminal_escaped;
use vstd::prelude::*;

verus! {

/// Whether `syntect`'s default themes hold one of the given name. There are
/// seven of them.
pub open spec fn known_theme(name: Seq<char>) -> bool {
    ||| name == "base16-ocean.dark"@
    ||| name == "base16-eighties.dark"@
    ||| name == "base16-mocha.dark"@
    ||| name == "base16-ocean.light"@
    ||| name == "InspiredGitHub"@
    ||| name == "Solarized (dark)"@
    ||| name == "Solarized (light)"@
}

/// The given lines, highlighted one after the other as code of the language
/// that `token` names, in the default theme of the given name; `None` where
/// there is no such theme or `syntect` fails on a line.
pub uninterp spec fn highlighted_code(
    theme: Seq<char>,
    token: Seq<char>,
    lines: Seq<Seq<char>>,
) -> Option<Seq<Seq<char>>>;

/// Each of the given texts in the style that the first token of `probe` gets
/// when `probe` is highlighted as code of the language that `token` names;
/// `None` where there is no such theme or language, or no token.
pub uninterp spec fn styled_like(
    theme: Seq<char>,
    token: Seq<char>,
    probe: Seq<char>,
    texts: Seq<Seq<char>>,
) -> Option<Seq<Seq<char>>>;

/// Looks `name` up among the themes of `ThemeSet::load_defaults`, which are
/// the seven that its documentation lists.
#[verifier::external_body]
fn has_theme(name: &str) -> (known: bool)
    ensures
        known == known_theme(name@),
{
    ThemeSet::load_defaults().themes.contains_key(name)
}

/// Highlights `lines` with `HighlightLines::highlight_line`, over the
/// syntaxes of `SyntaxSet::load_defaults_newlines` and the themes of
/// `ThemeSet::load_defaults`, and writes each line out with
/// `as_24_bit_terminal_escaped`. A token that names no syntax stands for
/// plain text. One line comes out for each line that goes in.
#[verifier::external_body]
fn highlight_code(theme: &str, token: &str, lines: &Vec<String>) -> (out: Option<Vec<String>>)
    ensures
        match out {
            Some(out) => highlighted_code(theme@, token@, views_of(lines@)) == Some(views_of(out@))
                && out.len() == lines.len(),
            None => highlighted_code(theme@, token@, views_of(lines@)) is None,
        },
{
    let syntaxes = SyntaxSet::load_defaults_newlines();
    let themes = ThemeSet::load_defaults();
    let syntax = syntaxes.find_syntax_by_token(token).unwrap_or_else(
        || syntaxes.find_syntax_plain_text(),
    );
    let mut highlighter = HighlightLines::new(syntax, themes.themes.get(theme)?);
    lines.iter().map(
        |line|
            Some(
                as_24_bit_terminal_escaped(&highlighter.highlight_line(line, &syntaxes).ok()?, true),
            ),
    ).collect()
}

/// Highlights `probe` as `highlight_code` does, takes the style of its first
/// token, and writes each of `texts` out in that style with
/// `as_24_bit_terminal_escaped`. One text comes out for each that goes in.
#[verifier::external_body]
fn style_like(theme: &str, token: &str, probe: &str, texts: &Vec<String>) -> (out: Option<
    Vec<String>,
>)
    ensures
        match out {
            Some(out) => styled_like(theme@, token@, probe@, views_of(texts@)) == Some(
                views_of(out@),
            ) && out.len() == texts.len(),
            None => styled_like(theme@, token@, probe@, views_of(texts@)) is None,
        },
{
    let syntaxes = SyntaxSet::load_defaults_newlines();
    let themes = ThemeSet::load_defaults();
    let syntax = syntaxes.find_syntax_by_token(token)?;
    let mut highlighter = HighlightLines::new(syntax, themes.themes.get(theme)?);
    let style = highlighter.highlight_line(probe, &syntaxes).ok()?.first()?.0;
    Some(texts.iter().map(|text| as_24_bit_terminal_escaped(&[(style, text.as_str())], true)).collect())
}

/// The token by which a language is looked up: a file extension.
pub open spec fn language_token(language: CodeLanguage) -> Seq<char> {
    match language {
        CodeLanguage::Bash => "sh"@,
        CodeLanguage::C => "c"@,
        CodeLanguage::Cpp => "cpp"@,
        CodeLanguage::Css => "css"@,
        CodeLanguage::Go => "go"@,
        CodeLanguage::Haskell => "hs"@,
        CodeLanguage::Html => "html"@,
        CodeLanguage::Java => "java"@,
        CodeLanguage::JavaScript => "js"@,
        CodeLanguage::Json => "json"@,
        CodeLanguage::Lua => "lua"@,
        CodeLanguage::Makefile => "make"@,
        CodeLanguage::Markdown => "md"@,
        CodeLanguage::Perl => "pl"@,
        CodeLanguage::Php => "php"@,
        CodeLanguage::Python => "py"@,
        CodeLanguage::R => "r"@,
        CodeLanguage::Ruby => "rb"@,
        CodeLanguage::Rust => "rs"@,
        CodeLanguage::Scala => "scala"@,
        CodeLanguage::Sql => "sql"@,
        CodeLanguage::Xml => "xml"@,
        CodeLanguage::Yaml => "yaml"@,
        CodeLanguage::Unknown => "txt"@,
    }
}

/// The token by which a language is looked up.
pub fn token_of(language: &CodeLanguage) -> (token: &'static str)
    ensures
        token@ == language_token(*language),
{
    match language {
        CodeLanguage::Bash => "sh",
        CodeLanguage::C => "c",
        CodeLanguage::Cpp => "cpp",
        CodeLanguage::Css => "css",
        CodeLanguage::Go => "go",
        CodeLanguage::Haskell => "hs",
        CodeLanguage::Html => "html",
        CodeLanguage::Java => "java",
        CodeLanguage::JavaScript => "js",
        CodeLanguage::Json => "json",
        CodeLanguage::Lua => "lua",
        CodeLanguage::Makefile => "make",
        CodeLanguage::Markdown => "md",
        CodeLanguage::Perl => "pl",
        CodeLanguage::Php => "php",
        CodeLanguage::Python => "py",
        CodeLanguage::R => "r",
        CodeLanguage::Ruby => "rb",
        CodeLanguage::Rust => "rs",
        CodeLanguage::Scala => "scala",
        CodeLanguage::Sql => "sql",
        CodeLanguage::Xml => "xml",
        CodeLanguage::Yaml => "yaml",
        CodeLanguage::Unknown => "txt",
    }
}

/// Copies a list of strings.
pub fn clone_lines(lines: &Vec<String>) -> (out: Vec<String>)
    ensures
        views_of(out@) == views_of(lines@),
{
    let mut out: Vec<String> = Vec::new();
    let mut i: usize = 0;
    while i < lines.len()
        invariant
            i <= lines.len(),
            views_of(out@) == views_of(lines@.take(i as int)),
        decreases lines.len() - i,
    {
        let ghost done = views_of(out@);
        let line = lines[i].clone();
        assert(line@ == lines@[i as int]@);
        out.push(line);
        i += 1;
        assert(views_of(out@) =~= done.push(lines@[i - 1]@));
        assert(views_of(lines@.take(i as int)) =~= views_of(lines@.take(i - 1)).push(
            lines@[i - 1]@,
        ));
    }
    assert(lines@.take(i as int) =~= lines@);
    out
}

/// The given lines highlighted in the theme of the given name; as they stand
/// where highlighting fails.
pub open spec fn highlighted_with(theme: Seq<char>, language: CodeLanguage, lines: Seq<Seq<char>>) -> Seq<
    Seq<char>,
> {
    match highlighted_code(theme, language_token(language), lines) {
        Some(highlighted) => highlighted,
        None => lines,
    }
}

/// The given texts in the style of padding, which is that of a comment in
/// Rust; as they stand where styling fails.
pub open spec fn padded_with(theme: Seq<char>, texts: Seq<Seq<char>>) -> Seq<Seq<char>> {
    match styled_like(theme, "rs"@, "//"@, texts) {
        Some(styled) => styled,
        None => texts,
    }
}

/// Highlights code in one theme.
#[derive(Debug)]
pub struct CodeHighlighter {
    theme: String,
}

/// The theme that a highlighter was asked for is not known.
#[derive(Clone, Copy, Debug, PartialEq, Eq)]
pub struct ThemeNotFound;

impl Clone for CodeHighlighter {
    fn clone(&self) -> (out: Self)
        ensures
            out == *self,
    {
        CodeHighlighter { theme: self.theme.clone() }
    }
}

impl CodeHighlighter {
    /// The name of the highlighter's theme.
    pub closed spec fn theme(&self) -> Seq<char> {
        self.theme@
    }

    /// A highlighter for the theme of the given name, if there is one.
    pub fn new(theme: &str) -> (highlighter: Result<Self, ThemeNotFound>)
        ensures
            match highlighter {
                Ok(highlighter) => known_theme(theme@) && highlighter.theme() == theme@,
                Err(_) => !known_theme(theme@),
            },
    {
        if has_theme(theme) {
            Ok(CodeHighlighter { theme: theme.to_owned() })
        } else {
            Err(ThemeNotFound)
        }
    }

    /// Highlights `lines` one after the other as code of `language`.
    pub fn highlight(&self, language: &CodeLanguage, lines: &Vec<String>) -> (out: Vec<String>)
        ensures
            views_of(out@) == highlighted_with(self.theme(), *language, views_of(lines@)),
            out.len() == lines.len(),
    {
        match highlight_code(self.theme.as_str(), token_of(language), lines) {
            Some(out) => out,
            None => {
                let out = clone_lines(lines);
                assert(views_of(out@).len() == out.len());
                assert(views_of(lines@).len() == lines.len());
                out
            },
        }
    }

    /// Gives `texts` the style of padding.
    pub fn pad(&self, texts: &Vec<String>) -> (out: Vec<String>)
        ensures
            views_of(out@) == padded_with(self.theme(), views_of(texts@)),
            out.len() == texts.len(),
    {
        match style_like(self.theme.as_str(), "rs", "//", texts) {
            Some(out) => out,
            None => {
                let out = clone_lines(texts);
                assert(views_of(out@).len() == out.len());
                assert(views_of(texts@).len() == texts.len());
                out
            },
        }
    }
}

} // verus!
