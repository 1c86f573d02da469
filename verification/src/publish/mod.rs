//! The publish layer: markdown in, platform out.
//!
//! Every destination — an API (Notion), a file on disk (Hugo, HTML), a
//! clipboard hand-off (Substack paste, LinkedIn) — is a target with an id
//! and a label. The document reaches a target as a plain markdown [`Doc`];
//! what a target produced comes back as an [`Outcome`]. This module holds
//! what the targets compute; the front-end performs the network and file
//! work.

pub mod hugo;
pub mod html;
pub mod registry;
pub mod linkedin;
pub mod substack;

use vstd::prelude::*;
use std::path::{Path, PathBuf};
use crate::lines::{lines_of, trim, split_lines, trim_chars, trim_start_chars, skip_chars};
use crate::typography::trim_start;
use crate::paths::{path_stem_of, path_file_stem};
use crate::text::{chars_of, string_of};

verus! {

/// A document handed to a target: markdown plus just enough context to name
/// it. Borrowed and cheap — the caller owns the strings.
pub struct Doc<'a> {
    pub markdown: &'a str,
    /// The document's on-disk path, if it has been saved. Used to derive a
    /// title when the markdown has no H1.
    pub source_path: Option<&'a Path>,
}

/// The text of an ATX H1 line (`# …`, leading whitespace allowed), trimmed.
pub open spec fn h1_rest(line: Seq<char>) -> Option<Seq<char>> {
    let t = trim_start(line);
    if t.len() >= 2 && t[0] == '#' && t[1] == ' ' {
        Some(trim(t.skip(2)))
    } else {
        None
    }
}

/// The first non-empty H1 among `ls`.
pub open spec fn first_h1(ls: Seq<Seq<char>>) -> Option<Seq<char>>
    decreases ls.len(),
{
    if ls.len() == 0 {
        None
    } else {
        match h1_rest(ls[0]) {
            Some(t) => if t.len() > 0 {
                Some(t)
            } else {
                first_h1(ls.drop_first())
            },
            None => first_h1(ls.drop_first()),
        }
    }
}

/// The title of `markdown` saved at `path`: its first H1, else the file's
/// stem.
pub open spec fn title_of(markdown: Seq<char>, path: Option<&Path>) -> Option<Seq<char>> {
    match first_h1(lines_of(markdown)) {
        Some(t) => Some(t),
        None => match path {
            Some(p) => path_stem_of(p),
            None => None,
        },
    }
}

/// The H1 text of `line`, if it is an H1 line.
pub fn h1_line_rest(line: &Vec<char>) -> (r: Option<Vec<char>>)
    ensures
        match h1_rest(line@) {
            Some(t) => r matches Some(v) && v@ == t,
            None => r is None,
        },
{
    let t = trim_start_chars(line);
    if t.len() >= 2 && t[0] == '#' && t[1] == ' ' {
        let rest = skip_chars(&t, 2);
        Some(trim_chars(&rest))
    } else {
        None
    }
}

impl<'a> Doc<'a> {
    pub fn new(markdown: &'a str, source_path: Option<&'a Path>) -> (d: Self)
        ensures
            d.markdown == markdown,
            d.source_path == source_path,
    {
        Doc { markdown, source_path }
    }

    /// The document's title: the first ATX H1 (`# …`) if there is one, else
    /// the source file's stem. `None` only for an unsaved buffer with no H1.
    pub fn title(&self) -> (r: Option<String>)
        ensures
            match title_of(self.markdown@, self.source_path) {
                Some(t) => r matches Some(s) && s@ == t,
                None => r is None,
            },
    {
        let text = chars_of(self.markdown);
        let ls = split_lines(&text);
        let ghost lv = lines_of(self.markdown@);
        let mut i: usize = 0;
        assert(lv.skip(0) =~= lv);
        while i < ls.len()
            invariant
                i <= ls@.len(),
                crate::lines::views_of(ls@) == lv,
                lv == lines_of(self.markdown@),
                first_h1(lv) == first_h1(lv.skip(i as int)),
            decreases ls@.len() - i,
        {
            assert(lv.skip(i as int)[0] == ls@[i as int]@);
            assert(lv.skip(i as int).drop_first() =~= lv.skip(i + 1));
            match h1_line_rest(&ls[i]) {
                Some(t) => {
                    if t.len() > 0 {
                        return Some(string_of(t.as_slice()));
                    }
                },
                None => {},
            }
            i = i + 1;
        }
        assert(lv.skip(i as int) =~= Seq::<Seq<char>>::empty());
        match self.source_path {
            Some(p) => path_file_stem(p),
            None => None,
        }
    }
}

/// What a target produced when asked to publish.
#[derive(Debug)]
pub enum Outcome {
    /// A live URL — an API target (Notion).
    Url(String),
    /// A file written to disk — a file target (Hugo, HTML).
    Path(PathBuf),
    /// The user finishes the last step by hand: `text` (and the rich `html`
    /// flavour, when there is one) is ready for the clipboard, and `hint`
    /// says what to do with it.
    Clipboard { hint: String, html: Option<String>, text: String },
}

/// `r` hands the clipboard `text` (and the rich `html`) with `hint`.
pub open spec fn is_clipboard(r: Outcome, hint: Seq<char>, html: Option<Seq<char>>, text: Seq<char>) -> bool {
    match r {
        Outcome::Clipboard { hint: h, html: x, text: t } => h@ == hint && t@ == text && match x {
            Some(v) => html == Some(v@),
            None => html is None,
        },
        _ => false,
    }
}

/// A publish destination: a stable id used in config and on the command
/// line, and a label for the picker.
pub trait Target {
    fn id(&self) -> &'static str;

    fn label(&self) -> String;
}

} // verus!
