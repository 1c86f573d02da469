//! Substack — format-and-paste. There is no official publishing API, so the
//! markdown is rendered to HTML and handed to the clipboard as a rich paste
//! (the markdown itself is the plain fallback); the writer pastes into a new
//! post and presses publish.

use vstd::prelude::*;
use crate::text::{string_of, chars_of};
use crate::publish::{Doc, Outcome, Target, is_clipboard};
use crate::publish::html::{body_html, commonmark_html};

verus! {

pub struct SubstackTarget;

impl SubstackTarget {
    /// What publishing `doc` hands the writer: the rendered body as the rich
    /// flavour, the markdown as the plain one.
    pub fn outcome(&self, doc: &Doc) -> (r: Outcome)
        ensures
            is_clipboard(
                r,
                "paste into a new Substack post"@,
                Some(commonmark_html(doc.markdown@, true, true)),
                doc.markdown@,
            ),
    {
        let hint = chars_of("paste into a new Substack post");
        let text = chars_of(doc.markdown);
        Outcome::Clipboard {
            hint: string_of(hint.as_slice()),
            html: Some(body_html(doc.markdown)),
            text: string_of(text.as_slice()),
        }
    }
}

impl Target for SubstackTarget {
    fn id(&self) -> (r: &'static str)
        ensures
            r@ == "substack"@,
    {
        "substack"
    }

    fn label(&self) -> (r: String)
        ensures
            r@ == "Substack"@,
    {
        let v = chars_of("Substack");
        string_of(v.as_slice())
    }
}

} // verus!
