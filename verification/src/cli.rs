//! The command line: what `polaris` can be asked to do, and the small
//! decisions behind each command. Parsing the arguments is the front-end's.

use vstd::prelude::*;
use std::path::PathBuf;
use crate::publish::registry::NotionConfig;
use crate::text::{chars_of, string_of};

verus! {

/// `polaris [FILE]` or `polaris <COMMAND>`.
#[derive(Debug)]
pub struct Cli {
    pub command: Option<Commands>,
    /// File to open.
    pub file: Option<PathBuf>,
}

#[derive(Debug)]
pub enum Commands {
    /// Create a new markdown file.
    New { filename: String },
    /// Deploy a markdown file to Notion: a page id (overriding the
    /// configured default) and a mode, `append` or `replace`.
    Deploy { file: PathBuf, page: Option<String>, mode: String },
    /// Configure the Notion integration.
    Config { token: Option<String>, default_page: Option<String> },
}

/// Why a deploy cannot start.
pub open spec fn no_page_message() -> Seq<char> {
    "No Notion page ID specified. Use --page or configure default in ~/.polaris.toml"@
}

/// The page a deploy goes to: the one given, else the configured default.
pub fn page_for_deploy(page: Option<String>, default_page: &Option<String>) -> (r: Result<String, String>)
    ensures
        match page {
            Some(p) => r matches Ok(s) && s@ == p@,
            None => match default_page {
                Some(d) => r matches Ok(s) && s@ == d@,
                None => r matches Err(m) && m@ == no_page_message(),
            },
        },
{
    match page {
        Some(p) => Ok(p),
        None => match default_page {
            Some(d) => Ok(d.clone()),
            None => {
                let v = chars_of("No Notion page ID specified. Use --page or configure default in ~/.polaris.toml");
                Err(string_of(v.as_slice()))
            },
        },
    }
}

/// `polaris config`: each setting given replaces the stored one; the others
/// stay.
pub fn apply_config(notion: &mut NotionConfig, token: Option<String>, default_page: Option<String>)
    ensures
        final(notion).token == (match token {
            Some(t) => Some(t),
            None => old(notion).token,
        }),
        final(notion).default_page == (match default_page {
            Some(p) => Some(p),
            None => old(notion).default_page,
        }),
{
    if let Some(t) = token {
        notion.token = Some(t);
    }
    if let Some(p) = default_page {
        notion.default_page = Some(p);
    }
}

} // verus!
