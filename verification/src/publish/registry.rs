//! Registry: the configuration schema for publishing, and the live list of
//! targets it makes available, in a stable order (Notion, Hugo, HTML,
//! Substack, LinkedIn).

use vstd::prelude::*;
use std::path::PathBuf;
use crate::paths::{joined, pathbuf_of, path_from, join};
use crate::text::{chars_of, string_of, str_eq};

verus! {

#[verifier::external_type_specification]
#[verifier::external_body]
#[verifier::reject_recursive_types(K)]
#[verifier::reject_recursive_types(V)]
pub struct ExTomlMap<K, V>(toml::map::Map<K, V>);

#[verifier::external_type_specification]
#[verifier::external_body]
pub struct ExTomlValue(toml::Value);

#[derive(Debug, Default)]
pub struct NotionConfig {
    pub token: Option<String>,
    pub default_page: Option<String>,
}

#[derive(Debug, Default)]
pub struct HugoConfig {
    /// Where posts go; a leading `~/` means the home directory.
    pub content_dir: String,
    /// Front-matter keys merged under the generated title and date.
    pub front_matter: Option<toml::Table>,
}

#[derive(Debug, Default)]
pub struct HtmlConfig {
    pub out_dir: String,
}

#[derive(Debug, Default)]
pub struct SubstackConfig {}

#[derive(Debug, Default)]
pub struct LinkedinConfig {}

/// The publishing part of `~/.polaris.toml`.
#[derive(Debug, Default)]
pub struct Config {
    pub notion: NotionConfig,
    pub hugo: Option<HugoConfig>,
    pub html: Option<HtmlConfig>,
    pub substack: Option<SubstackConfig>,
    pub linkedin: Option<LinkedinConfig>,
    /// The id of the target to default to, when it is available.
    pub default_target: Option<String>,
}

/// A target the configuration makes available, with what building it
/// takes.
pub enum TargetSpec {
    Notion { token: String, page_id: String },
    Hugo { content_dir: PathBuf, front_matter: toml::Table, force: bool },
    Html { out_dir: PathBuf },
    Substack,
    Linkedin,
}

/// A target spec as values; the Hugo target's front-matter table is
/// stated apart, by `carries_front_matter`.
pub enum TargetV {
    Notion { token: Seq<char>, page_id: Seq<char> },
    Hugo { content_dir: PathBuf, force: bool },
    Html { out_dir: PathBuf },
    Substack,
    Linkedin,
}

impl View for TargetSpec {
    type V = TargetV;

    open spec fn view(&self) -> TargetV {
        match self {
            TargetSpec::Notion { token, page_id } => TargetV::Notion { token: token@, page_id: page_id@ },
            TargetSpec::Hugo { content_dir, force, .. } => TargetV::Hugo { content_dir: *content_dir, force: *force },
            TargetSpec::Html { out_dir } => TargetV::Html { out_dir: *out_dir },
            TargetSpec::Substack => TargetV::Substack,
            TargetSpec::Linkedin => TargetV::Linkedin,
        }
    }
}

pub open spec fn target_id(t: TargetV) -> Seq<char> {
    match t {
        TargetV::Notion { .. } => "notion"@,
        TargetV::Hugo { .. } => "hugo"@,
        TargetV::Html { .. } => "html"@,
        TargetV::Substack => "substack"@,
        TargetV::Linkedin => "linkedin"@,
    }
}

impl TargetSpec {
    /// Stable id used in config and on the CLI.
    pub fn id(&self) -> (r: &'static str)
        ensures
            r@ == target_id(self@),
    {
        match self {
            TargetSpec::Notion { .. } => "notion",
            TargetSpec::Hugo { .. } => "hugo",
            TargetSpec::Html { .. } => "html",
            TargetSpec::Substack => "substack",
            TargetSpec::Linkedin => "linkedin",
        }
    }
}

/// `path` with a leading `~/` resolved against `home` (when known).
pub open spec fn expanded(path: Seq<char>, home: Option<PathBuf>) -> PathBuf {
    if path.len() >= 2 && path[0] == '~' && path[1] == '/' && home is Some {
        joined(home->0, path.skip(2))
    } else {
        pathbuf_of(path)
    }
}

/// The home directory, as the `dirs` crate finds it; it depends on the
/// environment, so nothing is stated of it.
#[verifier::external_body]
fn home_dir() -> (r: Option<PathBuf>) {
    dirs::home_dir()
}

/// The keys a TOML table holds.
pub uninterp spec fn table_keys(t: toml::Table) -> Set<Seq<char>>;

/// `toml::map::Map::clone` on a table: a copy of the same entries (the
/// map inside is cloned entry by entry), so the copy is the same value.
#[verifier::external_body]
fn clone_table(t: &toml::Table) -> (r: toml::Table)
    ensures
        r == *t,
{
    t.clone()
}

/// `toml::map::Map::new`: a table with no entries.
#[verifier::external_body]
fn empty_table() -> (r: toml::Table)
    ensures
        table_keys(r) == Set::<Seq<char>>::empty(),
{
    toml::Table::new()
}

/// The table a Hugo target got is the configured one, or, when none is
/// configured, a table with no keys.
pub open spec fn front_matter_from(configured: Option<toml::Table>, got: toml::Table) -> bool {
    match configured {
        Some(t) => got == t,
        None => table_keys(got) == Set::<Seq<char>>::empty(),
    }
}

/// The front-matter defaults a Hugo target starts from: the configured
/// table, else an empty one.
fn front_matter_or_empty(t: &Option<toml::Table>) -> (r: toml::Table)
    ensures
        front_matter_from(*t, r),
{
    match t {
        Some(table) => clone_table(table),
        None => empty_table(),
    }
}

/// Every Hugo target in `ts` carries the front-matter defaults that `c`
/// configures (an empty table when it configures none).
pub open spec fn carries_front_matter(c: Config, ts: Seq<TargetSpec>) -> bool {
    forall|i: int|
        #![trigger ts[i]]
        0 <= i < ts.len() && ts[i] is Hugo ==> c.hugo is Some && front_matter_from(
            c.hugo->0.front_matter,
            ts[i]->front_matter,
        )
}

/// `path` with a leading `~/` resolved against `home`.
pub fn expand_tilde_with(path: &str, home: &Option<PathBuf>) -> (r: PathBuf)
    ensures
        r == expanded(path@, *home),
{
    let cs = chars_of(path);
    if cs.len() >= 2 && cs[0] == '~' && cs[1] == '/' {
        match home {
            Some(h) => {
                let rest = crate::lines::skip_chars(&cs, 2);
                let rs = string_of(rest.as_slice());
                return join(h, rs.as_str());
            },
            None => {},
        }
    }
    path_from(path)
}

/// The targets `c` offers when the home directory is `home`, in order.
pub open spec fn available_spec(c: Config, hugo_force: bool, home: Option<PathBuf>) -> Seq<TargetV> {
    let notion: Seq<TargetV> = match (c.notion.token, c.notion.default_page) {
        (Some(token), Some(page)) => seq![TargetV::Notion { token: token@, page_id: page@ }],
        _ => Seq::empty(),
    };
    let hugo: Seq<TargetV> = match c.hugo {
        Some(h) => seq![TargetV::Hugo { content_dir: expanded(h.content_dir@, home), force: hugo_force }],
        None => Seq::empty(),
    };
    let html: Seq<TargetV> = match c.html {
        Some(h) => seq![TargetV::Html { out_dir: expanded(h.out_dir@, home) }],
        None => Seq::empty(),
    };
    let substack: Seq<TargetV> = if c.substack is Some {
        seq![TargetV::Substack]
    } else {
        Seq::empty()
    };
    let linkedin: Seq<TargetV> = if c.linkedin is Some {
        seq![TargetV::Linkedin]
    } else {
        Seq::empty()
    };
    notion + hugo + html + substack + linkedin
}

pub open spec fn target_views(ts: Seq<TargetSpec>) -> Seq<TargetV> {
    ts.map_values(|t: TargetSpec| t@)
}

fn clone_str(s: &String) -> (r: String)
    ensures
        r@ == s@,
{
    s.clone()
}

/// Every target `config` makes available given the home directory `home`,
/// in a stable order (Notion, Hugo, HTML, Substack, LinkedIn). `hugo_force`
/// overwrites an existing Hugo file; it is inert for other targets.
pub fn available_with(config: &Config, hugo_force: bool, home: &Option<PathBuf>) -> (r: Vec<TargetSpec>)
    ensures
        target_views(r@) == available_spec(*config, hugo_force, *home),
        carries_front_matter(*config, r@),
{
    let mut targets: Vec<TargetSpec> = Vec::new();
    let ghost c = *config;
    match (&config.notion.token, &config.notion.default_page) {
        (Some(token), Some(page)) => {
            targets.push(TargetSpec::Notion { token: clone_str(token), page_id: clone_str(page) });
        },
        _ => {},
    }
    let ghost s1 = target_views(targets@);
    match &config.hugo {
        Some(hugo) => {
            let dir = expand_tilde_with(hugo.content_dir.as_str(), home);
            let defaults = front_matter_or_empty(&hugo.front_matter);
            targets.push(TargetSpec::Hugo { content_dir: dir, front_matter: defaults, force: hugo_force });
        },
        None => {},
    }
    let ghost s2 = target_views(targets@);
    match &config.html {
        Some(html) => {
            let dir = expand_tilde_with(html.out_dir.as_str(), home);
            targets.push(TargetSpec::Html { out_dir: dir });
        },
        None => {},
    }
    let ghost s3 = target_views(targets@);
    if config.substack.is_some() {
        targets.push(TargetSpec::Substack);
    }
    let ghost s4 = target_views(targets@);
    if config.linkedin.is_some() {
        targets.push(TargetSpec::Linkedin);
    }
    proof {
        let a = available_spec(c, hugo_force, *home);
        assert(target_views(targets@) =~= a);
        assert(carries_front_matter(c, targets@));
    }
    targets
}

/// Every target `config` makes available, in a stable order; a leading
/// `~/` in a configured directory is resolved against the home directory,
/// whatever it turns out to be.
pub fn available(config: &Config, hugo_force: bool) -> (r: Vec<TargetSpec>)
    ensures
        exists|home: Option<PathBuf>| target_views(r@) == available_spec(*config, hugo_force, home),
        carries_front_matter(*config, r@),
{
    let home = home_dir();
    available_with(config, hugo_force, &home)
}

/// The id the default target has: the configured one when some target
/// has it, else the first target's, else none.
pub open spec fn default_id_spec(want: Option<Seq<char>>, ts: Seq<TargetV>) -> Option<Seq<char>> {
    let first = if ts.len() > 0 {
        Some(target_id(ts[0]))
    } else {
        None
    };
    match want {
        Some(w) => if exists|i: int| 0 <= i < ts.len() && target_id(#[trigger] ts[i]) == w {
            Some(w)
        } else {
            first
        },
        None => first,
    }
}

pub open spec fn opt_string_view(o: Option<String>) -> Option<Seq<char>> {
    match o {
        Some(s) => Some(s@),
        None => None,
    }
}

/// The id of the target publishing should default to, given the available
/// list: the configured `default_target` if it is available, else the first
/// available, else `None` (nothing configured).
pub fn default_id(config: &Config, targets: &[TargetSpec]) -> (r: Option<String>)
    ensures
        opt_string_view(r) == default_id_spec(opt_string_view(config.default_target), target_views(targets@)),
{
    let ghost ts = target_views(targets@);
    match &config.default_target {
        Some(want) => {
            let mut i: usize = 0;
            while i < targets.len()
                invariant
                    i <= targets@.len(),
                    ts == target_views(targets@),
                    opt_string_view(config.default_target) == Some(want@),
                    forall|k: int| 0 <= k < i ==> target_id(#[trigger] ts[k]) != want@,
                decreases targets@.len() - i,
            {
                assert(ts[i as int] == targets@[i as int]@);
                if str_eq(targets[i].id(), want.as_str()) {
                    assert(ts.len() == targets@.len());
                    assert(0 <= i < ts.len() && target_id(ts[i as int]) == want@);
                    assert(opt_string_view(config.default_target) == Some(want@));
                    let r = clone_str(want);
                    return Some(r);
                }
                i = i + 1;
            }
        },
        None => {},
    }
    if targets.len() > 0 {
        assert(ts[0] == targets@[0]@);
        let id = targets[0].id();
        let v = chars_of(id);
        Some(string_of(v.as_slice()))
    } else {
        None
    }
}

} // verus!
