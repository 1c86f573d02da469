use polaris::publish::html::{body_html, escape, standalone_html, Fonts, HtmlTarget};
use polaris::publish::hugo::{hugo_contents, hugo_file_name, slug, strip_leading_title};
use polaris::publish::linkedin::{sans_bold, to_linkedin, LinkedinTarget};
use polaris::publish::registry::{
    available, available_with, default_id, expand_tilde_with, Config, HtmlConfig, HugoConfig,
    LinkedinConfig, NotionConfig, SubstackConfig, TargetSpec,
};
use polaris::publish::substack::SubstackTarget;
use polaris::publish::{Doc, Outcome, Target};
use std::path::{Path, PathBuf};

// --- Doc::title ---

#[test]
fn title_prefers_the_first_h1() {
    let md = "some intro line\n\n# The Real Title\n\nbody\n\n# Later Heading";
    let doc = Doc::new(md, None);
    assert_eq!(doc.title().as_deref(), Some("The Real Title"));
}

#[test]
fn title_falls_back_to_the_file_stem() {
    let path = PathBuf::from("/tmp/my-post.md");
    let doc = Doc::new("no heading here\n", Some(path.as_path()));
    assert_eq!(doc.title().as_deref(), Some("my-post"));
}

#[test]
fn title_is_none_for_an_unsaved_headingless_buffer() {
    assert_eq!(Doc::new("just prose\n", None).title(), None);
}

#[test]
fn a_bare_hash_is_not_a_title() {
    // "#" without a space, and an empty "# " both fail CommonMark's H1.
    let doc = Doc::new("#nope\n# \n# yes\n", None);
    assert_eq!(doc.title().as_deref(), Some("yes"));
}

#[test]
fn title_trims_and_allows_leading_whitespace() {
    let doc = Doc::new("   #   Spaced Out  \r\nrest", None);
    assert_eq!(doc.title().as_deref(), Some("Spaced Out"));
    let doc = Doc::new("", Some(Path::new("notes/draft.final.md")));
    assert_eq!(doc.title().as_deref(), Some("draft.final"));
}

// --- hugo ---

#[test]
fn slugs_lowercase_and_hyphenate() {
    assert_eq!(slug("The Post Title"), "the-post-title");
    assert_eq!(slug("Write Once, Publish Anywhere!"), "write-once-publish-anywhere");
    assert_eq!(slug("  spaced  out  "), "spaced-out");
    assert_eq!(slug("café résumé"), "café-résumé");
    assert_eq!(slug("---"), "untitled");
}

#[test]
fn slug_edge_cases() {
    assert_eq!(slug(""), "untitled");
    assert_eq!(slug("ÀB 42"), "àb-42");
    assert_eq!(slug("a--b"), "a-b");
}

#[test]
fn strip_leading_title_only_touches_the_matching_leading_h1() {
    // Leading title (with a blank line before it) is removed.
    assert_eq!(strip_leading_title("\n# Title\n\nbody\n", "Title"), "body\n");
    // A non-matching heading stays.
    assert_eq!(strip_leading_title("# Other\n\nbody\n", "Title"), "# Other\n\nbody\n");
    // An H1 that isn't the leading line stays (title came from elsewhere).
    assert_eq!(strip_leading_title("intro\n\n# Title\n", "Title"), "intro\n\n# Title\n");
}

#[test]
fn strip_leading_title_of_a_title_only_document_is_empty() {
    assert_eq!(strip_leading_title("# Title\n", "Title"), "");
    assert_eq!(strip_leading_title("# Title\n\n\nnext", "Title"), "\nnext\n");
}

#[test]
fn hugo_file_name_and_contents() {
    assert_eq!(hugo_file_name("My First Post"), "my-first-post.md");
    let c = hugo_contents("+++\ntitle = \"T\"\n+++\n", "# T\n\nHello.\n", "T");
    assert_eq!(c, "+++\ntitle = \"T\"\n+++\n\nHello.\n");
}

// --- html ---

const TTF: &[u8] = b"\x00\x01\x00\x00fake-ttf";

fn fonts() -> Fonts<'static> {
    Fonts {
        newsreader_regular: TTF,
        newsreader_italic: TTF,
        newsreader_semibold: TTF,
        mono_regular: TTF,
    }
}

#[test]
fn body_html_renders_markdown() {
    let html = body_html("# Title\n\nA *word* and a [link](https://x.io).\n");
    assert!(html.contains("<h1>Title</h1>"));
    assert!(html.contains("<em>word</em>"));
    assert!(html.contains("href=\"https://x.io\""));
}

#[test]
fn standalone_is_self_contained_and_escapes_the_title() {
    let out = standalone_html("A < B & C", "# Hi\n\nbody\n", &fonts());
    assert!(out.starts_with("<!doctype html>"));
    assert!(out.contains("@font-face"));
    assert!(out.contains("data:font/ttf;base64,"));
    assert!(out.contains("<title>A &lt; B &amp; C</title>"));
    assert!(out.contains("<h1>Hi</h1>"));
}

#[test]
fn escape_maps_each_special_char() {
    assert_eq!(escape("a<b>&c"), "a&lt;b&gt;&amp;c");
    assert_eq!(escape("&amp;"), "&amp;amp;");
    assert_eq!(escape("plain"), "plain");
}

#[test]
fn fonts_are_inlined_as_base64() {
    let out = standalone_html("t", "", &fonts());
    // b"\x00\x01\x00\x00fake-ttf" in standard base64.
    assert!(out.contains("base64,AAEAAGZha2UtdHRm) format('truetype');}"));
    assert_eq!(out.matches("@font-face").count(), 4);
    assert!(out.ends_with("</main>\n</body>\n</html>\n"));
}

#[test]
fn html_target_names_its_file_by_the_slug() {
    let target = HtmlTarget::new(PathBuf::from("/exports"), fonts());
    let (path, contents) = target.output(&Doc::new("# My Post\n\nhi\n", None));
    assert_eq!(path, PathBuf::from("/exports/my-post.html"));
    assert!(contents.contains("<h1>My Post</h1>"));
    assert!(contents.contains("<title>My Post</title>"));
    let (path, _) = target.output(&Doc::new("no title", None));
    assert_eq!(path, PathBuf::from("/exports/untitled.html"));
    assert_eq!(target.id(), "html");
    assert_eq!(target.label(), "HTML");
}

// --- clipboard targets ---

#[test]
fn bold_becomes_sans_serif_bold() {
    let out = to_linkedin("A **bold** word.");
    assert!(out.contains('\u{1D5EF}'), "expected sans-bold 'b'");
    assert!(out.contains("A "));
    assert!(out.contains(" word."));
}

#[test]
fn headings_bold_and_lists_bullet() {
    let out = to_linkedin("# Title\n\n- one\n- two\n");
    assert!(out.starts_with('\u{1D5E7}'), "heading 'T' is sans-bold");
    assert!(out.contains("• one"));
    assert!(out.contains("• two"));
}

#[test]
fn links_read_as_text_then_url() {
    let out = to_linkedin("See [my site](https://x.io).");
    assert!(out.contains("my site (https://x.io)"));
}

#[test]
fn blank_line_runs_collapse() {
    let out = to_linkedin("one\n\npara two\n");
    assert!(!out.contains("\n\n\n"));
    assert!(out.contains("one"));
    assert!(out.contains("para two"));
}

#[test]
fn sans_bold_maps_letters_and_digits_only() {
    assert_eq!(sans_bold('A'), '\u{1D5D4}');
    assert_eq!(sans_bold('z'), '\u{1D607}');
    assert_eq!(sans_bold('9'), '\u{1D7F5}');
    assert_eq!(sans_bold('é'), 'é');
    assert_eq!(sans_bold('!'), '!');
}

#[test]
fn linkedin_exact_output() {
    assert_eq!(to_linkedin("Hi **AB**\n\n---\n\nend"), "Hi \u{1D5D4}\u{1D5D5}\n\n—\n\nend");
}

#[test]
fn clipboard_targets_hand_over_their_text() {
    let doc = Doc::new("# T\n\n**x**", None);
    match SubstackTarget.outcome(&doc) {
        Outcome::Clipboard { hint, html, text } => {
            assert_eq!(hint, "paste into a new Substack post");
            assert!(html.unwrap().contains("<strong>x</strong>"));
            assert_eq!(text, "# T\n\n**x**");
        }
        _ => panic!("expected a clipboard outcome"),
    }
    match LinkedinTarget.outcome(&doc) {
        Outcome::Clipboard { hint, html, text } => {
            assert_eq!(hint, "paste into a new LinkedIn post");
            assert!(html.is_none());
            assert_eq!(text, "\u{1D5E7}\n\n\u{1D605}");
        }
        _ => panic!("expected a clipboard outcome"),
    }
    assert_eq!(SubstackTarget.id(), "substack");
    assert_eq!(LinkedinTarget.label(), "LinkedIn");
}

// --- registry ---

fn cfg(notion: bool, hugo: bool, default_target: Option<&str>) -> Config {
    Config {
        notion: if notion {
            NotionConfig {
                token: Some("secret".into()),
                default_page: Some("abc123".into()),
            }
        } else {
            NotionConfig::default()
        },
        hugo: if hugo {
            Some(HugoConfig {
                content_dir: "~/site/content".into(),
                front_matter: None,
            })
        } else {
            None
        },
        default_target: default_target.map(String::from),
        ..Config::default()
    }
}

#[test]
fn only_configured_targets_are_offered() {
    assert!(available(&cfg(false, false, None), false).is_empty());
    let ids: Vec<_> = available(&cfg(true, true, None), false)
        .iter()
        .map(|t| t.id())
        .collect();
    assert_eq!(ids, vec!["notion", "hugo"]);
}

#[test]
fn clipboard_and_html_targets_are_offered_in_order() {
    let config = Config {
        hugo: Some(HugoConfig {
            content_dir: "~/site".into(),
            front_matter: None,
        }),
        html: Some(HtmlConfig {
            out_dir: "~/exports".into(),
        }),
        substack: Some(SubstackConfig {}),
        linkedin: Some(LinkedinConfig {}),
        ..Config::default()
    };
    let ids: Vec<_> = available(&config, false).iter().map(|t| t.id()).collect();
    assert_eq!(ids, vec!["hugo", "html", "substack", "linkedin"]);
}

#[test]
fn default_id_honours_config_then_falls_back_to_first() {
    let both = cfg(true, true, Some("hugo"));
    let targets = available(&both, false);
    assert_eq!(default_id(&both, &targets).as_deref(), Some("hugo"));

    // Unavailable default falls back to the first available target.
    let stale = cfg(true, false, Some("hugo"));
    let targets = available(&stale, false);
    assert_eq!(default_id(&stale, &targets).as_deref(), Some("notion"));

    // Nothing configured → no default.
    let empty = cfg(false, false, None);
    let targets = available(&empty, false);
    assert_eq!(default_id(&empty, &targets), None);
}

#[test]
fn tilde_expands_against_home_and_targets_carry_their_settings() {
    let home = Some(PathBuf::from("/home/w"));
    assert_eq!(expand_tilde_with("~/site", &home), PathBuf::from("/home/w/site"));
    assert_eq!(expand_tilde_with("~/site", &None), PathBuf::from("~/site"));
    assert_eq!(expand_tilde_with("/abs/~/x", &home), PathBuf::from("/abs/~/x"));
    let targets = available_with(&cfg(true, true, None), true, &home);
    match &targets[0] {
        TargetSpec::Notion { token, page_id } => {
            assert_eq!(token, "secret");
            assert_eq!(page_id, "abc123");
        }
        _ => panic!("expected notion first"),
    }
    match &targets[1] {
        TargetSpec::Hugo { content_dir, force, .. } => {
            assert_eq!(content_dir, &PathBuf::from("/home/w/site/content"));
            assert!(*force);
        }
        _ => panic!("expected hugo second"),
    }
}

#[test]
fn a_file_name_title_drops_nothing_from_the_body() {
    let path = PathBuf::from("/tmp/my-post.md");
    let md = "no heading here\n\n#not one\n#  \n";
    let doc = Doc::new(md, Some(&path));
    let title = doc.title().unwrap();
    assert_eq!(title, "my-post");
    assert_eq!(strip_leading_title(md, &title), md);
}

#[test]
fn hugo_target_carries_the_configured_front_matter() {
    let mut table = toml::Table::new();
    table.insert("draft".to_string(), toml::Value::Boolean(true));
    let config = Config {
        hugo: Some(HugoConfig {
            content_dir: "/site".into(),
            front_matter: Some(table.clone()),
        }),
        ..Config::default()
    };
    let targets = available_with(&config, false, &None);
    match &targets[0] {
        TargetSpec::Hugo { front_matter, .. } => assert_eq!(front_matter, &table),
        _ => panic!("expected the Hugo target"),
    }
    let bare = cfg(false, true, None);
    match &available_with(&bare, false, &None)[0] {
        TargetSpec::Hugo { front_matter, .. } => assert!(front_matter.is_empty()),
        _ => panic!("expected the Hugo target"),
    }
}

#[test]
fn ascii_slugs_are_lowercase_words_joined_by_single_dashes() {
    for title in ["--Hello,  World!--", "A_B c", "2026: a (year)", "!!!", ""] {
        let s = slug(title);
        assert!(!s.is_empty());
        assert!(s.chars().all(|c| c.is_ascii_lowercase() || c.is_ascii_digit() || c == '-'));
        assert!(!s.starts_with('-') && !s.ends_with('-'));
        assert!(!s.contains("--"));
    }
    assert_eq!(slug("--Hello,  World!--"), "hello-world");
}
