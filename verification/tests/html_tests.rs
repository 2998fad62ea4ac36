use mdbook_applehelp::config::{AppleHelpConfig, IndexFormat, IndexOverride};
use mdbook_applehelp::html::{
    escape, is_external, markdown_to_html_fragment, render_page, rewrite_link, split_fragment,
    PageMeta,
};

fn fragment(md: &str) -> String {
    markdown_to_html_fragment(md)
}

#[test]
fn rewrites_relative_md_links_to_html() {
    let out = fragment("[next](./next.md)");
    assert!(out.contains(r#"href="./next.html""#), "got: {out}");
    assert!(!out.contains("./next.md"), "stale URL leaked: {out}");
}

#[test]
fn rewrites_parent_relative_md_links() {
    let out = fragment("[back](../intro.md)");
    assert!(out.contains(r#"href="../intro.html""#), "got: {out}");
    assert!(!out.contains("../intro.md"), "stale URL leaked: {out}");
}

#[test]
fn preserves_fragment_when_rewriting() {
    let out = fragment("[anchored](./page.md#section-2)");
    assert!(out.contains(r#"href="./page.html#section-2""#), "got: {out}");
    assert!(!out.contains("./page.md"), "stale URL leaked: {out}");
}

#[test]
fn rewrites_markdown_extension_too() {
    let out = fragment("[x](./readme.markdown)");
    assert!(out.contains(r#"href="./readme.html""#), "got: {out}");
    assert!(!out.contains("./readme.markdown"), "stale URL leaked: {out}");
}

#[test]
fn passes_through_external_https() {
    let out = fragment("[ext](https://example.com/page.md)");
    assert!(out.contains(r#"href="https://example.com/page.md""#), "got: {out}");
}

#[test]
fn passes_through_mailto() {
    let out = fragment("[mail](mailto:foo@bar.test)");
    assert!(out.contains(r#"href="mailto:foo@bar.test""#), "got: {out}");
}

#[test]
fn passes_through_absolute_path() {
    let out = fragment("[abs](/absolute/page.md)");
    assert!(out.contains(r#"href="/absolute/page.md""#), "got: {out}");
}

#[test]
fn passes_through_fragment_only() {
    let out = fragment("[here](#section)");
    assert!(out.contains(r##"href="#section""##), "got: {out}");
}

#[test]
fn passes_through_autolink_url() {
    let out = fragment("<https://example.com>");
    assert!(out.contains(r#"href="https://example.com""#), "got: {out}");
}

#[test]
fn rewrites_image_src() {
    let out = fragment("![cover](./cover.md)");
    assert!(out.contains(r#"src="./cover.html""#), "got: {out}");
    assert!(!out.contains("./cover.md"), "stale URL leaked: {out}");
}

#[test]
fn leaves_non_md_extension_alone() {
    let out = fragment("[img](./pic.png)");
    assert!(out.contains(r#"href="./pic.png""#), "got: {out}");
}

#[test]
fn is_external_detects_schemes_paths_and_fragments() {
    assert!(is_external("https://example.com"));
    assert!(is_external("mailto:x@y.test"));
    assert!(is_external("#frag"));
    assert!(is_external("/abs/page.md"));
    assert!(!is_external("./rel.md"));
    assert!(!is_external("rel.md"));
    assert!(!is_external("a/b.md"));
}

#[test]
fn split_fragment_separates_path_and_anchor() {
    assert_eq!(split_fragment("a.md"), ("a.md", None));
    assert_eq!(split_fragment("a.md#b"), ("a.md", Some("b")));
    assert_eq!(split_fragment("a.md#b#c"), ("a.md", Some("b#c")));
}

fn test_cfg() -> AppleHelpConfig {
    AppleHelpConfig {
        help_book_name: "com.test.help".into(),
        help_book_folder: "TestHelp".into(),
        title: "Test Book".into(),
        description: "A description".into(),
        language: "en".into(),
        authors: vec!["Author One".into(), "Author Two".into()],
        index_format: IndexFormat::Both,
        generate_index: true,
        landing_page: None,
        icon_file: Some("Shared/icon.png".into()),
        external_url: None,
        access_key: None,
        version: "1".into(),
        index_override: IndexOverride::NoOverride,
    }
}

#[test]
fn render_page_includes_required_meta() {
    let cfg = test_cfg();
    let meta = PageMeta {
        title: "Intro",
        apple_title: "Test Book",
        language: "en",
        stylesheet_relative: "../Shared/style.css",
        anchor: Some("intro"),
    };
    let out = render_page("<p>hi</p>", &meta, &cfg);

    assert!(out.contains(r#"<html lang="en">"#), "lang: {out}");
    assert!(
        out.contains(r#"<meta name="AppleTitle" content="Test Book">"#),
        "AppleTitle: {out}"
    );
    assert!(
        out.contains(r#"<meta name="AppleIcon" content="Shared/icon.png">"#),
        "AppleIcon: {out}"
    );
    assert!(
        out.contains(r#"<meta name="description" content="A description">"#),
        "description: {out}"
    );
    assert!(
        out.contains(r#"<meta name="author" content="Author One, Author Two">"#),
        "author: {out}"
    );
    assert!(out.contains("<title>Intro</title>"), "title: {out}");
    assert!(
        out.contains(r#"<link rel="stylesheet" href="../Shared/style.css">"#),
        "stylesheet: {out}"
    );
    assert!(out.contains(r#"<a name="intro">"#), "anchor: {out}");
    assert!(out.contains("<p>hi</p>"), "body: {out}");
}

#[test]
fn render_page_omits_apple_icon_when_not_configured() {
    let mut cfg = test_cfg();
    cfg.icon_file = None;
    let meta = PageMeta {
        title: "T",
        apple_title: "T",
        language: "en",
        stylesheet_relative: "../Shared/style.css",
        anchor: Some("x"),
    };
    let out = render_page("x", &meta, &cfg);
    assert!(!out.contains("AppleIcon"), "should omit AppleIcon: {out}");
}

#[test]
fn render_page_omits_anchor_when_none() {
    let cfg = test_cfg();
    let meta = PageMeta {
        title: "T",
        apple_title: "T",
        language: "en",
        stylesheet_relative: "../Shared/style.css",
        anchor: None,
    };
    let out = render_page("x", &meta, &cfg);
    assert!(!out.contains("<a name="), "should omit anchor: {out}");
}

#[test]
fn render_page_escapes_special_chars_in_meta() {
    let mut cfg = test_cfg();
    cfg.description = "<dangerous & \"quoted\">".into();
    let meta = PageMeta {
        title: "T",
        apple_title: "T",
        language: "en",
        stylesheet_relative: "../Shared/style.css",
        anchor: None,
    };
    let out = render_page("x", &meta, &cfg);
    assert!(out.contains("&lt;dangerous &amp;"), "escape: {out}");
    assert!(out.contains("&quot;quoted&quot;"), "escape quote: {out}");
    assert!(!out.contains("<dangerous"), "raw <: {out}");
}

#[test]
fn render_page_exact_document() {
    let mut cfg = test_cfg();
    cfg.icon_file = None;
    cfg.description = String::new();
    cfg.authors = vec![];
    let meta = PageMeta {
        title: "T",
        apple_title: "A",
        language: "de",
        stylesheet_relative: "s.css",
        anchor: Some("a/b"),
    };
    let out = render_page("<p>x</p>", &meta, &cfg);
    assert_eq!(
        out,
        "<!DOCTYPE html>\n<html lang=\"de\">\n<head>\n    <meta http-equiv=\"Content-Type\" content=\"text/html; charset=utf-8\">\n    <meta name=\"AppleTitle\" content=\"A\">\n    <title>T</title>\n    <link rel=\"stylesheet\" href=\"s.css\">\n</head>\n<body>\n<a name=\"a/b\"></a>\n<article class=\"chapter\">\n<p>x</p>\n</article>\n</body>\n</html>\n"
    );
}

#[test]
fn escape_replaces_every_markup_character() {
    assert_eq!(escape("a&b<c>d\"e'f"), "a&amp;b&lt;c&gt;d&quot;e&#39;f");
    assert_eq!(escape(""), "");
    assert_eq!(escape("plain é"), "plain é");
}

#[test]
fn rewrite_link_cases() {
    assert_eq!(rewrite_link("a/b.md", false), "a/b.html");
    assert_eq!(rewrite_link("a/b.md#x", false), "a/b.html#x");
    assert_eq!(rewrite_link("b.markdown#x#y", false), "b.html#x#y");
    assert_eq!(rewrite_link("b.md", true), "b.md");
    assert_eq!(rewrite_link("https://x/b.md", false), "https://x/b.md");
    assert_eq!(rewrite_link("b.txt", false), "b.txt");
    assert_eq!(rewrite_link(".md", false), ".html");
    assert_eq!(rewrite_link("x.md#a:b", false), "x.html#a:b");
}

#[test]
fn rewrite_link_twice_is_rewrite_once() {
    for url in ["a/b.md", "a/b.md#x", "c.markdown", "x.md#a:b", "/abs.md", "q.png"] {
        let once = rewrite_link(url, false);
        assert_eq!(rewrite_link(&once, false), once, "for {url}");
    }
}

#[test]
fn split_fragment_rejoins_to_the_url() {
    for url in ["a.md", "a.md#b", "#b", "a#", "x#y#z"] {
        let (p, f) = split_fragment(url);
        assert!(!p.contains('#'));
        match f {
            Some(f) => assert_eq!(format!("{p}#{f}"), url),
            None => assert_eq!(p, url),
        }
    }
}

#[test]
fn is_external_scheme_edges() {
    assert!(!is_external(":x"));
    assert!(!is_external("a b:c"));
    assert!(is_external("svn+ssh:x"));
    assert!(!is_external(""));
    assert!(!is_external("a#b:c"));
}

#[test]
fn markdown_renders_heading_and_leaves_text() {
    let out = fragment("# Cover\n\nplain [r](ref.md \"t\")");
    assert!(out.contains("<h1>Cover</h1>"), "got: {out}");
    assert!(out.contains(r#"href="ref.html""#), "got: {out}");
    assert!(out.contains(r#"title="t""#), "got: {out}");
}

/// Decodes the five entities that `escape` writes, left to right.
fn decode_entities(s: &str) -> String {
    let mut out = String::new();
    let mut rest = s;
    while !rest.is_empty() {
        let mut matched = false;
        for (entity, ch) in [("&amp;", '&'), ("&lt;", '<'), ("&gt;", '>'), ("&quot;", '"'), ("&#39;", '\'')] {
            if let Some(after) = rest.strip_prefix(entity) {
                out.push(ch);
                rest = after;
                matched = true;
                break;
            }
        }
        if !matched {
            let ch = rest.chars().next().unwrap();
            out.push(ch);
            rest = &rest[ch.len_utf8()..];
        }
    }
    out
}

#[test]
fn escape_decodes_back_to_its_input() {
    for s in ["", "a&b<c>d\"e'f", "&amp; already", "&lt;&&lt;", "plain é", "'\"<>&"] {
        assert_eq!(decode_entities(&escape(s)), s, "for {s:?}");
    }
}

#[test]
fn escape_of_a_concatenation_is_the_concatenation_of_escapes() {
    let (a, b) = ("x<y &", "amp; \"z\"");
    assert_eq!(escape(&format!("{a}{b}")), format!("{}{}", escape(a), escape(b)));
    assert_eq!(escape(&format!("{a}{b}")), "x&lt;y &amp;amp; &quot;z&quot;");
}

#[test]
fn escape_keeps_exactly_the_text_without_special_characters() {
    assert_eq!(escape("Chapter 1: intro/overview"), "Chapter 1: intro/overview");
    for s in ["a&b", "a<b", "a>b", "a\"b", "a'b"] {
        assert_ne!(escape(s), s, "for {s:?}");
    }
}

#[test]
fn image_and_link_kinds_decide_rewriting_in_rendered_markdown() {
    let out = fragment("[a](x.md) ![b](y.markdown) <https://e.com/z.md>");
    assert!(out.contains("href=\"x.html\""), "{out}");
    assert!(out.contains("src=\"y.html\""), "{out}");
    assert!(out.contains("href=\"https://e.com/z.md\""), "{out}");
}
