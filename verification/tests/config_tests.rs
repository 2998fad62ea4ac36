use std::str::FromStr;

use mdbook_applehelp::config::{
    AppleHelpConfig, BookMeta, ConfigError, IndexFormat, IndexOverride, RawConfig,
};
use mdbook_renderer::config::Config;

fn config_from_toml(toml: &str) -> Config {
    Config::from_str(toml).expect("parse config")
}

/// Reads the `[output.applehelp]` keys and the `[book]` metadata of a
/// parsed `book.toml`, and resolves them with the library.
fn resolve(config: &Config, index_override: IndexOverride) -> Result<AppleHelpConfig, ConfigError> {
    let text = |key: &str| {
        config.get::<String>(&format!("output.applehelp.{key}")).expect("read key")
    };
    let index_format = match text("index-format") {
        Some(name) => Some(IndexFormat::parse(&name)?),
        None => None,
    };
    let raw = RawConfig {
        help_book_name: text("help-book-name"),
        help_book_folder: text("help-book-folder"),
        title: text("title"),
        description: text("description"),
        language: text("language"),
        authors: config.get::<Vec<String>>("output.applehelp.authors").expect("read authors"),
        generate_index: config.get::<bool>("output.applehelp.generate-index").expect("read flag"),
        index_format,
        landing_page: text("landing-page"),
        icon_file: text("icon-file"),
        external_url: text("external-url"),
        access_key: text("access-key"),
        version: text("version"),
    };
    let book = BookMeta {
        title: config.book.title.clone(),
        description: config.book.description.clone(),
        language: config.book.language.clone(),
        authors: config.book.authors.clone(),
    };
    AppleHelpConfig::from_raw(raw, book, index_override)
}

#[test]
fn errors_when_help_book_name_missing() {
    let config = config_from_toml(
        r#"
[book]
title = "T"
language = "en"

[output.applehelp]
help-book-folder = "TestHelp"
"#,
    );
    let err = resolve(&config, IndexOverride::NoOverride).unwrap_err();
    assert!(err.to_string().contains("help-book-name"), "msg: {err:?}");
}

#[test]
fn errors_when_help_book_folder_missing() {
    let config = config_from_toml(
        r#"
[book]
title = "T"
language = "en"

[output.applehelp]
help-book-name = "com.x.help"
"#,
    );
    let err = resolve(&config, IndexOverride::NoOverride).unwrap_err();
    assert!(err.to_string().contains("help-book-folder"), "msg: {err:?}");
}

#[test]
fn falls_back_to_book_metadata() {
    let config = config_from_toml(
        r#"
[book]
title = "Book Title"
description = "Book Desc"
language = "fr"
authors = ["A", "B"]

[output.applehelp]
help-book-name = "com.x.help"
help-book-folder = "Folder"
"#,
    );
    let cfg = resolve(&config, IndexOverride::NoOverride).unwrap();
    assert_eq!(cfg.title, "Book Title");
    assert_eq!(cfg.description, "Book Desc");
    assert_eq!(cfg.language, "fr");
    assert_eq!(cfg.authors, vec!["A".to_string(), "B".to_string()]);
}

#[test]
fn applehelp_overrides_take_precedence() {
    let config = config_from_toml(
        r#"
[book]
title = "Book Title"
language = "en"
authors = ["BookAuthor"]

[output.applehelp]
help-book-name = "com.x.help"
help-book-folder = "Folder"
title = "Override Title"
language = "de"
authors = ["HelpAuthor"]
description = "Override desc"
"#,
    );
    let cfg = resolve(&config, IndexOverride::NoOverride).unwrap();
    assert_eq!(cfg.title, "Override Title");
    assert_eq!(cfg.language, "de");
    assert_eq!(cfg.authors, vec!["HelpAuthor".to_string()]);
    assert_eq!(cfg.description, "Override desc");
}

#[test]
fn default_index_format_is_both_and_index_on() {
    let config = config_from_toml(
        r#"
[book]
title = "T"
language = "en"

[output.applehelp]
help-book-name = "com.x.help"
help-book-folder = "Folder"
"#,
    );
    let cfg = resolve(&config, IndexOverride::NoOverride).unwrap();
    assert_eq!(cfg.index_format, IndexFormat::Both);
    assert!(cfg.generate_index);
    assert!(cfg.should_generate_index());
}

#[test]
fn parses_index_format_variants() {
    for (s, want) in [
        ("corespotlight", IndexFormat::CoreSpotlight),
        ("lsm", IndexFormat::Lsm),
        ("both", IndexFormat::Both),
    ] {
        let toml = format!(
            r#"
[book]
title = "T"
language = "en"

[output.applehelp]
help-book-name = "com.x.help"
help-book-folder = "Folder"
index-format = "{s}"
"#,
        );
        let config = config_from_toml(&toml);
        let cfg = resolve(&config, IndexOverride::NoOverride).unwrap();
        assert_eq!(cfg.index_format, want, "for {s}");
    }
}

#[test]
fn rejects_unknown_index_format() {
    let config = config_from_toml(
        r#"
[book]
title = "T"
language = "en"

[output.applehelp]
help-book-name = "com.x.help"
help-book-folder = "Folder"
index-format = "bogus"
"#,
    );
    let err = resolve(&config, IndexOverride::NoOverride).unwrap_err();
    let chain = err.to_string();
    assert!(
        chain.contains("bogus") && chain.contains("index-format"),
        "msg: {chain}"
    );
}

#[test]
fn cli_force_run_beats_config_disabled() {
    let config = config_from_toml(
        r#"
[book]
title = "T"
language = "en"

[output.applehelp]
help-book-name = "com.x.help"
help-book-folder = "Folder"
generate-index = false
"#,
    );
    let cfg = resolve(&config, IndexOverride::ForceRun).unwrap();
    assert!(cfg.should_generate_index());
}

#[test]
fn cli_force_skip_beats_config_enabled() {
    let config = config_from_toml(
        r#"
[book]
title = "T"
language = "en"

[output.applehelp]
help-book-name = "com.x.help"
help-book-folder = "Folder"
generate-index = true
"#,
    );
    let cfg = resolve(&config, IndexOverride::ForceSkip).unwrap();
    assert!(!cfg.should_generate_index());
}

#[test]
fn index_filenames_derive_from_title() {
    let config = config_from_toml(
        r#"
[book]
title = "My Book"
language = "en"

[output.applehelp]
help-book-name = "com.x.help"
help-book-folder = "Folder"
"#,
    );
    let cfg = resolve(&config, IndexOverride::NoOverride).unwrap();
    assert_eq!(cfg.cshelp_index_filename(), "My Book.cshelpindex");
    assert_eq!(cfg.lsm_index_filename(), "My Book.helpindex");
}

#[test]
fn language_defaults_to_en_when_book_lang_missing() {
    let config = config_from_toml(
        r#"
[output.applehelp]
help-book-name = "com.x.help"
help-book-folder = "Folder"
"#,
    );
    let cfg = resolve(&config, IndexOverride::NoOverride).unwrap();
    assert_eq!(cfg.language, "en");
}

fn raw() -> RawConfig {
    RawConfig {
        help_book_name: Some("com.x.help".into()),
        help_book_folder: Some("Folder".into()),
        title: None,
        description: None,
        language: None,
        authors: None,
        generate_index: None,
        index_format: None,
        landing_page: None,
        icon_file: None,
        external_url: None,
        access_key: None,
        version: None,
    }
}

fn no_book() -> BookMeta {
    BookMeta { title: None, description: None, language: None, authors: vec![] }
}

#[test]
fn from_raw_defaults_when_nothing_is_set() {
    let cfg = AppleHelpConfig::from_raw(raw(), no_book(), IndexOverride::NoOverride).unwrap();
    assert_eq!(cfg.title, "Folder");
    assert_eq!(cfg.description, "");
    assert_eq!(cfg.language, "en");
    assert!(cfg.authors.is_empty());
    assert_eq!(cfg.version, "1");
    assert_eq!(cfg.index_format, IndexFormat::Both);
    assert!(cfg.generate_index);
    assert_eq!(cfg.index_override, IndexOverride::NoOverride);
}

#[test]
fn from_raw_reports_each_missing_name() {
    let mut r = raw();
    r.help_book_name = None;
    r.help_book_folder = None;
    let err = AppleHelpConfig::from_raw(r, no_book(), IndexOverride::NoOverride).unwrap_err();
    assert!(matches!(err, ConfigError::MissingHelpBookName));
    assert_eq!(err.to_string(), "help-book-name is required in [output.applehelp]");
    let mut r = raw();
    r.help_book_folder = None;
    let err = AppleHelpConfig::from_raw(r, no_book(), IndexOverride::NoOverride).unwrap_err();
    assert!(matches!(err, ConfigError::MissingHelpBookFolder));
    assert_eq!(err.to_string(), "help-book-folder is required in [output.applehelp]");
}

#[test]
fn index_format_parse_accepts_exactly_three_names() {
    assert_eq!(IndexFormat::parse("corespotlight").unwrap(), IndexFormat::CoreSpotlight);
    assert_eq!(IndexFormat::parse("lsm").unwrap(), IndexFormat::Lsm);
    assert_eq!(IndexFormat::parse("both").unwrap(), IndexFormat::Both);
    let err = IndexFormat::parse("Both").unwrap_err();
    assert_eq!(
        err.to_string(),
        "invalid index-format `Both` (expected `corespotlight`, `lsm`, or `both`)"
    );
}

#[test]
fn optional_keys_and_version_are_read() {
    let config = config_from_toml(
        r#"
[output.applehelp]
help-book-name = "com.x.help"
help-book-folder = "Folder"
landing-page = "cover.md"
icon-file = "Shared/icon.png"
external-url = "https://example.com/help"
access-key = "help"
version = "2.4.1"
"#,
    );
    let cfg = resolve(&config, IndexOverride::NoOverride).unwrap();
    assert_eq!(cfg.landing_page.as_deref(), Some("cover.md"));
    assert_eq!(cfg.icon_file.as_deref(), Some("Shared/icon.png"));
    assert_eq!(cfg.external_url.as_deref(), Some("https://example.com/help"));
    assert_eq!(cfg.access_key.as_deref(), Some("help"));
    assert_eq!(cfg.version, "2.4.1");
}

#[test]
fn flags_choose_the_override() {
    assert_eq!(IndexOverride::from_flags(true, false), IndexOverride::ForceSkip);
    assert_eq!(IndexOverride::from_flags(true, true), IndexOverride::ForceSkip);
    assert_eq!(IndexOverride::from_flags(false, true), IndexOverride::ForceRun);
    assert_eq!(IndexOverride::from_flags(false, false), IndexOverride::NoOverride);
}
