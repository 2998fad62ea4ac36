//! The `[output.applehelp]` configuration: which values are required, which
//! fall back to the `[book]` table, and the defaults of the rest.

use vstd::prelude::*;

use crate::text::{opt_view, str_eq, strings_view};

verus! {

/// A command-line override of the `generate-index` setting.
#[derive(Debug, Clone, Copy, PartialEq, Eq, Structural)]
pub enum IndexOverride {
    NoOverride,
    ForceRun,
    ForceSkip,
}

/// Which search indexes `hiutil` builds.
#[derive(Debug, Clone, Copy, PartialEq, Eq, Structural)]
pub enum IndexFormat {
    CoreSpotlight,
    Lsm,
    Both,
}

/// Why the configuration could not be read.
#[derive(Debug)]
pub enum ConfigError {
    /// `help-book-name` is not set.
    MissingHelpBookName,
    /// `help-book-folder` is not set.
    MissingHelpBookFolder,
    /// `index-format` holds a value other than the three known ones.
    InvalidIndexFormat(String),
}

/// The `[output.applehelp]` table as written: every key optional.
#[derive(Debug)]
pub struct RawConfig {
    pub help_book_name: Option<String>,
    pub help_book_folder: Option<String>,
    pub title: Option<String>,
    pub description: Option<String>,
    pub language: Option<String>,
    pub authors: Option<Vec<String>>,
    pub generate_index: Option<bool>,
    pub index_format: Option<IndexFormat>,
    pub landing_page: Option<String>,
    pub icon_file: Option<String>,
    pub external_url: Option<String>,
    pub access_key: Option<String>,
    pub version: Option<String>,
}

/// The book-wide metadata of the `[book]` table that the help book reuses.
#[derive(Debug)]
pub struct BookMeta {
    pub title: Option<String>,
    pub description: Option<String>,
    pub language: Option<String>,
    pub authors: Vec<String>,
}

/// The resolved configuration of the backend.
#[derive(Debug)]
pub struct AppleHelpConfig {
    pub help_book_name: String,
    pub help_book_folder: String,
    pub title: String,
    pub description: String,
    pub language: String,
    pub authors: Vec<String>,
    pub index_format: IndexFormat,
    pub generate_index: bool,
    pub landing_page: Option<String>,
    pub icon_file: Option<String>,
    pub external_url: Option<String>,
    pub access_key: Option<String>,
    pub version: String,
    pub index_override: IndexOverride,
}

/// The first of two optional values that is present, else `default`.
pub open spec fn pick(first: Option<Seq<char>>, second: Option<Seq<char>>, default: Seq<char>) -> Seq<char> {
    match first {
        Some(v) => v,
        None => match second {
            Some(v) => v,
            None => default,
        },
    }
}

/// The index format a configuration value names.
pub open spec fn spec_index_format(s: Seq<char>) -> Option<IndexFormat> {
    if s == "corespotlight"@ {
        Some(IndexFormat::CoreSpotlight)
    } else if s == "lsm"@ {
        Some(IndexFormat::Lsm)
    } else if s == "both"@ {
        Some(IndexFormat::Both)
    } else {
        None
    }
}

/// `c` is the configuration that `raw`, the `[book]` metadata `book` and
/// the override `ov` resolve to: the two required names as given, each of
/// title, description, language and authors from `[output.applehelp]` first,
/// then from `[book]`, then a default, and the remaining keys with their
/// defaults.
pub open spec fn resolved_from(c: AppleHelpConfig, raw: RawConfig, book: BookMeta, ov: IndexOverride) -> bool {
    &&& opt_view(raw.help_book_name) == Some(c.help_book_name@)
    &&& opt_view(raw.help_book_folder) == Some(c.help_book_folder@)
    &&& c.title@ == pick(opt_view(raw.title), opt_view(book.title), c.help_book_folder@)
    &&& c.description@ == pick(opt_view(raw.description), opt_view(book.description), seq![])
    &&& c.language@ == pick(opt_view(raw.language), opt_view(book.language), "en"@)
    &&& strings_view(c.authors@) == match raw.authors {
        Some(a) => strings_view(a@),
        None => strings_view(book.authors@),
    }
    &&& c.index_format == match raw.index_format {
        Some(f) => f,
        None => IndexFormat::Both,
    }
    &&& c.generate_index == match raw.generate_index {
        Some(g) => g,
        None => true,
    }
    &&& opt_view(c.landing_page) == opt_view(raw.landing_page)
    &&& opt_view(c.icon_file) == opt_view(raw.icon_file)
    &&& opt_view(c.external_url) == opt_view(raw.external_url)
    &&& opt_view(c.access_key) == opt_view(raw.access_key)
    &&& c.version@ == pick(opt_view(raw.version), None, "1"@)
    &&& c.index_override == ov
}

/// The text of a configuration error.
pub open spec fn spec_error_message(e: ConfigError) -> Seq<char> {
    match e {
        ConfigError::MissingHelpBookName => "help-book-name is required in [output.applehelp]"@,
        ConfigError::MissingHelpBookFolder => "help-book-folder is required in [output.applehelp]"@,
        ConfigError::InvalidIndexFormat(v) => "invalid index-format `"@ + v@
            + "` (expected `corespotlight`, `lsm`, or `both`)"@,
    }
}

impl IndexOverride {
    /// The override that the `--no-index` and `--force-index` flags ask for;
    /// `--no-index` wins when both are given.
    pub fn from_flags(no_index: bool, force_index: bool) -> (r: IndexOverride)
        ensures
            r == (if no_index {
                IndexOverride::ForceSkip
            } else if force_index {
                IndexOverride::ForceRun
            } else {
                IndexOverride::NoOverride
            }),
    {
        if no_index {
            IndexOverride::ForceSkip
        } else if force_index {
            IndexOverride::ForceRun
        } else {
            IndexOverride::NoOverride
        }
    }
}

impl IndexFormat {
    /// Reads an `index-format` value: `corespotlight`, `lsm` or `both`.
    pub fn parse(s: &str) -> (r: Result<IndexFormat, ConfigError>)
        ensures
            match spec_index_format(s@) {
                Some(f) => r == Ok::<IndexFormat, ConfigError>(f),
                None => r matches Err(ConfigError::InvalidIndexFormat(v)) && v@ == s@,
            },
    {
        if str_eq(s, "corespotlight") {
            Ok(IndexFormat::CoreSpotlight)
        } else if str_eq(s, "lsm") {
            Ok(IndexFormat::Lsm)
        } else if str_eq(s, "both") {
            Ok(IndexFormat::Both)
        } else {
            Err(ConfigError::InvalidIndexFormat(s.to_owned()))
        }
    }
}

impl ConfigError {
    /// The message that reports this error.
    pub fn to_string(&self) -> (r: String)
        ensures
            r@ == spec_error_message(*self),
    {
        match self {
            ConfigError::MissingHelpBookName => String::from_str(
                "help-book-name is required in [output.applehelp]",
            ),
            ConfigError::MissingHelpBookFolder => String::from_str(
                "help-book-folder is required in [output.applehelp]",
            ),
            ConfigError::InvalidIndexFormat(v) => {
                let mut m = String::from_str("invalid index-format `");
                m.append(v.as_str());
                m.append("` (expected `corespotlight`, `lsm`, or `both`)");
                m
            },
        }
    }
}

/// `first`, else `second`, else `default`.
fn pick_string(first: Option<String>, second: Option<String>, default: String) -> (r: String)
    ensures
        r@ == pick(opt_view(first), opt_view(second), default@),
{
    match first {
        Some(v) => v,
        None => match second {
            Some(v) => v,
            None => default,
        },
    }
}

impl AppleHelpConfig {
    /// Resolves the table `raw` against the `[book]` metadata `book`.
    /// Fails exactly when `help-book-name` or, that being set,
    /// `help-book-folder` is missing.
    pub fn from_raw(raw: RawConfig, book: BookMeta, index_override: IndexOverride) -> (r: Result<
        AppleHelpConfig,
        ConfigError,
    >)
        ensures
            r is Ok <==> (raw.help_book_name is Some && raw.help_book_folder is Some),
            raw.help_book_name is None ==> r matches Err(ConfigError::MissingHelpBookName),
            raw.help_book_name is Some && raw.help_book_folder is None ==> r matches Err(
                ConfigError::MissingHelpBookFolder,
            ),
            r matches Ok(c) ==> resolved_from(c, raw, book, index_override),
    {
        let ghost raw0 = raw;
        let ghost book0 = book;
        let help_book_name = match raw.help_book_name {
            Some(n) => n,
            None => return Err(ConfigError::MissingHelpBookName),
        };
        let help_book_folder = match raw.help_book_folder {
            Some(f) => f,
            None => return Err(ConfigError::MissingHelpBookFolder),
        };
        let title = pick_string(raw.title, book.title, help_book_folder.clone());
        let description = pick_string(raw.description, book.description, String::new());
        let language = pick_string(raw.language, book.language, String::from_str("en"));
        let authors = match raw.authors {
            Some(a) => a,
            None => book.authors,
        };
        let index_format = match raw.index_format {
            Some(f) => f,
            None => IndexFormat::Both,
        };
        let generate_index = match raw.generate_index {
            Some(g) => g,
            None => true,
        };
        let version = pick_string(raw.version, None, String::from_str("1"));
        let c = AppleHelpConfig {
            help_book_name,
            help_book_folder,
            title,
            description,
            language,
            authors,
            index_format,
            generate_index,
            landing_page: raw.landing_page,
            icon_file: raw.icon_file,
            external_url: raw.external_url,
            access_key: raw.access_key,
            version,
            index_override,
        };
        assert(resolved_from(c, raw0, book0, index_override));
        Ok(c)
    }

    /// Whether the search indexes are built: the command-line override
    /// decides when given, else the `generate-index` setting.
    pub fn should_generate_index(&self) -> (r: bool)
        ensures
            r == match self.index_override {
                IndexOverride::ForceRun => true,
                IndexOverride::ForceSkip => false,
                IndexOverride::NoOverride => self.generate_index,
            },
    {
        match self.index_override {
            IndexOverride::ForceRun => true,
            IndexOverride::ForceSkip => false,
            IndexOverride::NoOverride => self.generate_index,
        }
    }

    /// Stem of the index filenames (e.g. `My Book` → `My Book.cshelpindex`).
    pub fn index_stem(&self) -> (r: &str)
        ensures
            r@ == self.title@,
    {
        self.title.as_str()
    }

    /// The Core Spotlight index file: the title followed by `.cshelpindex`.
    pub fn cshelp_index_filename(&self) -> (r: String)
        ensures
            r@ == self.title@ + ".cshelpindex"@,
    {
        let mut s = String::from_str(self.index_stem());
        s.append(".cshelpindex");
        s
    }

    /// The LSM index file: the title followed by `.helpindex`.
    pub fn lsm_index_filename(&self) -> (r: String)
        ensures
            r@ == self.title@ + ".helpindex"@,
    {
        let mut s = String::from_str(self.index_stem());
        s.append(".helpindex");
        s
    }
}

} // verus!
