use mdbook_applehelp::bundle::{bundle_dir_name, info_plist_dictionary, lproj_dir_name, supports_renderer};
use mdbook_applehelp::config::{AppleHelpConfig, IndexFormat, IndexOverride};
use mdbook_applehelp::index::{hiutil_jobs, non_macos_message};
use plist::{Dictionary, Value};

fn cfg() -> AppleHelpConfig {
    AppleHelpConfig {
        help_book_name: "com.example.help".into(),
        help_book_folder: "MyHelp".into(),
        title: "My Book".into(),
        description: "Desc".into(),
        language: "en".into(),
        authors: vec!["A".into()],
        index_format: IndexFormat::Both,
        generate_index: true,
        landing_page: None,
        icon_file: Some("Shared/icon.png".into()),
        external_url: Some("https://example.com/help".into()),
        access_key: Some("help".into()),
        version: "2.4.1".into(),
        index_override: IndexOverride::NoOverride,
    }
}

fn read_string(d: &Dictionary, key: &str) -> Option<String> {
    d.get(key).and_then(|v| v.as_string()).map(str::to_owned)
}

/// Serializes the dictionary as an XML property list and reads it back.
fn round_trip(c: &AppleHelpConfig) -> Dictionary {
    let mut xml: Vec<u8> = Vec::new();
    Value::Dictionary(info_plist_dictionary(c)).to_writer_xml(&mut xml).unwrap();
    let value = Value::from_reader_xml(&xml[..]).unwrap();
    value.into_dictionary().expect("dict")
}

#[test]
fn info_plist_contains_required_keys() {
    let c = cfg();
    let dict = round_trip(&c);

    assert_eq!(read_string(&dict, "CFBundleIdentifier").as_deref(), Some("com.example.help"));
    assert_eq!(read_string(&dict, "CFBundleName").as_deref(), Some("My Book"));
    assert_eq!(read_string(&dict, "CFBundleVersion").as_deref(), Some("2.4.1"));
    assert_eq!(
        read_string(&dict, "CFBundleShortVersionString").as_deref(),
        Some("2.4.1"),
    );
    assert_eq!(read_string(&dict, "CFBundleHelpBookFolder").as_deref(), Some("MyHelp"));
    assert_eq!(read_string(&dict, "CFBundleHelpBookName").as_deref(), Some("com.example.help"));
    assert_eq!(read_string(&dict, "CFBundleDevelopmentRegion").as_deref(), Some("en"));
    assert_eq!(read_string(&dict, "CFBundlePackageType").as_deref(), Some("BNDL"));
    assert_eq!(read_string(&dict, "HPDBookCSIndexPath").as_deref(), Some("My Book.cshelpindex"));
    assert_eq!(read_string(&dict, "HPDBookLSIndexPath").as_deref(), Some("My Book.helpindex"));
    assert_eq!(read_string(&dict, "HPDBookIndexPathType").as_deref(), Some("0"));
    assert_eq!(read_string(&dict, "HPDBookIconPath").as_deref(), Some("Shared/icon.png"));
    assert_eq!(read_string(&dict, "HPDBookRemoteURL").as_deref(), Some("https://example.com/help"));
    assert_eq!(read_string(&dict, "HPDBookAccessKey").as_deref(), Some("help"));
}

#[test]
fn info_plist_omits_optional_keys_when_absent() {
    let mut c = cfg();
    c.icon_file = None;
    c.external_url = None;
    c.access_key = None;
    let dict = round_trip(&c);

    assert!(!dict.contains_key("HPDBookIconPath"));
    assert!(!dict.contains_key("HPDBookRemoteURL"));
    assert!(!dict.contains_key("HPDBookAccessKey"));
}

#[test]
fn info_plist_keys_come_in_order() {
    let mut c = cfg();
    c.external_url = None;
    let d = info_plist_dictionary(&c);
    let keys: Vec<&str> = d.keys().map(|k| k.as_str()).collect();
    assert_eq!(
        keys,
        vec![
            "CFBundleIdentifier",
            "CFBundleName",
            "CFBundleVersion",
            "CFBundleShortVersionString",
            "CFBundleInfoDictionaryVersion",
            "CFBundleDevelopmentRegion",
            "CFBundlePackageType",
            "CFBundleHelpBookFolder",
            "CFBundleHelpBookName",
            "HPDBookCSIndexPath",
            "HPDBookLSIndexPath",
            "HPDBookIndexPathType",
            "HPDBookIconPath",
            "HPDBookAccessKey",
        ]
    );
    assert_eq!(read_string(&d, "CFBundleInfoDictionaryVersion").as_deref(), Some("6.0"));
}

#[test]
fn bundle_names() {
    let c = cfg();
    assert_eq!(bundle_dir_name(&c), "MyHelp.help");
    assert_eq!(lproj_dir_name(&c), "en.lproj");
    assert!(supports_renderer("applehelp"));
    assert!(!supports_renderer("html"));
    assert!(!supports_renderer("applehelp "));
}

#[test]
fn hiutil_jobs_follow_index_format() {
    let mut c = cfg();
    let jobs: Vec<(String, String)> = hiutil_jobs(&c).into_iter().map(|j| (j.format, j.output_file)).collect();
    assert_eq!(
        jobs,
        vec![
            ("corespotlight".to_string(), "My Book.cshelpindex".to_string()),
            ("lsm".to_string(), "My Book.helpindex".to_string()),
        ]
    );
    c.index_format = IndexFormat::Lsm;
    let jobs: Vec<String> = hiutil_jobs(&c).into_iter().map(|j| j.format).collect();
    assert_eq!(jobs, vec!["lsm".to_string()]);
    c.index_format = IndexFormat::CoreSpotlight;
    let jobs: Vec<String> = hiutil_jobs(&c).into_iter().map(|j| j.output_file).collect();
    assert_eq!(jobs, vec!["My Book.cshelpindex".to_string()]);
}

#[test]
fn non_macos_message_names_language_and_index_files() {
    let m = non_macos_message(&cfg());
    assert!(m.starts_with("\u{26a0}  BUILD FAILED: Search index generation requires macOS"));
    assert!(m.contains("cd <build-dir>/applehelp/<HelpBundle>.help/Contents/Resources/en.lproj\n"));
    assert!(m.contains("        hiutil -I corespotlight -Cf \"My Book.cshelpindex\" -a -s en -l en .\n"));
    assert!(m.ends_with("        hiutil -I lsm -Cf \"My Book.helpindex\" -a -s en -l en .\n"));
    assert!(m.contains("\n   a) Disable index generation in book.toml:\n        [output.applehelp]\n        generate-index = false\n\n"));
}
