//! The layout of the `.help` bundle and its `Info.plist` dictionary.

use vstd::prelude::*;

use plist::{Dictionary, Value};

use crate::config::AppleHelpConfig;
use crate::text::{opt_view, str_eq};

verus! {

/// A property-list dictionary.
#[verifier::external_type_specification]
#[verifier::external_body]
pub struct ExDictionary(Dictionary);

/// The string-valued entries of a property-list dictionary: each key whose
/// value is a `plist::Value::String`, mapped to that string.
pub uninterp spec fn plist_strings(d: Dictionary) -> Map<Seq<char>, Seq<char>>;

/// The keys of a property-list dictionary, in insertion order.
pub uninterp spec fn plist_keys(d: Dictionary) -> Seq<Seq<char>>;

/// Calls `plist::Dictionary::new`: a dictionary without entries.
#[verifier::external_body]
fn new_dictionary() -> (d: Dictionary)
    ensures
        plist_strings(d).dom().is_empty(),
        plist_keys(d).len() == 0,
{
    Dictionary::new()
}

/// Calls `plist::Dictionary::insert` with `Value::String(value)`. The
/// dictionary is an `IndexMap`: the key now maps to the string; a new key
/// goes last, an existing key keeps its place.
#[verifier::external_body]
fn insert_string(d: &mut Dictionary, key: String, value: String)
    ensures
        plist_strings(*final(d)) == plist_strings(*old(d)).insert(key@, value@),
        plist_keys(*final(d)) == if plist_keys(*old(d)).contains(key@) {
            plist_keys(*old(d))
        } else {
            plist_keys(*old(d)).push(key@)
        },
{
    d.insert(key, Value::String(value));
}

/// The string entries that a run of insertions leaves.
pub open spec fn inserted_map(entries: Seq<(Seq<char>, Seq<char>)>) -> Map<Seq<char>, Seq<char>>
    decreases entries.len(),
{
    if entries.len() == 0 {
        Map::empty()
    } else {
        inserted_map(entries.drop_last()).insert(entries.last().0, entries.last().1)
    }
}

/// The keys, in order, that a run of insertions leaves.
pub open spec fn inserted_keys(entries: Seq<(Seq<char>, Seq<char>)>) -> Seq<Seq<char>>
    decreases entries.len(),
{
    if entries.len() == 0 {
        seq![]
    } else {
        let k = inserted_keys(entries.drop_last());
        if k.contains(entries.last().0) {
            k
        } else {
            k.push(entries.last().0)
        }
    }
}

/// An entry for an optional value: present only when the value is.
pub open spec fn optional_entry(key: Seq<char>, value: Option<Seq<char>>) -> Seq<(Seq<char>, Seq<char>)> {
    match value {
        Some(v) => seq![(key, v)],
        None => seq![],
    }
}

/// The entries of the help book's `Info.plist`, in order.
pub open spec fn spec_info_plist_entries(cfg: AppleHelpConfig) -> Seq<(Seq<char>, Seq<char>)> {
    required_entries(cfg) + optional_entry("HPDBookIconPath"@, opt_view(cfg.icon_file)) + optional_entry(
        "HPDBookRemoteURL"@,
        opt_view(cfg.external_url),
    ) + optional_entry("HPDBookAccessKey"@, opt_view(cfg.access_key))
}

/// Inserting the entries of `a`, then those of an optional entry.
proof fn lemma_inserted_map_optional(a: Seq<(Seq<char>, Seq<char>)>, key: Seq<char>, value: Option<Seq<char>>)
    ensures
        inserted_map(a + optional_entry(key, value)) == match value {
            Some(v) => inserted_map(a).insert(key, v),
            None => inserted_map(a),
        },
{
    match value {
        Some(v) => {
            assert((a + optional_entry(key, value)).drop_last() =~= a);
        },
        None => {
            assert(a + optional_entry(key, value) =~= a);
        },
    }
}

/// The entries every help book has.
pub open spec fn required_entries(cfg: AppleHelpConfig) -> Seq<(Seq<char>, Seq<char>)> {
    seq![
        ("CFBundleIdentifier"@, cfg.help_book_name@),
        ("CFBundleName"@, cfg.title@),
        ("CFBundleVersion"@, cfg.version@),
        ("CFBundleShortVersionString"@, cfg.version@),
        ("CFBundleInfoDictionaryVersion"@, "6.0"@),
        ("CFBundleDevelopmentRegion"@, cfg.language@),
        ("CFBundlePackageType"@, "BNDL"@),
        ("CFBundleHelpBookFolder"@, cfg.help_book_folder@),
        ("CFBundleHelpBookName"@, cfg.help_book_name@),
        ("HPDBookCSIndexPath"@, cfg.title@ + ".cshelpindex"@),
        ("HPDBookLSIndexPath"@, cfg.title@ + ".helpindex"@),
        ("HPDBookIndexPathType"@, "0"@),
    ]
}

/// Inserts one string entry.
fn put(d: &mut Dictionary, key: &str, value: String, Ghost(entries): Ghost<Seq<(Seq<char>, Seq<char>)>>)
    requires
        plist_strings(*old(d)) == inserted_map(entries),
        plist_keys(*old(d)) == inserted_keys(entries),
    ensures
        plist_strings(*final(d)) == inserted_map(entries.push((key@, value@))),
        plist_keys(*final(d)) == inserted_keys(entries.push((key@, value@))),
{
    let ghost v = value@;
    insert_string(d, String::from_str(key), value);
    assert(entries.push((key@, v)).drop_last() =~= entries);
}

/// The dictionary of the help book's `Info.plist`: bundle identity and
/// version, the help-book folder and name, the two index files, and the
/// icon, remote URL and access key when they are configured.
pub fn info_plist_dictionary(cfg: &AppleHelpConfig) -> (d: Dictionary)
    ensures
        plist_strings(d) == inserted_map(spec_info_plist_entries(*cfg)),
        plist_keys(d) == inserted_keys(spec_info_plist_entries(*cfg)),
{
    let mut d = new_dictionary();
    let ghost mut e: Seq<(Seq<char>, Seq<char>)> = seq![];
    assert(inserted_keys(e) =~= plist_keys(d));
    assert(inserted_map(e) =~= plist_strings(d));
    put(&mut d, "CFBundleIdentifier", cfg.help_book_name.clone(), Ghost(e));
    proof { e = e.push(("CFBundleIdentifier"@, cfg.help_book_name@)); }
    put(&mut d, "CFBundleName", cfg.title.clone(), Ghost(e));
    proof { e = e.push(("CFBundleName"@, cfg.title@)); }
    put(&mut d, "CFBundleVersion", cfg.version.clone(), Ghost(e));
    proof { e = e.push(("CFBundleVersion"@, cfg.version@)); }
    put(&mut d, "CFBundleShortVersionString", cfg.version.clone(), Ghost(e));
    proof { e = e.push(("CFBundleShortVersionString"@, cfg.version@)); }
    put(&mut d, "CFBundleInfoDictionaryVersion", String::from_str("6.0"), Ghost(e));
    proof { e = e.push(("CFBundleInfoDictionaryVersion"@, "6.0"@)); }
    put(&mut d, "CFBundleDevelopmentRegion", cfg.language.clone(), Ghost(e));
    proof { e = e.push(("CFBundleDevelopmentRegion"@, cfg.language@)); }
    put(&mut d, "CFBundlePackageType", String::from_str("BNDL"), Ghost(e));
    proof { e = e.push(("CFBundlePackageType"@, "BNDL"@)); }
    put(&mut d, "CFBundleHelpBookFolder", cfg.help_book_folder.clone(), Ghost(e));
    proof { e = e.push(("CFBundleHelpBookFolder"@, cfg.help_book_folder@)); }
    put(&mut d, "CFBundleHelpBookName", cfg.help_book_name.clone(), Ghost(e));
    proof { e = e.push(("CFBundleHelpBookName"@, cfg.help_book_name@)); }
    put(&mut d, "HPDBookCSIndexPath", cfg.cshelp_index_filename(), Ghost(e));
    proof { e = e.push(("HPDBookCSIndexPath"@, cfg.title@ + ".cshelpindex"@)); }
    put(&mut d, "HPDBookLSIndexPath", cfg.lsm_index_filename(), Ghost(e));
    proof { e = e.push(("HPDBookLSIndexPath"@, cfg.title@ + ".helpindex"@)); }
    put(&mut d, "HPDBookIndexPathType", String::from_str("0"), Ghost(e));
    proof { e = e.push(("HPDBookIndexPathType"@, "0"@)); }
    if let Some(icon) = &cfg.icon_file {
        put(&mut d, "HPDBookIconPath", icon.clone(), Ghost(e));
        proof { e = e.push(("HPDBookIconPath"@, icon@)); }
    }
    if let Some(url) = &cfg.external_url {
        put(&mut d, "HPDBookRemoteURL", url.clone(), Ghost(e));
        proof { e = e.push(("HPDBookRemoteURL"@, url@)); }
    }
    if let Some(key) = &cfg.access_key {
        put(&mut d, "HPDBookAccessKey", key.clone(), Ghost(e));
        proof { e = e.push(("HPDBookAccessKey"@, key@)); }
    }
    assert(e =~= spec_info_plist_entries(*cfg));
    d
}

/// Every key the help book needs carries the value it is derived from, and
/// the icon, remote URL and access key are present exactly when configured,
/// with the configured value.
pub proof fn lemma_info_plist_values(cfg: AppleHelpConfig)
    ensures
        ({
            let m = inserted_map(spec_info_plist_entries(cfg));
            &&& m["CFBundleIdentifier"@] == cfg.help_book_name@
            &&& m["CFBundleName"@] == cfg.title@
            &&& m["CFBundleVersion"@] == cfg.version@
            &&& m["CFBundleShortVersionString"@] == cfg.version@
            &&& m["CFBundleInfoDictionaryVersion"@] == "6.0"@
            &&& m["CFBundleDevelopmentRegion"@] == cfg.language@
            &&& m["CFBundlePackageType"@] == "BNDL"@
            &&& m["CFBundleHelpBookFolder"@] == cfg.help_book_folder@
            &&& m["CFBundleHelpBookName"@] == cfg.help_book_name@
            &&& m["HPDBookCSIndexPath"@] == cfg.title@ + ".cshelpindex"@
            &&& m["HPDBookLSIndexPath"@] == cfg.title@ + ".helpindex"@
            &&& m["HPDBookIndexPathType"@] == "0"@
            &&& (m.dom().contains("HPDBookIconPath"@) <==> cfg.icon_file is Some)
            &&& (m.dom().contains("HPDBookRemoteURL"@) <==> cfg.external_url is Some)
            &&& (m.dom().contains("HPDBookAccessKey"@) <==> cfg.access_key is Some)
            &&& (cfg.icon_file matches Some(v) ==> m["HPDBookIconPath"@] == v@)
            &&& (cfg.external_url matches Some(v) ==> m["HPDBookRemoteURL"@] == v@)
            &&& (cfg.access_key matches Some(v) ==> m["HPDBookAccessKey"@] == v@)
        }),
{
    reveal_strlit("CFBundleIdentifier");
    reveal_strlit("CFBundleName");
    reveal_strlit("CFBundleVersion");
    reveal_strlit("CFBundleShortVersionString");
    reveal_strlit("CFBundleInfoDictionaryVersion");
    reveal_strlit("CFBundleDevelopmentRegion");
    reveal_strlit("CFBundlePackageType");
    reveal_strlit("CFBundleHelpBookFolder");
    reveal_strlit("CFBundleHelpBookName");
    reveal_strlit("HPDBookCSIndexPath");
    reveal_strlit("HPDBookLSIndexPath");
    reveal_strlit("HPDBookIndexPathType");
    reveal_strlit("HPDBookIconPath");
    reveal_strlit("HPDBookRemoteURL");
    reveal_strlit("HPDBookAccessKey");
    let r = required_entries(cfg);
    let m12 = Map::<Seq<char>, Seq<char>>::empty()
        .insert("CFBundleIdentifier"@, cfg.help_book_name@)
        .insert("CFBundleName"@, cfg.title@)
        .insert("CFBundleVersion"@, cfg.version@)
        .insert("CFBundleShortVersionString"@, cfg.version@)
        .insert("CFBundleInfoDictionaryVersion"@, "6.0"@)
        .insert("CFBundleDevelopmentRegion"@, cfg.language@)
        .insert("CFBundlePackageType"@, "BNDL"@)
        .insert("CFBundleHelpBookFolder"@, cfg.help_book_folder@)
        .insert("CFBundleHelpBookName"@, cfg.help_book_name@)
        .insert("HPDBookCSIndexPath"@, cfg.title@ + ".cshelpindex"@)
        .insert("HPDBookLSIndexPath"@, cfg.title@ + ".helpindex"@)
        .insert("HPDBookIndexPathType"@, "0"@);
    assert(inserted_map(r) == m12) by {
        reveal_with_fuel(inserted_map, 13);
        assert(r.drop_last().drop_last().drop_last().drop_last().drop_last().drop_last().drop_last().drop_last().drop_last().drop_last().drop_last().drop_last() =~= Seq::<(Seq<char>, Seq<char>)>::empty());
    }
    let a1 = r + optional_entry("HPDBookIconPath"@, opt_view(cfg.icon_file));
    let a2 = a1 + optional_entry("HPDBookRemoteURL"@, opt_view(cfg.external_url));
    lemma_inserted_map_optional(r, "HPDBookIconPath"@, opt_view(cfg.icon_file));
    lemma_inserted_map_optional(a1, "HPDBookRemoteURL"@, opt_view(cfg.external_url));
    lemma_inserted_map_optional(a2, "HPDBookAccessKey"@, opt_view(cfg.access_key));
    // Keys of different lengths differ; the keys of equal length differ at
    // the character checked below.
    assert("CFBundleIdentifier"@.len() == 18);
    assert("CFBundleName"@.len() == 12);
    assert("CFBundleVersion"@.len() == 15);
    assert("CFBundleShortVersionString"@.len() == 26);
    assert("CFBundleInfoDictionaryVersion"@.len() == 29);
    assert("CFBundleDevelopmentRegion"@.len() == 25);
    assert("CFBundlePackageType"@.len() == 19);
    assert("CFBundleHelpBookFolder"@.len() == 22);
    assert("CFBundleHelpBookName"@.len() == 20);
    assert("HPDBookCSIndexPath"@.len() == 18);
    assert("HPDBookLSIndexPath"@.len() == 18);
    assert("HPDBookIndexPathType"@.len() == 20);
    assert("HPDBookIconPath"@.len() == 15);
    assert("HPDBookRemoteURL"@.len() == 16);
    assert("HPDBookAccessKey"@.len() == 16);
    assert("CFBundleIdentifier"@ != "HPDBookCSIndexPath"@) by { assert("CFBundleIdentifier"@[0] != "HPDBookCSIndexPath"@[0]); }
    assert("CFBundleIdentifier"@ != "HPDBookLSIndexPath"@) by { assert("CFBundleIdentifier"@[0] != "HPDBookLSIndexPath"@[0]); }
    assert("CFBundleVersion"@ != "HPDBookIconPath"@) by { assert("CFBundleVersion"@[0] != "HPDBookIconPath"@[0]); }
    assert("CFBundleHelpBookName"@ != "HPDBookIndexPathType"@) by { assert("CFBundleHelpBookName"@[0] != "HPDBookIndexPathType"@[0]); }
    assert("HPDBookCSIndexPath"@ != "HPDBookLSIndexPath"@) by { assert("HPDBookCSIndexPath"@[7] != "HPDBookLSIndexPath"@[7]); }
    assert("HPDBookRemoteURL"@ != "HPDBookAccessKey"@) by { assert("HPDBookRemoteURL"@[7] != "HPDBookAccessKey"@[7]); }
    assert(spec_info_plist_entries(cfg) == a2 + optional_entry("HPDBookAccessKey"@, opt_view(cfg.access_key)));
}

/// The bundle's directory name: the help-book folder followed by `.help`.
pub fn bundle_dir_name(cfg: &AppleHelpConfig) -> (r: String)
    ensures
        r@ == cfg.help_book_folder@ + ".help"@,
{
    let mut s = cfg.help_book_folder.clone();
    s.append(".help");
    s
}

/// The localized resources directory: the language followed by `.lproj`.
pub fn lproj_dir_name(cfg: &AppleHelpConfig) -> (r: String)
    ensures
        r@ == cfg.language@ + ".lproj"@,
{
    let mut s = cfg.language.clone();
    s.append(".lproj");
    s
}

/// The mdBook backend support check: only the `applehelp` renderer.
pub fn supports_renderer(renderer: &str) -> (r: bool)
    ensures
        r == (renderer@ == "applehelp"@),
{
    str_eq(renderer, "applehelp")
}

} // verus!
