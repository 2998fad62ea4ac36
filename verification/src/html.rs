//! Page rendering: link rewriting, HTML escaping and the Apple Help page
//! template.

use vstd::prelude::*;

use pulldown_cmark::{html, CowStr, Event, LinkType, Options, Parser, Tag};

use crate::config::AppleHelpConfig;
use crate::text::{
    lemma_first_index_exists, chars_of, ends_with, find_char, first_index, is_first_index, lemma_first_index,
    lemma_first_index_none, push_range, vec_ends_with,
};

verus! {

/// A character allowed in a URL scheme (`[A-Za-z0-9+.-]`).
pub open spec fn is_scheme_char(c: char) -> bool {
    ||| ('a' <= c && c <= 'z')
    ||| ('A' <= c && c <= 'Z')
    ||| ('0' <= c && c <= '9')
    ||| c == '+'
    ||| c == '-'
    ||| c == '.'
}

/// A URL that is not ours to rewrite: a fragment-only link, a host-absolute
/// path, or a URL whose first `:` ends a non-empty scheme.
pub open spec fn spec_is_external(url: Seq<char>) -> bool {
    ||| (url.len() > 0 && (url[0] == '#' || url[0] == '/'))
    ||| exists|i: int|
        #![trigger url[i]]
        0 < i < url.len() && url[i] == ':' && (forall|j: int|
            0 <= j < i ==> is_scheme_char(#[trigger] url[j]))
}

/// The path part and, after the first `#`, the fragment of a URL.
pub open spec fn spec_split_fragment(url: Seq<char>) -> (Seq<char>, Option<Seq<char>>) {
    match first_index(url, '#') {
        Some(i) => (url.subrange(0, i), Some(url.subrange(i + 1, url.len() as int))),
        None => (url, None),
    }
}

pub open spec fn md_suffix() -> Seq<char> {
    seq!['.', 'm', 'd']
}

pub open spec fn markdown_suffix() -> Seq<char> {
    seq!['.', 'm', 'a', 'r', 'k', 'd', 'o', 'w', 'n']
}

/// The path with a trailing `.md` or `.markdown` replaced by `.html`, when
/// it has one of these extensions.
pub open spec fn spec_html_path(path: Seq<char>) -> Option<Seq<char>> {
    if ends_with(path, md_suffix()) {
        Some(path.subrange(0, path.len() - 3) + ".html"@)
    } else if ends_with(path, markdown_suffix()) {
        Some(path.subrange(0, path.len() - 9) + ".html"@)
    } else {
        None
    }
}

/// Where a link to `url` points once the book is a help bundle. `verbatim`
/// marks autolinks and e-mail links, which are kept as written.
pub open spec fn spec_rewrite_link(url: Seq<char>, verbatim: bool) -> Seq<char> {
    if verbatim || spec_is_external(url) {
        url
    } else {
        let (path, fragment) = spec_split_fragment(url);
        match spec_html_path(path) {
            None => url,
            Some(new_path) => match fragment {
                Some(f) => new_path + seq!['#'] + f,
                None => new_path,
            },
        }
    }
}

/// Whether `url` is external: a URL scheme, an absolute path or a
/// fragment-only link.
pub fn is_external(url: &str) -> (r: bool)
    ensures
        r == spec_is_external(url@),
{
    let cs = chars_of(url);
    if cs.len() > 0 && (cs[0] == '#' || cs[0] == '/') {
        return true;
    }
    let mut all_scheme = true;
    let mut i: usize = 0;
    while i < cs.len()
        invariant
            cs@ == url@,
            i <= cs.len(),
            !(cs.len() > 0 && (cs@[0] == '#' || cs@[0] == '/')),
            forall|j: int| 0 <= j < i ==> cs@[j] != ':',
            all_scheme == (forall|j: int| 0 <= j < i ==> is_scheme_char(cs@[j])),
        decreases cs.len() - i,
    {
        let c = cs[i];
        if c == ':' {
            let r = i > 0 && all_scheme;
            if !r {
                assert forall|k: int| 0 < k < url@.len() && url@[k] == ':' implies !(forall|j: int|
                    0 <= j < k ==> is_scheme_char(#[trigger] url@[j])) by {
                    if k > i {
                        assert(!is_scheme_char(url@[i as int]));
                    } else {
                        assert(k == i);
                        if i == 0 {
                        } else {
                            let j = choose|j: int| 0 <= j < i && !is_scheme_char(cs@[j]);
                            assert(!is_scheme_char(url@[j]));
                        }
                    }
                }
            } else {
                assert(url@[i as int] == ':');
            }
            return r;
        }
        let ok = ('a' <= c && c <= 'z') || ('A' <= c && c <= 'Z') || ('0' <= c && c <= '9')
            || c == '+' || c == '-' || c == '.';
        all_scheme = all_scheme && ok;
        i += 1;
    }
    false
}

/// Splits `url` at its first `#` into the path and the fragment.
pub fn split_fragment(url: &str) -> (r: (&str, Option<&str>))
    ensures
        r.0@ == spec_split_fragment(url@).0,
        match (r.1, spec_split_fragment(url@).1) {
            (Some(f), Some(g)) => f@ == g,
            (None, None) => true,
            _ => false,
        },
{
    let cs = chars_of(url);
    let i = find_char(&cs, '#');
    if i < cs.len() {
        proof {
            assert(is_first_index(url@, '#', i as int));
            lemma_first_index(url@, '#', i as int);
        }
        (url.substring_char(0, i), Some(url.substring_char(i + 1, cs.len())))
    } else {
        proof {
            lemma_first_index_none(url@, '#');
        }
        (url.substring_char(0, cs.len()), None)
    }
}

/// The `.md` and `.markdown` suffixes, as characters.
fn md_suffix_chars() -> (v: Vec<char>)
    ensures
        v@ == md_suffix(),
{
    let v = vec!['.', 'm', 'd'];
    assert(v@ =~= md_suffix());
    v
}

fn markdown_suffix_chars() -> (v: Vec<char>)
    ensures
        v@ == markdown_suffix(),
{
    let v = vec!['.', 'm', 'a', 'r', 'k', 'd', 'o', 'w', 'n'];
    assert(v@ =~= markdown_suffix());
    v
}

/// Rewrites an internal `.md`/`.markdown` link to the `.html` page it
/// becomes, keeping any fragment; other links come back unchanged.
pub fn rewrite_link(url: &str, verbatim: bool) -> (r: String)
    ensures
        r@ == spec_rewrite_link(url@, verbatim),
{
    if verbatim || is_external(url) {
        return url.to_owned();
    }
    let (path, fragment) = split_fragment(url);
    let pcs = chars_of(path);
    let md = md_suffix_chars();
    let markdown = markdown_suffix_chars();
    let stem_len: usize;
    if vec_ends_with(&pcs, &md) {
        stem_len = pcs.len() - 3;
    } else if vec_ends_with(&pcs, &markdown) {
        stem_len = pcs.len() - 9;
    } else {
        return url.to_owned();
    }
    let mut out = String::new();
    push_range(&mut out, &pcs, 0, stem_len);
    out.append(".html");
    match fragment {
        Some(f) => {
            out.push('#');
            out.append(f);
        },
        None => {},
    }
    out
}

/// A URL is its path, then `#` and the fragment when there is one; the
/// path holds no `#`.
pub proof fn lemma_split_fragment_rejoin(url: Seq<char>)
    ensures
        match spec_split_fragment(url) {
            (p, Some(f)) => url == p + seq!['#'] + f && !p.contains('#'),
            (p, None) => p == url && !url.contains('#'),
        },
{
    if url.contains('#') {
        let j = choose|j: int| 0 <= j < url.len() && url[j] == '#';
        lemma_first_index_exists(url, '#', j);
        let i = first_index(url, '#')->Some_0;
        let p = url.subrange(0, i);
        let f = url.subrange(i + 1, url.len() as int);
        assert(url =~= p + seq!['#'] + f);
        if p.contains('#') {
            let k = choose|k: int| 0 <= k < p.len() && p[k] == '#';
            assert(url[k] == '#');
        }
    }
}

/// Rewriting a link a second time changes nothing: a rewritten link is
/// never again an internal `.md`/`.markdown` link.
pub proof fn lemma_rewrite_link_idempotent(url: Seq<char>, verbatim: bool)
    ensures
        spec_rewrite_link(spec_rewrite_link(url, verbatim), verbatim) == spec_rewrite_link(url, verbatim),
{
    if !verbatim && !spec_is_external(url) {
        let (path, fragment) = spec_split_fragment(url);
        if let Some(new_path) = spec_html_path(path) {
            reveal_strlit(".html");
            lemma_split_fragment_rejoin(url);
            let k: int = if ends_with(path, md_suffix()) { 3 } else { 9 };
            let stem = path.subrange(0, path.len() - k);
            assert(new_path == stem + ".html"@);
            let r = spec_rewrite_link(url, verbatim);
            assert(forall|i: int| 0 <= i < stem.len() ==> stem[i] == url[i]);
            assert(new_path.len() == stem.len() + 5);
            assert(forall|i: int| stem.len() <= i < new_path.len() ==> new_path[i] != '#' && new_path[i] != ':' && new_path[i] != '/');
            assert(!new_path.contains('#')) by {
                if new_path.contains('#') {
                    let q = choose|q: int| 0 <= q < new_path.len() && new_path[q] == '#';
                    if q < stem.len() {
                        assert(path[q] == '#');
                    }
                }
            }
            assert(forall|i: int| 0 <= i < new_path.len() ==> r[i] == new_path[i]);
            // The rewritten link is not external.
            assert(!spec_is_external(r)) by {
                if r.len() > 0 && (r[0] == '#' || r[0] == '/') {
                    if stem.len() > 0 {
                        assert(url[0] == r[0]);
                    }
                }
                if exists|i: int|
                    #![trigger r[i]]
                    0 < i < r.len() && r[i] == ':' && (forall|j: int|
                        0 <= j < i ==> is_scheme_char(#[trigger] r[j])) {
                    let i = choose|i: int|
                        #![trigger r[i]]
                        0 < i < r.len() && r[i] == ':' && (forall|j: int|
                            0 <= j < i ==> is_scheme_char(#[trigger] r[j]));
                    if i < stem.len() {
                        assert(forall|j: int| 0 <= j < i ==> r[j] == url[j]);
                        assert(url[i] == ':');
                        assert(forall|j: int| 0 <= j < i ==> is_scheme_char(#[trigger] url[j]));
                    } else if i >= new_path.len() {
                        assert(r[new_path.len() as int] == '#');
                        assert(!is_scheme_char(r[new_path.len() as int]));
                    }
                }
            }
            // It splits into the new path and the same fragment.
            match fragment {
                Some(f) => {
                    assert(r == new_path + seq!['#'] + f);
                    assert(is_first_index(r, '#', new_path.len() as int));
                    lemma_first_index(r, '#', new_path.len() as int);
                    assert(r.subrange(0, new_path.len() as int) =~= new_path);
                    assert(r.subrange(new_path.len() as int + 1, r.len() as int) =~= f);
                },
                None => {
                    assert(r == new_path);
                    lemma_first_index_none(r, '#');
                },
            }
            assert(spec_split_fragment(r).0 == new_path);
            // The new path ends in `.html`, so it is left alone.
            assert(new_path.last() == 'l');
            assert(!ends_with(new_path, md_suffix())) by {
                if ends_with(new_path, md_suffix()) {
                    assert(new_path.subrange(new_path.len() - 3, new_path.len() as int)[2] == new_path.last());
                }
            }
            assert(!ends_with(new_path, markdown_suffix())) by {
                if ends_with(new_path, markdown_suffix()) {
                    assert(new_path.subrange(new_path.len() - 9, new_path.len() as int)[8] == new_path.last());
                }
            }
        }
    }
}

/// The HTML escape of one character.
pub open spec fn escape_char(c: char) -> Seq<char> {
    if c == '&' {
        "&amp;"@
    } else if c == '<' {
        "&lt;"@
    } else if c == '>' {
        "&gt;"@
    } else if c == '"' {
        "&quot;"@
    } else if c == '\'' {
        "&#39;"@
    } else {
        seq![c]
    }
}

/// `s` with `& < > " '` replaced by their HTML entities.
pub open spec fn spec_escape(s: Seq<char>) -> Seq<char>
    decreases s.len(),
{
    if s.len() == 0 {
        seq![]
    } else {
        spec_escape(s.drop_last()) + escape_char(s.last())
    }
}

/// A character that would end an attribute value or open markup.
pub open spec fn is_markup_char(c: char) -> bool {
    c == '<' || c == '>' || c == '"' || c == '\''
}

proof fn lemma_escape_char_plain(c: char)
    ensures
        forall|i: int| 0 <= i < escape_char(c).len() ==> !is_markup_char(#[trigger] escape_char(c)[i]),
{
    reveal_strlit("&amp;");
    reveal_strlit("&lt;");
    reveal_strlit("&gt;");
    reveal_strlit("&quot;");
    reveal_strlit("&#39;");
}

/// Escaped text holds none of `< > " '`.
pub proof fn lemma_escape_plain(s: Seq<char>)
    ensures
        forall|i: int| 0 <= i < spec_escape(s).len() ==> !is_markup_char(#[trigger] spec_escape(s)[i]),
    decreases s.len(),
{
    if s.len() > 0 {
        lemma_escape_plain(s.drop_last());
        lemma_escape_char_plain(s.last());
        let a = spec_escape(s.drop_last());
        let b = escape_char(s.last());
        assert forall|i: int| 0 <= i < spec_escape(s).len() implies !is_markup_char(
            #[trigger] spec_escape(s)[i],
        ) by {
            if i < a.len() {
                assert(spec_escape(s)[i] == a[i]);
            } else {
                assert(spec_escape(s)[i] == b[i - a.len()]);
            }
        }
    }
}

/// A character that escaping replaces by an entity: `& < > " '`.
pub open spec fn is_escaped_char(c: char) -> bool {
    c == '&' || is_markup_char(c)
}

/// `s` with the entities `&amp; &lt; &gt; &quot; &#39;` decoded, read left
/// to right; every other character is kept.
pub open spec fn spec_unescape(s: Seq<char>) -> Seq<char>
    decreases s.len(),
{
    if s.len() == 0 {
        seq![]
    } else if s.len() >= 5 && s.subrange(0, 5) == "&amp;"@ {
        seq!['&'] + spec_unescape(s.subrange(5, s.len() as int))
    } else if s.len() >= 4 && s.subrange(0, 4) == "&lt;"@ {
        seq!['<'] + spec_unescape(s.subrange(4, s.len() as int))
    } else if s.len() >= 4 && s.subrange(0, 4) == "&gt;"@ {
        seq!['>'] + spec_unescape(s.subrange(4, s.len() as int))
    } else if s.len() >= 6 && s.subrange(0, 6) == "&quot;"@ {
        seq!['"'] + spec_unescape(s.subrange(6, s.len() as int))
    } else if s.len() >= 5 && s.subrange(0, 5) == "&#39;"@ {
        seq!['\''] + spec_unescape(s.subrange(5, s.len() as int))
    } else {
        seq![s[0]] + spec_unescape(s.subrange(1, s.len() as int))
    }
}

/// Escaping a concatenation escapes each part.
pub proof fn lemma_escape_concat(a: Seq<char>, b: Seq<char>)
    ensures
        spec_escape(a + b) == spec_escape(a) + spec_escape(b),
    decreases b.len(),
{
    if b.len() == 0 {
        assert(a + b =~= a);
        assert(spec_escape(a) + spec_escape(b) =~= spec_escape(a));
    } else {
        lemma_escape_concat(a, b.drop_last());
        assert((a + b).drop_last() =~= a + b.drop_last());
        assert((a + b).last() == b.last());
        assert(spec_escape(a + b) =~= spec_escape(a) + (spec_escape(b.drop_last()) + escape_char(
            b.last(),
        )));
    }
}

/// The escape of one character followed by `t` decodes to that character
/// followed by the decoding of `t`.
proof fn lemma_unescape_char(c: char, t: Seq<char>)
    ensures
        spec_unescape(escape_char(c) + t) == seq![c] + spec_unescape(t),
{
    reveal_strlit("&amp;");
    reveal_strlit("&lt;");
    reveal_strlit("&gt;");
    reveal_strlit("&quot;");
    reveal_strlit("&#39;");
    let s = escape_char(c) + t;
    let k = escape_char(c).len() as int;
    assert(s.subrange(0, k) =~= escape_char(c));
    assert(s.subrange(k, s.len() as int) =~= t);
    assert(s[0] == escape_char(c)[0]);
    if s.len() >= 5 {
        assert(s.subrange(0, 5)[0] == s[0]);
        assert(s.subrange(0, 5)[1] == s[1]);
        assert(s.subrange(0, 5)[2] == s[2]);
    }
    if s.len() >= 4 {
        assert(s.subrange(0, 4)[0] == s[0]);
        assert(s.subrange(0, 4)[1] == s[1]);
    }
    if s.len() >= 6 {
        assert(s.subrange(0, 6)[0] == s[0]);
        assert(s.subrange(0, 6)[1] == s[1]);
    }
    if c == '&' || c == '<' || c == '>' || c == '"' || c == '\'' {
        assert(s[1] == escape_char(c)[1]);
        assert(s[2] == escape_char(c)[2]);
    }
}

/// Decoding the entities of escaped text gives the text back.
pub proof fn lemma_escape_round_trip(s: Seq<char>)
    ensures
        spec_unescape(spec_escape(s)) == s,
    decreases s.len(),
{
    if s.len() > 0 {
        let rest = s.subrange(1, s.len() as int);
        assert(s =~= seq![s[0]] + rest);
        lemma_escape_concat(seq![s[0]], rest);
        let one = seq![s[0]];
        assert(one.drop_last() =~= Seq::<char>::empty());
        assert(one.last() == s[0]);
        assert(spec_escape(one.drop_last()) == Seq::<char>::empty());
        assert(spec_escape(one) =~= escape_char(s[0]));
        lemma_unescape_char(s[0], spec_escape(rest));
        lemma_escape_round_trip(rest);
    }
}

/// Escaping never shortens the text, and lengthens it when the text holds a
/// character that escaping replaces; text without one is left as it is.
proof fn lemma_escape_len(s: Seq<char>)
    ensures
        spec_escape(s).len() >= s.len(),
        (exists|i: int| 0 <= i < s.len() && is_escaped_char(#[trigger] s[i])) ==> spec_escape(s).len() > s.len(),
        (forall|i: int| 0 <= i < s.len() ==> !is_escaped_char(#[trigger] s[i])) ==> spec_escape(s) == s,
    decreases s.len(),
{
    reveal_strlit("&amp;");
    reveal_strlit("&lt;");
    reveal_strlit("&gt;");
    reveal_strlit("&quot;");
    reveal_strlit("&#39;");
    if s.len() > 0 {
        let p = s.drop_last();
        lemma_escape_len(p);
        if exists|i: int| 0 <= i < s.len() && is_escaped_char(#[trigger] s[i]) {
            let i = choose|i: int| 0 <= i < s.len() && is_escaped_char(#[trigger] s[i]);
            if i < s.len() - 1 {
                assert(is_escaped_char(p[i]));
            }
        }
        if forall|i: int| 0 <= i < s.len() ==> !is_escaped_char(#[trigger] s[i]) {
            assert(!is_escaped_char(s[s.len() - 1]));
            assert(s =~= p.push(s.last()));
        }
    }
}

/// Escaping leaves text unchanged exactly when it holds none of
/// `& < > " '`.
pub proof fn lemma_escape_identity(s: Seq<char>)
    ensures
        (spec_escape(s) == s) <==> (forall|i: int| 0 <= i < s.len() ==> !is_escaped_char(#[trigger] s[i])),
{
    lemma_escape_len(s);
}

/// Escapes `& < > " '` for use in HTML text and attribute values.
pub fn escape(s: &str) -> (r: String)
    ensures
        r@ == spec_escape(s@),
        forall|i: int| 0 <= i < r@.len() ==> !is_markup_char(#[trigger] r@[i]),
{
    let cs = chars_of(s);
    let mut out = String::new();
    let mut i: usize = 0;
    while i < cs.len()
        invariant
            cs@ == s@,
            i <= cs.len(),
            out@ == spec_escape(cs@.subrange(0, i as int)),
        decreases cs.len() - i,
    {
        let c = cs[i];
        if c == '&' {
            out.append("&amp;");
        } else if c == '<' {
            out.append("&lt;");
        } else if c == '>' {
            out.append("&gt;");
        } else if c == '"' {
            out.append("&quot;");
        } else if c == '\'' {
            out.append("&#39;");
        } else {
            out.push(c);
        }
        assert(cs@.subrange(0, i + 1).drop_last() =~= cs@.subrange(0, i as int));
        i += 1;
    }
    assert(cs@.subrange(0, cs.len() as int) =~= cs@);
    proof {
        lemma_escape_plain(s@);
    }
    out
}


/// What a page needs beyond its body: titles, language, the relative path
/// of the shared stylesheet and the anchor to emit.
pub struct PageMeta<'a> {
    pub title: &'a str,
    pub apple_title: &'a str,
    pub language: &'a str,
    pub stylesheet_relative: &'a str,
    pub anchor: Option<&'a str>,
}

/// The text of a `PageMeta`.
pub struct PageMetaView {
    pub title: Seq<char>,
    pub apple_title: Seq<char>,
    pub language: Seq<char>,
    pub stylesheet_relative: Seq<char>,
    pub anchor: Option<Seq<char>>,
}

impl<'a> View for PageMeta<'a> {
    type V = PageMetaView;

    open spec fn view(&self) -> PageMetaView {
        PageMetaView {
            title: self.title@,
            apple_title: self.apple_title@,
            language: self.language@,
            stylesheet_relative: self.stylesheet_relative@,
            anchor: match self.anchor {
                Some(a) => Some(a@),
                None => None,
            },
        }
    }
}

/// The items of `items` joined by `sep`.
pub open spec fn join(items: Seq<Seq<char>>, sep: Seq<char>) -> Seq<char>
    decreases items.len(),
{
    if items.len() == 0 {
        seq![]
    } else if items.len() == 1 {
        items[0]
    } else {
        join(items.drop_last(), sep) + sep + items.last()
    }
}

/// Joining two non-empty lists one after the other puts exactly one
/// separator between the joins of the two.
pub proof fn lemma_join_concat(a: Seq<Seq<char>>, b: Seq<Seq<char>>, sep: Seq<char>)
    requires
        a.len() > 0,
        b.len() > 0,
    ensures
        join(a + b, sep) == join(a, sep) + sep + join(b, sep),
    decreases b.len(),
{
    assert((a + b).drop_last() =~= a + b.drop_last());
    assert((a + b).last() == b.last());
    if b.len() == 1 {
        assert(a + b.drop_last() =~= a);
    } else {
        lemma_join_concat(a, b.drop_last(), sep);
        assert(join(a + b, sep) =~= join(a, sep) + sep + join(b, sep));
    }
}

/// Appending an item to a non-empty list appends the separator and the item
/// to its join; a single item joins to itself.
pub proof fn lemma_join_push(items: Seq<Seq<char>>, x: Seq<char>, sep: Seq<char>)
    ensures
        join(seq![x], sep) == x,
        items.len() > 0 ==> join(items.push(x), sep) == join(items, sep) + sep + x,
{
    if items.len() > 0 {
        assert(items.push(x) =~= items + seq![x]);
        lemma_join_concat(items, seq![x], sep);
    }
}

/// A `<meta name=".." content="..">` line whose content is escaped.
pub open spec fn meta_line(name: Seq<char>, content: Seq<char>) -> Seq<char> {
    "    <meta name=\""@ + name + "\" content=\""@ + spec_escape(content) + "\">\n"@
}

/// The stylesheet link of a page.
pub open spec fn stylesheet_line(href: Seq<char>) -> Seq<char> {
    "    <link rel=\"stylesheet\" href=\""@ + spec_escape(href) + "\">\n"@
}

/// The named anchor of a page.
pub open spec fn anchor_line(name: Seq<char>) -> Seq<char> {
    "<a name=\""@ + spec_escape(name) + "\"></a>\n"@
}

/// The start of the document head, up to and including the `<title>` line.
pub open spec fn spec_page_preamble(meta: PageMetaView, cfg: AppleHelpConfig) -> Seq<char> {
    "<!DOCTYPE html>\n"@
    + "<html lang=\""@ + spec_escape(meta.language) + "\">\n<head>\n"@
    + "    <meta http-equiv=\"Content-Type\" content=\"text/html; charset=utf-8\">\n"@
    + meta_line("AppleTitle"@, meta.apple_title)
    + (match cfg.icon_file {
        Some(icon) => meta_line("AppleIcon"@, icon@),
        None => seq![],
    })
    + (if cfg.description@.len() > 0 {
        meta_line("description"@, cfg.description@)
    } else {
        seq![]
    })
    + (if cfg.authors@.len() > 0 {
        meta_line("author"@, join(crate::text::strings_view(cfg.authors@), ", "@))
    } else {
        seq![]
    })
    + "    <title>"@ + spec_escape(meta.title) + "</title>\n"@
}

/// The document head of a page, up to and including `<body>`.
pub open spec fn spec_page_head(meta: PageMetaView, cfg: AppleHelpConfig) -> Seq<char> {
    spec_page_preamble(meta, cfg) + stylesheet_line(meta.stylesheet_relative) + "</head>\n<body>\n"@
}

/// The body of a page after its anchor: the fragment in an article.
pub open spec fn spec_page_article(body_fragment: Seq<char>) -> Seq<char> {
    "<article class=\"chapter\">\n"@ + body_fragment + "\n</article>\n"@ + "</body>\n</html>\n"@
}

/// The body of a page: the anchor, if any, then the fragment in an article.
pub open spec fn spec_page_body(body_fragment: Seq<char>, meta: PageMetaView) -> Seq<char> {
    (match meta.anchor {
        Some(a) => anchor_line(a),
        None => seq![],
    }) + spec_page_article(body_fragment)
}

/// The full Apple Help page around `body_fragment`.
pub open spec fn spec_render_page(body_fragment: Seq<char>, meta: PageMetaView, cfg: AppleHelpConfig) -> Seq<char> {
    spec_page_head(meta, cfg) + spec_page_body(body_fragment, meta)
}

/// Appends a `<meta name=".." content="..">` line.
fn push_meta_line(out: &mut String, name: &str, content: &str)
    ensures
        final(out)@ == old(out)@ + meta_line(name@, content@),
{
    out.append("    <meta name=\"");
    out.append(name);
    out.append("\" content=\"");
    let e = escape(content);
    out.append(e.as_str());
    out.append("\">\n");
}

/// The strings of `items` joined by `sep`.
pub fn join_strings(items: &Vec<String>, sep: &str) -> (r: String)
    ensures
        r@ == join(crate::text::strings_view(items@), sep@),
{
    let ghost views = crate::text::strings_view(items@);
    let mut out = String::new();
    let mut i: usize = 0;
    while i < items.len()
        invariant
            i <= items.len(),
            views == crate::text::strings_view(items@),
            out@ == join(views.subrange(0, i as int), sep@),
        decreases items.len() - i,
    {
        if i > 0 {
            out.append(sep);
        }
        out.append(items[i].as_str());
        assert(views.subrange(0, i + 1).drop_last() =~= views.subrange(0, i as int));
        i += 1;
    }
    assert(views.subrange(0, items.len() as int) =~= views);
    out
}

/// Wraps a body fragment in an Apple Help page: language, `AppleTitle`,
/// the optional icon, description and author metadata, the page title, the
/// stylesheet link and the optional named anchor. Every value taken from
/// `meta` or `cfg` is HTML-escaped; the fragment is inserted as it is.
pub fn render_page(body_fragment: &str, meta: &PageMeta<'_>, cfg: &AppleHelpConfig) -> (r: String)
    ensures
        r@ == spec_render_page(body_fragment@, meta@, *cfg),
{
    let mut head = String::new();
    head.append("<!DOCTYPE html>\n");
    head.append("<html lang=\"");
    let lang = escape(meta.language);
    head.append(lang.as_str());
    head.append("\">\n<head>\n");
    head.append("    <meta http-equiv=\"Content-Type\" content=\"text/html; charset=utf-8\">\n");
    push_meta_line(&mut head, "AppleTitle", meta.apple_title);
    if let Some(icon) = &cfg.icon_file {
        push_meta_line(&mut head, "AppleIcon", icon.as_str());
    }
    if cfg.description.as_str().unicode_len() > 0 {
        push_meta_line(&mut head, "description", cfg.description.as_str());
    }
    if cfg.authors.len() > 0 {
        let authors = join_strings(&cfg.authors, ", ");
        push_meta_line(&mut head, "author", authors.as_str());
    }
    head.append("    <title>");
    let title = escape(meta.title);
    head.append(title.as_str());
    head.append("</title>\n");
    head.append("    <link rel=\"stylesheet\" href=\"");
    let stylesheet = escape(meta.stylesheet_relative);
    head.append(stylesheet.as_str());
    head.append("\">\n");
    head.append("</head>\n<body>\n");
    let mut body = String::new();
    if let Some(anchor) = meta.anchor {
        body.append("<a name=\"");
        let a = escape(anchor);
        body.append(a.as_str());
        body.append("\"></a>\n");
    }
    body.append("<article class=\"chapter\">\n");
    body.append(body_fragment);
    body.append("\n</article>\n");
    body.append("</body>\n</html>\n");
    head.append(body.as_str());
    head
}


/// A Markdown event.
#[verifier::external_type_specification]
#[verifier::external_body]
pub struct ExEvent<'a>(Event<'a>);

/// A string of a Markdown event.
#[verifier::external_type_specification]
#[verifier::external_body]
pub struct ExCowStr<'a>(CowStr<'a>);

/// The kind of a Markdown link.
#[verifier::external_type_specification]
#[verifier::external_body]
pub struct ExLinkType(LinkType);

/// The kinds of Markdown link, one for each kind the parser reports.
#[derive(Debug, Clone, Copy, PartialEq, Eq, Structural)]
pub enum LinkKind {
    Inline,
    Reference,
    ReferenceUnknown,
    Collapsed,
    CollapsedUnknown,
    Shortcut,
    ShortcutUnknown,
    Autolink,
    Email,
    WikiLink(bool),
}

impl LinkKind {
    /// Autolinks and e-mail links are kept as written.
    pub open spec fn spec_is_verbatim(self) -> bool {
        self is Autolink || self is Email
    }

    /// Whether links of this kind are kept as written.
    pub fn is_verbatim(&self) -> (r: bool)
        ensures
            r == self.spec_is_verbatim(),
    {
        match self {
            LinkKind::Autolink | LinkKind::Email => true,
            _ => false,
        }
    }
}

/// The parts of the start of a link or an image.
pub struct LinkParts<'a> {
    pub link_type: LinkType,
    pub dest_url: String,
    pub title: CowStr<'a>,
    pub id: CowStr<'a>,
}

/// The start of a link or of an image.
pub enum LinkStart<'a> {
    Link(LinkParts<'a>),
    Image(LinkParts<'a>),
}

/// Takes apart a `pulldown_cmark::Event::Start` of a `Tag::Link` or a
/// `Tag::Image`, its destination converted to a `String`; any other event
/// comes back unchanged. Nothing is stated: events are not modelled.
#[verifier::external_body]
fn link_start<'a>(event: Event<'a>) -> Result<LinkStart<'a>, Event<'a>> {
    match event {
        Event::Start(Tag::Link { link_type, dest_url, title, id }) =>
            Ok(LinkStart::Link(LinkParts { link_type, dest_url: dest_url.into_string(), title, id })),
        Event::Start(Tag::Image { link_type, dest_url, title, id }) =>
            Ok(LinkStart::Image(LinkParts { link_type, dest_url: dest_url.into_string(), title, id })),
        other => Err(other),
    }
}

/// Puts a link or image start back together as a `pulldown_cmark::Event`,
/// its destination converted with `CowStr::from(String)`. Nothing is stated:
/// events are not modelled.
#[verifier::external_body]
fn link_start_event<'a>(start: LinkStart<'a>) -> Event<'a> {
    match start {
        LinkStart::Link(p) => Event::Start(
            Tag::Link { link_type: p.link_type, dest_url: p.dest_url.into(), title: p.title, id: p.id },
        ),
        LinkStart::Image(p) => Event::Start(
            Tag::Image { link_type: p.link_type, dest_url: p.dest_url.into(), title: p.title, id: p.id },
        ),
    }
}

/// The `LinkKind` of a `pulldown_cmark::LinkType`, variant for variant.
/// Nothing is stated: the link type is opaque here.
#[verifier::external_body]
fn link_kind(t: &LinkType) -> LinkKind {
    match *t {
        LinkType::Inline => LinkKind::Inline,
        LinkType::Reference => LinkKind::Reference,
        LinkType::ReferenceUnknown => LinkKind::ReferenceUnknown,
        LinkType::Collapsed => LinkKind::Collapsed,
        LinkType::CollapsedUnknown => LinkKind::CollapsedUnknown,
        LinkType::Shortcut => LinkKind::Shortcut,
        LinkType::ShortcutUnknown => LinkKind::ShortcutUnknown,
        LinkType::Autolink => LinkKind::Autolink,
        LinkType::Email => LinkKind::Email,
        LinkType::WikiLink { has_pothole } => LinkKind::WikiLink(has_pothole),
    }
}

/// The link parts with the destination rewritten for the help bundle: kept
/// as written for an autolink or e-mail link (`kind`), otherwise rewritten by
/// `rewrite_link`; the link type, title and id are kept.
fn relink_parts<'a>(parts: LinkParts<'a>, kind: LinkKind) -> (r: LinkParts<'a>)
    ensures
        r.link_type == parts.link_type,
        r.title == parts.title,
        r.id == parts.id,
        r.dest_url@ == spec_rewrite_link(parts.dest_url@, kind.spec_is_verbatim()),
{
    let dest_url = rewrite_link(parts.dest_url.as_str(), kind.is_verbatim());
    LinkParts { link_type: parts.link_type, dest_url, title: parts.title, id: parts.id }
}

/// The parts of a link or image start.
pub open spec fn start_parts<'a>(start: LinkStart<'a>) -> LinkParts<'a> {
    match start {
        LinkStart::Link(p) => p,
        LinkStart::Image(p) => p,
    }
}

/// A link or image start with its destination rewritten for the help
/// bundle, for the link kind `kind`: a link stays a link and an image an
/// image, with the link type, title and id kept.
fn relink_start<'a>(start: LinkStart<'a>, kind: LinkKind) -> (r: LinkStart<'a>)
    ensures
        (start is Link) <==> (r is Link),
        start_parts(r).link_type == start_parts(start).link_type,
        start_parts(r).title == start_parts(start).title,
        start_parts(r).id == start_parts(start).id,
        start_parts(r).dest_url@ == spec_rewrite_link(start_parts(start).dest_url@, kind.spec_is_verbatim()),
{
    match start {
        LinkStart::Link(parts) => LinkStart::Link(relink_parts(parts, kind)),
        LinkStart::Image(parts) => LinkStart::Image(relink_parts(parts, kind)),
    }
}

/// A Markdown event with the destination of a link or image start
/// rewritten by `relink_start`, for the kind of its link type; other events
/// pass through.
fn relink_event<'a>(event: Event<'a>) -> Event<'a> {
    match link_start(event) {
        Ok(start) => {
            let kind = match &start {
                LinkStart::Link(parts) => link_kind(&parts.link_type),
                LinkStart::Image(parts) => link_kind(&parts.link_type),
            };
            link_start_event(relink_start(start, kind))
        },
        Err(other) => other,
    }
}

/// The parser extensions the pages are rendered with, as
/// `pulldown_cmark::Options` bits: tables (`1 << 1`), footnotes (`1 << 2`),
/// strikethrough (`1 << 3`), task lists (`1 << 4`), smart punctuation
/// (`1 << 5`) and heading attributes (`1 << 6`).
pub const MARKDOWN_OPTIONS: u32 = (1 << 1) | (1 << 2) | (1 << 3) | (1 << 4) | (1 << 5) | (1 << 6);

/// The HTML that `markdown` renders to with the parser options `options`,
/// every event passed through `relink_event`.
pub uninterp spec fn rendered_markdown(markdown: Seq<char>, options: u32) -> Seq<char>;

/// Parses `markdown` with `pulldown_cmark::Parser::new_ext` and the options
/// whose bits are `options` (`Options::from_bits_truncate`), maps every event
/// through the verified `relink_event`, and renders the events with
/// `pulldown_cmark::html::push_html`. The result is a function of the text
/// and the options alone.
#[verifier::external_body]
fn render_markdown(markdown: &str, options: u32) -> (out: String)
    ensures
        out@ == rendered_markdown(markdown@, options),
{
    let events = Parser::new_ext(markdown, Options::from_bits_truncate(options)).map(|event| relink_event(event));
    let mut out = String::new();
    html::push_html(&mut out, events);
    out
}

/// Convert Markdown to an HTML fragment, rewriting internal `.md` links to `.html`.
pub fn markdown_to_html_fragment(markdown: &str) -> (r: String)
    ensures
        r@ == rendered_markdown(markdown@, MARKDOWN_OPTIONS),
{
    render_markdown(markdown, MARKDOWN_OPTIONS)
}

} // verus!
