//! Where each chapter lands in the bundle and what page it becomes.

use vstd::prelude::*;

use crate::config::AppleHelpConfig;
use crate::html::{
    anchor_line, is_escaped_char, lemma_escape_identity, markdown_to_html_fragment, render_page, rendered_markdown,
    spec_escape, spec_page_article, spec_page_preamble, stylesheet_line, MARKDOWN_OPTIONS, spec_render_page,
    PageMeta, PageMetaView,
};
use crate::paths::{
    chars_eq, components, file_start, has_file_name, is_normal, last_index, lemma_last_index, normal_segments,
    root_prefix, segments,
    lemma_last_index_none, lemma_trim_prefix, set_extension, spec_components, spec_set_extension,
    stem_end, trim_trailing,
};
use crate::text::{chars_of, contains_seq, lemma_contains_middle};

verus! {

/// The path with its extension removed.
pub open spec fn strip_extension(p: Seq<char>) -> Seq<char> {
    spec_set_extension(p, seq![])
}

/// `s` repeated `n` times.
pub open spec fn repeat(s: Seq<char>, n: nat) -> Seq<char>
    decreases n,
{
    if n == 0 {
        seq![]
    } else {
        repeat(s, (n - 1) as nat) + s
    }
}

/// `s` with every `\` turned into `/`.
pub open spec fn forward_slashes(s: Seq<char>) -> Seq<char> {
    s.map_values(|c: char| if c == '\\' { '/' } else { c })
}

/// The relative path from a page at `rel_html` to `Shared/style.css`: one
/// `../` per component of `rel_html`.
pub open spec fn spec_stylesheet_relative(rel_html: Seq<char>) -> Seq<char> {
    repeat("../"@, spec_components(rel_html).len()) + "Shared/style.css"@
}

/// `a` is the anchor for the extension-less path `stem`: of the same
/// length, with every backslash of `stem` turned into `/` and every other
/// character kept.
pub open spec fn is_anchor_for(a: Seq<char>, stem: Seq<char>) -> bool {
    &&& a.len() == stem.len()
    &&& forall|i: int| 0 <= i < stem.len() && stem[i] != '\\' ==> #[trigger] a[i] == stem[i]
    &&& forall|i: int| 0 <= i < stem.len() && stem[i] == '\\' ==> #[trigger] a[i] == '/'
}

/// `html` holds a named anchor whose name is the anchor for `stem`.
pub open spec fn holds_anchor_for(html: Seq<char>, stem: Seq<char>) -> bool {
    exists|a: Seq<char>|
        is_anchor_for(a, stem) && #[trigger] contains_seq(html, "<a name=\""@ + spec_escape(a) + "\"></a>\n"@)
}

/// Turning backslashes into `/` gives the anchor of a path.
pub proof fn lemma_forward_slashes_anchor(stem: Seq<char>)
    ensures
        is_anchor_for(forward_slashes(stem), stem),
{
}

/// The path with its extension replaced by `html`.
pub fn with_html_extension(p: &str) -> (r: String)
    ensures
        r@ == spec_set_extension(p@, "html"@),
{
    let cs = chars_of(p);
    set_extension(&cs, "html")
}

/// A chapter's source path and the HTML page named after it are the same
/// page once extensions are set aside: removing the extension of the page
/// path gives back the source path without its extension.
pub proof fn lemma_html_page_same_stem(p: Seq<char>)
    ensures
        strip_extension(spec_set_extension(p, "html"@)) == strip_extension(p),
        spec_components(strip_extension(spec_set_extension(p, "html"@))) == spec_components(strip_extension(p)),
{
    reveal_strlit("html");
    if has_file_name(p) {
        lemma_trim_prefix(p);
        let t = trim_trailing(p);
        let fs = file_start(p);
        let se = stem_end(p);
        let ext = seq!['.'] + "html"@;
        assert(ext =~= seq!['.', 'h', 't', 'm', 'l']);
        let q = p.subrange(0, se) + ext;
        assert(spec_set_extension(p, "html"@) == q);
        lemma_last_index_props(t, '/');
        lemma_last_index_props(t, '.');
        assert(fs <= t.len());
        assert(t.subrange(fs, t.len() as int).len() > 0);
        assert(fs < se <= t.len());
        assert(forall|j: int| 0 <= j < se ==> q[j] == t[j]);
        // Nothing is trimmed from `q`: it ends in `l`.
        assert(q.last() == 'l');
        assert(trim_trailing(q) == q);
        // The file name of `q` starts where that of `p` does.
        let l = last_index(t, '/');
        if l >= 0 {
            lemma_last_index_props(t, '/');
            assert(q[l] == '/');
            assert(forall|j: int| l < j < q.len() ==> q[j] != '/') by {
                assert forall|j: int| l < j < q.len() implies q[j] != '/' by {
                    if j < se {
                        assert(q[j] == t[j]);
                    }
                }
            }
            lemma_last_index(q, '/', l);
        } else {
            lemma_last_index_props(t, '/');
            assert(forall|j: int| 0 <= j < q.len() ==> q[j] != '/') by {
                assert forall|j: int| 0 <= j < q.len() implies q[j] != '/' by {
                    if j < se {
                        assert(q[j] == t[j]);
                    }
                }
            }
            lemma_last_index_none(q, '/');
        }
        assert(file_start(q) == fs);
        // `q` has a file name, whose extension starts at `se`.
        assert(has_file_name(q)) by {
            let f = q.subrange(fs, q.len() as int);
            assert(f.len() >= 5);
            if f == seq!['.'] || f == seq!['.', '.'] {
                assert(f.len() <= 2);
            }
        }
        assert(q[se] == '.');
        lemma_last_index(q, '.', se);
        assert(stem_end(q) == se);
        assert(q.subrange(0, se) =~= p.subrange(0, se));
        assert(strip_extension(q) =~= p.subrange(0, se));
        assert(strip_extension(p) =~= p.subrange(0, se));
    }
}

/// What `last_index` names is an occurrence with none after it, or there
/// is none at all.
proof fn lemma_last_index_props(s: Seq<char>, c: char)
    ensures
        -1 <= last_index(s, c) < s.len(),
        last_index(s, c) >= 0 ==> s[last_index(s, c)] == c,
        forall|j: int| last_index(s, c) < j < s.len() ==> s[j] != c,
    decreases s.len(),
{
    if s.len() > 0 && s.last() != c {
        lemma_last_index_props(s.drop_last(), c);
        assert(forall|j: int| 0 <= j < s.len() - 1 ==> s.drop_last()[j] == s[j]);
    }
}

/// The path with its extension removed.
fn without_extension(p: &str) -> (r: Vec<char>)
    ensures
        r@ == strip_extension(p@),
{
    let cs = chars_of(p);
    let s = set_extension(&cs, "");
    proof {
        reveal_strlit("");
    }
    chars_of(s.as_str())
}

/// Whether two chapter paths name the same page, whatever their
/// extensions: their components agree once the extensions are removed.
pub fn paths_equivalent(a: &str, b: &str) -> (r: bool)
    ensures
        r == (spec_components(strip_extension(a@)) == spec_components(strip_extension(b@))),
{
    let ca = components(&without_extension(a));
    let cb = components(&without_extension(b));
    let ghost sa = spec_components(strip_extension(a@));
    let ghost sb = spec_components(strip_extension(b@));
    if ca.len() != cb.len() {
        return false;
    }
    let mut i: usize = 0;
    while i < ca.len()
        invariant
            sa == spec_components(strip_extension(a@)),
            sb == spec_components(strip_extension(b@)),
            ca.len() == cb.len(),
            ca@.len() == sa.len(),
            cb@.len() == sb.len(),
            forall|k: int| 0 <= k < ca@.len() ==> #[trigger] ca@[k]@ == sa[k],
            forall|k: int| 0 <= k < cb@.len() ==> #[trigger] cb@[k]@ == sb[k],
            i <= ca.len(),
            forall|k: int| 0 <= k < i ==> sa[k] == sb[k],
        decreases ca.len() - i,
    {
        if !chars_eq(&ca[i], &cb[i]) {
            assert(ca@[i as int]@ == sa[i as int]);
            assert(cb@[i as int]@ == sb[i as int]);
            assert(sa[i as int] != sb[i as int]);
            return false;
        }
        i += 1;
    }
    assert(sa =~= sb);
    true
}

/// Build a stable anchor name from a chapter source path.
/// `chapter1/sub-topic.md` → `chapter1/sub-topic`.
pub fn anchor_for_path(p: &str) -> (r: String)
    ensures
        r@ == forward_slashes(strip_extension(p@)),
        is_anchor_for(r@, strip_extension(p@)),
{
    let cs = without_extension(p);
    let mut out = String::new();
    let mut i: usize = 0;
    while i < cs.len()
        invariant
            i <= cs.len(),
            out@ == forward_slashes(cs@.subrange(0, i as int)),
        decreases cs.len() - i,
    {
        let c = cs[i];
        if c == '\\' {
            out.push('/');
        } else {
            out.push(c);
        }
        assert(forward_slashes(cs@.subrange(0, i + 1)) =~= forward_slashes(
            cs@.subrange(0, i as int),
        ).push(if c == '\\' { '/' } else { c }));
        i += 1;
    }
    assert(cs@.subrange(0, cs.len() as int) =~= cs@);
    proof {
        lemma_forward_slashes_anchor(cs@);
    }
    out
}

/// Relative path from a chapter's HTML location back to `Shared/style.css`.
/// `index.html` → `../Shared/style.css`; `chapter-1/sub.html` → `../../Shared/style.css`.
pub fn stylesheet_relative_from(rel_html: &str) -> (r: String)
    ensures
        r@ == spec_stylesheet_relative(rel_html@),
{
    let depth: usize = components(&chars_of(rel_html)).len();
    let mut out = String::new();
    let mut i: usize = 0;
    while i < depth
        invariant
            i <= depth,
            depth == spec_components(rel_html@).len(),
            out@ == repeat("../"@, i as nat),
        decreases depth - i,
    {
        out.append("../");
        i += 1;
    }
    out.append("Shared/style.css");
    out
}


/// A chapter of the book, as the renderer reads it.
pub struct ChapterSource {
    pub name: String,
    pub content: String,
    /// The source path; `None` for a draft chapter.
    pub path: Option<String>,
    pub sub_items: Vec<BookEntry>,
}

/// An item of the book's table of contents.
pub enum BookEntry {
    Chapter(ChapterSource),
    Separator,
    PartTitle(String),
}

/// A page to write: its path relative to the `.lproj` directory and its HTML.
pub struct PagePlan {
    pub rel_html: String,
    pub html: String,
}

/// The pages of a book, in table-of-contents order, and whether one of
/// them became the landing page.
pub struct BookPlan {
    pub pages: Vec<PagePlan>,
    pub landing_assigned: bool,
}

/// How many pages were written.
pub struct WriteSummary {
    pub html_count: usize,
}

/// The chapters under a table-of-contents entry, in reading order (the
/// chapter itself, then its sub-chapters).
pub open spec fn flatten_entry(e: BookEntry) -> Seq<ChapterSource>
    decreases e,
{
    match e {
        BookEntry::Chapter(c) => {
            proof {
                assert(decreases_to!(e => c));
                assert(decreases_to!(c => c.sub_items));
                assert(decreases_to!(c.sub_items => c.sub_items@));
            }
            seq![c] + flatten_entries(c.sub_items@)
        },
        _ => seq![],
    }
}

/// The chapters of a list of entries, in reading order.
pub open spec fn flatten_entries(items: Seq<BookEntry>) -> Seq<ChapterSource>
    decreases items,
{
    if items.len() == 0 {
        seq![]
    } else {
        proof {
            assert(decreases_to!(items => items.last()));
            assert(decreases_to!(items => items.drop_last()));
        }
        flatten_entries(items.drop_last()) + flatten_entry(items.last())
    }
}

/// Whether a chapter at `path` becomes the landing page: the configured
/// landing page, or else the first chapter with a path.
pub open spec fn is_landing(path: Seq<char>, landing: Option<Seq<char>>, assigned: bool) -> bool {
    match landing {
        Some(l) => spec_components(strip_extension(path)) == spec_components(strip_extension(l)),
        None => !assigned,
    }
}

/// The relative path of a chapter's page.
pub open spec fn page_rel_html(path: Seq<char>, landing: bool) -> Seq<char> {
    if landing {
        "index.html"@
    } else {
        spec_set_extension(path, "html"@)
    }
}

/// The page of a chapter at `path`.
pub open spec fn spec_page(c: ChapterSource, path: Seq<char>, landing: bool, cfg: AppleHelpConfig) -> (Seq<char>, Seq<char>) {
    let rel = page_rel_html(path, landing);
    let meta = PageMetaView {
        title: if c.name@.len() == 0 { cfg.title@ } else { c.name@ },
        apple_title: if landing { cfg.title@ } else { c.name@ },
        language: cfg.language@,
        stylesheet_relative: spec_stylesheet_relative(rel),
        anchor: Some(forward_slashes(strip_extension(path))),
    };
    (rel, spec_render_page(rendered_markdown(c.content@, MARKDOWN_OPTIONS), meta, cfg))
}

/// Whether a landing page was assigned once `chs` were rendered, starting
/// from `assigned`.
pub open spec fn assigned_after(chs: Seq<ChapterSource>, landing: Option<Seq<char>>, assigned: bool) -> bool
    decreases chs.len(),
{
    if chs.len() == 0 {
        assigned
    } else {
        let before = assigned_after(chs.drop_last(), landing, assigned);
        match chs.last().path {
            Some(p) => before || is_landing(p@, landing, before),
            None => before,
        }
    }
}

/// The pages of the chapters `chs`, drafts skipped, starting from `assigned`.
pub open spec fn spec_pages(chs: Seq<ChapterSource>, landing: Option<Seq<char>>, assigned: bool, cfg: AppleHelpConfig) -> Seq<(Seq<char>, Seq<char>)>
    decreases chs.len(),
{
    if chs.len() == 0 {
        seq![]
    } else {
        let prev = spec_pages(chs.drop_last(), landing, assigned, cfg);
        let before = assigned_after(chs.drop_last(), landing, assigned);
        match chs.last().path {
            Some(p) => prev.push(spec_page(chs.last(), p@, is_landing(p@, landing, before), cfg)),
            None => prev,
        }
    }
}

/// The chapters that have a path (drafts have none), in order.
pub open spec fn path_chapters(chs: Seq<ChapterSource>) -> Seq<ChapterSource>
    decreases chs.len(),
{
    if chs.len() == 0 {
        seq![]
    } else if chs.last().path is Some {
        path_chapters(chs.drop_last()).push(chs.last())
    } else {
        path_chapters(chs.drop_last())
    }
}

/// The path of a chapter that has one.
pub open spec fn chapter_path(c: ChapterSource) -> Seq<char> {
    match c.path {
        Some(p) => p@,
        None => seq![],
    }
}

/// Whether the `i`-th chapter with a path, at `path`, is the landing page:
/// with a configured landing page, every chapter whose path names the same
/// page; without one, the first chapter.
pub open spec fn landing_flag(landing: Option<Seq<char>>, i: int, path: Seq<char>) -> bool {
    match landing {
        Some(l) => spec_components(strip_extension(path)) == spec_components(strip_extension(l)),
        None => i == 0,
    }
}

/// The pages of a book rendered from `cfg`: one per chapter with a path,
/// in reading order.
pub open spec fn spec_book_pages(items: Seq<BookEntry>, cfg: AppleHelpConfig) -> Seq<(Seq<char>, Seq<char>)> {
    path_chapters(flatten_entries(items)).map(
        |i: int, c: ChapterSource|
            spec_page(c, chapter_path(c), landing_flag(crate::text::opt_view(cfg.landing_page), i, chapter_path(c)), cfg),
    )
}

/// Whether some chapter of the book became the landing page.
pub open spec fn spec_landing_assigned(items: Seq<BookEntry>, cfg: AppleHelpConfig) -> bool {
    let pcs = path_chapters(flatten_entries(items));
    exists|i: int|
        0 <= i < pcs.len() && #[trigger] landing_flag(crate::text::opt_view(cfg.landing_page), i, chapter_path(pcs[i]))
}

/// The chapter-by-chapter rendering gives the pages of `spec_book_pages`.
proof fn lemma_pages_closed_form(chs: Seq<ChapterSource>, landing: Option<Seq<char>>, cfg: AppleHelpConfig)
    ensures
        spec_pages(chs, landing, false, cfg) == path_chapters(chs).map(
            |i: int, c: ChapterSource| spec_page(c, chapter_path(c), landing_flag(landing, i, chapter_path(c)), cfg),
        ),
        assigned_after(chs, landing, false) == exists|i: int|
            0 <= i < path_chapters(chs).len() && #[trigger] landing_flag(landing, i, chapter_path(path_chapters(chs)[i])),
    decreases chs.len(),
{
    if chs.len() > 0 {
        let prev = chs.drop_last();
        lemma_pages_closed_form(prev, landing, cfg);
        let pp = path_chapters(prev);
        let f = |i: int, c: ChapterSource| spec_page(c, chapter_path(c), landing_flag(landing, i, chapter_path(c)), cfg);
        match chs.last().path {
            Some(p) => {
                let pc = path_chapters(chs);
                assert(pc == pp.push(chs.last()));
                assert(pc.map(f) =~= pp.map(f).push(f(pp.len() as int, chs.last())));
                let before = assigned_after(prev, landing, false);
                if landing is None {
                    if before {
                        let i = choose|i: int| 0 <= i < pp.len() && #[trigger] landing_flag(landing, i, chapter_path(pp[i]));
                        assert(pp.len() > 0);
                    } else {
                        if pp.len() > 0 {
                            assert(landing_flag(landing, 0, chapter_path(pp[0])));
                        }
                    }
                    assert(is_landing(p@, landing, before) == landing_flag(landing, pp.len() as int, p@));
                }
                assert(chapter_path(chs.last()) == p@);
                assert forall|i: int| 0 <= i < pp.len() implies pc[i] == pp[i] by {}
                if before {
                    let i = choose|i: int| 0 <= i < pp.len() && #[trigger] landing_flag(landing, i, chapter_path(pp[i]));
                    assert(landing_flag(landing, i, chapter_path(pc[i])));
                }
                if landing_flag(landing, pp.len() as int, p@) {
                    assert(landing_flag(landing, pp.len() as int, chapter_path(pc[pp.len() as int])));
                }
            },
            None => {},
        }
    }
}

/// The text of the planned pages.
pub open spec fn pages_view(pages: Seq<PagePlan>) -> Seq<(Seq<char>, Seq<char>)> {
    pages.map_values(|p: PagePlan| (p.rel_html@, p.html@))
}

/// Rendering two lists of chapters one after the other.
pub proof fn lemma_pages_concat(a: Seq<ChapterSource>, b: Seq<ChapterSource>, landing: Option<Seq<char>>, assigned: bool, cfg: AppleHelpConfig)
    ensures
        spec_pages(a + b, landing, assigned, cfg) == spec_pages(a, landing, assigned, cfg) + spec_pages(
            b,
            landing,
            assigned_after(a, landing, assigned),
            cfg,
        ),
        assigned_after(a + b, landing, assigned) == assigned_after(b, landing, assigned_after(a, landing, assigned)),
    decreases b.len(),
{
    if b.len() == 0 {
        assert(a + b =~= a);
    } else {
        lemma_pages_concat(a, b.drop_last(), landing, assigned, cfg);
        assert((a + b).drop_last() =~= a + b.drop_last());
        assert((a + b).last() == b.last());
    }
}


/// Each character of `../` repeated is `.` or `/`, which escaping keeps.
proof fn lemma_repeat_updirs_plain(n: nat)
    ensures
        forall|i: int| 0 <= i < repeat("../"@, n).len() ==> !is_escaped_char(#[trigger] repeat("../"@, n)[i]),
    decreases n,
{
    reveal_strlit("../");
    if n > 0 {
        lemma_repeat_updirs_plain((n - 1) as nat);
        let a = repeat("../"@, (n - 1) as nat);
        let s = repeat("../"@, n);
        assert forall|i: int| 0 <= i < s.len() implies !is_escaped_char(#[trigger] s[i]) by {
            if i < a.len() {
                assert(s[i] == a[i]);
            } else {
                assert(s[i] == "../"@[i - a.len()]);
            }
        }
    }
}

/// A stylesheet path `../`…`Shared/style.css` is left as it is by escaping.
proof fn lemma_stylesheet_path_plain(n: nat)
    ensures
        spec_escape(repeat("../"@, n) + "Shared/style.css"@) == repeat("../"@, n) + "Shared/style.css"@,
{
    reveal_strlit("Shared/style.css");
    lemma_repeat_updirs_plain(n);
    let a = repeat("../"@, n);
    let b = "Shared/style.css"@;
    let s = a + b;
    assert forall|i: int| 0 <= i < s.len() implies !is_escaped_char(#[trigger] s[i]) by {
        if i < a.len() {
            assert(s[i] == a[i]);
        } else {
            assert(s[i] == b[i - a.len()]);
        }
    }
    lemma_escape_identity(s);
}

/// A path without `/` is one piece.
proof fn lemma_segments_no_slash(s: Seq<char>)
    requires
        forall|i: int| 0 <= i < s.len() ==> s[i] != '/',
    ensures
        segments(s) == seq![s],
    decreases s.len(),
{
    if s.len() == 0 {
        assert(s =~= Seq::<char>::empty());
    } else {
        let p = s.drop_last();
        lemma_segments_no_slash(p);
        let r = segments(p);
        assert(r == seq![p]);
        assert(s.last() != '/');
        assert(p.push(s.last()) =~= s);
        assert(segments(s) == r.update(r.len() - 1, r.last().push(s.last())));
        assert(segments(s) =~= seq![s]);
    }
}

/// `index.html` is a single component.
proof fn lemma_index_html_one_component()
    ensures
        spec_components("index.html"@).len() == 1,
{
    reveal_strlit("index.html");
    let s = "index.html"@;
    lemma_segments_no_slash(s);
    assert(is_normal(s)) by {
        if s == seq!['.'] {
            assert(s.len() == 1);
        }
    }
    assert(seq![s].drop_last() =~= Seq::<Seq<char>>::empty());
    assert(seq![s].last() == s);
    assert(normal_segments(Seq::<Seq<char>>::empty()) == Seq::<Seq<char>>::empty());
    assert(normal_segments(seq![s]) == normal_segments(Seq::<Seq<char>>::empty()).push(s));
    assert(normal_segments(seq![s]) =~= seq![s]);
    assert(root_prefix(s) =~= Seq::<Seq<char>>::empty()) by {
        assert(s[0] == 'i');
        if s == seq!['.'] {
            assert(s.len() == 1);
        }
    }
}

/// The stylesheet link that a page at `rel_html` carries: one `../` per
/// component of the page's own path, then `Shared/style.css`.
pub open spec fn stylesheet_link_for(rel_html: Seq<char>) -> Seq<char> {
    "    <link rel=\"stylesheet\" href=\""@ + repeat("../"@, spec_components(rel_html).len()) + "Shared/style.css"@
        + "\">\n"@
}

/// Every page links the stylesheet by its own location: its HTML holds the
/// link with one `../` per component of the page's path, so the landing
/// page, which is `index.html`, links `../Shared/style.css` wherever its
/// chapter's source lies. Every page also holds the named anchor of its
/// source path: the path without its extension, with only backslashes
/// turned into `/`.
pub proof fn lemma_page_links(c: ChapterSource, path: Seq<char>, landing: bool, cfg: AppleHelpConfig)
    ensures
        landing ==> spec_page(c, path, landing, cfg).0 == "index.html"@,
        contains_seq(spec_page(c, path, landing, cfg).1, stylesheet_link_for(spec_page(c, path, landing, cfg).0)),
        spec_page(c, path, landing, cfg).0 == "index.html"@ ==> contains_seq(
            spec_page(c, path, landing, cfg).1,
            "    <link rel=\"stylesheet\" href=\"../Shared/style.css\">\n"@,
        ),
        holds_anchor_for(spec_page(c, path, landing, cfg).1, strip_extension(path)),
{
    let rel = page_rel_html(path, landing);
    let n = spec_components(rel).len();
    let ss = spec_stylesheet_relative(rel);
    let a = forward_slashes(strip_extension(path));
    let meta = PageMetaView {
        title: if c.name@.len() == 0 { cfg.title@ } else { c.name@ },
        apple_title: if landing { cfg.title@ } else { c.name@ },
        language: cfg.language@,
        stylesheet_relative: ss,
        anchor: Some(a),
    };
    let body = rendered_markdown(c.content@, MARKDOWN_OPTIONS);
    let html = spec_render_page(body, meta, cfg);
    assert(spec_page(c, path, landing, cfg) == (rel, html));
    let pre = spec_page_preamble(meta, cfg);
    let tail = "</head>\n<body>\n"@;
    let article = spec_page_article(body);
    // The stylesheet line.
    lemma_stylesheet_path_plain(n);
    assert(stylesheet_line(ss) == stylesheet_link_for(rel));
    assert(html =~= pre + stylesheet_line(ss) + (tail + anchor_line(a) + article));
    lemma_contains_middle(pre, stylesheet_line(ss), tail + anchor_line(a) + article);
    // The anchor line.
    assert(html =~= (pre + stylesheet_line(ss) + tail) + anchor_line(a) + article);
    lemma_contains_middle(pre + stylesheet_line(ss) + tail, anchor_line(a), article);
    lemma_forward_slashes_anchor(strip_extension(path));
    assert(is_anchor_for(a, strip_extension(path)) && contains_seq(
        spec_page(c, path, landing, cfg).1,
        "<a name=\""@ + spec_escape(a) + "\"></a>\n"@,
    ));
    // The landing page.
    if rel == "index.html"@ {
        lemma_index_html_one_component();
        reveal_strlit("../");
        reveal_strlit("Shared/style.css");
        reveal_strlit("    <link rel=\"stylesheet\" href=\"");
        reveal_strlit("\">\n");
        reveal_strlit("    <link rel=\"stylesheet\" href=\"../Shared/style.css\">\n");
        assert(repeat("../"@, 0) =~= Seq::<char>::empty());
        assert(repeat("../"@, 1) =~= "../"@);
        assert(stylesheet_link_for(rel) =~= "    <link rel=\"stylesheet\" href=\"../Shared/style.css\">\n"@);
    }
}

/// Every planned page of a book links the stylesheet by its own location
/// and holds the anchor of its chapter's source path; without a configured
/// landing page, the first chapter with a path becomes `index.html`.
pub proof fn lemma_book_pages_links(items: Seq<BookEntry>, cfg: AppleHelpConfig)
    ensures
        spec_book_pages(items, cfg).len() == path_chapters(flatten_entries(items)).len(),
        forall|k: int|
            0 <= k < spec_book_pages(items, cfg).len() ==> contains_seq(
                (#[trigger] spec_book_pages(items, cfg)[k]).1,
                stylesheet_link_for(spec_book_pages(items, cfg)[k].0),
            ),
        forall|k: int|
            0 <= k < spec_book_pages(items, cfg).len() && (#[trigger] spec_book_pages(items, cfg)[k]).0
                == "index.html"@ ==> contains_seq(
                spec_book_pages(items, cfg)[k].1,
                "    <link rel=\"stylesheet\" href=\"../Shared/style.css\">\n"@,
            ),
        forall|k: int|
            0 <= k < spec_book_pages(items, cfg).len() ==> holds_anchor_for(
                (#[trigger] spec_book_pages(items, cfg)[k]).1,
                strip_extension(chapter_path(path_chapters(flatten_entries(items))[k])),
            ),
        cfg.landing_page is None && spec_book_pages(items, cfg).len() > 0 ==> spec_book_pages(items, cfg)[0].0
            == "index.html"@,
{
    let pcs = path_chapters(flatten_entries(items));
    let lv = crate::text::opt_view(cfg.landing_page);
    let pages = spec_book_pages(items, cfg);
    assert forall|k: int| 0 <= k < pages.len() implies {
        &&& contains_seq((#[trigger] pages[k]).1, stylesheet_link_for(pages[k].0))
        &&& (pages[k].0 == "index.html"@ ==> contains_seq(
            pages[k].1,
            "    <link rel=\"stylesheet\" href=\"../Shared/style.css\">\n"@,
        ))
        &&& holds_anchor_for(pages[k].1, strip_extension(chapter_path(pcs[k])))
    } by {
        let c = pcs[k];
        let flag = landing_flag(lv, k, chapter_path(c));
        assert(pages[k] == spec_page(c, chapter_path(c), flag, cfg));
        lemma_page_links(c, chapter_path(c), flag, cfg);
    }
    if cfg.landing_page is None && pages.len() > 0 {
        let c = pcs[0];
        assert(pages[0] == spec_page(c, chapter_path(c), landing_flag(lv, 0, chapter_path(c)), cfg));
        lemma_page_links(c, chapter_path(c), true, cfg);
    }
}

/// The page of one chapter at `path`, and whether it is the landing page.
fn plan_page(ch: &ChapterSource, path: &str, cfg: &AppleHelpConfig, landing: Option<&str>, assigned: bool) -> (r: (PagePlan, bool))
    ensures
        r.1 == is_landing(path@, crate::text::opt_view_str(landing), assigned),
        (r.0.rel_html@, r.0.html@) == spec_page(*ch, path@, r.1, *cfg),
{
    let is_landing = match landing {
        Some(l) => paths_equivalent(path, l),
        None => !assigned,
    };
    let rel_html = if is_landing {
        String::from_str("index.html")
    } else {
        with_html_extension(path)
    };
    let body = markdown_to_html_fragment(ch.content.as_str());
    let anchor = anchor_for_path(path);
    let stylesheet = stylesheet_relative_from(rel_html.as_str());
    let apple_title = if is_landing {
        cfg.title.as_str()
    } else {
        ch.name.as_str()
    };
    let page_title = if ch.name.as_str().is_empty() {
        cfg.title.as_str()
    } else {
        ch.name.as_str()
    };
    let meta = PageMeta {
        title: page_title,
        apple_title,
        language: cfg.language.as_str(),
        stylesheet_relative: stylesheet.as_str(),
        anchor: Some(anchor.as_str()),
    };
    let html = render_page(body.as_str(), &meta, cfg);
    (PagePlan { rel_html, html }, is_landing)
}

/// Appends the pages of a chapter and of its sub-chapters.
fn plan_chapter(
    ch: &ChapterSource,
    cfg: &AppleHelpConfig,
    landing: Option<&str>,
    assigned: &mut bool,
    pages: &mut Vec<PagePlan>,
)
    ensures
        pages_view(final(pages)@) == pages_view(old(pages)@) + spec_pages(
            seq![*ch] + flatten_entries(ch.sub_items@),
            crate::text::opt_view_str(landing),
            *old(assigned),
            *cfg,
        ),
        *final(assigned) == assigned_after(
            seq![*ch] + flatten_entries(ch.sub_items@),
            crate::text::opt_view_str(landing),
            *old(assigned),
        ),
    decreases ch, 1int,
{
    let ghost lv = crate::text::opt_view_str(landing);
    let ghost a0 = *assigned;
    let ghost p0 = pages_view(pages@);
    let ghost one = seq![*ch];
    proof {
        assert(one.drop_last() =~= Seq::<ChapterSource>::empty());
        assert(one.last() == *ch);
        assert(spec_pages(one.drop_last(), lv, a0, *cfg) == Seq::<(Seq<char>, Seq<char>)>::empty());
        assert(assigned_after(one.drop_last(), lv, a0) == a0);
    }
    let ghost old_pages = pages@;
    if let Some(path) = &ch.path {
        let (page, is_landing) = plan_page(ch, path.as_str(), cfg, landing, *assigned);
        let ghost pv = (page.rel_html@, page.html@);
        pages.push(page);
        if is_landing {
            *assigned = true;
        }
        assert(pages_view(pages@) =~= pages_view(old_pages).push(pv));
        assert(spec_pages(one, lv, a0, *cfg) =~= seq![pv]);
        assert(pages_view(pages@) =~= p0 + spec_pages(one, lv, a0, *cfg));
    } else {
        assert(spec_pages(one, lv, a0, *cfg) =~= Seq::<(Seq<char>, Seq<char>)>::empty());
        assert(pages_view(pages@) =~= p0 + spec_pages(one, lv, a0, *cfg));
    }
    assert(*assigned == assigned_after(seq![*ch], lv, a0));
    let ghost a1 = *assigned;
    let ghost p1 = pages_view(pages@);
    plan_entries(&ch.sub_items, cfg, landing, assigned, pages);
    proof {
        lemma_pages_concat(seq![*ch], flatten_entries(ch.sub_items@), lv, a0, *cfg);
    }
}

/// Appends the pages of a list of entries, in reading order.
fn plan_entries(
    items: &Vec<BookEntry>,
    cfg: &AppleHelpConfig,
    landing: Option<&str>,
    assigned: &mut bool,
    pages: &mut Vec<PagePlan>,
)
    ensures
        pages_view(final(pages)@) == pages_view(old(pages)@) + spec_pages(
            flatten_entries(items@),
            crate::text::opt_view_str(landing),
            *old(assigned),
            *cfg,
        ),
        *final(assigned) == assigned_after(
            flatten_entries(items@),
            crate::text::opt_view_str(landing),
            *old(assigned),
        ),
    decreases items@, 0int,
{
    let ghost lv = crate::text::opt_view_str(landing);
    let ghost a0 = *assigned;
    let ghost p0 = pages_view(pages@);
    let mut i: usize = 0;
    assert(items@.subrange(0, 0) =~= Seq::<BookEntry>::empty());
    while i < items.len()
        invariant
            i <= items.len(),
            lv == crate::text::opt_view_str(landing),
            pages_view(pages@) == p0 + spec_pages(flatten_entries(items@.subrange(0, i as int)), lv, a0, *cfg),
            *assigned == assigned_after(flatten_entries(items@.subrange(0, i as int)), lv, a0),
        decreases items.len() - i,
    {
        let ghost done = flatten_entries(items@.subrange(0, i as int));
        let ghost a_mid = *assigned;
        let ghost p_mid = pages_view(pages@);
        match &items[i] {
            BookEntry::Chapter(ch) => {
                assert(decreases_to!(items@ => items@[i as int]));
                plan_chapter(ch, cfg, landing, assigned, pages);
            },
            _ => {},
        }
        proof {
            let next = items@.subrange(0, i + 1);
            assert(next.drop_last() =~= items@.subrange(0, i as int));
            assert(next.last() == items@[i as int]);
            assert(flatten_entries(next) == done + flatten_entry(items@[i as int]));
            lemma_pages_concat(done, flatten_entry(items@[i as int]), lv, a0, *cfg);
            match items@[i as int] {
                BookEntry::Chapter(c) => {},
                _ => {
                    assert(flatten_entry(items@[i as int]) =~= Seq::<ChapterSource>::empty());
                    assert(done + Seq::<ChapterSource>::empty() =~= done);
                },
            }
        }
        i += 1;
    }
    assert(items@.subrange(0, items.len() as int) =~= items@);
}

/// The pages of the book, in reading order: one per chapter with a path
/// (drafts, separators and part titles give none). The configured
/// `landing-page` chapters, or else the first chapter, become `index.html`.
pub fn plan_book(items: &Vec<BookEntry>, cfg: &AppleHelpConfig) -> (r: BookPlan)
    ensures
        pages_view(r.pages@) == spec_book_pages(items@, *cfg),
        r.landing_assigned == spec_landing_assigned(items@, *cfg),
{
    let mut pages: Vec<PagePlan> = Vec::new();
    let mut assigned = false;
    let landing = match &cfg.landing_page {
        Some(l) => Some(l.as_str()),
        None => None,
    };
    plan_entries(items, cfg, landing, &mut assigned, &mut pages);
    assert(pages_view(Seq::<PagePlan>::empty()) =~= Seq::<(Seq<char>, Seq<char>)>::empty());
    proof {
        lemma_pages_closed_form(flatten_entries(items@), crate::text::opt_view(cfg.landing_page), *cfg);
    }
    BookPlan { pages, landing_assigned: assigned }
}

impl BookPlan {
    /// The number of pages written for this plan.
    pub fn summary(&self) -> (r: WriteSummary)
        ensures
            r.html_count == self.pages@.len(),
    {
        WriteSummary { html_count: self.pages.len() }
    }
}

} // verus!
