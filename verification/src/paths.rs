//! `/`-separated relative paths, modelled on how `std::path::Path` reads
//! them on Unix: the file name is the last normal component, the extension
//! follows its last `.` (a leading `.` starts no extension), and two paths
//! are the same when their components are.

use vstd::prelude::*;

use crate::text::push_range;

verus! {

/// Position of the last `c` in `s`, or -1.
pub open spec fn last_index(s: Seq<char>, c: char) -> int
    decreases s.len(),
{
    if s.len() == 0 {
        -1
    } else if s.last() == c {
        s.len() - 1
    } else {
        last_index(s.drop_last(), c)
    }
}

/// A last occurrence is the one `last_index` names.
pub proof fn lemma_last_index(s: Seq<char>, c: char, k: int)
    requires
        0 <= k < s.len(),
        s[k] == c,
        forall|j: int| k < j < s.len() ==> s[j] != c,
    ensures
        last_index(s, c) == k,
    decreases s.len(),
{
    if s.last() != c {
        lemma_last_index(s.drop_last(), c, k);
    }
}

/// Without an occurrence, `last_index` is -1.
pub proof fn lemma_last_index_none(s: Seq<char>, c: char)
    requires
        forall|j: int| 0 <= j < s.len() ==> s[j] != c,
    ensures
        last_index(s, c) == -1,
    decreases s.len(),
{
    if s.len() > 0 {
        lemma_last_index_none(s.drop_last(), c);
    }
}

/// `s` without trailing separators and trailing `.` components.
pub open spec fn trim_trailing(s: Seq<char>) -> Seq<char>
    decreases s.len(),
{
    if s.len() > 0 && s.last() == '/' {
        trim_trailing(s.drop_last())
    } else if s.len() >= 2 && s.last() == '.' && s[s.len() - 2] == '/' {
        trim_trailing(s.drop_last())
    } else {
        s
    }
}

/// Trimming keeps a prefix of the path.
pub proof fn lemma_trim_prefix(s: Seq<char>)
    ensures
        trim_trailing(s).len() <= s.len(),
        trim_trailing(s) == s.subrange(0, trim_trailing(s).len() as int),
    decreases s.len(),
{
    if (s.len() > 0 && s.last() == '/') || (s.len() >= 2 && s.last() == '.' && s[s.len() - 2] == '/') {
        lemma_trim_prefix(s.drop_last());
        assert(trim_trailing(s) == trim_trailing(s.drop_last()));
        assert(s.drop_last().subrange(0, trim_trailing(s).len() as int) =~= s.subrange(
            0,
            trim_trailing(s).len() as int,
        ));
    } else {
        assert(s.subrange(0, s.len() as int) =~= s);
    }
}

/// Where the file name starts: just after the last separator of the trimmed path.
pub open spec fn file_start(s: Seq<char>) -> int {
    last_index(trim_trailing(s), '/') + 1
}

/// The last component of the path.
pub open spec fn file_name(s: Seq<char>) -> Seq<char> {
    trim_trailing(s).subrange(file_start(s), trim_trailing(s).len() as int)
}

/// The path has a file name: its last component is neither empty, `.` nor `..`.
pub open spec fn has_file_name(s: Seq<char>) -> bool {
    let f = file_name(s);
    f.len() > 0 && f != seq!['.'] && f != seq!['.', '.']
}

/// Where the file stem ends: at the last `.` of the file name, unless that
/// `.` is its first character or there is none.
pub open spec fn stem_end(s: Seq<char>) -> int {
    let d = last_index(trim_trailing(s), '.');
    if d > file_start(s) {
        d
    } else {
        trim_trailing(s).len() as int
    }
}

/// The path with its extension replaced by `ext` (removed when `ext` is
/// empty), as `PathBuf::set_extension` does; unchanged without a file name.
pub open spec fn spec_set_extension(s: Seq<char>, ext: Seq<char>) -> Seq<char> {
    if has_file_name(s) {
        s.subrange(0, stem_end(s)) + (if ext.len() > 0 {
            seq!['.'] + ext
        } else {
            seq![]
        })
    } else {
        s
    }
}

/// Position of the last `c` before `end`.
fn rfind(v: &Vec<char>, end: usize, c: char) -> (r: Option<usize>)
    requires
        end <= v.len(),
    ensures
        match r {
            Some(k) => k < end && v@[k as int] == c && forall|j: int| k < j < end ==> v@[j] != c,
            None => forall|j: int| 0 <= j < end ==> v@[j] != c,
        },
{
    let mut i: usize = end;
    while i > 0
        invariant
            i <= end <= v.len(),
            forall|j: int| i <= j < end ==> v@[j] != c,
        decreases i,
    {
        if v[i - 1] == c {
            return Some(i - 1);
        }
        i -= 1;
    }
    None
}

/// `rfind` as `last_index` of the prefix.
proof fn lemma_rfind(v: Seq<char>, end: int, c: char, r: Option<usize>)
    requires
        0 <= end <= v.len(),
        match r {
            Some(k) => k < end && v[k as int] == c && forall|j: int| k < j < end ==> v[j] != c,
            None => forall|j: int| 0 <= j < end ==> v[j] != c,
        },
    ensures
        last_index(v.subrange(0, end), c) == match r {
            Some(k) => k as int,
            None => -1,
        },
{
    match r {
        Some(k) => lemma_last_index(v.subrange(0, end), c, k as int),
        None => lemma_last_index_none(v.subrange(0, end), c),
    }
}

/// The characters of `p` with the extension replaced by `ext`, following
/// `PathBuf::set_extension`.
pub fn set_extension(p: &Vec<char>, ext: &str) -> (r: String)
    ensures
        r@ == spec_set_extension(p@, ext@),
{
    let mut end: usize = p.len();
    assert(p@.subrange(0, p.len() as int) =~= p@);
    while end > 0
        invariant_except_break
            end <= p.len(),
            trim_trailing(p@.subrange(0, end as int)) == trim_trailing(p@),
        ensures
            end <= p.len(),
            trim_trailing(p@) == p@.subrange(0, end as int),
        decreases end,
    {
        let ghost u = p@.subrange(0, end as int);
        if p[end - 1] == '/' || (end >= 2 && p[end - 1] == '.' && p[end - 2] == '/') {
            assert(u.drop_last() =~= p@.subrange(0, end - 1));
            end -= 1;
        } else {
            assert(trim_trailing(u) == u);
            break;
        }
    }
    let ghost t = p@.subrange(0, end as int);
    assert(trim_trailing(p@) == t);
    let slash = rfind(p, end, '/');
    proof {
        lemma_rfind(p@, end as int, '/', slash);
    }
    let start: usize = match slash {
        Some(k) => k + 1,
        None => 0,
    };
    assert(start == file_start(p@));
    let flen: usize = end - start;
    let is_name = flen > 0 && !(flen == 1 && p[start] == '.') && !(flen == 2 && p[start] == '.'
        && p[start + 1] == '.');
    proof {
        let f = file_name(p@);
        assert(f =~= p@.subrange(start as int, end as int));
        if flen == 1 && p@[start as int] == '.' {
            assert(f =~= seq!['.']);
        }
        if flen == 2 && p@[start as int] == '.' && p@[start + 1] == '.' {
            assert(f =~= seq!['.', '.']);
        }
        if f == seq!['.'] {
            assert(f[0] == '.');
        }
        if f == seq!['.', '.'] {
            assert(f[0] == '.' && f[1] == '.');
        }
        assert(is_name == has_file_name(p@));
    }
    let mut out = String::new();
    if !is_name {
        push_range(&mut out, p, 0, p.len());
        return out;
    }
    let dot = rfind(p, end, '.');
    proof {
        lemma_rfind(p@, end as int, '.', dot);
    }
    let stem: usize = match dot {
        Some(d) => if d > start {
            d
        } else {
            end
        },
        None => end,
    };
    assert(stem == stem_end(p@));
    push_range(&mut out, p, 0, stem);
    if ext.unicode_len() > 0 {
        out.push('.');
        out.append(ext);
    }
    out
}

/// The `/`-separated pieces of `s`, empty ones included.
pub open spec fn segments(s: Seq<char>) -> Seq<Seq<char>>
    decreases s.len(),
{
    if s.len() == 0 {
        seq![seq![]]
    } else {
        let r = segments(s.drop_last());
        if s.last() == '/' {
            r.push(seq![])
        } else {
            r.update(r.len() - 1, r.last().push(s.last()))
        }
    }
}

/// A piece that names something: neither empty nor `.`.
pub open spec fn is_normal(seg: Seq<char>) -> bool {
    seg.len() > 0 && seg != seq!['.']
}

/// The pieces that name something, in order.
pub open spec fn normal_segments(segs: Seq<Seq<char>>) -> Seq<Seq<char>>
    decreases segs.len(),
{
    if segs.len() == 0 {
        seq![]
    } else if is_normal(segs.last()) {
        normal_segments(segs.drop_last()).push(segs.last())
    } else {
        normal_segments(segs.drop_last())
    }
}

/// The root (`/`) or current-directory (`.`) component a path starts with.
pub open spec fn root_prefix(s: Seq<char>) -> Seq<Seq<char>> {
    if s.len() > 0 && s[0] == '/' {
        seq![seq!['/']]
    } else if s == seq!['.'] || (s.len() >= 2 && s[0] == '.' && s[1] == '/') {
        seq![seq!['.']]
    } else {
        seq![]
    }
}

/// The components of a path, as `Path::components` yields them.
pub open spec fn spec_components(s: Seq<char>) -> Seq<Seq<char>> {
    root_prefix(s) + normal_segments(segments(s))
}

/// The components of the path `p`.
pub fn components(p: &Vec<char>) -> (r: Vec<Vec<char>>)
    ensures
        r@.len() == spec_components(p@).len(),
        forall|k: int| 0 <= k < r@.len() ==> #[trigger] r@[k]@ == spec_components(p@)[k],
{
    let mut out: Vec<Vec<char>> = Vec::new();
    let ghost mut views: Seq<Seq<char>> = seq![];
    if p.len() > 0 && p[0] == '/' {
        out.push(vec!['/']);
        proof {
            views = seq![seq!['/']];
        }
    } else if (p.len() == 1 && p[0] == '.') || (p.len() >= 2 && p[0] == '.' && p[1] == '/') {
        out.push(vec!['.']);
        proof {
            views = seq![seq!['.']];
            if p.len() == 1 {
                assert(p@ =~= seq!['.']);
            }
        }
    } else {
        proof {
            if p@ == seq!['.'] {
                assert(p@[0] == '.');
            }
        }
    }
    assert(views == root_prefix(p@));
    let ghost prefix = views;
    let ghost mut done: Seq<Seq<char>> = seq![];
    let mut seg_start: usize = 0;
    let mut i: usize = 0;
    assert(p@.subrange(0, 0) =~= Seq::<char>::empty());
    assert(segments(p@.subrange(0, 0)) =~= done.push(p@.subrange(0, 0)));
    while i < p.len()
        invariant
            seg_start <= i <= p.len(),
            segments(p@.subrange(0, i as int)) == done.push(p@.subrange(seg_start as int, i as int)),
            views == prefix + normal_segments(done),
            out@.len() == views.len(),
            forall|k: int| 0 <= k < out@.len() ==> #[trigger] out@[k]@ == views[k],
        decreases p.len() - i,
    {
        let ghost u = p@.subrange(0, i + 1);
        assert(u.drop_last() =~= p@.subrange(0, i as int));
        let ghost cur = p@.subrange(seg_start as int, i as int);
        if p[i] == '/' {
            let n: usize = i - seg_start;
            if n > 0 && !(n == 1 && p[seg_start] == '.') {
                let mut seg: Vec<char> = Vec::new();
                push_chars(&mut seg, p, seg_start, i);
                out.push(seg);
                proof {
                    assert(is_normal(cur)) by {
                        if cur == seq!['.'] {
                            assert(cur[0] == p@[seg_start as int]);
                        }
                    }
                    assert(done.push(cur).drop_last() =~= done);
                    views = views.push(cur);
                }
            } else {
                proof {
                    assert(!is_normal(cur)) by {
                        if n == 1 {
                            assert(cur =~= seq!['.']);
                        }
                    }
                    assert(done.push(cur).drop_last() =~= done);
                }
            }
            proof {
                done = done.push(cur);
                assert(p@.subrange(i + 1, i + 1) =~= Seq::<char>::empty());
                assert(segments(u) =~= done.push(p@.subrange(i + 1, i + 1)));
            }
            seg_start = i + 1;
        } else {
            proof {
                assert(p@.subrange(seg_start as int, i + 1) =~= cur.push(p@[i as int]));
                assert(segments(u) =~= done.push(p@.subrange(seg_start as int, i + 1)));
            }
        }
        i += 1;
    }
    assert(p@.subrange(0, p.len() as int) =~= p@);
    let ghost cur = p@.subrange(seg_start as int, p.len() as int);
    let ghost all = done.push(cur);
    assert(all.drop_last() =~= done);
    let n: usize = p.len() - seg_start;
    if n > 0 && !(n == 1 && p[seg_start] == '.') {
        let mut seg: Vec<char> = Vec::new();
        push_chars(&mut seg, p, seg_start, p.len());
        out.push(seg);
        proof {
            assert(is_normal(cur)) by {
                if cur == seq!['.'] {
                    assert(cur[0] == p@[seg_start as int]);
                }
            }
            views = views.push(cur);
        }
    } else {
        proof {
            assert(!is_normal(cur)) by {
                if n == 1 {
                    assert(cur =~= seq!['.']);
                }
            }
        }
    }
    assert(views =~= spec_components(p@));
    out
}

/// Appends the characters `v[from..to]` to `out`.
fn push_chars(out: &mut Vec<char>, v: &Vec<char>, from: usize, to: usize)
    requires
        from <= to <= v.len(),
    ensures
        final(out)@ == old(out)@ + v@.subrange(from as int, to as int),
{
    let mut i: usize = from;
    while i < to
        invariant
            from <= i <= to <= v.len(),
            out@ == old(out)@ + v@.subrange(from as int, i as int),
        decreases to - i,
    {
        out.push(v[i]);
        assert(v@.subrange(from as int, i + 1) =~= v@.subrange(from as int, i as int).push(v@[i as int]));
        i += 1;
    }
}

/// Whether two character vectors are equal.
pub fn chars_eq(a: &Vec<char>, b: &Vec<char>) -> (r: bool)
    ensures
        r == (a@ == b@),
{
    if a.len() != b.len() {
        return false;
    }
    let mut i: usize = 0;
    while i < a.len()
        invariant
            a.len() == b.len(),
            i <= a.len(),
            forall|j: int| 0 <= j < i ==> a@[j] == b@[j],
        decreases a.len() - i,
    {
        if a[i] != b[i] {
            assert(a@[i as int] != b@[i as int]);
            return false;
        }
        i += 1;
    }
    assert(a@ =~= b@);
    true
}

} // verus!
