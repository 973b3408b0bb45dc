//! A model of `/`-separated file system paths held as text.
//!
//! The operations follow the rules of `std::path::Path` on Unix for the cases
//! the bundler meets: joining a relative or an absolute path, replacing the
//! extension of the last component, and taking the last component and the
//! parent. Trailing separators and trailing `.` components are ignored when
//! the last component is looked up; a path whose last component is empty,
//! `.` or `..` has no file name.
use vstd::prelude::*;

use crate::text::{holds_char, same_text};

verus! {

/// Whether the path ends in a `.` component, that is in `/.`.
pub open spec fn ends_in_dot_component(p: Seq<char>) -> bool {
    p.len() >= 2 && p.last() == '.' && p[p.len() - 2] == '/'
}

/// The path with its trailing `/` characters and `.` components removed.
pub open spec fn trim_end_components(p: Seq<char>) -> Seq<char>
    decreases p.len(),
{
    if p.len() > 0 && (p.last() == '/' || ends_in_dot_component(p)) {
        trim_end_components(p.drop_last())
    } else {
        p
    }
}

/// The index of the last occurrence of `c` in `s`, or -1 when there is none.
pub open spec fn last_index_of(s: Seq<char>, c: char) -> int
    decreases s.len(),
{
    if s.len() == 0 {
        -1
    } else if s.last() == c {
        s.len() - 1
    } else {
        last_index_of(s.drop_last(), c)
    }
}

/// Where the last component of the path begins.
pub open spec fn name_start(p: Seq<char>) -> int {
    last_index_of(trim_end_components(p), '/') + 1
}

/// The text of the last component of the path (possibly empty, `.` or `..`).
pub open spec fn last_component(p: Seq<char>) -> Seq<char> {
    let t = trim_end_components(p);
    t.subrange(name_start(p), t.len() as int)
}

/// Whether the path ends in a component that names a file.
pub open spec fn has_file_name(p: Seq<char>) -> bool {
    let n = last_component(p);
    n.len() > 0 && n != seq!['.'] && n != seq!['.', '.']
}

/// The last component of the path, when it names a file.
pub open spec fn spec_file_name(p: Seq<char>) -> Option<Seq<char>> {
    if has_file_name(p) {
        Some(last_component(p))
    } else {
        None
    }
}

/// The length of the stem of a file name: the name up to its last `.`, unless
/// that `.` is the first character, in which case the whole name.
pub open spec fn stem_len(name: Seq<char>) -> int {
    let d = last_index_of(name, '.');
    if d > 0 {
        d
    } else {
        name.len() as int
    }
}

/// The stem of the path's file name.
pub open spec fn spec_file_stem(p: Seq<char>) -> Seq<char> {
    last_component(p).take(stem_len(last_component(p)))
}

/// The path with the extension of its file name replaced by `ext` (removed
/// when `ext` is empty); a path without a file name is left as it is.
pub open spec fn spec_with_extension(p: Seq<char>, ext: Seq<char>) -> Seq<char> {
    if !has_file_name(p) {
        p
    } else {
        p.take(name_start(p) + stem_len(last_component(p))) + if ext.len() == 0 {
            Seq::<char>::empty()
        } else {
            seq!['.'] + ext
        }
    }
}

/// `b` appended to `a` as a further component; an absolute `b` replaces `a`.
pub open spec fn spec_join(a: Seq<char>, b: Seq<char>) -> Seq<char> {
    if b.len() > 0 && b[0] == '/' {
        b
    } else if a.len() == 0 || a.last() == '/' {
        a + b
    } else {
        a + seq!['/'] + b
    }
}

/// A character of a Windows path as this model reads it: `\` separates
/// components there as `/` does.
pub open spec fn forward_slash(c: char) -> char {
    if c == '\\' {
        '/'
    } else {
        c
    }
}

/// A Windows path written with `/` alone: each `\` made a `/`.
pub open spec fn forward_slashes(p: Seq<char>) -> Seq<char> {
    p.map_values(|c: char| forward_slash(c))
}

/// The path without its last component, or `None` for an empty path or the root.
pub open spec fn spec_parent(p: Seq<char>) -> Option<Seq<char>> {
    let t = trim_end_components(p);
    if t.len() == 0 {
        None
    } else {
        let pre = t.take(name_start(p));
        let pt = trim_end_components(pre);
        if pt.len() == 0 && pre.len() > 0 {
            Some(seq!['/'])
        } else {
            Some(pt)
        }
    }
}

proof fn lemma_trim_is_prefix(p: Seq<char>)
    ensures
        trim_end_components(p).len() <= p.len(),
        trim_end_components(p) =~= p.take(trim_end_components(p).len() as int),
        trim_end_components(p).len() > 0 ==> trim_end_components(p).last() != '/',
        !ends_in_dot_component(trim_end_components(p)),
    decreases p.len(),
{
    if p.len() > 0 && (p.last() == '/' || ends_in_dot_component(p)) {
        lemma_trim_is_prefix(p.drop_last());
    }
}

pub(crate) proof fn lemma_last_index_bounds(s: Seq<char>, c: char)
    ensures
        -1 <= last_index_of(s, c) < s.len(),
        last_index_of(s, c) >= 0 ==> s[last_index_of(s, c)] == c,
        forall|j: int| last_index_of(s, c) < j < s.len() ==> s[j] != c,
    decreases s.len(),
{
    if s.len() > 0 && s.last() != c {
        lemma_last_index_bounds(s.drop_last(), c);
        assert forall|j: int| last_index_of(s, c) < j < s.len() implies s[j] != c by {
            if j < s.len() - 1 {
                assert(s[j] == s.drop_last()[j]);
            }
        }
    }
}

/// The number of characters left once the trailing `/` characters and `.`
/// components are removed.
fn trimmed_len(p: &str) -> (n: usize)
    ensures
        n == trim_end_components(p@).len(),
        n <= p@.len(),
        trim_end_components(p@) =~= p@.take(n as int),
{
    let mut i = p.unicode_len();
    assert(p@.take(i as int) =~= p@);
    while i > 0 && (p.get_char(i - 1) == '/' || (i >= 2 && p.get_char(i - 1) == '.' && p.get_char(
        i - 2,
    ) == '/'))
        invariant
            i <= p@.len(),
            trim_end_components(p@) == trim_end_components(p@.take(i as int)),
        decreases i,
    {
        assert(p@.take(i as int).drop_last() =~= p@.take(i - 1));
        i = i - 1;
    }
    i
}

/// One past the index of the last `c` among the first `end` characters of
/// `s`, or 0 when there is none.
fn last_index_before(s: &str, end: usize, c: char) -> (r: usize)
    requires
        end <= s@.len(),
    ensures
        r as int == last_index_of(s@.take(end as int), c) + 1,
        r <= end,
{
    let mut j = end;
    while j > 0 && s.get_char(j - 1) != c
        invariant
            j <= end <= s@.len(),
            last_index_of(s@.take(end as int), c) == last_index_of(s@.take(j as int), c),
        decreases j,
    {
        assert(s@.take(j as int).drop_last() =~= s@.take(j - 1));
        j = j - 1;
    }
    j
}

/// The text of `s` as an owned string.
pub fn owned(s: &str) -> (r: String)
    ensures
        r@ == s@,
{
    String::from_str(s)
}

/// `b` appended to `a` as a further path component.
pub fn join(a: &str, b: &str) -> (r: String)
    ensures
        r@ == spec_join(a@, b@),
{
    let bl = b.unicode_len();
    if bl > 0 && b.get_char(0) == '/' {
        return String::from_str(b);
    }
    let al = a.unicode_len();
    let mut r = String::from_str(a);
    if al == 0 || a.get_char(al - 1) == '/' {
        r.append(b);
    } else {
        proof {
            reveal_strlit("/");
        }
        r.append("/");
        r.append(b);
    }
    r
}

/// A Windows path written with `/` alone: each `\` made a `/`, the
/// separator the rest of this model reads.
pub fn to_forward_slashes(p: &str) -> (r: String)
    ensures
        r@ == forward_slashes(p@),
{
    proof {
        reveal_strlit("/");
    }
    let n = p.unicode_len();
    let mut r = String::new();
    let mut i: usize = 0;
    assert(forward_slashes(p@.take(0)) =~= Seq::<char>::empty());
    while i < n
        invariant
            n == p@.len(),
            i <= n,
            r@ == forward_slashes(p@.take(i as int)),
            "/"@ == seq!['/'],
        decreases n - i,
    {
        let c = p.get_char(i);
        if c == '\\' {
            r.append("/");
        } else {
            let one = p.substring_char(i, i + 1);
            assert(one@ =~= seq![c]);
            r.append(one);
        }
        assert(forward_slashes(p@.take(i + 1)) =~= forward_slashes(p@.take(i as int)).push(
            forward_slash(c),
        ));
        i = i + 1;
    }
    assert(p@.take(n as int) =~= p@);
    r
}

/// The last component of `p` and where it begins.
fn split_last_component(p: &str) -> (r: (usize, usize))
    ensures
        r.0 as int == name_start(p@),
        r.1 as int == trim_end_components(p@).len(),
        r.0 <= r.1 <= p@.len(),
        trim_end_components(p@) =~= p@.take(r.1 as int),
{
    let t = trimmed_len(p);
    let s = last_index_before(p, t, '/');
    (s, t)
}

fn is_file_name(name: &str) -> (r: bool)
    ensures
        r == (name@.len() > 0 && name@ != seq!['.'] && name@ != seq!['.', '.']),
{
    proof {
        reveal_strlit(".");
        reveal_strlit("..");
        assert("."@ =~= seq!['.']);
        assert(".."@ =~= seq!['.', '.']);
    }
    name.unicode_len() > 0 && !same_text(name, ".") && !same_text(name, "..")
}

/// The last component of `p`, when it names a file.
pub fn file_name(p: &str) -> (r: Option<String>)
    ensures
        r matches Some(s) ==> spec_file_name(p@) == Some(s@),
        r is None ==> spec_file_name(p@) is None,
{
    let (s, t) = split_last_component(p);
    let name = p.substring_char(s, t);
    assert(name@ =~= last_component(p@));
    if is_file_name(name) {
        Some(String::from_str(name))
    } else {
        None
    }
}

/// `p` with the extension of its file name replaced by `ext`, or removed when
/// `ext` is empty.
pub fn with_extension(p: &str, ext: &str) -> (r: String)
    ensures
        r@ == spec_with_extension(p@, ext@),
{
    let (s, t) = split_last_component(p);
    let name = p.substring_char(s, t);
    assert(name@ =~= last_component(p@));
    if !is_file_name(name) {
        return String::from_str(p);
    }
    let n = name.unicode_len();
    let d = last_index_before(name, n, '.');
    assert(name@.take(n as int) =~= name@);
    let stem = if d > 1 {
        d - 1
    } else {
        n
    };
    let mut r = String::from_str(p.substring_char(0, s + stem));
    if ext.unicode_len() > 0 {
        proof {
            reveal_strlit(".");
        }
        r.append(".");
        r.append(ext);
        assert(r@ =~= spec_with_extension(p@, ext@));
    } else {
        assert(r@ =~= spec_with_extension(p@, ext@));
    }
    r
}

/// `p` without its last component, or `None` for an empty path or the root.
pub fn parent(p: &str) -> (r: Option<String>)
    ensures
        r matches Some(s) ==> spec_parent(p@) == Some(s@),
        r is None ==> spec_parent(p@) is None,
{
    let (s, t) = split_last_component(p);
    if t == 0 {
        return None;
    }
    let pre = p.substring_char(0, s);
    assert(pre@ =~= trim_end_components(p@).take(name_start(p@)));
    let pt = trimmed_len(pre);
    if pt == 0 && s > 0 {
        proof {
            reveal_strlit("/");
        }
        Some(String::from_str("/"))
    } else {
        Some(String::from_str(pre.substring_char(0, pt)))
    }
}


proof fn lemma_last_index_append(s1: Seq<char>, s2: Seq<char>, c: char)
    ensures
        last_index_of(s1 + s2, c) == if last_index_of(s2, c) >= 0 {
            s1.len() + last_index_of(s2, c)
        } else {
            last_index_of(s1, c)
        },
    decreases s2.len(),
{
    if s2.len() == 0 {
        assert(s1 + s2 =~= s1);
    } else {
        assert((s1 + s2).last() == s2.last());
        if s2.last() != c {
            assert((s1 + s2).drop_last() =~= s1 + s2.drop_last());
            lemma_last_index_append(s1, s2.drop_last(), c);
        }
    }
}

proof fn lemma_last_index_absent(s: Seq<char>, c: char)
    requires
        !holds_char(s, c),
    ensures
        last_index_of(s, c) == -1,
{
    lemma_last_index_bounds(s, c);
}

proof fn lemma_trim_append(s1: Seq<char>, s2: Seq<char>)
    requires
        trim_end_components(s2).len() > 0,
        trim_end_components(s2) != seq!['.'],
    ensures
        trim_end_components(s1 + s2) == s1 + trim_end_components(s2),
    decreases s2.len(),
{
    assert((s1 + s2).last() == s2.last());
    if s2.len() >= 2 {
        assert((s1 + s2)[(s1 + s2).len() - 2] == s2[s2.len() - 2]);
    } else if s2.last() != '/' {
        assert(trim_end_components(s2) == s2);
        if s2[0] == '.' {
            assert(s2 =~= seq!['.']);
        }
    } else {
        assert(s2.drop_last() =~= Seq::<char>::empty());
    }
    if s2.last() == '/' || ends_in_dot_component(s2) {
        assert((s1 + s2).drop_last() =~= s1 + s2.drop_last());
        lemma_trim_append(s1, s2.drop_last());
    }
}

/// Facts about the last component: it has no `/`, and what precedes it ends
/// with a `/` (or is empty).
pub(crate) proof fn lemma_last_component(p: Seq<char>)
    ensures
        0 <= name_start(p) <= trim_end_components(p).len() <= p.len(),
        last_component(p) =~= p.subrange(name_start(p), trim_end_components(p).len() as int),
        !holds_char(last_component(p), '/'),
        last_index_of(p.take(name_start(p)), '/') == name_start(p) - 1,
{
    let t = trim_end_components(p);
    lemma_trim_is_prefix(p);
    lemma_last_index_bounds(t, '/');
    let ns = name_start(p);
    let n = last_component(p);
    assert forall|i: int| 0 <= i < n.len() implies n[i] != '/' by {
        assert(n[i] == t[ns + i]);
    }
    if ns > 0 {
        assert(p.take(ns).last() == t[ns - 1]);
    } else {
        assert(p.take(ns) =~= Seq::<char>::empty());
    }
}

/// A path with a file name does not end in a bare `.` once trimmed.
pub(crate) proof fn lemma_file_name_trim(b: Seq<char>)
    requires
        has_file_name(b),
    ensures
        trim_end_components(b).len() > 0,
        trim_end_components(b) != seq!['.'],
{
    let t = trim_end_components(b);
    if t =~= seq!['.'] {
        assert(t.len() == 1);
        assert(t.last() == '.');
        assert(t.drop_last() =~= Seq::<char>::empty());
        assert(last_index_of(t.drop_last(), '/') == -1);
        assert(last_index_of(t, '/') == -1);
        assert(last_component(b) =~= seq!['.']);
    }
}

/// A relative path joined to `a` keeps its last component, which now begins
/// after `a` and the separator.
pub(crate) proof fn lemma_join_last_component(a: Seq<char>, b: Seq<char>)
    requires
        !(b.len() > 0 && b[0] == '/'),
        trim_end_components(b).len() > 0,
        trim_end_components(b) != seq!['.'],
    ensures
        last_component(spec_join(a, b)) == last_component(b),
        name_start(spec_join(a, b)) == spec_join(a, b).len() - b.len() + name_start(b),
{
    let q = spec_join(a, b);
    let pre = if a.len() == 0 || a.last() == '/' {
        a
    } else {
        a + seq!['/']
    };
    assert(q =~= pre + b);
    lemma_trim_append(pre, b);
    let tb = trim_end_components(b);
    lemma_last_index_append(pre, tb, '/');
    if pre.len() > 0 {
        assert(pre.last() == '/');
    }
    assert(last_index_of(pre, '/') == pre.len() - 1);
    assert(trim_end_components(q) == pre + tb);
    lemma_last_index_bounds(tb, '/');
    assert(name_start(b) == last_index_of(tb, '/') + 1);
    assert(last_index_of(pre + tb, '/') + 1 == pre.len() + name_start(b));
    assert(name_start(q) == pre.len() + name_start(b));
    assert(q.len() == pre.len() + b.len());
    assert(last_component(q) =~= last_component(b));
}

/// The file stem and the new extension make the file name of a path whose
/// extension was replaced.
pub proof fn law_with_extension_names_file(p: Seq<char>, ext: Seq<char>)
    requires
        has_file_name(p),
        ext.len() > 0,
        !holds_char(ext, '/'),
    ensures
        spec_file_name(spec_with_extension(p, ext)) == Some(spec_file_stem(p) + seq!['.'] + ext),
{
    lemma_with_extension_shape(p, ext);
}

proof fn lemma_with_extension_shape(p: Seq<char>, ext: Seq<char>)
    requires
        has_file_name(p),
        ext.len() > 0,
        !holds_char(ext, '/'),
    ensures
        name_start(spec_with_extension(p, ext)) == name_start(p),
        last_component(spec_with_extension(p, ext)) == spec_file_stem(p) + seq!['.'] + ext,
        spec_with_extension(p, ext) =~= p.take(name_start(p)) + (spec_file_stem(p) + seq!['.'] + ext),
        spec_file_stem(p).len() > 0,
        has_file_name(spec_with_extension(p, ext)),
{
    lemma_last_component(p);
    let ns = name_start(p);
    let n = last_component(p);
    let st = spec_file_stem(p);
    lemma_last_index_bounds(n, '.');
    let a = p.take(ns);
    let b = st + seq!['.'] + ext;
    let q = spec_with_extension(p, ext);
    assert(q =~= a + b);
    assert forall|i: int| 0 <= i < b.len() implies b[i] != '/' by {
        if i < st.len() {
            assert(b[i] == n[i]);
        } else if i > st.len() {
            assert(b[i] == ext[i - st.len() - 1]);
        }
    }
    assert(b.last() == ext.last());
    assert(trim_end_components(b) == b);
    lemma_trim_append(a, b);
    assert(trim_end_components(b) =~= b);
    lemma_last_index_absent(b, '/');
    lemma_last_index_append(a, b, '/');
    assert(last_component(q) =~= b);
    assert(b.len() >= 2);
    assert(b != seq!['.', '.']) by {
        if b.len() == 2 {
            assert(b[1] == ext[0]);
            assert(st.len() == 1);
            assert(b[0] == n[0]);
            if b =~= seq!['.', '.'] {
                assert(n[0] == '.');
                assert(last_index_of(n, '.') <= 0 || n[last_index_of(n, '.')] == '.');
            }
        }
    }
}

/// Replacing an extension twice is replacing it once with the second, when
/// the first extension holds neither `.` nor `/`.
pub proof fn law_with_extension_twice(p: Seq<char>, e1: Seq<char>, e2: Seq<char>)
    requires
        e1.len() > 0,
        !holds_char(e1, '/'),
        !holds_char(e1, '.'),
    ensures
        spec_with_extension(spec_with_extension(p, e1), e2) == spec_with_extension(p, e2),
{
    if has_file_name(p) {
        lemma_with_extension_shape(p, e1);
        let st = spec_file_stem(p);
        let b = st + seq!['.'] + e1;
        lemma_last_index_absent(e1, '.');
        lemma_last_index_append(st + seq!['.'], e1, '.');
        assert((st + seq!['.']).last() == '.');
        assert(last_index_of(b, '.') == st.len());
        assert(stem_len(b) == st.len());
        let q = spec_with_extension(p, e1);
        lemma_last_component(p);
        lemma_last_index_bounds(last_component(p), '.');
        assert(p.take(name_start(p) + stem_len(last_component(p))) =~= p.take(name_start(p)) + st);
        assert(q.take(name_start(q) + stem_len(last_component(q))) =~= p.take(name_start(p)) + st);
        assert(q.take(name_start(q) + stem_len(last_component(q))) =~= p.take(
            name_start(p) + stem_len(last_component(p)),
        ));
        assert(spec_with_extension(spec_with_extension(p, e1), e2) =~= spec_with_extension(p, e2));
    }
}

/// Joining a relative path keeps its file name.
pub proof fn law_join_keeps_file_name(a: Seq<char>, b: Seq<char>)
    requires
        !(b.len() > 0 && b[0] == '/'),
    ensures
        spec_file_name(spec_join(a, b)) == spec_file_name(b) || !has_file_name(b),
        has_file_name(b) ==> has_file_name(spec_join(a, b)),
{
    if has_file_name(b) {
        lemma_last_component(b);
        lemma_file_name_trim(b);
        lemma_join_last_component(a, b);
    }
}

/// A name of more than two characters without `/` is its own file name.
pub(crate) proof fn lemma_plain_name(n: Seq<char>)
    requires
        n.len() > 2,
        !holds_char(n, '/'),
    ensures
        has_file_name(n),
        last_component(n) == n,
        spec_file_name(n) == Some(n),
{
    assert(n.last() != '/') by {
        if n.last() == '/' {
            assert(holds_char(n, '/'));
        }
    }
    assert(trim_end_components(n) == n);
    lemma_last_index_absent(n, '/');
    assert(name_start(n) == 0);
    assert(last_component(n) =~= n);
    assert(n.len() != 1 && n.len() != 2);
}

/// Taking the parent undoes joining a file name: a name without `/` (and not
/// `.`) joined to a directory path that ends neither in `/` nor in a `.`
/// component has that directory path as its parent.
pub proof fn law_parent_of_join(d: Seq<char>, f: Seq<char>)
    requires
        d.len() > 0,
        d.last() != '/',
        !ends_in_dot_component(d),
        f.len() > 0,
        !holds_char(f, '/'),
        f != seq!['.'],
    ensures
        spec_parent(spec_join(d, f)) == Some(d),
{
    assert(f[0] != '/') by {
        if f[0] == '/' {
            assert(holds_char(f, '/'));
        }
    }
    assert(f.last() != '/') by {
        if f.last() == '/' {
            assert(holds_char(f, '/'));
        }
    }
    let dd = d + seq!['/'];
    let p = spec_join(d, f);
    assert(p =~= dd + f);
    assert(p.last() == f.last());
    if f.len() >= 2 {
        assert(p[p.len() - 2] == f[f.len() - 2]);
        assert(f[f.len() - 2] != '/') by {
            if f[f.len() - 2] == '/' {
                assert(holds_char(f, '/'));
            }
        }
    } else {
        assert(f =~= seq![f[0]]);
    }
    assert(!ends_in_dot_component(p));
    assert(trim_end_components(p) == p);
    lemma_last_index_absent(f, '/');
    lemma_last_index_append(dd, f, '/');
    assert(last_index_of(dd, '/') == d.len());
    assert(name_start(p) == d.len() + 1);
    let pre = p.take(name_start(p));
    assert(pre =~= dd);
    assert(dd.drop_last() =~= d);
    assert(trim_end_components(dd) == trim_end_components(d));
    assert(trim_end_components(d) == d);
}

/// `path` lies within `dir`: it is `dir` or continues it.
pub open spec fn within(path: Seq<char>, dir: Seq<char>) -> bool {
    path.len() >= dir.len() && path.take(dir.len() as int) == dir
}

/// A relative path joined to `a` lies within `a`.
pub(crate) proof fn lemma_join_within(a: Seq<char>, b: Seq<char>)
    requires
        !(b.len() > 0 && b[0] == '/'),
    ensures
        within(spec_join(a, b), a),
{
    assert(spec_join(a, b).take(a.len() as int) =~= a);
}

pub(crate) proof fn lemma_within_trans(p: Seq<char>, q: Seq<char>, r: Seq<char>)
    requires
        within(p, q),
        within(q, r),
    ensures
        within(p, r),
{
    assert(p.take(r.len() as int) =~= q.take(r.len() as int));
}

proof fn lemma_trim_keeps(s: Seq<char>, j: int)
    requires
        0 < j <= s.len(),
        s[j - 1] != '/',
        s[j - 1] != '.',
    ensures
        trim_end_components(s).len() >= j,
    decreases s.len(),
{
    if s.len() > j && (s.last() == '/' || ends_in_dot_component(s)) {
        lemma_trim_keeps(s.drop_last(), j);
    }
}

proof fn lemma_name_start_after(s: Seq<char>, k: int)
    requires
        0 <= k,
        k < trim_end_components(s).len(),
        s[k] == '/',
    ensures
        name_start(s) >= k + 1,
{
    lemma_trim_is_prefix(s);
    let t = trim_end_components(s);
    assert(t[k] == s[k]);
    lemma_last_index_bounds(t, '/');
}

proof fn lemma_with_extension_keeps_prefix(p: Seq<char>, e: Seq<char>, m: int)
    requires
        0 <= m <= name_start(p),
    ensures
        within(spec_with_extension(p, e), p.take(m)),
{
    lemma_last_component(p);
    if has_file_name(p) {
        lemma_last_index_bounds(last_component(p), '.');
        assert(spec_with_extension(p, e).take(m) =~= p.take(m));
    } else {
        assert(p.take(m).len() == m);
    }
}

/// A file inside the directory `name` of the directory `base`, with its
/// extension replaced, still lies within `base` (given `name` is a plain name
/// and `file` is relative).
pub(crate) proof fn lemma_file_in_subdir_within(base: Seq<char>, name: Seq<char>, file: Seq<char>, e: Seq<char>)
    requires
        base.len() > 0,
        base.last() != '/',
        name.len() > 0,
        !holds_char(name, '/'),
        name.last() != '.',
        !(file.len() > 0 && file[0] == '/'),
    ensures
        within(spec_with_extension(spec_join(spec_join(base, name), file), e), base),
{
    let dir = spec_join(base, name);
    assert(name[0] != '/') by {
        if name[0] == '/' {
            assert(holds_char(name, '/'));
        }
    }
    assert(dir =~= base + seq!['/'] + name);
    let p = spec_join(dir, file);
    lemma_join_within(dir, file);
    let k = base.len() as int;
    assert(p[k] == dir[k]);
    assert(dir.last() != '/') by {
        assert(dir.last() == name.last());
        if name.last() == '/' {
            assert(holds_char(name, '/'));
        }
    }
    assert(p[dir.len() - 1] == dir[dir.len() - 1]);
    lemma_trim_keeps(p, dir.len() as int);
    lemma_name_start_after(p, k);
    lemma_with_extension_keeps_prefix(p, e, k);
    assert(p.take(k) =~= base);
}

} // verus!
