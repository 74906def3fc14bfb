//! Windows paths as text: the prefix (`C:` or `\\server\share`), the last component,
//! the extension, and joining a component, as `std::path` reads them on Windows,
//! where the server runs. Both `\` and `/` separate components.

use vstd::prelude::*;
use crate::text::{chars, copy_range, is_ascii_alpha, rfind_char};

verus! {

pub open spec fn is_sep(c: char) -> bool {
    c == '\\' || c == '/'
}

/// Index of the first separator at or after `i`, or the length.
pub open spec fn next_sep(s: Seq<char>, i: int) -> int
    decreases s.len() - i,
{
    if i >= s.len() {
        s.len() as int
    } else if is_sep(s[i]) {
        i
    } else {
        next_sep(s, i + 1)
    }
}

/// Length of the path's prefix: a drive (`C:`), or a share (`\\server\share`, both
/// names non-empty) for a path that starts with two separators; 0 for none.
pub open spec fn prefix_len(s: Seq<char>) -> int {
    if s.len() >= 2 && is_ascii_alpha(s[0]) && s[1] == ':' {
        2
    } else if s.len() >= 2 && is_sep(s[0]) && is_sep(s[1]) {
        let server_end = next_sep(s, 2);
        if server_end == 2 || server_end >= s.len() {
            0
        } else {
            let share_end = next_sep(s, server_end + 1);
            if share_end == server_end + 1 {
                0
            } else {
                share_end
            }
        }
    } else {
        0
    }
}

proof fn lemma_next_sep(s: Seq<char>, i: int)
    requires
        0 <= i,
    ensures
        i <= next_sep(s, i) || (i > s.len() && next_sep(s, i) == s.len()),
        next_sep(s, i) <= s.len() || i > s.len(),
        next_sep(s, i) <= if i > s.len() { i } else { s.len() as int },
    decreases s.len() - i,
{
    if i < s.len() && !is_sep(s[i]) {
        lemma_next_sep(s, i + 1);
    }
}

pub proof fn lemma_prefix_len(s: Seq<char>)
    ensures
        0 <= prefix_len(s) <= s.len(),
{
    if s.len() >= 2 && is_sep(s[0]) && is_sep(s[1]) && !(is_ascii_alpha(s[0]) && s[1] == ':') {
        lemma_next_sep(s, 2);
        let e = next_sep(s, 2);
        if e < s.len() {
            lemma_next_sep(s, e + 1);
        }
    }
}

fn next_sep_v(s: &Vec<char>, i: usize) -> (r: usize)
    requires
        i <= s@.len(),
    ensures
        r == next_sep(s@, i as int),
        i <= r <= s@.len(),
{
    let mut j = i;
    while j < s.len() && !(s[j] == '\\' || s[j] == '/')
        invariant
            i <= j <= s@.len(),
            next_sep(s@, i as int) == next_sep(s@, j as int),
        decreases s@.len() - j,
    {
        j = j + 1;
    }
    j
}

pub fn prefix_len_v(s: &Vec<char>) -> (r: usize)
    ensures
        r == prefix_len(s@),
        r <= s@.len(),
{
    if s.len() >= 2 && (('a' <= s[0] && s[0] <= 'z') || ('A' <= s[0] && s[0] <= 'Z')) && s[1] == ':' {
        2
    } else if s.len() >= 2 && (s[0] == '\\' || s[0] == '/') && (s[1] == '\\' || s[1] == '/') {
        let server_end = next_sep_v(s, 2);
        if server_end == 2 || server_end >= s.len() {
            0
        } else {
            let share_end = next_sep_v(s, server_end + 1);
            if share_end == server_end + 1 {
                0
            } else {
                share_end
            }
        }
    } else {
        0
    }
}

/// A component that names something (not empty, not `.`).
pub open spec fn named(x: Seq<char>) -> bool {
    x.len() > 0 && x != "."@
}

/// Scanning a path's text left to right: the last named component completed so far,
/// and the component being read.
pub open spec fn comp_scan(s: Seq<char>) -> (Option<Seq<char>>, Seq<char>)
    decreases s.len(),
{
    if s.len() == 0 {
        (None, Seq::empty())
    } else {
        let (last, cur) = comp_scan(s.drop_last());
        if is_sep(s.last()) {
            (if named(cur) { Some(cur) } else { last }, Seq::empty())
        } else {
            (last, cur.push(s.last()))
        }
    }
}

/// The last named component after the prefix.
pub open spec fn last_component(s: Seq<char>) -> Option<Seq<char>> {
    let (last, cur) = comp_scan(s.skip(prefix_len(s)));
    if named(cur) {
        Some(cur)
    } else {
        last
    }
}

/// `Path::file_name`: the last component, unless it is `..` or there is none.
pub open spec fn file_name(s: Seq<char>) -> Option<Seq<char>> {
    match last_component(s) {
        Some(c) => if c == ".."@ {
            None
        } else {
            Some(c)
        },
        None => None,
    }
}

/// `Path::extension`: what follows the last `.` of the file name, unless the name has
/// no `.` but a leading one.
pub open spec fn extension(s: Seq<char>) -> Option<Seq<char>> {
    match file_name(s) {
        Some(n) => {
            let i = rfind_char(n, '.');
            if i <= 0 {
                None
            } else {
                Some(n.skip(i + 1))
            }
        },
        None => None,
    }
}

pub fn file_name_v(s: &Vec<char>) -> (r: Option<Vec<char>>)
    ensures
        match r {
            Some(n) => file_name(s@) == Some(n@),
            None => file_name(s@) is None,
        },
{
    let start = prefix_len_v(s);
    let ghost rest = s@.skip(start as int);
    let mut last: Option<Vec<char>> = None;
    let mut cur: Vec<char> = Vec::new();
    let mut i = start;
    assert(rest.take(0) =~= Seq::<char>::empty());
    while i < s.len()
        invariant
            start <= i <= s@.len(),
            rest == s@.skip(start as int),
            ({
                let (l, c) = comp_scan(rest.take(i - start));
                &&& cur@ == c
                &&& match last {
                    Some(v) => l == Some(v@),
                    None => l is None,
                }
            }),
        decreases s@.len() - i,
    {
        assert(rest.take(i + 1 - start).drop_last() =~= rest.take(i - start));
        assert(rest.take(i + 1 - start).last() == s@[i as int]);
        let c = s[i];
        if c == '\\' || c == '/' {
            let dot = chars(".");
            if cur.len() > 0 && !crate::text::eq_v(&cur, &dot) {
                last = Some(cur);
            }
            cur = Vec::new();
        } else {
            cur.push(c);
        }
        i = i + 1;
    }
    assert(rest.take(s@.len() - start) =~= rest);
    let dot = chars(".");
    let found = if cur.len() > 0 && !crate::text::eq_v(&cur, &dot) {
        Some(cur)
    } else {
        last
    };
    match found {
        Some(n) => {
            let dd = chars("..");
            if crate::text::eq_v(&n, &dd) {
                None
            } else {
                Some(n)
            }
        },
        None => None,
    }
}

pub fn extension_v(s: &Vec<char>) -> (r: Option<Vec<char>>)
    ensures
        match r {
            Some(e) => extension(s@) == Some(e@),
            None => extension(s@) is None,
        },
{
    match file_name_v(s) {
        Some(n) => {
            let mut i = n.len();
            assert(n@.take(i as int) =~= n@);
            while i > 0 && n[i - 1] != '.'
                invariant
                    i <= n@.len(),
                    rfind_char(n@, '.') == rfind_char(n@.take(i as int), '.'),
                decreases i,
            {
                assert(n@.take(i as int).drop_last() =~= n@.take(i - 1));
                i = i - 1;
            }
            if i <= 1 {
                proof {
                    if i == 0 {
                        assert(rfind_char(n@.take(0), '.') == -1);
                    } else {
                        assert(n@.take(1).last() == '.');
                    }
                }
                None
            } else {
                assert(n@.take(i as int).last() == '.');
                Some(copy_range(&n, i, n.len()))
            }
        },
        None => None,
    }
}

/// Whether the part after the prefix begins with a separator, or the prefix is a
/// share (which always has a root).
pub open spec fn rooted(s: Seq<char>) -> bool {
    let p = prefix_len(s);
    p > 2 || (p < s.len() && is_sep(s[p]))
}

/// `PathBuf::join` on Windows: a part with a prefix replaces the path; a part that
/// starts with a separator keeps only the path's prefix; any other part is appended
/// after a `\` unless the path is empty, ends with a separator or is a bare drive.
pub open spec fn win_join(base: Seq<char>, part: Seq<char>) -> Seq<char> {
    if prefix_len(part) > 0 {
        part
    } else if part.len() > 0 && is_sep(part[0]) {
        base.take(prefix_len(base)) + part
    } else if base.len() > 0 && !is_sep(base.last()) && !(prefix_len(base) == 2 && base.len() == 2) {
        base + "\\"@ + part
    } else {
        base + part
    }
}

pub fn win_join_v(base: &Vec<char>, part: &Vec<char>) -> (r: Vec<char>)
    ensures
        r@ == win_join(base@, part@),
{
    proof {
        lemma_prefix_len(base@);
    }
    if prefix_len_v(part) > 0 {
        return copy_range(part, 0, part.len());
    }
    if part.len() > 0 && (part[0] == '\\' || part[0] == '/') {
        let p = prefix_len_v(base);
        let mut r = copy_range(base, 0, p);
        crate::text::extend(&mut r, part);
        return r;
    }
    let mut r = copy_range(base, 0, base.len());
    if base.len() > 0 && !(base[base.len() - 1] == '\\' || base[base.len() - 1] == '/') && !(prefix_len_v(base) == 2 && base.len() == 2) {
        r.push('\\');
    }
    crate::text::extend(&mut r, part);
    proof {
        reveal_strlit("\\");
    }
    assert(r@ =~= win_join(base@, part@));
    r
}

/// The comparable form of a path's prefix: an upper-case drive letter and `:`, or
/// `\\server\share` with `\` separators.
pub open spec fn prefix_key(s: Seq<char>) -> Seq<char> {
    let p = prefix_len(s);
    if p == 2 {
        seq![crate::text::ascii_upper_char(s[0]), ':']
    } else if p > 2 {
        let server_end = next_sep(s, 2);
        "\\\\"@ + s.subrange(2, server_end) + "\\"@ + s.subrange(server_end + 1, p)
    } else {
        Seq::empty()
    }
}

/// Reading the components after the prefix left to right: the kept ones so far, the
/// one being read, and whether a separator was read yet. Empty components and `.`
/// go, but for a leading `.` of a path without root.
pub open spec fn seg_scan(s: Seq<char>, root: bool) -> (Seq<Seq<char>>, Seq<char>, bool)
    decreases s.len(),
{
    if s.len() == 0 {
        (Seq::empty(), Seq::empty(), false)
    } else {
        let (done, cur, started) = seg_scan(s.drop_last(), root);
        if is_sep(s.last()) {
            (if keep_seg(cur, started, root) { done.push(cur) } else { done }, Seq::empty(), true)
        } else {
            (done, cur.push(s.last()), started)
        }
    }
}

pub open spec fn keep_seg(x: Seq<char>, started: bool, root: bool) -> bool {
    named(x) || (x == "."@ && !started && !root)
}

pub open spec fn segments(s: Seq<char>) -> Seq<Seq<char>> {
    let (done, cur, started) = seg_scan(s.skip(prefix_len(s)), rooted(s));
    if keep_seg(cur, started, rooted(s)) {
        done.push(cur)
    } else {
        done
    }
}

/// `Path`'s equality on Windows: the same prefix, root and components.
pub open spec fn path_eq(a: Seq<char>, b: Seq<char>) -> bool {
    prefix_key(a) == prefix_key(b) && rooted(a) == rooted(b) && segments(a) == segments(b)
}

fn rooted_v(s: &Vec<char>) -> (r: bool)
    ensures
        r == rooted(s@),
{
    let p = prefix_len_v(s);
    p > 2 || (p < s.len() && (s[p] == '\\' || s[p] == '/'))
}

fn prefix_key_v(s: &Vec<char>) -> (r: Vec<char>)
    ensures
        r@ == prefix_key(s@),
{
    let p = prefix_len_v(s);
    if p == 2 {
        let mut r: Vec<char> = Vec::new();
        r.push(crate::text::upper_char(s[0]));
        r.push(':');
        assert(r@ =~= prefix_key(s@));
        r
    } else if p > 2 {
        let server_end = next_sep_v(s, 2);
        proof {
            lemma_next_sep(s@, server_end + 1);
        }
        let mut r = chars("\\\\");
        let a = copy_range(s, 2, server_end);
        crate::text::extend(&mut r, &a);
        r.push('\\');
        let b = copy_range(s, server_end + 1, p);
        crate::text::extend(&mut r, &b);
        proof {
            reveal_strlit("\\");
        }
        assert(r@ =~= prefix_key(s@));
        r
    } else {
        Vec::new()
    }
}

fn segments_v(s: &Vec<char>) -> (r: Vec<Vec<char>>)
    ensures
        crate::text::vviews(r@) == segments(s@),
{
    let start = prefix_len_v(s);
    let root = rooted_v(s);
    let ghost rest = s@.skip(start as int);
    let mut done: Vec<Vec<char>> = Vec::new();
    let mut cur: Vec<char> = Vec::new();
    let mut started = false;
    let mut i = start;
    assert(rest.take(0) =~= Seq::<char>::empty());
    assert(crate::text::vviews(done@) =~= Seq::<Seq<char>>::empty());
    while i < s.len()
        invariant
            start <= i <= s@.len(),
            rest == s@.skip(start as int),
            root == rooted(s@),
            (crate::text::vviews(done@), cur@, started) == seg_scan(rest.take(i - start), root),
        decreases s@.len() - i,
    {
        assert(rest.take(i + 1 - start).drop_last() =~= rest.take(i - start));
        assert(rest.take(i + 1 - start).last() == s@[i as int]);
        let c = s[i];
        if c == '\\' || c == '/' {
            let dot = chars(".");
            let is_dot = crate::text::eq_v(&cur, &dot);
            if (cur.len() > 0 && !is_dot) || (is_dot && !started && !root) {
                let ghost d0 = done@;
                done.push(cur);
                assert(crate::text::vviews(done@) =~= crate::text::vviews(d0).push(done@[d0.len() as int]@));
            }
            cur = Vec::new();
            started = true;
        } else {
            cur.push(c);
        }
        i = i + 1;
    }
    assert(rest.take(s@.len() - start) =~= rest);
    let dot = chars(".");
    let is_dot = crate::text::eq_v(&cur, &dot);
    if (cur.len() > 0 && !is_dot) || (is_dot && !started && !root) {
        let ghost d0 = done@;
        done.push(cur);
        assert(crate::text::vviews(done@) =~= crate::text::vviews(d0).push(done@[d0.len() as int]@));
    }
    done
}

fn segs_eq(a: &Vec<Vec<char>>, b: &Vec<Vec<char>>) -> (r: bool)
    ensures
        r == (crate::text::vviews(a@) == crate::text::vviews(b@)),
{
    if a.len() != b.len() {
        assert(crate::text::vviews(a@).len() != crate::text::vviews(b@).len());
        return false;
    }
    let mut i: usize = 0;
    while i < a.len()
        invariant
            i <= a@.len(),
            a@.len() == b@.len(),
            forall|j: int| 0 <= j < i ==> a@[j]@ == b@[j]@,
        decreases a@.len() - i,
    {
        if !crate::text::eq_v(&a[i], &b[i]) {
            assert(crate::text::vviews(a@)[i as int] != crate::text::vviews(b@)[i as int]);
            return false;
        }
        i = i + 1;
    }
    assert(crate::text::vviews(a@) =~= crate::text::vviews(b@));
    true
}

pub fn path_eq_v(a: &Vec<char>, b: &Vec<char>) -> (r: bool)
    ensures
        r == path_eq(a@, b@),
{
    let pa = prefix_key_v(a);
    let pb = prefix_key_v(b);
    if !crate::text::eq_v(&pa, &pb) {
        return false;
    }
    if rooted_v(a) != rooted_v(b) {
        return false;
    }
    let sa = segments_v(a);
    let sb = segments_v(b);
    segs_eq(&sa, &sb)
}

} // verus!
