//! Path text on the agent's (Unix) side: the checks made on paths given by
//! clients, and the joins, containment tests and relative spellings made on
//! the canonical paths that the operating system hands back.

use vstd::prelude::*;
use crate::text::{chars_of, has_char, push_char, same_text, string_of, trim, trimmed};

verus! {

/// `s` has a segment (between `/` separators or the ends) that is exactly `..`.
pub open spec fn has_dotdot_segment(s: Seq<char>) -> bool {
    exists|i: int|
        0 <= i && i + 2 <= s.len() && #[trigger] s[i] == '.' && s[i + 1] == '.' && (i == 0
            || s[i - 1] == '/') && (i + 2 == s.len() || s[i + 2] == '/')
}

pub(crate) fn dotdot_segment(s: &Vec<char>) -> (r: bool)
    ensures
        r == has_dotdot_segment(s@),
{
    let len = s.len();
    let mut i: usize = 0;
    while len >= 2 && i <= len - 2
        invariant
            len == s@.len(),
            forall|k: int|
                0 <= k < i && k + 2 <= s@.len() ==> !(#[trigger] s@[k] == '.' && s@[k + 1] == '.'
                    && (k == 0 || s@[k - 1] == '/') && (k + 2 == s@.len() || s@[k + 2] == '/')),
        decreases len - i,
    {
        if s[i] == '.' && s[i + 1] == '.' && (i == 0 || s[i - 1] == '/') && (i + 2 == len || s[i
            + 2] == '/') {
            return true;
        }
        i = i + 1;
    }
    false
}

/// `s` holds one of NUL, CR, LF.
pub open spec fn has_control_break(s: Seq<char>) -> bool {
    s.contains('\0') || s.contains('\r') || s.contains('\n')
}

pub(crate) fn control_break(s: &Vec<char>) -> (r: bool)
    ensures
        r == has_control_break(s@),
{
    has_char(s, '\0') || has_char(s, '\r') || has_char(s, '\n')
}

/// A root path as a client may give it: after trimming, absolute, without
/// NUL, CR, LF or backslash, and without a `..` segment.
pub open spec fn root_text_ok(t: Seq<char>) -> bool {
    t.len() > 0 && t[0] == '/' && !has_control_break(t) && !t.contains('\\')
        && !has_dotdot_segment(t)
}

/// The text checks `resolve_root` makes before it asks the file system:
/// the trimmed root, or `remote_file_root_invalid`.
pub fn check_root_text(value: &str) -> (r: Result<String, String>)
    ensures
        root_text_ok(trim(value@)) <==> r is Ok,
        r matches Ok(t) ==> t@ == trim(value@),
        r matches Err(e) ==> e@ == "remote_file_root_invalid"@,
{
    let t = trimmed(value);
    let chars = chars_of(t.as_str());
    if chars.len() == 0 || chars[0] != '/' || control_break(&chars) || has_char(&chars, '\\')
        || dotdot_segment(&chars) {
        return Err(String::from_str("remote_file_root_invalid"));
    }
    Ok(t)
}


/// A path relative to the root as a client may give it: no NUL, CR, LF or
/// backslash, not absolute, and without a `..` segment.
pub open spec fn relative_text_ok(s: Seq<char>) -> bool {
    !has_control_break(s) && !s.contains('\\') && !(s.len() > 0 && s[0] == '/')
        && !has_dotdot_segment(s)
}

/// The text checks `resolve_relative` makes before it asks the file system.
pub fn check_relative_text(relative: &str) -> (r: Result<(), String>)
    ensures
        relative_text_ok(relative@) <==> r is Ok,
        r matches Err(e) ==> e@ == "remote_file_path_invalid"@,
{
    let chars = chars_of(relative);
    if control_break(&chars) || has_char(&chars, '\\') || (chars.len() > 0 && chars[0] == '/')
        || dotdot_segment(&chars) {
        return Err(String::from_str("remote_file_path_invalid"));
    }
    Ok(())
}

/// `Path::join` on Unix spellings: an absolute `rel` replaces `base`;
/// otherwise a separator is put between them unless `base` is empty or
/// already ends in one.
pub open spec fn join_spec(base: Seq<char>, rel: Seq<char>) -> Seq<char> {
    if rel.len() > 0 && rel[0] == '/' {
        rel
    } else if base.len() == 0 || base.last() == '/' {
        base + rel
    } else {
        base + seq!['/'] + rel
    }
}

pub fn join(base: &str, rel: &str) -> (r: String)
    ensures
        r@ == join_spec(base@, rel@),
{
    let b = chars_of(base);
    let c = chars_of(rel);
    if c.len() > 0 && c[0] == '/' {
        return string_of(&c, 0, c.len());
    }
    let mut out = string_of(&b, 0, b.len());
    proof {
        assert(b@.subrange(0, b@.len() as int) =~= b@);
        assert(c@.subrange(0, c@.len() as int) =~= c@);
    }
    if !(b.len() == 0 || b[b.len() - 1] == '/') {
        push_char(&mut out, '/');
    }
    let mut i: usize = 0;
    let ghost start = out@;
    while i < c.len()
        invariant
            i <= c@.len(),
            out@ == start + c@.take(i as int),
        decreases c.len() - i,
    {
        push_char(&mut out, c[i]);
        proof {
            assert(c@.take(i + 1) =~= c@.take(i as int).push(c@[i as int]));
        }
        i = i + 1;
    }
    proof {
        assert(c@.take(c@.len() as int) =~= c@);
    }
    out
}

/// `path` lies at or below `base`, as `Path::starts_with` decides it for
/// canonical spellings (absolute, no `.`/`..` segments, no doubled or
/// trailing separators).
pub open spec fn within(path: Seq<char>, base: Seq<char>) -> bool {
    if base == seq!['/'] {
        path.len() > 0 && path[0] == '/'
    } else {
        path == base || (path.len() > base.len() && path.take(base.len() as int) == base
            && path[base.len() as int] == '/')
    }
}

fn prefix_of(path: &Vec<char>, base: &Vec<char>) -> (r: bool)
    ensures
        r == (base@.len() <= path@.len() && path@.take(base@.len() as int) == base@),
{
    if base.len() > path.len() {
        return false;
    }
    let mut i: usize = 0;
    while i < base.len()
        invariant
            base@.len() <= path@.len(),
            i <= base@.len(),
            forall|k: int| 0 <= k < i ==> path@[k] == base@[k],
        decreases base.len() - i,
    {
        if path[i] != base[i] {
            proof {
                assert(path@.take(base@.len() as int)[i as int] != base@[i as int]);
            }
            return false;
        }
        i = i + 1;
    }
    proof {
        assert(path@.take(base@.len() as int) =~= base@);
    }
    true
}

/// `Path::starts_with` for canonical spellings.
pub fn path_within(path: &str, base: &str) -> (r: bool)
    ensures
        r == within(path@, base@),
{
    let p = chars_of(path);
    let b = chars_of(base);
    if b.len() == 1 && b[0] == '/' {
        proof {
            assert(b@ =~= seq!['/']);
        }
        return p.len() > 0 && p[0] == '/';
    }
    proof {
        assert(b@ != seq!['/']);
    }
    if same_text(path, base) {
        return true;
    }
    p.len() > b.len() && prefix_of(&p, &b) && p[b.len()] == '/'
}

/// `s` with every backslash spelled as a forward slash.
pub open spec fn forward_slashes(s: Seq<char>) -> Seq<char> {
    s.map_values(|c: char| if c == '\\' { '/' } else { c })
}

/// The spelling of `path` relative to `base`, as `Path::strip_prefix` gives
/// it for canonical spellings, with backslashes turned into forward
/// slashes; `None` when `path` is not within `base`.
pub open spec fn relative_spec(base: Seq<char>, path: Seq<char>) -> Option<Seq<char>> {
    if !within(path, base) {
        None
    } else if path == base {
        Some(Seq::empty())
    } else if base == seq!['/'] {
        Some(forward_slashes(path.skip(1)))
    } else {
        Some(forward_slashes(path.skip(base.len() as int + 1)))
    }
}

/// A `String` holding `chars[from..to]` with backslashes spelled as forward
/// slashes.
fn slashed_string_of(chars: &Vec<char>, from: usize, to: usize) -> (r: String)
    requires
        from <= to <= chars@.len(),
    ensures
        r@ == forward_slashes(chars@.subrange(from as int, to as int)),
{
    let mut out = String::new();
    let mut i = from;
    while i < to
        invariant
            from <= i <= to,
            to <= chars@.len(),
            out@ == forward_slashes(chars@.subrange(from as int, i as int)),
        decreases to - i,
    {
        let c = chars[i];
        push_char(&mut out, if c == '\\' { '/' } else { c });
        proof {
            assert(forward_slashes(chars@.subrange(from as int, i + 1)) =~= forward_slashes(
                chars@.subrange(from as int, i as int),
            ).push(if c == '\\' { '/' } else { c }));
        }
        i = i + 1;
    }
    out
}

/// `relative_path`: `path` spelled relative to `root`, or
/// `remote_file_path_confined` when it is not below `root`.
pub fn relative_path(root: &str, path: &str) -> (r: Result<String, String>)
    ensures
        match relative_spec(root@, path@) {
            Some(rel) => r matches Ok(s) && s@ == rel,
            None => r matches Err(e) && e@ == "remote_file_path_confined"@,
        },
{
    if !path_within(path, root) {
        return Err(String::from_str("remote_file_path_confined"));
    }
    let p = chars_of(path);
    let b = chars_of(root);
    if same_text(path, root) {
        return Ok(String::new());
    }
    if b.len() == 1 && b[0] == '/' {
        proof {
            assert(b@ =~= seq!['/']);
            assert(p@.subrange(1, p@.len() as int) =~= p@.skip(1));
        }
        return Ok(slashed_string_of(&p, 1, p.len()));
    }
    proof {
        assert(b@ != seq!['/']);
        assert(p@.len() > b@.len());
        assert(p@.subrange(b@.len() as int + 1, p@.len() as int) =~= p@.skip(b@.len() as int + 1));
    }
    let bl = b.len();
    let pl = p.len();
    assert(bl < pl);
    Ok(slashed_string_of(&p, bl + 1, pl))
}

/// The last segment of `path` once trailing separators are dropped; `None`
/// when that is empty, `.` or `..` (`Path::file_name` on spellings without
/// inner `.` segments).
pub open spec fn file_name_spec(path: Seq<char>) -> Option<Seq<char>> {
    let t = strip_trailing_slashes(path);
    let seg = last_segment(t);
    if seg.len() == 0 || seg == seq!['.'] || seg == seq!['.', '.'] {
        None
    } else {
        Some(seg)
    }
}

pub open spec fn strip_trailing_slashes(s: Seq<char>) -> Seq<char>
    decreases s.len(),
{
    if s.len() > 0 && s.last() == '/' {
        strip_trailing_slashes(s.drop_last())
    } else {
        s
    }
}

/// The part of `s` after its last `/` (all of `s` when it has none).
pub open spec fn last_segment(s: Seq<char>) -> Seq<char>
    decreases s.len(),
{
    if s.len() == 0 {
        s
    } else if s.last() == '/' {
        Seq::empty()
    } else {
        last_segment(s.drop_last()).push(s.last())
    }
}

proof fn lemma_strip_trailing(s: Seq<char>, b: int)
    requires
        0 <= b <= s.len(),
        forall|k: int| b <= k < s.len() ==> #[trigger] s[k] == '/',
        b == 0 || s[b - 1] != '/',
    ensures
        strip_trailing_slashes(s) == s.take(b),
    decreases s.len() - b,
{
    if b == s.len() {
        assert(s.take(b) =~= s);
    } else {
        assert forall|k: int| b <= k < s.drop_last().len() implies #[trigger] s.drop_last()[k] == '/' by {
            assert(s.drop_last()[k] == s[k]);
        }
        if b > 0 {
            assert(s.drop_last()[b - 1] == s[b - 1]);
        }
        lemma_strip_trailing(s.drop_last(), b);
        assert(s.drop_last().take(b) =~= s.take(b));
    }
}

proof fn lemma_last_segment(s: Seq<char>, a: int)
    requires
        0 <= a <= s.len(),
        forall|k: int| a <= k < s.len() ==> #[trigger] s[k] != '/',
        a == 0 || s[a - 1] == '/',
    ensures
        last_segment(s) == s.skip(a),
    decreases s.len(),
{
    if s.len() == a {
        if a == 0 {
        } else {
            assert(s.last() == '/');
        }
        assert(s.skip(a) =~= Seq::<char>::empty());
    } else {
        assert(s.last() != '/');
        assert forall|k: int| a <= k < s.drop_last().len() implies #[trigger] s.drop_last()[k] != '/' by {
            assert(s.drop_last()[k] == s[k]);
        }
        if a > 0 {
            assert(s.drop_last()[a - 1] == s[a - 1]);
        }
        lemma_last_segment(s.drop_last(), a);
        assert(s.drop_last().skip(a).push(s.last()) =~= s.skip(a));
    }
}

/// The bounds `[a, b)` of the last segment of `path` without trailing separators.
fn last_segment_bounds(p: &Vec<char>) -> (r: (usize, usize))
    ensures
        r.0 <= r.1 <= p@.len(),
        last_segment(strip_trailing_slashes(p@)) == p@.subrange(r.0 as int, r.1 as int),
{
    let mut b = p.len();
    while b > 0 && p[b - 1] == '/'
        invariant
            b <= p@.len(),
            forall|k: int| b <= k < p@.len() ==> #[trigger] p@[k] == '/',
        decreases b,
    {
        b = b - 1;
    }
    let mut a = b;
    while a > 0 && p[a - 1] != '/'
        invariant
            a <= b <= p@.len(),
            forall|k: int| a <= k < b ==> #[trigger] p@[k] != '/',
        decreases a,
    {
        a = a - 1;
    }
    proof {
        lemma_strip_trailing(p@, b as int);
        let t = p@.take(b as int);
        assert forall|k: int| a <= k < t.len() implies #[trigger] t[k] != '/' by {
            assert(t[k] == p@[k]);
        }
        if a > 0 {
            assert(t[a - 1] == p@[a - 1]);
        }
        lemma_last_segment(t, a as int);
        assert(t.skip(a as int) =~= p@.subrange(a as int, b as int));
    }
    (a, b)
}

/// `Path::file_name` (see `file_name_spec`).
pub fn file_name(path: &str) -> (r: Option<String>)
    ensures
        match file_name_spec(path@) {
            Some(n) => r matches Some(s) && s@ == n,
            None => r is None,
        },
{
    let p = chars_of(path);
    let (a, b) = last_segment_bounds(&p);
    let seg = string_of(&p, a, b);
    if b == a || (b - a == 1 && p[a] == '.') || (b - a == 2 && p[a] == '.' && p[a + 1] == '.') {
        proof {
            if b - a == 1 {
                assert(seg@ =~= seq!['.']);
            }
            if b - a == 2 {
                assert(seg@ =~= seq!['.', '.']);
            }
        }
        return None;
    }
    proof {
        assert(seg@.len() == b - a);
        assert(seg@[0] == p@[a as int]);
        if seg@.len() == 2 {
            assert(seg@[1] == p@[a + 1]);
        }
        assert(seg@ != seq!['.']);
        assert(seg@ != seq!['.', '.']);
    }
    Some(seg)
}

/// The extension of a file name, as `Path::extension` splits it: the part
/// after the last `.`, unless there is no `.` or the only one leads the name.
pub open spec fn name_extension(name: Seq<char>) -> Option<Seq<char>> {
    if exists|i: int| 0 < i < name.len() && name[i] == '.' {
        let i = choose|i: int|
            0 < i < name.len() && name[i] == '.' && forall|k: int| i < k < name.len() ==> name[k] != '.';
        Some(name.skip(i + 1))
    } else {
        None
    }
}

/// `Path::extension` of `path` (see `file_name_spec`).
pub open spec fn extension_spec(path: Seq<char>) -> Option<Seq<char>> {
    match file_name_spec(path) {
        Some(n) => name_extension(n),
        None => None,
    }
}

pub fn extension(path: &str) -> (r: Option<String>)
    ensures
        match extension_spec(path@) {
            Some(x) => r matches Some(s) && s@ == x,
            None => r is None,
        },
{
    let name = match file_name(path) {
        Some(n) => n,
        None => return None,
    };
    let n = chars_of(name.as_str());
    let mut i = n.len();
    while i > 0 && n[i - 1] != '.'
        invariant
            i <= n@.len(),
            forall|k: int| i <= k < n@.len() ==> n@[k] != '.',
        decreases i,
    {
        i = i - 1;
    }
    if i <= 1 {
        proof {
            assert forall|j: int| 0 < j < n@.len() implies n@[j] != '.' by {
                if i == 1 && j == 0 {
                } 
            }
        }
        return None;
    }
    proof {
        let d = (i - 1) as int;
        assert(0 < d < n@.len() && n@[d] == '.');
        let c = choose|j: int|
            0 < j < n@.len() && n@[j] == '.' && forall|k: int| j < k < n@.len() ==> n@[k] != '.';
        assert(0 < d < n@.len() && n@[d] == '.' && forall|k: int| d < k < n@.len() ==> n@[k] != '.');
        if c < d {
            assert(n@[d] != '.');
        }
        if c > d {
            assert(n@[c] != '.');
        }
        assert(n@.subrange(i as int, n@.len() as int) =~= n@.skip(d + 1));
    }
    Some(string_of(&n, i, n.len()))
}

} // verus!
