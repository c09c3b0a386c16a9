//! File names and extensions of paths, taken as the raw bytes of the path (on Windows,
//! the bytes that `OsStr::as_encoded_bytes` gives), with the meaning that
//! `std::path::Path::file_name` and `Path::extension` give them.
//!
//! A [`PathStyle`] says whose rules apply. On Unix only `/` separates components. On
//! Windows both `/` and `\` do, and a path may begin with a prefix (a drive such as
//! `C:`, a share such as `\\server\share`, a device such as `\\.\COM1`, or a verbatim
//! prefix such as `\\?\C:`); after a verbatim prefix only `\` separates and `.` is a
//! component of its own.

use vstd::prelude::*;

verus! {

pub const SLASH: u8 = 0x2f;

pub const BACKSLASH: u8 = 0x5c;

pub const DOT: u8 = 0x2e;

pub const COLON: u8 = 0x3a;

pub const QUESTION_MARK: u8 = 0x3f;

/// Whose rules a path follows.
#[derive(Debug, Clone, Copy, PartialEq, Eq, Structural)]
pub enum PathStyle {
    Unix,
    Windows,
}

/// Which bytes separate the components of a path.
#[derive(Debug, Clone, Copy, PartialEq, Eq, Structural)]
pub enum Separators {
    /// Only `/` (Unix).
    Slash,
    /// Only `\` (Windows, after a verbatim prefix).
    Backslash,
    /// `/` and `\` (Windows).
    Either,
}

/// Whether `b` separates components under `seps`.
pub open spec fn separates(seps: Separators, b: u8) -> bool {
    match seps {
        Separators::Slash => b == SLASH,
        Separators::Backslash => b == BACKSLASH,
        Separators::Either => b == SLASH || b == BACKSLASH,
    }
}

/// Whether `b` separates components under `seps`.
pub fn is_separator(seps: Separators, b: u8) -> (r: bool)
    ensures
        r == separates(seps, b),
{
    match seps {
        Separators::Slash => b == SLASH,
        Separators::Backslash => b == BACKSLASH,
        Separators::Either => b == SLASH || b == BACKSLASH,
    }
}

/// The index just after the last separator of `p`, or 0 when `p` holds none.
pub open spec fn segment_start(p: Seq<u8>, seps: Separators) -> int
    decreases p.len(),
{
    if p.len() == 0 {
        0
    } else if separates(seps, p.last()) {
        p.len() as int
    } else {
        segment_start(p.drop_last(), seps)
    }
}

/// Where the last component of a path starts: within the path, after a separator,
/// with no separator after it.
pub proof fn lemma_segment_start_bounds(p: Seq<u8>, seps: Separators)
    ensures
        0 <= segment_start(p, seps) <= p.len(),
        p.len() > 0 && !separates(seps, p.last()) ==> segment_start(p, seps) < p.len(),
        forall|j: int| segment_start(p, seps) <= j < p.len() ==> !separates(seps, p[j]),
        segment_start(p, seps) > 0 ==> separates(seps, p[segment_start(p, seps) - 1]),
    decreases p.len(),
{
    if p.len() > 0 && !separates(seps, p.last()) {
        lemma_segment_start_bounds(p.drop_last(), seps);
        assert forall|j: int| segment_start(p, seps) <= j < p.len() implies !separates(
            seps,
            p[j],
        ) by {
            if j < p.len() - 1 {
                assert(p[j] == p.drop_last()[j]);
            }
        }
        if segment_start(p, seps) > 0 {
            assert(p[segment_start(p, seps) - 1] == p.drop_last()[segment_start(p, seps) - 1]);
        }
    }
}

/// The last component of `p` when it is a normal one: trailing separators are passed
/// over, and so are trailing `.` components when `skip_dot` holds (where it does not, a
/// final `.` is a component of its own and gives none); a final `..` or a path without
/// components gives none.
pub open spec fn last_component(p: Seq<u8>, seps: Separators, skip_dot: bool) -> Option<Seq<u8>>
    decreases p.len(),
{
    if p.len() == 0 {
        None
    } else if separates(seps, p.last()) {
        last_component(p.drop_last(), seps, skip_dot)
    } else {
        let k = segment_start(p, seps);
        proof {
            lemma_segment_start_bounds(p, seps);
        }
        let seg = p.subrange(k, p.len() as int);
        if seg == seq![DOT] {
            if skip_dot {
                last_component(p.take(k), seps, skip_dot)
            } else {
                None
            }
        } else if seg == seq![DOT, DOT] {
            None
        } else {
            Some(seg)
        }
    }
}

/// The file name of the Unix path `p`.
pub open spec fn file_name(p: Seq<u8>) -> Option<Seq<u8>> {
    last_component(p, Separators::Slash, true)
}

/// Whether `b` is an ASCII letter.
pub open spec fn is_ascii_letter(b: u8) -> bool {
    (0x41 <= b <= 0x5a) || (0x61 <= b <= 0x7a)
}

/// Whether `b` is `/` or `\`.
pub open spec fn is_either_separator(b: u8) -> bool {
    b == SLASH || b == BACKSLASH
}

/// The end of the component of `p` that starts at `i`: the first separator at or after
/// `i`, or the end of `p`.
pub open spec fn component_end(p: Seq<u8>, i: int, seps: Separators) -> int
    decreases p.len() - i,
{
    if i < 0 || i >= p.len() {
        p.len() as int
    } else if separates(seps, p[i]) {
        i
    } else {
        component_end(p, i + 1, seps)
    }
}

/// Whether `p` begins with the verbatim prefix `\\?\` (written with backslashes only).
pub open spec fn verbatim_start(p: Seq<u8>) -> bool {
    p.len() >= 4 && p[0] == BACKSLASH && p[1] == BACKSLASH && p[2] == QUESTION_MARK && p[3]
        == BACKSLASH
}

/// The length in bytes of the prefix of the Windows path `p` (0 when it has none):
/// `\\?\UNC\server\share`, `\\?\C:`, `\\?\name`, `\\.\device`, `\\server\share` or
/// `C:`. The first bytes are read with `/` standing for `\`, except that a verbatim
/// prefix is written with backslashes.
pub open spec fn windows_prefix_len(p: Seq<u8>) -> int {
    if p.len() >= 2 && is_either_separator(p[0]) && is_either_separator(p[1]) {
        if verbatim_start(p) {
            if p.len() >= 8 && p[4] == 0x55u8 && p[5] == 0x4eu8 && p[6] == 0x43u8
                && is_either_separator(p[7]) {
                let server_end = component_end(p, 8, Separators::Backslash);
                let share_start = if server_end < p.len() {
                    server_end + 1
                } else {
                    p.len() as int
                };
                let share_end = component_end(p, share_start, Separators::Backslash);
                if share_end > share_start {
                    share_end
                } else {
                    server_end
                }
            } else if p.len() >= 6 && is_ascii_letter(p[4]) && p[5] == COLON && (p.len() == 6
                || p[6] == BACKSLASH) {
                6
            } else {
                component_end(p, 4, Separators::Backslash)
            }
        } else if p.len() >= 4 && p[2] == DOT && is_either_separator(p[3]) {
            component_end(p, 4, Separators::Either)
        } else {
            let server_end = component_end(p, 2, Separators::Either);
            if server_end < p.len() {
                let share_end = component_end(p, server_end + 1, Separators::Either);
                if server_end > 2 && share_end > server_end + 1 {
                    share_end
                } else {
                    0
                }
            } else {
                0
            }
        }
    } else if p.len() >= 2 && is_ascii_letter(p[0]) && p[1] == COLON {
        2
    } else {
        0
    }
}

/// The separators of the Windows path `p`: only `\` after a verbatim prefix.
pub open spec fn windows_separators(p: Seq<u8>) -> Separators {
    if verbatim_start(p) {
        Separators::Backslash
    } else {
        Separators::Either
    }
}

/// The file name of the Windows path `p`: the last normal component after its prefix.
pub open spec fn windows_file_name(p: Seq<u8>) -> Option<Seq<u8>> {
    last_component(p.skip(windows_prefix_len(p)), windows_separators(p), !verbatim_start(p))
}

/// The file name of `p` under the rules of `style`.
pub open spec fn file_name_in(style: PathStyle, p: Seq<u8>) -> Option<Seq<u8>> {
    match style {
        PathStyle::Unix => file_name(p),
        PathStyle::Windows => windows_file_name(p),
    }
}

/// The end of a component lies between its start and the end of the path, no separator
/// comes before it, and a separator stands at it unless it is the end of the path.
pub proof fn lemma_component_end_bounds(p: Seq<u8>, i: int, seps: Separators)
    requires
        0 <= i <= p.len(),
    ensures
        i <= component_end(p, i, seps) <= p.len(),
        forall|j: int| i <= j < component_end(p, i, seps) ==> !separates(seps, p[j]),
        component_end(p, i, seps) < p.len() ==> separates(seps, p[component_end(p, i, seps)]),
    decreases p.len() - i,
{
    if i < p.len() && !separates(seps, p[i]) {
        lemma_component_end_bounds(p, i + 1, seps);
    }
}

/// The end of the component that starts at `i` is `e` when no separator comes before
/// `e` and a separator stands at `e` or `e` ends the path.
proof fn lemma_component_end_at(p: Seq<u8>, i: int, e: int, seps: Separators)
    requires
        0 <= i <= e <= p.len(),
        forall|j: int| i <= j < e ==> !separates(seps, p[j]),
        e == p.len() || separates(seps, p[e]),
    ensures
        component_end(p, i, seps) == e,
    decreases e - i,
{
    if i < e {
        lemma_component_end_at(p, i + 1, e, seps);
    }
}

/// The prefix of a Windows path lies within the path.
pub proof fn lemma_windows_prefix_bounds(p: Seq<u8>)
    ensures
        0 <= windows_prefix_len(p) <= p.len(),
{
    if p.len() >= 8 {
        lemma_component_end_bounds(p, 8, Separators::Backslash);
        let server_end = component_end(p, 8, Separators::Backslash);
        if server_end < p.len() {
            lemma_component_end_bounds(p, server_end + 1, Separators::Backslash);
        } else {
            lemma_component_end_bounds(p, p.len() as int, Separators::Backslash);
        }
    }
    if p.len() >= 4 {
        lemma_component_end_bounds(p, 4, Separators::Backslash);
        lemma_component_end_bounds(p, 4, Separators::Either);
    }
    if p.len() >= 2 {
        lemma_component_end_bounds(p, 2, Separators::Either);
        let server_end = component_end(p, 2, Separators::Either);
        if server_end < p.len() {
            lemma_component_end_bounds(p, server_end + 1, Separators::Either);
        }
    }
}

/// The index of the last `.` of `name`, or -1 when it holds none.
pub open spec fn last_dot(name: Seq<u8>) -> int
    decreases name.len(),
{
    if name.len() == 0 {
        -1
    } else if name.last() == DOT {
        name.len() - 1
    } else {
        last_dot(name.drop_last())
    }
}

/// Where the last `.` of a name is: within the name, with no `.` after it.
pub proof fn lemma_last_dot_bounds(name: Seq<u8>)
    ensures
        -1 <= last_dot(name) < name.len(),
        forall|j: int| last_dot(name) < j < name.len() ==> name[j] != DOT,
        last_dot(name) >= 0 ==> name[last_dot(name)] == DOT,
    decreases name.len(),
{
    if name.len() > 0 && name.last() != DOT {
        lemma_last_dot_bounds(name.drop_last());
        assert forall|j: int| last_dot(name) < j < name.len() implies name[j] != DOT by {
            if j < name.len() - 1 {
                assert(name[j] == name.drop_last()[j]);
            }
        }
        if last_dot(name) >= 0 {
            assert(name[last_dot(name)] == name.drop_last()[last_dot(name)]);
        }
    }
}

/// The extension of a file name: what follows its last `.`, when that dot is not its
/// first byte.
pub open spec fn name_extension(name: Seq<u8>) -> Option<Seq<u8>> {
    let d = last_dot(name);
    if d <= 0 {
        None
    } else {
        Some(name.skip(d + 1))
    }
}

/// The extension of the file that `p` names under the rules of `style`.
pub open spec fn path_extension_in(style: PathStyle, p: Seq<u8>) -> Option<Seq<u8>> {
    match file_name_in(style, p) {
        Some(name) => name_extension(name),
        None => None,
    }
}

/// The extension of the file that the Unix path `p` names.
pub open spec fn path_extension(p: Seq<u8>) -> Option<Seq<u8>> {
    path_extension_in(PathStyle::Unix, p)
}

/// The last component starts at `k` when `k` follows a separator (or is 0) and no
/// separator comes after it.
proof fn lemma_segment_start_at(q: Seq<u8>, k: int, seps: Separators)
    requires
        0 <= k <= q.len(),
        forall|j: int| k <= j < q.len() ==> !separates(seps, q[j]),
        k == 0 || separates(seps, q[k - 1]),
    ensures
        segment_start(q, seps) == k,
    decreases q.len(),
{
    if q.len() > k {
        assert(k == 0 || q.drop_last()[k - 1] == q[k - 1]);
        lemma_segment_start_at(q.drop_last(), k, seps);
    }
}

/// The last `.` is at `d` when it is a `.` (or `d` is -1) and no `.` comes after it.
proof fn lemma_last_dot_at(q: Seq<u8>, d: int)
    requires
        -1 <= d < q.len(),
        forall|j: int| d < j < q.len() ==> q[j] != DOT,
        d >= 0 ==> q[d] == DOT,
    ensures
        last_dot(q) == d,
    decreases q.len(),
{
    if q.len() > d + 1 {
        if d >= 0 {
            assert(q.drop_last()[d] == q[d]);
        }
        lemma_last_dot_at(q.drop_last(), d);
    }
}

/// The end of the component of `p` that starts at `i`.
fn find_component_end(p: &[u8], i: usize, seps: Separators) -> (e: usize)
    requires
        i <= p@.len(),
    ensures
        e == component_end(p@, i as int, seps),
{
    let mut e: usize = i;
    while e < p.len() && !is_separator(seps, p[e])
        invariant
            i <= e <= p@.len(),
            forall|j: int| i <= j < e ==> !separates(seps, p@[j]),
        decreases p@.len() - e,
    {
        e = e + 1;
    }
    proof {
        lemma_component_end_at(p@, i as int, e as int, seps);
    }
    e
}

/// The length of the prefix of the Windows path `p`.
pub fn windows_prefix_length(p: &[u8]) -> (n: usize)
    ensures
        n == windows_prefix_len(p@),
{
    let len = p.len();
    let sep0 = len >= 2 && (p[0] == SLASH || p[0] == BACKSLASH);
    let sep1 = len >= 2 && (p[1] == SLASH || p[1] == BACKSLASH);
    if sep0 && sep1 {
        let verbatim = len >= 4 && p[0] == BACKSLASH && p[1] == BACKSLASH && p[2] == QUESTION_MARK
            && p[3] == BACKSLASH;
        if verbatim {
            if len >= 8 && p[4] == 0x55u8 && p[5] == 0x4eu8 && p[6] == 0x43u8 && (p[7] == SLASH
                || p[7] == BACKSLASH) {
                let server_end = find_component_end(p, 8, Separators::Backslash);
                let share_start = if server_end < len {
                    server_end + 1
                } else {
                    len
                };
                let share_end = find_component_end(p, share_start, Separators::Backslash);
                if share_end > share_start {
                    share_end
                } else {
                    server_end
                }
            } else if len >= 6 && ((0x41 <= p[4] && p[4] <= 0x5a) || (0x61 <= p[4] && p[4]
                <= 0x7a)) && p[5] == COLON && (len == 6 || p[6] == BACKSLASH) {
                6
            } else {
                find_component_end(p, 4, Separators::Backslash)
            }
        } else if len >= 4 && p[2] == DOT && (p[3] == SLASH || p[3] == BACKSLASH) {
            find_component_end(p, 4, Separators::Either)
        } else {
            let server_end = find_component_end(p, 2, Separators::Either);
            if server_end < len {
                let share_end = find_component_end(p, server_end + 1, Separators::Either);
                if server_end > 2 && share_end > server_end + 1 {
                    share_end
                } else {
                    0
                }
            } else {
                0
            }
        }
    } else if len >= 2 && ((0x41 <= p[0] && p[0] <= 0x5a) || (0x61 <= p[0] && p[0] <= 0x7a))
        && p[1] == COLON {
        2
    } else {
        0
    }
}

/// The byte range within `p` of the last normal component of `p` from `start` on.
fn component_range(p: &[u8], start: usize, seps: Separators, skip_dot: bool) -> (r: Option<
    (usize, usize),
>)
    requires
        start <= p@.len(),
    ensures
        match r {
            Some((a, b)) => start <= a <= b <= p@.len() && last_component(
                p@.skip(start as int),
                seps,
                skip_dot,
            ) == Some(p@.subrange(a as int, b as int)),
            None => last_component(p@.skip(start as int), seps, skip_dot) is None,
        },
{
    let mut end: usize = p.len();
    proof {
        assert(p@.subrange(start as int, end as int) =~= p@.skip(start as int));
    }
    loop
        invariant
            start <= end <= p@.len(),
            last_component(p@.skip(start as int), seps, skip_dot) == last_component(
                p@.subrange(start as int, end as int),
                seps,
                skip_dot,
            ),
        decreases end,
    {
        let ghost q = p@.subrange(start as int, end as int);
        if end == start {
            return None;
        }
        if is_separator(seps, p[end - 1]) {
            proof {
                assert(q.drop_last() =~= p@.subrange(start as int, end - 1));
            }
            end = end - 1;
        } else {
            let mut k: usize = end;
            while k > start && !is_separator(seps, p[k - 1])
                invariant
                    start <= k <= end,
                    end <= p@.len(),
                    forall|j: int| k <= j < end ==> !separates(seps, p@[j]),
                decreases k,
            {
                k = k - 1;
            }
            let ghost kk = k - start;
            proof {
                assert forall|j: int| kk <= j < q.len() implies !separates(seps, q[j]) by {
                    assert(q[j] == p@[start + j]);
                }
                if kk > 0 {
                    assert(q[kk - 1] == p@[k - 1]);
                }
                lemma_segment_start_at(q, kk, seps);
                assert(q.subrange(kk, q.len() as int) =~= p@.subrange(k as int, end as int));
            }
            if end - k == 1 && p[k] == DOT {
                proof {
                    assert(p@.subrange(k as int, end as int) =~= seq![DOT]);
                    assert(q.take(kk) =~= p@.subrange(start as int, k as int));
                }
                if !skip_dot {
                    return None;
                }
                end = k;
            } else if end - k == 2 && p[k] == DOT && p[k + 1] == DOT {
                proof {
                    assert(p@.subrange(k as int, end as int) =~= seq![DOT, DOT]);
                }
                return None;
            } else {
                proof {
                    let seg = p@.subrange(k as int, end as int);
                    if end - k == 1 {
                        assert(seg[0] != DOT);
                        assert(seg != seq![DOT]);
                    }
                    if end - k == 2 {
                        assert(seg[0] != DOT || seg[1] != DOT);
                        assert(seg != seq![DOT, DOT]);
                    }
                    if end - k != 1 {
                        assert(seg.len() != seq![DOT].len());
                    }
                    if end - k != 2 {
                        assert(seg.len() != seq![DOT, DOT].len());
                    }
                }
                return Some((k, end));
            }
        }
    }
}

/// The byte range of the file name of `p` within `p` under the rules of `style`, if it
/// has one.
pub fn file_name_range_in(style: PathStyle, p: &[u8]) -> (r: Option<(usize, usize)>)
    ensures
        match r {
            Some((a, b)) => a <= b <= p@.len() && file_name_in(style, p@) == Some(
                p@.subrange(a as int, b as int),
            ),
            None => file_name_in(style, p@) is None,
        },
{
    match style {
        PathStyle::Unix => {
            proof {
                assert(p@.skip(0) =~= p@);
            }
            component_range(p, 0, Separators::Slash, true)
        },
        PathStyle::Windows => {
            let n = windows_prefix_length(p);
            proof {
                lemma_windows_prefix_bounds(p@);
            }
            let verbatim = p.len() >= 4 && p[0] == BACKSLASH && p[1] == BACKSLASH && p[2]
                == QUESTION_MARK && p[3] == BACKSLASH;
            if verbatim {
                component_range(p, n, Separators::Backslash, false)
            } else {
                component_range(p, n, Separators::Either, true)
            }
        },
    }
}

/// The bytes of `p` in `a..b`.
pub fn copy_range(p: &[u8], a: usize, b: usize) -> (r: Vec<u8>)
    requires
        a <= b <= p@.len(),
    ensures
        r@ == p@.subrange(a as int, b as int),
{
    let mut r: Vec<u8> = Vec::new();
    let mut i: usize = a;
    while i < b
        invariant
            a <= i <= b,
            b <= p@.len(),
            r@ == p@.subrange(a as int, i as int),
        decreases b - i,
    {
        r.push(p[i]);
        proof {
            assert(p@.subrange(a as int, i + 1) =~= p@.subrange(a as int, i as int).push(
                p@[i as int],
            ));
        }
        i = i + 1;
    }
    r
}

/// The file name of `p` under the rules of `style`, as `Path::file_name` gives it there.
pub fn path_file_name_in(style: PathStyle, p: &[u8]) -> (r: Option<Vec<u8>>)
    ensures
        match r {
            Some(n) => file_name_in(style, p@) == Some(n@),
            None => file_name_in(style, p@) is None,
        },
{
    match file_name_range_in(style, p) {
        Some((a, b)) => Some(copy_range(p, a, b)),
        None => None,
    }
}

/// The file name of the Unix path `p`, as `Path::file_name` gives it.
pub fn path_file_name(p: &[u8]) -> (r: Option<Vec<u8>>)
    ensures
        match r {
            Some(n) => file_name(p@) == Some(n@),
            None => file_name(p@) is None,
        },
{
    path_file_name_in(PathStyle::Unix, p)
}

/// The extension of the file that `p` names under the rules of `style`, as
/// `Path::extension` gives it there.
pub fn extension_in(style: PathStyle, p: &[u8]) -> (r: Option<Vec<u8>>)
    ensures
        match r {
            Some(e) => path_extension_in(style, p@) == Some(e@),
            None => path_extension_in(style, p@) is None,
        },
{
    match file_name_range_in(style, p) {
        None => None,
        Some((a, b)) => {
            let ghost name = p@.subrange(a as int, b as int);
            let mut d: usize = b;
            while d > a && p[d - 1] != DOT
                invariant
                    a <= d <= b,
                    b <= p@.len(),
                    forall|j: int| d <= j < b ==> p@[j] != DOT,
                decreases d,
            {
                d = d - 1;
            }
            // the last dot of the name sits at name index d - a - 1
            proof {
                assert forall|j: int| d - a - 1 < j < name.len() implies name[j] != DOT by {
                    assert(name[j] == p@[a + j]);
                }
                if d > a {
                    assert(name[d - a - 1] == p@[d - 1]);
                }
                lemma_last_dot_at(name, d - a - 1);
            }
            if d == a || d - a == 1 {
                None
            } else {
                proof {
                    assert(name.skip(d - a) =~= p@.subrange(d as int, b as int));
                }
                Some(copy_range(p, d, b))
            }
        }
    }
}

/// The extension of the file that the Unix path `p` names, as `Path::extension` gives it.
pub fn extension(p: &[u8]) -> (r: Option<Vec<u8>>)
    ensures
        match r {
            Some(e) => path_extension(p@) == Some(e@),
            None => path_extension(p@) is None,
        },
{
    extension_in(PathStyle::Unix, p)
}

/// The last component of a path that ends with a separator and then a normal name,
/// of any length, is that name.
pub proof fn lemma_last_component_after_separator(
    dir: Seq<u8>,
    sep: u8,
    name: Seq<u8>,
    seps: Separators,
    skip_dot: bool,
)
    requires
        separates(seps, sep),
        name.len() > 0,
        forall|j: int| 0 <= j < name.len() ==> !separates(seps, #[trigger] name[j]),
        name != seq![DOT],
        name != seq![DOT, DOT],
    ensures
        last_component(dir + seq![sep] + name, seps, skip_dot) == Some(name),
        last_component(name, seps, skip_dot) == Some(name),
{
    let p = dir + seq![sep] + name;
    let k = dir.len() + 1int;
    assert forall|j: int| k <= j < p.len() implies !separates(seps, p[j]) by {
        assert(p[j] == name[j - k]);
    }
    assert(p[k - 1] == sep);
    lemma_segment_start_at(p, k, seps);
    assert(p.last() == name.last());
    assert(p.subrange(k, p.len() as int) =~= name);
    lemma_segment_start_at(name, 0, seps);
    assert(name.subrange(0, name.len() as int) =~= name);
}

/// The extension of a name is what follows its last `.`: a name made of a nonempty stem,
/// a `.` and a tail without `.` has that tail as its extension, and every extension is
/// such a tail of its name.
pub proof fn lemma_extension_is_the_tail_after_the_last_dot(stem: Seq<u8>, tail: Seq<u8>, name: Seq<u8>)
    requires
        stem.len() > 0,
        forall|j: int| 0 <= j < tail.len() ==> #[trigger] tail[j] != DOT,
    ensures
        name_extension(stem + seq![DOT] + tail) == Some(tail),
        name_extension(name) matches Some(e) ==> (forall|j: int| 0 <= j < e.len() ==> #[trigger] e[j]
            != DOT) && exists|d: int|
            #![trigger name.take(d)]
            0 < d < name.len() && name[d] == DOT && name == name.take(d) + seq![DOT] + e,
{
    let n = stem + seq![DOT] + tail;
    let d = stem.len() as int;
    assert forall|j: int| d < j < n.len() implies n[j] != DOT by {
        assert(n[j] == tail[j - d - 1]);
    }
    lemma_last_dot_at(n, d);
    assert(n.skip(d + 1) =~= tail);
    lemma_last_dot_bounds(name);
    let ld = last_dot(name);
    if ld > 0 {
        let e = name.skip(ld + 1);
        assert forall|j: int| 0 <= j < e.len() implies #[trigger] e[j] != DOT by {
            assert(e[j] == name[ld + 1 + j]);
        }
        assert(name == name.take(ld) + seq![DOT] + e);
    }
}

} // verus!
