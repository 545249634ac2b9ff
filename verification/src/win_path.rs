//! Reading Windows paths: the file name that a path ends in, and that file
//! name's extension.
//!
//! Both `\` and `/` separate components. A leading drive (`C:`) belongs to
//! the path's prefix, and so do the two components after a leading double
//! separator (`\\server\share`, `\\?\C:`, `\\.\pipe`). Empty and `.`
//! components are skipped; a path that ends in `..` has no file name.
use vstd::prelude::*;

verus! {

/// `c` separates path components.
pub open spec fn is_sep(c: char) -> bool {
    c == '\\' || c == '/'
}

/// The position where the last component of `t` starts: just after its last
/// separator, or 0.
pub open spec fn seg_start(t: Seq<char>) -> int
    decreases t.len(),
{
    if t.len() == 0 {
        0
    } else if is_sep(t.last()) {
        t.len() as int
    } else {
        seg_start(t.drop_last())
    }
}

/// The file name at the end of the prefix-free path `t`.
pub open spec fn file_name_from(t: Seq<char>) -> Option<Seq<char>>
    decreases t.len(),
{
    let k = seg_start(t);
    let seg = t.skip(k);
    if seg.len() == 0 || seg == "."@ {
        if k == 0 {
            None
        } else {
            proof {
                lemma_seg_start_bounds(t);
            }
            file_name_from(t.take(k - 1))
        }
    } else if seg == ".."@ {
        None
    } else {
        Some(seg)
    }
}

/// `t` after its first component and the separator that ends it; empty when
/// `t` has no separator.
pub open spec fn after_component(t: Seq<char>) -> Seq<char> {
    if exists|i: int| 0 <= i < t.len() && is_sep(t[i]) {
        t.skip(first_sep(t) + 1)
    } else {
        Seq::empty()
    }
}

/// The position of the first separator in `t`, or `t.len()`.
pub open spec fn first_sep(t: Seq<char>) -> int
    decreases t.len(),
{
    if t.len() == 0 {
        0
    } else if is_sep(t[0]) {
        0
    } else {
        1 + first_sep(t.drop_first())
    }
}

/// `c` is an ASCII letter.
pub open spec fn is_ascii_alpha(c: char) -> bool {
    ('a' <= c && c <= 'z') || ('A' <= c && c <= 'Z')
}

/// `path` without its prefix.
pub open spec fn strip_prefix(path: Seq<char>) -> Seq<char> {
    if path.len() >= 2 && is_sep(path[0]) && is_sep(path[1]) {
        after_component(after_component(path.skip(2)))
    } else if path.len() >= 2 && is_ascii_alpha(path[0]) && path[1] == ':' {
        path.skip(2)
    } else {
        path
    }
}

/// The file name that `path` ends in.
pub open spec fn file_name(path: Seq<char>) -> Option<Seq<char>> {
    file_name_from(strip_prefix(path))
}

/// The position of the last `.` in `name`, or -1.
pub open spec fn last_dot(name: Seq<char>) -> int
    decreases name.len(),
{
    if name.len() == 0 {
        -1
    } else if name.last() == '.' {
        name.len() - 1
    } else {
        last_dot(name.drop_last())
    }
}

/// The extension of a file name: what follows its last `.`, when something
/// precedes that `.`.
pub open spec fn name_extension(name: Seq<char>) -> Option<Seq<char>> {
    if last_dot(name) > 0 {
        Some(name.skip(last_dot(name) + 1))
    } else {
        None
    }
}

/// The extension of the file that `path` names.
pub open spec fn extension(path: Seq<char>) -> Option<Seq<char>> {
    match file_name(path) {
        Some(name) => name_extension(name),
        None => None,
    }
}

pub proof fn lemma_seg_start_bounds(t: Seq<char>)
    ensures
        0 <= seg_start(t) <= t.len(),
        forall|i: int| seg_start(t) <= i < t.len() ==> !is_sep(#[trigger] t[i]),
        seg_start(t) > 0 ==> is_sep(t[seg_start(t) - 1]),
    decreases t.len(),
{
    if t.len() > 0 && !is_sep(t.last()) {
        lemma_seg_start_bounds(t.drop_last());
        assert forall|i: int| seg_start(t) <= i < t.len() implies !is_sep(#[trigger] t[i]) by {
            if i < t.len() - 1 {
                assert(t.drop_last()[i] == t[i]);
            }
        }
        if seg_start(t) > 0 {
            assert(t.drop_last()[seg_start(t) - 1] == t[seg_start(t) - 1]);
        }
    }
}

proof fn lemma_first_sep_bounds(t: Seq<char>)
    ensures
        0 <= first_sep(t) <= t.len(),
        forall|i: int| 0 <= i < first_sep(t) ==> !is_sep(#[trigger] t[i]),
        first_sep(t) < t.len() ==> is_sep(t[first_sep(t)]),
    decreases t.len(),
{
    if t.len() > 0 && !is_sep(t[0]) {
        lemma_first_sep_bounds(t.drop_first());
        assert forall|i: int| 0 <= i < first_sep(t) implies !is_sep(#[trigger] t[i]) by {
            if i > 0 {
                assert(t.drop_first()[i - 1] == t[i]);
            }
        }
        if first_sep(t) < t.len() {
            assert(t.drop_first()[first_sep(t) - 1] == t[first_sep(t)]);
        }
    }
}

/// The position where the last component of `t[..end]` starts.
fn seg_start_exec(t: &[char], end: usize) -> (res: usize)
    requires
        end <= t@.len(),
    ensures
        res as int == seg_start(t@.take(end as int)),
{
    let mut k = end;
    while k > 0 && !(t[k - 1] == '\\' || t[k - 1] == '/')
        invariant
            k <= end <= t@.len(),
            seg_start(t@.take(end as int)) == seg_start(t@.take(k as int)),
        decreases k,
    {
        proof {
            assert(t@.take(k as int).drop_last() =~= t@.take(k - 1));
        }
        k -= 1;
    }
    k
}

/// The position of the first separator in `t[start..]`, counted from `start`.
fn first_sep_exec(t: &[char], start: usize) -> (res: usize)
    requires
        start <= t@.len(),
    ensures
        res as int == first_sep(t@.skip(start as int)),
        start + res <= t@.len(),
{
    let mut i = start;
    proof {
        lemma_first_sep_bounds(t@.skip(start as int));
    }
    while i < t.len() && !(t[i] == '\\' || t[i] == '/')
        invariant
            start <= i <= t@.len(),
            forall|j: int| start <= j < i ==> !is_sep(#[trigger] t@[j]),
            0 <= first_sep(t@.skip(start as int)) <= t@.len() - start,
            forall|j: int| 0 <= j < first_sep(t@.skip(start as int)) ==> !is_sep(#[trigger] t@.skip(start as int)[j]),
            first_sep(t@.skip(start as int)) < t@.len() - start ==> is_sep(t@.skip(start as int)[first_sep(t@.skip(start as int))]),
        decreases t@.len() - i,
    {
        i += 1;
    }
    proof {
        let u = t@.skip(start as int);
        let f = first_sep(u);
        if f < i - start {
            assert(u[f] == t@[start + f]);
        }
        if f > i - start {
            assert(u[i - start] == t@[i as int]);
        }
    }
    i - start
}

/// The position in `t` where `after_component(t[start..])` starts, counted
/// from the beginning of `t`; `t.len()` when it is empty.
fn after_component_exec(t: &[char], start: usize) -> (res: usize)
    requires
        start <= t@.len(),
    ensures
        start <= res <= t@.len(),
        t@.skip(res as int) == after_component(t@.skip(start as int)),
{
    let f = first_sep_exec(t, start);
    let u = Ghost(t@.skip(start as int));
    proof {
        lemma_first_sep_bounds(u@);
    }
    if f < t.len() - start {
        proof {
            assert(is_sep(u@[f as int]));
            assert(t@.skip(start + f + 1) =~= u@.skip(f + 1));
        }
        start + f + 1
    } else {
        proof {
            assert forall|i: int| 0 <= i < u@.len() implies !is_sep(u@[i]) by {}
            assert(t@.skip(t@.len() as int) =~= Seq::<char>::empty());
        }
        t.len()
    }
}

/// The position in `path` where the prefix-free part starts.
fn prefix_end(path: &[char]) -> (res: usize)
    ensures
        res <= path@.len(),
        path@.skip(res as int) == strip_prefix(path@),
{
    let n = path.len();
    if n >= 2 && (path[0] == '\\' || path[0] == '/') && (path[1] == '\\' || path[1] == '/') {
        let a = after_component_exec(path, 2);
        let b = after_component_exec(path, a);
        b
    } else if n >= 2 && (('a' <= path[0] && path[0] <= 'z') || ('A' <= path[0] && path[0] <= 'Z')) && path[1] == ':' {
        2
    } else {
        proof {
            assert(path@.skip(0) =~= path@);
        }
        0
    }
}

/// The bounds `(start, end)` in `path` of the file name that `path` ends in.
pub fn file_name_bounds(path: &[char]) -> (res: Option<(usize, usize)>)
    ensures
        match res {
            Some((a, b)) => a <= b <= path@.len() && file_name(path@) == Some(path@.subrange(a as int, b as int)),
            None => file_name(path@) is None,
        },
{
    let start = prefix_end(path);
    let ghost t = path@.skip(start as int);
    let mut end = path.len();
    proof {
        assert(t.take(t.len() as int) =~= t);
    }
    loop
        invariant
            start <= end <= path@.len(),
            t == path@.skip(start as int),
            file_name(path@) == file_name_from(t.take(end - start)),
        decreases end,
    {
        let ghost cur = t.take(end - start);
        let k = seg_start_exec(path, end);
        proof {
            assert(path@.take(end as int) =~= path@.take(start as int) + cur);
            lemma_seg_start_bounds(path@.take(end as int));
            lemma_seg_start_bounds(cur);
            lemma_seg_start_concat(path@.take(start as int), cur);
        }
        let seg_begin = if k < start { start } else { k };
        proof {
            assert(seg_begin - start == seg_start(cur));
            assert(cur.skip(seg_start(cur)) =~= path@.subrange(seg_begin as int, end as int));
        }
        let empty_or_dot = seg_begin == end || (end - seg_begin == 1 && path[seg_begin] == '.');
        let is_dot_dot = end - seg_begin == 2 && path[seg_begin] == '.' && path[seg_begin + 1] == '.';
        proof {
            let seg = path@.subrange(seg_begin as int, end as int);
            reveal_strlit(".");
            reveal_strlit("..");
            if end - seg_begin == 1 && path[seg_begin as int] == '.' {
                assert(seg =~= "."@);
            }
            if seg =~= "."@ {
                assert(seg[0] == '.');
            }
            if end - seg_begin == 2 && path[seg_begin as int] == '.' && path[seg_begin + 1] == '.' {
                assert(seg =~= ".."@);
            }
            if seg =~= ".."@ {
                assert(seg[0] == '.' && seg[1] == '.');
            }
        }
        if empty_or_dot {
            if seg_begin == start {
                return None;
            }
            proof {
                assert(t.take(seg_begin - 1 - start) =~= cur.take(seg_start(cur) - 1));
            }
            end = seg_begin - 1;
        } else if is_dot_dot {
            return None;
        } else {
            return Some((seg_begin, end));
        }
    }
}

proof fn lemma_seg_start_concat(a: Seq<char>, b: Seq<char>)
    ensures
        seg_start(a + b) == if seg_start(b) > 0 || (b.len() > 0 && is_sep(b[0])) {
            a.len() + seg_start(b)
        } else {
            seg_start(a + b)
        },
        seg_start(a + b) <= a.len() ==> seg_start(b) == 0,
        seg_start(a + b) > a.len() ==> seg_start(a + b) == a.len() + seg_start(b),
    decreases b.len(),
{
    if b.len() > 0 {
        assert((a + b).drop_last() =~= a + b.drop_last());
        lemma_seg_start_concat(a, b.drop_last());
        lemma_seg_start_bounds(a);
        lemma_seg_start_bounds(b.drop_last());
        if seg_start(b.drop_last()) > 0 {
            assert(b.drop_last()[seg_start(b.drop_last()) - 1] == b[seg_start(b.drop_last()) - 1]);
        }
    } else {
        assert(a + b =~= a);
        lemma_seg_start_bounds(a);
    }
}

/// The position of the last `.` in `name[start..end]`, counted from `start`, or -1.
fn last_dot_exec(t: &[char], start: usize, end: usize) -> (res: Option<usize>)
    requires
        start <= end <= t@.len(),
    ensures
        match res {
            Some(i) => start + i < end && last_dot(t@.subrange(start as int, end as int)) == i as int,
            None => last_dot(t@.subrange(start as int, end as int)) == -1,
        },
{
    let mut k = end;
    while k > start && t[k - 1] != '.'
        invariant
            start <= k <= end <= t@.len(),
            last_dot(t@.subrange(start as int, end as int)) == last_dot(t@.subrange(start as int, k as int)),
        decreases k,
    {
        proof {
            assert(t@.subrange(start as int, k as int).drop_last() =~= t@.subrange(start as int, k - 1));
        }
        k -= 1;
    }
    if k == start {
        None
    } else {
        Some(k - 1 - start)
    }
}

/// The bounds `(start, end)` in `path` of the extension of the file that
/// `path` names.
pub fn extension_bounds(path: &[char]) -> (res: Option<(usize, usize)>)
    ensures
        match res {
            Some((a, b)) => a <= b <= path@.len() && extension(path@) == Some(path@.subrange(a as int, b as int)),
            None => extension(path@) is None,
        },
{
    match file_name_bounds(path) {
        Some((a, b)) => {
            match last_dot_exec(path, a, b) {
                Some(d) => {
                    if d > 0 {
                        proof {
                            assert(path@.subrange(a as int, b as int).skip(d + 1) =~= path@.subrange(a + d + 1, b as int));
                        }
                        Some((a + d + 1, b))
                    } else {
                        None
                    }
                },
                None => None,
            }
        },
        None => None,
    }
}

/// The extension of the file that the Windows path `path` names.
pub fn path_extension(path: &str) -> (res: Option<String>)
    ensures
        match res {
            Some(e) => extension(path@) == Some(e@),
            None => extension(path@) is None,
        },
{
    let chars = crate::text::chars_of(path);
    match extension_bounds(chars.as_slice()) {
        Some((a, b)) => Some(path.substring_char(a, b).to_owned()),
        None => None,
    }
}

} // verus!
