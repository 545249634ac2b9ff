//! What the web view content process makes of its source: inline HTML is
//! shown as it is, except that each `file:///` URL in it is rewritten to a
//! virtual `https://` host mapped to the URL's folder; a URL is navigated
//! to; any other source is a local path, turned into a `file://` URL.
use vstd::prelude::*;

use crate::numbers::{decimal, push_decimal};
use crate::text::{
    chars_of, has_prefix, is_white_space, replace_char, replace_chars, slice_has_prefix,
    string_from_chars, string_from_range, text_equals, trim, trim_bounds, trim_start,
};
use crate::vec_util::append_copies;

verus! {

/// The source is inline HTML: after leading whitespace it starts with
/// `<!doctype html`, `<!DOCTYPE html` or `<html`.
pub open spec fn is_inline_html_spec(source: Seq<char>) -> bool {
    let t = trim_start(source);
    has_prefix(t, "<!doctype html"@) || has_prefix(t, "<!DOCTYPE html"@) || has_prefix(t, "<html"@)
}

/// Whether `source` is inline HTML.
pub fn is_inline_html(source: &str) -> (res: bool)
    ensures
        res == is_inline_html_spec(source@),
{
    let chars = chars_of(source);
    let (start, _end) = trim_bounds(chars.as_slice());
    let mut rest: Vec<char> = Vec::new();
    let mut i = start;
    while i < chars.len()
        invariant
            start <= i <= chars@.len(),
            rest@ == chars@.subrange(start as int, i as int),
        decreases chars@.len() - i,
    {
        rest.push(chars[i]);
        i += 1;
        assert(chars@.subrange(start as int, i as int) =~= chars@.subrange(start as int, i - 1).push(
            chars@[i - 1],
        ));
    }
    assert(rest@ =~= chars@.skip(start as int));
    let a = chars_of("<!doctype html");
    let b = chars_of("<!DOCTYPE html");
    let c = chars_of("<html");
    slice_has_prefix(rest.as_slice(), a.as_slice()) || slice_has_prefix(rest.as_slice(), b.as_slice())
        || slice_has_prefix(rest.as_slice(), c.as_slice())
}

/// The `file://` URL of a Windows path, for navigation: backslashes become
/// slashes, and a UNC path keeps its server as the URL's host.
pub open spec fn navigation_file_url(path: Seq<char>) -> Seq<char> {
    let n = replace_char(path, '\\', '/');
    if has_prefix(n, "//"@) {
        "file://"@ + n.skip(2)
    } else {
        "file:///"@ + n
    }
}

/// The `file://` URL of the Windows path `path`.
pub fn path_to_file_url(path: &str) -> (res: String)
    ensures
        res@ == navigation_file_url(path@),
{
    let chars = chars_of(path);
    let n = replace_chars(chars.as_slice(), '\\', '/');
    let slash2 = chars_of("//");
    proof {
        reveal_strlit("//");
    }
    if slice_has_prefix(n.as_slice(), slash2.as_slice()) {
        let rest = string_from_range(n.as_slice(), 2, n.len());
        proof {
            assert(n@.subrange(2, n@.len() as int) =~= n@.skip(2));
        }
        let mut url = String::from_str("file://");
        url.append(rest.as_str());
        url
    } else {
        let all = string_from_chars(n.as_slice());
        let mut url = String::from_str("file:///");
        url.append(all.as_str());
        url
    }
}

/// How the web view shows a (trimmed) source.
#[derive(Debug, Clone, PartialEq, Eq)]
pub enum WebViewSourceKind {
    /// Inline HTML, shown after its file URLs are rewritten.
    InlineHtml(String),
    /// A URL, navigated to as it is.
    Url(String),
    /// A local path, navigated to as the `file://` URL of its full path.
    LocalPath(String),
}

/// The source is a URL that the web view navigates to as it is.
pub open spec fn is_navigable_url(t: Seq<char>) -> bool {
    has_prefix(t, "http://"@) || has_prefix(t, "https://"@) || has_prefix(t, "file://"@) || has_prefix(
        t,
        "data:"@,
    )
}

/// Why a web view source was refused.
#[derive(Debug, Clone, PartialEq, Eq)]
pub enum WebViewSourceError {
    /// The source is blank.
    Empty,
}

/// How the web view shows `source`: refused when blank; inline HTML; a URL
/// starting with `http://`, `https://`, `file://` or `data:`; otherwise a
/// local path. Each carries the trimmed source.
pub fn classify_webview_source(source: &str) -> (res: Result<WebViewSourceKind, WebViewSourceError>)
    ensures
        match res {
            Err(WebViewSourceError::Empty) => trim(source@).len() == 0,
            Ok(WebViewSourceKind::InlineHtml(t)) => trim(source@).len() > 0 && t@ == trim(source@)
                && is_inline_html_spec(t@),
            Ok(WebViewSourceKind::Url(t)) => trim(source@).len() > 0 && t@ == trim(source@)
                && !is_inline_html_spec(t@) && is_navigable_url(t@),
            Ok(WebViewSourceKind::LocalPath(t)) => trim(source@).len() > 0 && t@ == trim(source@)
                && !is_inline_html_spec(t@) && !is_navigable_url(t@),
        },
{
    let t = crate::text::trim_str(source);
    if t.is_empty() {
        return Err(WebViewSourceError::Empty);
    }
    if is_inline_html(t) {
        return Ok(WebViewSourceKind::InlineHtml(t.to_owned()));
    }
    let chars = chars_of(t);
    let s = chars.as_slice();
    let http = chars_of("http://");
    let https = chars_of("https://");
    let file = chars_of("file://");
    let data = chars_of("data:");
    if slice_has_prefix(s, http.as_slice()) || slice_has_prefix(s, https.as_slice())
        || slice_has_prefix(s, file.as_slice()) || slice_has_prefix(s, data.as_slice()) {
        Ok(WebViewSourceKind::Url(t.to_owned()))
    } else {
        Ok(WebViewSourceKind::LocalPath(t.to_owned()))
    }
}

/// `file:///`.
pub open spec fn file_scheme() -> Seq<char> {
    seq!['f', 'i', 'l', 'e', ':', '/', '/', '/']
}

/// `c` ends a file URL inside HTML: whitespace, `<`, `>` or `"`.
pub open spec fn ends_url(c: char) -> bool {
    is_white_space(c) || c == '<' || c == '>' || c == '"'
}

/// A file URL starts at `i`: `file:///` followed by a character other than
/// `"`.
pub open spec fn url_starts_at(s: Seq<char>, i: int) -> bool {
    0 <= i && i + 9 <= s.len() && s.subrange(i, i + 8) == file_scheme() && s[i + 8] != '"'
}

/// The first position at or after `pos` where a file URL starts, or
/// `s.len()` when there is none.
pub open spec fn next_url_start(s: Seq<char>, pos: int) -> int
    decreases s.len() - pos,
{
    if pos < 0 || pos + 9 > s.len() {
        s.len() as int
    } else if url_starts_at(s, pos) {
        pos
    } else {
        next_url_start(s, pos + 1)
    }
}

/// The end of the file URL whose characters after the scheme and the
/// first one start at `k`: the first position at or after `k` whose
/// character ends a URL, or `s.len()`.
pub open spec fn url_end(s: Seq<char>, k: int) -> int
    decreases s.len() - k,
{
    if 0 <= k < s.len() && !ends_url(s[k]) {
        url_end(s, k + 1)
    } else {
        k
    }
}

pub proof fn lemma_next_url_start(s: Seq<char>, pos: int)
    requires
        0 <= pos,
    ensures
        pos <= next_url_start(s, pos) || next_url_start(s, pos) == s.len(),
        next_url_start(s, pos) < s.len() ==> url_starts_at(s, next_url_start(s, pos)),
        forall|i: int| pos <= i < next_url_start(s, pos) && i + 9 <= s.len() ==> !url_starts_at(s, i),
    decreases s.len() - pos,
{
    if pos + 9 <= s.len() && !url_starts_at(s, pos) {
        lemma_next_url_start(s, pos + 1);
    }
}

pub proof fn lemma_url_end(s: Seq<char>, k: int)
    ensures
        k <= url_end(s, k),
        0 <= k <= s.len() ==> url_end(s, k) <= s.len(),
        forall|i: int| k <= i < url_end(s, k) ==> !ends_url(#[trigger] s[i]),
    decreases s.len() - k,
{
    if 0 <= k < s.len() && !ends_url(s[k]) {
        lemma_url_end(s, k + 1);
    }
}

/// The file URLs in `s` from position `pos` on, as `(start, end)` pairs,
/// found the way a leftmost-first search for `file:///[^"][^\s<>"]*` finds
/// them: the leftmost start, the longest extent, then on from its end.
pub open spec fn file_url_spans(s: Seq<char>, pos: int) -> Seq<(int, int)>
    decreases s.len() - pos,
{
    if pos < 0 {
        Seq::empty()
    } else {
        let i = next_url_start(s, pos);
        if i + 9 > s.len() {
            Seq::empty()
        } else {
            proof {
                lemma_next_url_start(s, pos);
                lemma_url_end(s, i + 9);
            }
            let j = url_end(s, i + 9);
            seq![(i, j)] + file_url_spans(s, j)
        }
    }
}

/// The spans `m` lie in order inside `0..len`, without overlapping.
pub open spec fn spans_in_order(m: Seq<(int, int)>, from: int, len: int) -> bool {
    &&& forall|k: int| 0 <= k < m.len() ==> from <= (#[trigger] m[k]).0 <= m[k].1 <= len
    &&& forall|k: int| 0 <= k < m.len() - 1 ==> (#[trigger] m[k]).1 <= m[k + 1].0
}

/// The file URLs that the search finds lie in order inside the text, do
/// not overlap, and each starts with `file:///` followed by a character
/// other than `"`.
pub proof fn law_file_urls_are_ordered_spans(s: Seq<char>, pos: int)
    requires
        0 <= pos <= s.len(),
    ensures
        spans_in_order(file_url_spans(s, pos), pos, s.len() as int),
        forall|k: int|
            0 <= k < file_url_spans(s, pos).len() ==> url_starts_at(
                s,
                (#[trigger] file_url_spans(s, pos)[k]).0,
            ),
    decreases s.len() - pos,
{
    let i = next_url_start(s, pos);
    lemma_next_url_start(s, pos);
    if i + 9 <= s.len() {
        lemma_url_end(s, i + 9);
        let j = url_end(s, i + 9);
        law_file_urls_are_ordered_spans(s, j);
        let rest = file_url_spans(s, j);
        let all = file_url_spans(s, pos);
        assert(all == seq![(i, j)] + rest);
        assert forall|k: int| 0 <= k < all.len() implies pos <= (#[trigger] all[k]).0 <= all[k].1
            <= s.len() by {
            if k > 0 {
                assert(all[k] == rest[k - 1]);
            }
        }
        assert forall|k: int| 0 <= k < all.len() - 1 implies (#[trigger] all[k]).1 <= all[k + 1].0 by {
            if k > 0 {
                assert(all[k] == rest[k - 1]);
                assert(all[k + 1] == rest[k]);
            } else {
                assert(all[1] == rest[0]);
            }
        }
        assert forall|k: int| 0 <= k < all.len() implies url_starts_at(s, (#[trigger] all[k]).0) by {
            if k > 0 {
                assert(all[k] == rest[k - 1]);
            }
        }
    }
}

/// The spans as integers.
pub open spec fn spans_view(m: Seq<(usize, usize)>) -> Seq<(int, int)> {
    m.map_values(|p: (usize, usize)| (p.0 as int, p.1 as int))
}

/// `s[i..i + 9]` starts a file URL.
fn url_starts_at_exec(s: &[char], i: usize) -> (res: bool)
    requires
        i + 9 <= s@.len(),
    ensures
        res == url_starts_at(s@, i as int),
{
    let r = s[i] == 'f' && s[i + 1] == 'i' && s[i + 2] == 'l' && s[i + 3] == 'e' && s[i + 4] == ':'
        && s[i + 5] == '/' && s[i + 6] == '/' && s[i + 7] == '/' && s[i + 8] != '"';
    proof {
        let sub = s@.subrange(i as int, i + 8);
        if r {
            assert(sub =~= file_scheme());
        }
        if sub == file_scheme() {
            assert(sub[0] == 'f' && sub[1] == 'i' && sub[2] == 'l' && sub[3] == 'e');
            assert(sub[4] == ':' && sub[5] == '/' && sub[6] == '/' && sub[7] == '/');
        }
    }
    r
}

fn ends_url_exec(c: char) -> (res: bool)
    ensures
        res == ends_url(c),
{
    crate::text::char_is_white_space(c) || c == '<' || c == '>' || c == '"'
}

/// The file URLs in `html`, as `(start, end)` character positions.
pub fn find_file_urls(html: &str) -> (res: Vec<(usize, usize)>)
    ensures
        spans_view(res@) == file_url_spans(html@, 0),
{
    let chars = chars_of(html);
    let s = chars.as_slice();
    let n = s.len();
    let mut res: Vec<(usize, usize)> = Vec::new();
    let mut pos: usize = 0;
    let mut i: usize = 0;
    while i < n && n - i >= 9
        invariant
            pos <= i <= n == s@.len(),
            s@ == html@,
            file_url_spans(s@, 0) == spans_view(res@) + file_url_spans(s@, pos as int),
            next_url_start(s@, pos as int) == next_url_start(s@, i as int),
        decreases n - i,
    {
        if url_starts_at_exec(s, i) {
            let mut j = i + 9;
            proof {
                lemma_url_end(s@, i + 9);
            }
            while j < n && !ends_url_exec(s[j])
                invariant
                    i + 9 <= j <= n == s@.len(),
                    url_end(s@, i + 9) == url_end(s@, j as int),
                decreases n - j,
            {
                j += 1;
            }
            proof {
                assert(next_url_start(s@, pos as int) == i);
                lemma_url_end(s@, i + 9);
                let spans = file_url_spans(s@, pos as int);
                assert(spans == seq![(i as int, j as int)] + file_url_spans(s@, j as int));
                assert(spans_view(res@.push((i, j))) =~= spans_view(res@).push((i as int, j as int)));
                assert(spans_view(res@) + spans =~= spans_view(res@.push((i, j))) + file_url_spans(
                    s@,
                    j as int,
                ));
            }
            res.push((i, j));
            pos = j;
            i = j;
        } else {
            i += 1;
        }
    }
    proof {
        assert(next_url_start(s@, i as int) == s@.len());
        assert(file_url_spans(s@, pos as int) =~= Seq::<(int, int)>::empty());
        assert(spans_view(res@) + Seq::<(int, int)>::empty() =~= spans_view(res@));
    }
    res
}

/// `%20` turned back into spaces, scanning left to right.
pub open spec fn decode_spaces(s: Seq<char>) -> Seq<char>
    decreases s.len(),
{
    if s.len() == 0 {
        s
    } else if s.len() >= 3 && s[0] == '%' && s[1] == '2' && s[2] == '0' {
        seq![' '] + decode_spaces(s.skip(3))
    } else {
        seq![s[0]] + decode_spaces(s.skip(1))
    }
}

/// The Windows path of a `file:///` URL: the rest of the URL with `%20`
/// decoded and slashes turned into backslashes; none for another URL.
pub open spec fn windows_path_of_file_url(url: Seq<char>) -> Option<Seq<char>> {
    if has_prefix(url, file_scheme()) {
        Some(replace_char(decode_spaces(url.skip(8)), '/', '\\'))
    } else {
        None
    }
}

/// The Windows path that the `file:///` URL `url` names.
pub fn file_url_to_windows_path(url: &str) -> (res: Option<String>)
    ensures
        match res {
            Some(p) => windows_path_of_file_url(url@) == Some(p@),
            None => windows_path_of_file_url(url@) is None,
        },
{
    let chars = chars_of(url);
    let s = chars.as_slice();
    let n = s.len();
    let ok = n >= 8 && s[0] == 'f' && s[1] == 'i' && s[2] == 'l' && s[3] == 'e' && s[4] == ':' && s[5]
        == '/' && s[6] == '/' && s[7] == '/';
    proof {
        if ok {
            assert(s@.take(8) =~= file_scheme());
        }
        if has_prefix(s@, file_scheme()) {
            let t = s@.take(8);
            assert(t[0] == 'f' && t[1] == 'i' && t[2] == 'l' && t[3] == 'e');
            assert(t[4] == ':' && t[5] == '/' && t[6] == '/' && t[7] == '/');
        }
    }
    if !ok {
        return None;
    }
    let mut out: Vec<char> = Vec::new();
    let mut i: usize = 8;
    while i < n
        invariant
            8 <= i <= n == s@.len(),
            decode_spaces(s@.skip(8)) == out@ + decode_spaces(s@.skip(i as int)),
        decreases n - i,
    {
        let ghost rest = s@.skip(i as int);
        if n - i >= 3 && s[i] == '%' && s[i + 1] == '2' && s[i + 2] == '0' {
            proof {
                assert(rest.skip(3) =~= s@.skip(i + 3));
                assert(out@ + decode_spaces(rest) =~= out@.push(' ') + decode_spaces(s@.skip(i + 3)));
            }
            out.push(' ');
            i += 3;
        } else {
            proof {
                assert(rest.skip(1) =~= s@.skip(i + 1));
                assert(rest[0] == s@[i as int]);
                assert(out@ + decode_spaces(rest) =~= out@.push(s@[i as int]) + decode_spaces(
                    s@.skip(i + 1),
                ));
            }
            out.push(s[i]);
            i += 1;
        }
    }
    proof {
        assert(s@.skip(n as int) =~= Seq::<char>::empty());
        assert(out@ + Seq::<char>::empty() =~= out@);
    }
    let back = replace_chars(out.as_slice(), '/', '\\');
    Some(string_from_chars(back.as_slice()))
}

/// The virtual host of the `n`th asset folder: `x-desk-assets-<n>.local`.
pub open spec fn virtual_host_name(n: nat) -> Seq<char> {
    "x-desk-assets-"@ + decimal(n) + ".local"@
}

/// The virtual host of the `n`th asset folder.
pub fn virtual_host(n: u64) -> (res: String)
    ensures
        res@ == virtual_host_name(n as nat),
{
    let mut out = chars_of("x-desk-assets-");
    push_decimal(&mut out, n);
    let tail = chars_of(".local");
    append_copies(&mut out, tail.as_slice());
    string_from_chars(out.as_slice())
}

/// A virtual host and the folder that it serves.
#[derive(Debug, Clone, PartialEq, Eq)]
pub struct VirtualHostMapping {
    pub host: String,
    pub folder: String,
}

/// The distinct folders among the first `n` of `folders`, in the order in
/// which they first appear.
pub open spec fn first_seen(folders: Seq<Seq<char>>, n: int) -> Seq<Seq<char>>
    decreases n,
{
    if n <= 0 {
        Seq::empty()
    } else {
        let d = first_seen(folders, n - 1);
        if d.contains(folders[n - 1]) {
            d
        } else {
            d.push(folders[n - 1])
        }
    }
}

proof fn lemma_first_seen(folders: Seq<Seq<char>>, n: int)
    requires
        0 <= n <= folders.len(),
    ensures
        first_seen(folders, n).no_duplicates(),
        forall|i: int| 0 <= i < n ==> first_seen(folders, n).contains(#[trigger] folders[i]),
        forall|k: int|
            0 <= k < first_seen(folders, n).len() ==> folders.take(n).contains(
                #[trigger] first_seen(folders, n)[k],
            ),
    decreases n,
{
    if n > 0 {
        lemma_first_seen(folders, n - 1);
        let d = first_seen(folders, n - 1);
        let e = first_seen(folders, n);
        assert forall|i: int| 0 <= i < n implies e.contains(#[trigger] folders[i]) by {
            if i < n - 1 {
                assert(d.contains(folders[i]));
                let k = choose|k: int| 0 <= k < d.len() && d[k] == folders[i];
                assert(e[k] == folders[i]);
            } else if !d.contains(folders[n - 1]) {
                assert(e[d.len() as int] == folders[n - 1]);
            }
        }
        assert forall|k: int| 0 <= k < e.len() implies folders.take(n).contains(#[trigger] e[k]) by {
            if k < d.len() {
                assert(folders.take(n - 1).contains(d[k]));
                let j = choose|j: int| 0 <= j < n - 1 && #[trigger] folders.take(n - 1)[j] == d[k];
                assert(folders.take(n)[j] == d[k]);
            } else {
                assert(folders.take(n)[n - 1] == folders[n - 1]);
            }
        }
    }
}

/// The views of a list of strings.
pub open spec fn strings_view(v: Seq<String>) -> Seq<Seq<char>> {
    v.map_values(|s: String| s@)
}

/// Assigns each folder a virtual host: the distinct folders, in the order
/// in which they first appear, get hosts number 1, 2, and so on, and each
/// folder's position gets the position of its mapping.
pub fn assign_virtual_hosts(folders: &[String]) -> (res: (Vec<usize>, Vec<VirtualHostMapping>))
    requires
        folders@.len() < u64::MAX,
    ensures
        ({
            let (host_of, mappings) = res;
            let d = first_seen(strings_view(folders@), folders@.len() as int);
            &&& mappings@.len() == d.len()
            &&& forall|k: int|
                0 <= k < mappings@.len() ==> (#[trigger] mappings@[k]).folder@ == d[k]
                    && mappings@[k].host@ == virtual_host_name((k + 1) as nat)
            &&& host_of@.len() == folders@.len()
            &&& forall|i: int|
                0 <= i < folders@.len() ==> (#[trigger] host_of@[i]) < d.len() && d[host_of@[i] as int]
                    == folders@[i]@
        }),
{
    let ghost f = strings_view(folders@);
    let mut host_of: Vec<usize> = Vec::new();
    let mut mappings: Vec<VirtualHostMapping> = Vec::new();
    let mut i: usize = 0;
    while i < folders.len()
        invariant
            i <= folders@.len() < u64::MAX,
            f == strings_view(folders@),
            mappings@.len() == first_seen(f, i as int).len(),
            mappings@.len() <= i,
            forall|k: int|
                0 <= k < mappings@.len() ==> (#[trigger] mappings@[k]).folder@ == first_seen(
                    f,
                    i as int,
                )[k] && mappings@[k].host@ == virtual_host_name((k + 1) as nat),
            host_of@.len() == i,
            forall|j: int|
                0 <= j < i ==> (#[trigger] host_of@[j]) < first_seen(f, i as int).len() && first_seen(
                    f,
                    i as int,
                )[host_of@[j] as int] == folders@[j]@,
        decreases folders@.len() - i,
    {
        let ghost d = first_seen(f, i as int);
        let key = chars_of(folders[i].as_str());
        assert(f[i as int] == folders@[i as int]@);
        let mut k: usize = 0;
        let mut found: Option<usize> = None;
        while k < mappings.len()
            invariant
                k <= mappings@.len() == d.len(),
                forall|m: int| 0 <= m < mappings@.len() ==> (#[trigger] mappings@[m]).folder@ == d[m],
                key@ == folders@[i as int]@,
                match found {
                    Some(m) => m < d.len() && d[m as int] == key@,
                    None => forall|m: int| 0 <= m < k ==> d[m] != key@,
                },
            decreases mappings@.len() - k,
        {
            if found.is_none() && text_equals(key.as_slice(), mappings[k].folder.as_str()) {
                found = Some(k);
            }
            k += 1;
        }
        proof {
            lemma_first_seen(f, i as int);
        }
        match found {
            Some(m) => {
                assert(d.contains(f[i as int]));
                assert(first_seen(f, i + 1) == d);
                host_of.push(m);
            },
            None => {
                assert(!d.contains(f[i as int]));
                let n = mappings.len();
                let host = virtual_host((n + 1) as u64);
                mappings.push(VirtualHostMapping { host, folder: folders[i].clone() });
                assert(first_seen(f, i + 1) == d.push(f[i as int]));
                host_of.push(n);
            },
        }
        i += 1;
    }
    (host_of, mappings)
}

/// One asset folder, one host: two positions get the same mapping exactly
/// when their folders are the same.
pub proof fn law_one_host_per_folder(folders: Seq<Seq<char>>, host_of: Seq<usize>, i: int, j: int)
    requires
        host_of.len() == folders.len(),
        forall|p: int|
            0 <= p < folders.len() ==> (#[trigger] host_of[p]) < first_seen(
                folders,
                folders.len() as int,
            ).len() && first_seen(folders, folders.len() as int)[host_of[p] as int] == folders[p],
        0 <= i < folders.len(),
        0 <= j < folders.len(),
    ensures
        (host_of[i] == host_of[j]) <==> (folders[i] == folders[j]),
{
    lemma_first_seen(folders, folders.len() as int);
    let d = first_seen(folders, folders.len() as int);
    assert(d[host_of[i] as int] == folders[i]);
    assert(d[host_of[j] as int] == folders[j]);
}

/// The `https://` URL of an asset on its virtual host: the host, then the
/// file name with backslashes turned into slashes.
pub open spec fn asset_url_of(host: Seq<char>, file_name: Seq<char>) -> Seq<char> {
    "https://"@ + host + "/"@ + replace_char(file_name, '\\', '/')
}

/// The `https://` URL of the file `file_name` on the virtual host `host`.
pub fn asset_url(host: &str, file_name: &str) -> (res: String)
    ensures
        res@ == asset_url_of(host@, file_name@),
{
    let mut out = chars_of("https://");
    let h = chars_of(host);
    append_copies(&mut out, h.as_slice());
    let slash = chars_of("/");
    append_copies(&mut out, slash.as_slice());
    let name = chars_of(file_name);
    let name = replace_chars(name.as_slice(), '\\', '/');
    append_copies(&mut out, name.as_slice());
    string_from_chars(out.as_slice())
}

/// `s` with the spans `m` from the `k`th on replaced by `r`, starting at
/// position `from`.
pub open spec fn spliced(s: Seq<char>, m: Seq<(int, int)>, r: Seq<Seq<char>>, k: int, from: int) -> Seq<
    char,
>
    decreases m.len() - k,
{
    if k < 0 || k >= m.len() {
        s.subrange(from, s.len() as int)
    } else {
        s.subrange(from, m[k].0) + r[k] + spliced(s, m, r, k + 1, m[k].1)
    }
}

/// Replacing each span by the text it already holds gives the text back.
pub proof fn law_splicing_the_same_text_is_identity(
    s: Seq<char>,
    m: Seq<(int, int)>,
    r: Seq<Seq<char>>,
    k: int,
    from: int,
)
    requires
        spans_in_order(m, 0, s.len() as int),
        0 <= k <= m.len(),
        0 <= from <= s.len(),
        k < m.len() ==> from <= m[k].0,
        r.len() == m.len(),
        forall|p: int| 0 <= p < m.len() ==> #[trigger] r[p] == s.subrange(m[p].0, m[p].1),
    ensures
        spliced(s, m, r, k, from) == s.subrange(from, s.len() as int),
    decreases m.len() - k,
{
    if k < m.len() {
        let a = m[k];
        assert(0 <= a.0 <= a.1 <= s.len());
        if k + 1 < m.len() {
            assert(m[k].1 <= m[k + 1].0);
        }
        law_splicing_the_same_text_is_identity(s, m, r, k + 1, a.1);
        assert(s.subrange(from, a.0) + s.subrange(a.0, a.1) + s.subrange(a.1, s.len() as int)
            =~= s.subrange(from, s.len() as int));
    }
}

/// Whether the spans lie in order inside `0..n`.
fn spans_are_in_order(spans: &[(usize, usize)], n: usize) -> (res: bool)
    ensures
        res == spans_in_order(spans_view(spans@), 0, n as int),
{
    let ghost m = spans_view(spans@);
    let mut k: usize = 0;
    let mut prev: usize = 0;
    while k < spans.len()
        invariant
            k <= spans@.len(),
            m == spans_view(spans@),
            forall|p: int| 0 <= p < k ==> 0 <= (#[trigger] m[p]).0 <= m[p].1 <= n,
            forall|p: int| 0 <= p < k - 1 ==> (#[trigger] m[p]).1 <= m[p + 1].0,
            k > 0 ==> prev == m[k - 1].1,
        decreases spans@.len() - k,
    {
        let (a, b) = spans[k];
        assert(m[k as int] == (a as int, b as int));
        if a > b || b > n {
            return false;
        }
        if k > 0 && prev > a {
            assert(!(m[k - 1].1 <= m[k as int].0));
            return false;
        }
        prev = b;
        k += 1;
    }
    true
}

/// The characters `s` with the ordered spans replaced.
fn splice_spans(s: &[char], spans: &[(usize, usize)], replacements: &[String]) -> (res: Vec<char>)
    requires
        spans_in_order(spans_view(spans@), 0, s@.len() as int),
        spans@.len() == replacements@.len(),
    ensures
        res@ == spliced(s@, spans_view(spans@), strings_view(replacements@), 0, 0),
{
    let n = s.len();
    let ghost m = spans_view(spans@);
    let ghost r = strings_view(replacements@);
    let mut out: Vec<char> = Vec::new();
    let mut from: usize = 0;
    let mut k: usize = 0;
    while k < spans.len()
        invariant
            k <= spans@.len() == replacements@.len(),
            m == spans_view(spans@),
            r == strings_view(replacements@),
            n == s@.len(),
            spans_in_order(m, 0, n as int),
            from <= n,
            k < m.len() ==> from <= m[k as int].0,
            spliced(s@, m, r, 0, 0) == out@ + spliced(s@, m, r, k as int, from as int),
        decreases spans@.len() - k,
    {
        let (a, b) = spans[k];
        assert(m[k as int] == (a as int, b as int));
        let ghost before = out@;
        let mut p = from;
        while p < a
            invariant
                from <= p <= a <= n == s@.len(),
                out@ == before + s@.subrange(from as int, p as int),
            decreases a - p,
        {
            out.push(s[p]);
            p += 1;
            assert(before + s@.subrange(from as int, p as int) =~= (before + s@.subrange(
                from as int,
                p - 1,
            )).push(s@[p - 1]));
        }
        let rep = chars_of(replacements[k].as_str());
        assert(r[k as int] == replacements@[k as int]@);
        append_copies(&mut out, rep.as_slice());
        proof {
            assert(before + spliced(s@, m, r, k as int, from as int) =~= out@ + spliced(
                s@,
                m,
                r,
                k + 1,
                b as int,
            ));
            if k + 1 < m.len() {
                assert(m[k as int].1 <= m[k + 1].0);
            }
        }
        from = b;
        k += 1;
    }
    let mut p = from;
    let ghost before = out@;
    while p < n
        invariant
            from <= p <= n == s@.len(),
            out@ == before + s@.subrange(from as int, p as int),
        decreases n - p,
    {
        out.push(s[p]);
        p += 1;
        assert(before + s@.subrange(from as int, p as int) =~= (before + s@.subrange(
            from as int,
            p - 1,
        )).push(s@[p - 1]));
    }
    out
}

/// `html` with each span of `spans` replaced by the string at the same
/// position of `replacements`; none when the spans are not in order inside
/// the text or the counts differ.
pub fn replace_spans(html: &str, spans: &[(usize, usize)], replacements: &[String]) -> (res: Option<
    String,
>)
    ensures
        match res {
            Some(out) => spans_in_order(spans_view(spans@), 0, html@.len() as int)
                && spans@.len() == replacements@.len() && out@ == spliced(
                html@,
                spans_view(spans@),
                strings_view(replacements@),
                0,
                0,
            ),
            None => !(spans_in_order(spans_view(spans@), 0, html@.len() as int) && spans@.len()
                == replacements@.len()),
        },
{
    let chars = chars_of(html);
    if spans.len() != replacements.len() || !spans_are_in_order(spans, chars.len()) {
        return None;
    }
    let out = splice_spans(chars.as_slice(), spans, replacements);
    Some(string_from_chars(out.as_slice()))
}


/// The position of folder `f` among the distinct folders of `folders`, in
/// the order in which they first appear.
pub open spec fn host_index_of(folders: Seq<Seq<char>>, f: Seq<char>) -> int {
    first_seen(folders, folders.len() as int).index_of(f)
}

/// The `https://` URL that replaces the `i`th file URL: its file name on
/// the virtual host of its folder.
pub open spec fn asset_urls_of(folders: Seq<Seq<char>>, file_names: Seq<Seq<char>>) -> Seq<Seq<char>> {
    Seq::new(
        folders.len(),
        |i: int|
            asset_url_of(
                virtual_host_name((host_index_of(folders, folders[i]) + 1) as nat),
                file_names[i],
            ),
    )
}

proof fn lemma_index_of_distinct(d: Seq<Seq<char>>, k: int)
    requires
        d.no_duplicates(),
        0 <= k < d.len(),
    ensures
        d.index_of(d[k]) == k,
{
    assert(0 <= k < d.len() && d[k] == d[k]);
    let j = d.index_of(d[k]);
    assert(0 <= j < d.len() && d[j] == d[k]);
}

/// Inline HTML with its file URLs pointed at virtual hosts: the URL at each
/// span of `spans` (in `html`) is replaced by the file name at the same
/// position of `file_names` on the virtual host of the folder at the same
/// position of `folders`. The distinct folders get hosts number 1, 2, and so
/// on in the order in which they first appear, and are returned with their
/// hosts. None when the spans are not in order inside the text or the three
/// lists differ in length.
pub fn rewrite_with_virtual_hosts(
    html: &str,
    spans: &[(usize, usize)],
    folders: &[String],
    file_names: &[String],
) -> (res: Option<(String, Vec<VirtualHostMapping>)>)
    requires
        folders@.len() < u64::MAX,
    ensures
        res is Some <==> (spans_in_order(spans_view(spans@), 0, html@.len() as int) && spans@.len()
            == folders@.len() && folders@.len() == file_names@.len()),
        res matches Some((out, m)) ==> ({
            let f = strings_view(folders@);
            let d = first_seen(f, f.len() as int);
            &&& m@.len() == d.len()
            &&& forall|k: int|
                0 <= k < m@.len() ==> (#[trigger] m@[k]).folder@ == d[k] && m@[k].host@
                    == virtual_host_name((k + 1) as nat)
            &&& out@ == spliced(
                html@,
                spans_view(spans@),
                asset_urls_of(f, strings_view(file_names@)),
                0,
                0,
            )
        }),
{
    if spans.len() != folders.len() || folders.len() != file_names.len() {
        return None;
    }
    let ghost f = strings_view(folders@);
    let ghost names = strings_view(file_names@);
    let (host_of, mappings) = assign_virtual_hosts(folders);
    let ghost d = first_seen(f, f.len() as int);
    proof {
        lemma_first_seen(f, f.len() as int);
    }
    let ghost urls = asset_urls_of(f, names);
    let mut replacements: Vec<String> = Vec::new();
    let mut i: usize = 0;
    while i < folders.len()
        invariant
            i <= folders@.len() == file_names@.len() == host_of@.len(),
            f == strings_view(folders@),
            names == strings_view(file_names@),
            d == first_seen(f, f.len() as int),
            d.no_duplicates(),
            urls == asset_urls_of(f, names),
            mappings@.len() == d.len(),
            forall|k: int|
                0 <= k < mappings@.len() ==> (#[trigger] mappings@[k]).folder@ == d[k]
                    && mappings@[k].host@ == virtual_host_name((k + 1) as nat),
            forall|j: int|
                0 <= j < folders@.len() ==> (#[trigger] host_of@[j]) < d.len() && d[host_of@[j] as int]
                    == folders@[j]@,
            strings_view(replacements@) == urls.take(i as int),
        decreases folders@.len() - i,
    {
        let h = host_of[i];
        proof {
            assert(f[i as int] == folders@[i as int]@);
            lemma_index_of_distinct(d, h as int);
            assert(host_index_of(f, f[i as int]) == h);
            assert(names[i as int] == file_names@[i as int]@);
        }
        let url = asset_url(mappings[h].host.as_str(), file_names[i].as_str());
        let ghost before = replacements@;
        replacements.push(url);
        proof {
            assert(strings_view(replacements@) =~= strings_view(before).push(url@));
            assert(urls.take(i + 1) =~= urls.take(i as int).push(urls[i as int]));
        }
        i += 1;
    }
    proof {
        assert(urls.take(folders@.len() as int) =~= urls);
    }
    match replace_spans(html, spans, replacements.as_slice()) {
        Some(out) => Some((out, mappings)),
        None => None,
    }
}

/// The message that asks the web view window to stop.
pub const WEBVIEW_STOP_MESSAGE: u32 = 0x8000 + 1;

/// The message that asks the web view window to pause its videos.
pub const WEBVIEW_PAUSE_MESSAGE: u32 = 0x8000 + 2;

/// The message that asks the web view window to resume its videos.
pub const WEBVIEW_RESUME_MESSAGE: u32 = 0x8000 + 3;

/// What the web view window does with a message.
#[derive(Debug, Clone, Copy, PartialEq, Eq, Structural)]
pub enum WebViewWindowAction {
    /// Fit the browser to the window.
    Resize,
    /// Pause the page's videos.
    PauseVideos,
    /// Resume the videos that were paused.
    ResumeVideos,
    /// End the message loop.
    Quit,
}

/// The message posted to the web view window for a content command.
pub fn webview_message_for(command: crate::content::ContentCommand) -> (res: u32)
    ensures
        res == (match command {
            crate::content::ContentCommand::Pause => WEBVIEW_PAUSE_MESSAGE,
            crate::content::ContentCommand::Resume => WEBVIEW_RESUME_MESSAGE,
            crate::content::ContentCommand::Stop => WEBVIEW_STOP_MESSAGE,
        }),
{
    match command {
        crate::content::ContentCommand::Pause => WEBVIEW_PAUSE_MESSAGE,
        crate::content::ContentCommand::Resume => WEBVIEW_RESUME_MESSAGE,
        crate::content::ContentCommand::Stop => WEBVIEW_STOP_MESSAGE,
    }
}

/// What the web view window does with the message `msg`: a size change
/// resizes the browser, the pause and resume messages control the videos,
/// and destruction or the stop message ends the loop. Other messages go to
/// the default handling.
pub open spec fn webview_action_for(msg: u32) -> Option<WebViewWindowAction> {
    if msg == 0x0005 {
        Some(WebViewWindowAction::Resize)
    } else if msg == WEBVIEW_PAUSE_MESSAGE {
        Some(WebViewWindowAction::PauseVideos)
    } else if msg == WEBVIEW_RESUME_MESSAGE {
        Some(WebViewWindowAction::ResumeVideos)
    } else if msg == 0x0002 || msg == WEBVIEW_STOP_MESSAGE {
        Some(WebViewWindowAction::Quit)
    } else {
        None
    }
}

/// What the web view window does with the message `msg`.
pub fn webview_window_action(msg: u32) -> (res: Option<WebViewWindowAction>)
    ensures
        res == webview_action_for(msg),
{
    if msg == 0x0005 {
        Some(WebViewWindowAction::Resize)
    } else if msg == WEBVIEW_PAUSE_MESSAGE {
        Some(WebViewWindowAction::PauseVideos)
    } else if msg == WEBVIEW_RESUME_MESSAGE {
        Some(WebViewWindowAction::ResumeVideos)
    } else if msg == 0x0002 || msg == WEBVIEW_STOP_MESSAGE {
        Some(WebViewWindowAction::Quit)
    } else {
        None
    }
}

/// A command posted to the web view window is acted on as it says: `Pause`
/// pauses the videos, `Resume` resumes them and `Stop` ends the loop.
pub proof fn law_posted_command_is_obeyed(command: crate::content::ContentCommand)
    ensures
        webview_action_for(
            match command {
                crate::content::ContentCommand::Pause => WEBVIEW_PAUSE_MESSAGE,
                crate::content::ContentCommand::Resume => WEBVIEW_RESUME_MESSAGE,
                crate::content::ContentCommand::Stop => WEBVIEW_STOP_MESSAGE,
            },
        ) == Some(
            match command {
                crate::content::ContentCommand::Pause => WebViewWindowAction::PauseVideos,
                crate::content::ContentCommand::Resume => WebViewWindowAction::ResumeVideos,
                crate::content::ContentCommand::Stop => WebViewWindowAction::Quit,
            },
        ),
{
}


/// A source that starts with `http://`, `https://`, `file://` or `data:` is
/// a URL to navigate to, whatever follows; a source whose first character
/// is none of `h`, `f` and `d` (a drive letter other than those, a
/// backslash, a dot) is not.
pub proof fn law_url_schemes_are_navigated(t: Seq<char>)
    ensures
        has_prefix(t, seq!['h', 't', 't', 'p', ':', '/', '/']) ==> is_navigable_url(t),
        has_prefix(t, seq!['h', 't', 't', 'p', 's', ':', '/', '/']) ==> is_navigable_url(t),
        has_prefix(t, seq!['f', 'i', 'l', 'e', ':', '/', '/']) ==> is_navigable_url(t),
        has_prefix(t, seq!['d', 'a', 't', 'a', ':']) ==> is_navigable_url(t),
        t.len() > 0 && t[0] != 'h' && t[0] != 'f' && t[0] != 'd' ==> !is_navigable_url(t),
{
    reveal_strlit("http://");
    reveal_strlit("https://");
    reveal_strlit("file://");
    reveal_strlit("data:");
    assert(seq!['h', 't', 't', 'p', ':', '/', '/'] =~= "http://"@);
    assert(seq!['h', 't', 't', 'p', 's', ':', '/', '/'] =~= "https://"@);
    assert(seq!['f', 'i', 'l', 'e', ':', '/', '/'] =~= "file://"@);
    assert(seq!['d', 'a', 't', 'a', ':'] =~= "data:"@);
    if t.len() > 0 && t[0] != 'h' && t[0] != 'f' && t[0] != 'd' {
        if has_prefix(t, "http://"@) {
            assert(t.take(7)[0] == t[0]);
        }
        if has_prefix(t, "https://"@) {
            assert(t.take(8)[0] == t[0]);
        }
        if has_prefix(t, "file://"@) {
            assert(t.take(7)[0] == t[0]);
        }
        if has_prefix(t, "data:"@) {
            assert(t.take(5)[0] == t[0]);
        }
    }
}

} // verus!
