//! Character-level text operations used throughout the library: trimming,
//! ASCII case folding, prefix tests and character replacement, each stated
//! over the character sequence that a string views as.
use vstd::prelude::*;

verus! {

/// The Unicode `White_Space` property, the set of characters that `str::trim`
/// and the `\s` class of a Unicode regular expression treat as whitespace.
pub open spec fn is_white_space(c: char) -> bool {
    ||| ('\u{9}' <= c && c <= '\u{d}')
    ||| c == ' '
    ||| c == '\u{85}'
    ||| c == '\u{a0}'
    ||| c == '\u{1680}'
    ||| ('\u{2000}' <= c && c <= '\u{200a}')
    ||| c == '\u{2028}'
    ||| c == '\u{2029}'
    ||| c == '\u{202f}'
    ||| c == '\u{205f}'
    ||| c == '\u{3000}'
}

/// `s` without its leading whitespace.
pub open spec fn trim_start(s: Seq<char>) -> Seq<char>
    decreases s.len(),
{
    if s.len() > 0 && is_white_space(s[0]) {
        trim_start(s.drop_first())
    } else {
        s
    }
}

/// `s` without its trailing whitespace.
pub open spec fn trim_end(s: Seq<char>) -> Seq<char>
    decreases s.len(),
{
    if s.len() > 0 && is_white_space(s.last()) {
        trim_end(s.drop_last())
    } else {
        s
    }
}

/// `s` without its leading and trailing whitespace.
pub open spec fn trim(s: Seq<char>) -> Seq<char> {
    trim_end(trim_start(s))
}

/// The ASCII lower-case form of `c`: `'A'..='Z'` become `'a'..='z'`, every
/// other character stays as it is.
pub open spec fn ascii_lower(c: char) -> char {
    if 'A' <= c && c <= 'Z' {
        ((c as u32) + 32) as char
    } else {
        c
    }
}

/// `s` with every character folded by [`ascii_lower`].
pub open spec fn ascii_lowercase(s: Seq<char>) -> Seq<char> {
    s.map_values(|c: char| ascii_lower(c))
}

/// `p` is a prefix of `s`.
pub open spec fn has_prefix(s: Seq<char>, p: Seq<char>) -> bool {
    p.len() <= s.len() && s.take(p.len() as int) == p
}

/// `s` with every occurrence of `from` replaced by `to`.
pub open spec fn replace_char(s: Seq<char>, from: char, to: char) -> Seq<char> {
    s.map_values(|c: char| if c == from { to } else { c })
}

/// `s` with every occurrence of `from` replaced by the text `to`.
pub open spec fn replace_char_by_text(s: Seq<char>, from: char, to: Seq<char>) -> Seq<char>
    decreases s.len(),
{
    if s.len() == 0 {
        s
    } else {
        let rest = replace_char_by_text(s.drop_last(), from, to);
        if s.last() == from {
            rest + to
        } else {
            rest.push(s.last())
        }
    }
}

/// `std::string::String::push`, which appends one character.
#[verifier::external_body]
pub(crate) fn push_char(s: &mut String, c: char)
    ensures
        final(s)@ == old(s)@.push(c),
{
    s.push(c);
}

/// `char::to_ascii_lowercase`, whose documentation maps `'A'..='Z'` to
/// `'a'..='z'` and leaves every other character unchanged.
#[verifier::external_body]
pub(crate) fn char_to_ascii_lowercase(c: char) -> (r: char)
    ensures
        r == ascii_lower(c),
{
    c.to_ascii_lowercase()
}

/// The characters of `s`, in order.
pub fn chars_of(s: &str) -> (res: Vec<char>)
    ensures
        res@ == s@,
{
    let mut res: Vec<char> = Vec::new();
    for c in it: s.chars()
        invariant
            it.seq() == s@,
            res@ == it.seq().take(it.index() as int),
    {
        res.push(c);
    }
    res
}

/// A string made of the characters `chars`.
pub fn string_from_chars(chars: &[char]) -> (res: String)
    ensures
        res@ == chars@,
{
    let mut res = String::new();
    let mut i: usize = 0;
    while i < chars.len()
        invariant
            i <= chars@.len(),
            res@ == chars@.take(i as int),
        decreases chars@.len() - i,
    {
        push_char(&mut res, chars[i]);
        proof {
            assert(chars@.take(i + 1) =~= chars@.take(i as int).push(chars@[i as int]));
        }
        i += 1;
    }
    proof {
        assert(chars@.take(chars@.len() as int) =~= chars@);
    }
    res
}

/// A string made of the characters `chars[start..end]`.
pub fn string_from_range(chars: &[char], start: usize, end: usize) -> (res: String)
    requires
        start <= end <= chars@.len(),
    ensures
        res@ == chars@.subrange(start as int, end as int),
{
    let mut res = String::new();
    let mut i: usize = start;
    while i < end
        invariant
            start <= i <= end <= chars@.len(),
            res@ == chars@.subrange(start as int, i as int),
        decreases end - i,
    {
        push_char(&mut res, chars[i]);
        proof {
            assert(chars@.subrange(start as int, i + 1) =~= chars@.subrange(start as int, i as int).push(chars@[i as int]));
        }
        i += 1;
    }
    res
}

/// Whether `c` is whitespace in the sense of [`is_white_space`].
pub fn char_is_white_space(c: char) -> (r: bool)
    ensures
        r == is_white_space(c),
{
    ('\u{9}' <= c && c <= '\u{d}') || c == ' ' || c == '\u{85}' || c == '\u{a0}' || c == '\u{1680}'
        || ('\u{2000}' <= c && c <= '\u{200a}') || c == '\u{2028}' || c == '\u{2029}' || c
        == '\u{202f}' || c == '\u{205f}' || c == '\u{3000}'
}

proof fn lemma_trim_start_shape(s: Seq<char>)
    ensures
        trim_start(s).len() <= s.len(),
        trim_start(s) == s.skip(s.len() - trim_start(s).len()),
        trim_start(s).len() == 0 || !is_white_space(trim_start(s)[0]),
        forall|k: int| 0 <= k < s.len() - trim_start(s).len() ==> is_white_space(#[trigger] s[k]),
    decreases s.len(),
{
    if s.len() > 0 && is_white_space(s[0]) {
        lemma_trim_start_shape(s.drop_first());
        assert forall|k: int| 0 <= k < s.len() - trim_start(s).len() implies is_white_space(
            #[trigger] s[k],
        ) by {
            if k > 0 {
                assert(s[k] == s.drop_first()[k - 1]);
            }
        }
        assert(s.drop_first().skip(s.drop_first().len() - trim_start(s).len()) =~= s.skip(
            s.len() - trim_start(s).len(),
        ));
    } else {
        assert(s.skip(0) =~= s);
    }
}

proof fn lemma_trim_end_shape(s: Seq<char>)
    ensures
        trim_end(s).len() <= s.len(),
        trim_end(s) == s.take(trim_end(s).len() as int),
        trim_end(s).len() == 0 || !is_white_space(trim_end(s).last()),
        forall|k: int| trim_end(s).len() <= k < s.len() ==> is_white_space(#[trigger] s[k]),
    decreases s.len(),
{
    if s.len() > 0 && is_white_space(s.last()) {
        lemma_trim_end_shape(s.drop_last());
        assert forall|k: int| trim_end(s).len() <= k < s.len() implies is_white_space(
            #[trigger] s[k],
        ) by {
            if k < s.len() - 1 {
                assert(s[k] == s.drop_last()[k]);
            }
        }
        assert(s.drop_last().take(trim_end(s).len() as int) =~= s.take(trim_end(s).len() as int));
    } else {
        assert(s.take(s.len() as int) =~= s);
    }
}

/// Trimming twice is trimming once.
pub proof fn lemma_trim_twice(s: Seq<char>)
    ensures
        trim(trim(s)) == trim(s),
{
    let u = trim_start(s);
    let t = trim_end(u);
    lemma_trim_start_shape(s);
    lemma_trim_end_shape(u);
    if t.len() > 0 {
        assert(t[0] == u[0]);
    }
    assert(trim_start(t) == t);
    assert(trim_end(t) == t);
}

/// Trimming cuts only whitespace, and only from the ends: the trimmed text
/// is the piece of `s` that starts at the returned position, everything
/// before and after that piece is whitespace, and a trimmed text that is not
/// empty starts and ends with a character that is not whitespace.
pub proof fn law_trim_cuts_only_surrounding_whitespace(s: Seq<char>) -> (start: int)
    ensures
        0 <= start && start + trim(s).len() <= s.len(),
        s.subrange(start, start + trim(s).len()) == trim(s),
        forall|k: int| 0 <= k < start ==> is_white_space(#[trigger] s[k]),
        forall|k: int| start + trim(s).len() <= k < s.len() ==> is_white_space(#[trigger] s[k]),
        trim(s).len() > 0 ==> !is_white_space(trim(s)[0]) && !is_white_space(trim(s).last()),
{
    let u = trim_start(s);
    let t = trim_end(u);
    lemma_trim_start_shape(s);
    lemma_trim_end_shape(u);
    let start = s.len() - u.len();
    if t.len() > 0 {
        assert(t[0] == u[0]);
    }
    assert(s.subrange(start, start + t.len()) =~= t);
    assert forall|k: int| start + t.len() <= k < s.len() implies is_white_space(#[trigger] s[k]) by {
        assert(s[k] == u[k - start]);
    }
    start
}

proof fn lemma_trim_start_skip(s: Seq<char>, i: int)
    requires
        0 <= i < s.len(),
        is_white_space(s[i]),
    ensures
        trim_start(s.skip(i)) == trim_start(s.skip(i + 1)),
{
    assert(s.skip(i).drop_first() =~= s.skip(i + 1));
}

proof fn lemma_trim_end_take(s: Seq<char>, j: int)
    requires
        0 < j <= s.len(),
        is_white_space(s[j - 1]),
    ensures
        trim_end(s.take(j)) == trim_end(s.take(j - 1)),
{
    assert(s.take(j).drop_last() =~= s.take(j - 1));
}

/// The positions `(start, end)` such that `trim(chars) == chars[start..end]`.
pub fn trim_bounds(chars: &[char]) -> (res: (usize, usize))
    ensures
        res.0 <= res.1 <= chars@.len(),
        trim(chars@) == chars@.subrange(res.0 as int, res.1 as int),
        trim_start(chars@) == chars@.skip(res.0 as int),
{
    let n = chars.len();
    let mut start: usize = 0;
    proof {
        assert(chars@.skip(0) =~= chars@);
    }
    while start < n && char_is_white_space(chars[start])
        invariant
            start <= n == chars@.len(),
            trim_start(chars@) == trim_start(chars@.skip(start as int)),
        decreases n - start,
    {
        proof {
            lemma_trim_start_skip(chars@, start as int);
        }
        start += 1;
    }
    let ghost rest = chars@.skip(start as int);
    assert(trim_start(rest) == rest);
    let mut end: usize = n;
    proof {
        assert(rest.take(rest.len() as int) =~= rest);
    }
    while end > start && char_is_white_space(chars[end - 1])
        invariant
            start <= end <= n == chars@.len(),
            rest == chars@.skip(start as int),
            trim_end(rest) == trim_end(rest.take(end - start)),
        decreases end,
    {
        proof {
            lemma_trim_end_take(rest, end - start);
        }
        end -= 1;
    }
    proof {
        let t = rest.take(end - start);
        assert(trim_end(t) == t);
        assert(t =~= chars@.subrange(start as int, end as int));
    }
    (start, end)
}

/// `s` without its leading and trailing whitespace.
pub fn trim_str(s: &str) -> (r: &str)
    ensures
        r@ == trim(s@),
{
    let chars = chars_of(s);
    let (start, end) = trim_bounds(chars.as_slice());
    s.substring_char(start, end)
}

/// Whether `s` is empty or made of whitespace only.
pub fn is_blank(s: &str) -> (r: bool)
    ensures
        r == (trim(s@).len() == 0),
{
    let chars = chars_of(s);
    let (start, end) = trim_bounds(chars.as_slice());
    start == end
}

/// Whether the characters `p` are a prefix of the characters `s`.
pub fn slice_has_prefix(s: &[char], p: &[char]) -> (r: bool)
    ensures
        r == has_prefix(s@, p@),
{
    if p.len() > s.len() {
        return false;
    }
    let mut i: usize = 0;
    while i < p.len()
        invariant
            i <= p@.len() <= s@.len(),
            forall|j: int| 0 <= j < i ==> s@[j] == p@[j],
        decreases p@.len() - i,
    {
        if s[i] != p[i] {
            assert(s@.take(p@.len() as int)[i as int] != p@[i as int]);
            return false;
        }
        i += 1;
    }
    assert(s@.take(p@.len() as int) =~= p@);
    true
}

/// `s` folded to ASCII lower case.
pub fn lowercase_chars(s: &[char]) -> (res: Vec<char>)
    ensures
        res@ == ascii_lowercase(s@),
{
    let mut res: Vec<char> = Vec::new();
    let mut i: usize = 0;
    while i < s.len()
        invariant
            i <= s@.len(),
            res@ =~= ascii_lowercase(s@.take(i as int)),
        decreases s@.len() - i,
    {
        res.push(char_to_ascii_lowercase(s[i]));
        i += 1;
        assert(ascii_lowercase(s@.take(i as int)) =~= ascii_lowercase(s@.take(i - 1)).push(
            ascii_lower(s@[i - 1]),
        ));
    }
    assert(s@.take(s@.len() as int) =~= s@);
    res
}

/// `s` with every `from` replaced by `to`.
pub fn replace_chars(s: &[char], from: char, to: char) -> (res: Vec<char>)
    ensures
        res@ == replace_char(s@, from, to),
{
    let mut res: Vec<char> = Vec::new();
    let mut i: usize = 0;
    while i < s.len()
        invariant
            i <= s@.len(),
            res@ =~= replace_char(s@.take(i as int), from, to),
        decreases s@.len() - i,
    {
        if s[i] == from {
            res.push(to);
        } else {
            res.push(s[i]);
        }
        i += 1;
        assert(replace_char(s@.take(i as int), from, to) =~= replace_char(
            s@.take(i - 1),
            from,
            to,
        ).push(if s@[i - 1] == from { to } else { s@[i - 1] }));
    }
    assert(s@.take(s@.len() as int) =~= s@);
    res
}

/// `s` with every `from` replaced by the characters `to`.
pub fn replace_char_with_text(s: &[char], from: char, to: &[char]) -> (res: Vec<char>)
    ensures
        res@ == replace_char_by_text(s@, from, to@),
{
    let mut res: Vec<char> = Vec::new();
    let mut i: usize = 0;
    while i < s.len()
        invariant
            i <= s@.len(),
            res@ == replace_char_by_text(s@.take(i as int), from, to@),
        decreases s@.len() - i,
    {
        if s[i] == from {
            let mut k: usize = 0;
            let ghost before = res@;
            while k < to.len()
                invariant
                    k <= to@.len(),
                    res@ == before + to@.take(k as int),
                decreases to@.len() - k,
            {
                res.push(to[k]);
                k += 1;
                assert(before + to@.take(k as int) =~= (before + to@.take(k - 1)).push(
                    to@[k - 1],
                ));
            }
            assert(to@.take(to@.len() as int) =~= to@);
        } else {
            res.push(s[i]);
        }
        i += 1;
        assert(s@.take(i as int).drop_last() =~= s@.take(i - 1));
    }
    assert(s@.take(s@.len() as int) =~= s@);
    res
}

/// Whether the characters `chars` spell exactly the text `lit`.
pub fn text_equals(chars: &[char], lit: &str) -> (res: bool)
    ensures
        res == (chars@ == lit@),
{
    let l = chars_of(lit);
    if l.len() != chars.len() {
        return false;
    }
    let r = slice_has_prefix(chars, l.as_slice());
    assert(chars@.take(chars@.len() as int) =~= chars@);
    r
}

} // verus!
