//! Null-terminated UTF-16 strings, the form in which Windows takes text.
use vstd::prelude::*;
use vstd::slice::SliceAdditionalExecFns;

verus! {

/// The UTF-16 code units of the character `c`: one unit below U+10000, a
/// surrogate pair above.
pub open spec fn utf16_of_char(c: char) -> Seq<u16> {
    let v = (c as u32) as int;
    if v < 0x10000 {
        seq![v as u16]
    } else {
        let w = v - 0x10000;
        seq![(0xD800 + w / 0x400) as u16, (0xDC00 + w % 0x400) as u16]
    }
}

/// The UTF-16 encoding of `s`.
pub open spec fn utf16_encode(s: Seq<char>) -> Seq<u16>
    decreases s.len(),
{
    if s.len() == 0 {
        Seq::empty()
    } else {
        utf16_encode(s.drop_last()) + utf16_of_char(s.last())
    }
}

/// Appends the UTF-16 encoding of `s` to `out`.
pub fn push_utf16(out: &mut Vec<u16>, s: &str)
    ensures
        final(out)@ == old(out)@ + utf16_encode(s@),
{
    let chars = crate::text::chars_of(s);
    let mut i: usize = 0;
    while i < chars.len()
        invariant
            i <= chars@.len(),
            chars@ == s@,
            out@ == old(out)@ + utf16_encode(chars@.take(i as int)),
        decreases chars@.len() - i,
    {
        let c = chars[i];
        let v = c as u32;
        proof {
            vstd::utf8::char_is_scalar(c);
        }
        let ghost before = out@;
        if v < 0x10000 {
            out.push(v as u16);
        } else {
            let w = v - 0x10000;
            assert(w < 0x100000);
            out.push((0xD800 + w / 0x400) as u16);
            out.push((0xDC00 + w % 0x400) as u16);
        }
        proof {
            assert(chars@.take(i + 1).drop_last() =~= chars@.take(i as int));
            assert(out@ =~= before + utf16_of_char(c));
        }
        i += 1;
    }
    assert(chars@.take(chars@.len() as int) =~= chars@);
}

/// The units of a UTF-16 registry string up to its first 0 unit.
pub open spec fn units_before_nul(units: Seq<u16>) -> Seq<u16>
    decreases units.len(),
{
    if units.len() == 0 {
        units
    } else if units[0] == 0 {
        Seq::empty()
    } else {
        seq![units[0]] + units_before_nul(units.skip(1))
    }
}

/// The units before the first 0 unit are the prefix up to that unit.
pub proof fn lemma_units_before_nul(units: Seq<u16>, len: int)
    requires
        0 <= len <= units.len(),
        forall|i: int| 0 <= i < len ==> units[i] != 0,
        len == units.len() || units[len] == 0,
    ensures
        units_before_nul(units) == units.take(len),
    decreases units.len(),
{
    if units.len() > 0 && units[0] != 0 {
        lemma_units_before_nul(units.skip(1), len - 1);
        assert(units.take(len) =~= seq![units[0]] + units.skip(1).take(len - 1));
    } else if units.len() == 0 {
        assert(units.take(len) =~= units);
    } else {
        assert(units.take(len) =~= Seq::<u16>::empty());
    }
}

/// Encoding a concatenation encodes each part.
pub proof fn lemma_utf16_concat(a: Seq<char>, b: Seq<char>)
    ensures
        utf16_encode(a + b) == utf16_encode(a) + utf16_encode(b),
    decreases b.len(),
{
    if b.len() == 0 {
        assert(a + b =~= a);
        assert(utf16_encode(a) + utf16_encode(b) =~= utf16_encode(a));
    } else {
        lemma_utf16_concat(a, b.drop_last());
        assert((a + b).drop_last() =~= a + b.drop_last());
        assert((a + b).last() == b.last());
        assert(utf16_encode(a) + utf16_encode(b) =~= utf16_encode(a) + utf16_encode(b.drop_last())
            + utf16_of_char(b.last()));
    }
}


/// The characters that the UTF-16 units `u` encode, when they are well
/// formed: a unit outside the surrogate range stands for itself, a high
/// surrogate followed by a low one for a character above U+FFFF, and an
/// unpaired surrogate makes the whole decoding fail.
pub open spec fn utf16_decode(u: Seq<u16>) -> Option<Seq<char>>
    decreases u.len(),
{
    if u.len() == 0 {
        Some(Seq::empty())
    } else if u[0] < 0xD800 || u[0] > 0xDFFF {
        match utf16_decode(u.skip(1)) {
            Some(r) => Some(seq![((u[0] as u32) as char)] + r),
            None => None,
        }
    } else if u[0] <= 0xDBFF && u.len() >= 2 && 0xDC00 <= u[1] <= 0xDFFF {
        let v = 0x10000 + (u[0] - 0xD800) * 0x400 + (u[1] - 0xDC00);
        match utf16_decode(u.skip(2)) {
            Some(r) => Some(seq![((v as u32) as char)] + r),
            None => None,
        }
    } else {
        None
    }
}

/// `std::char::from_u32`, which, as its documentation says, gives the
/// character whose scalar value is `v`, or nothing when `v` is no Unicode
/// scalar value (a surrogate, or above U+10FFFF).
#[verifier::external_body]
fn char_from_u32(v: u32) -> (res: Option<char>)
    ensures
        match res {
            Some(c) => c as u32 == v && vstd::utf8::is_scalar(v),
            None => !vstd::utf8::is_scalar(v),
        },
{
    char::from_u32(v)
}

/// The characters that the units `u` encode, or nothing when they are not
/// well-formed UTF-16.
pub fn decode_utf16(u: &[u16]) -> (res: Option<String>)
    ensures
        match res {
            Some(s) => utf16_decode(u@) == Some(s@),
            None => utf16_decode(u@) is None,
        },
{
    let n = u.len();
    let mut out = String::new();
    let mut i: usize = 0;
    proof {
        assert(u@.skip(0) =~= u@);
        match utf16_decode(u@) {
            Some(r) => {
                assert(out@ + r =~= r);
            },
            None => {},
        }
    }
    while i < n
        invariant
            i <= n == u@.len(),
            utf16_decode(u@) == match utf16_decode(u@.skip(i as int)) {
                Some(r) => Some(out@ + r),
                None => None::<Seq<char>>,
            },
        decreases n - i,
    {
        let a = u[i];
        let ghost rest = u@.skip(i as int);
        let ghost before = out@;
        if a < 0xD800 || a > 0xDFFF {
            let c = match char_from_u32(a as u32) {
                Some(c) => c,
                None => {
                    proof {
                        assert(vstd::utf8::is_scalar(a as u32));
                    }
                    return None;
                },
            };
            proof {
                vstd::utf8::char_u32_cast(c, a as u32);
                assert(rest.skip(1) =~= u@.skip(i + 1));
                assert(rest[0] == a);
            }
            crate::text::push_char(&mut out, c);
            proof {
                match utf16_decode(u@.skip(i + 1)) {
                    Some(r) => {
                        assert(before + (seq![c] + r) =~= out@ + r);
                    },
                    None => {},
                }
            }
            i += 1;
        } else if a <= 0xDBFF && n - i >= 2 && 0xDC00 <= u[i + 1] && u[i + 1] <= 0xDFFF {
            let b = u[i + 1];
            let v: u32 = 0x10000 + (a as u32 - 0xD800) * 0x400 + (b as u32 - 0xDC00);
            let c = match char_from_u32(v) {
                Some(c) => c,
                None => {
                    proof {
                        assert(vstd::utf8::is_scalar(v));
                    }
                    return None;
                },
            };
            proof {
                vstd::utf8::char_u32_cast(c, v);
                assert(rest.skip(2) =~= u@.skip(i + 2));
                assert(rest[0] == a && rest[1] == b);
            }
            crate::text::push_char(&mut out, c);
            proof {
                match utf16_decode(u@.skip(i + 2)) {
                    Some(r) => {
                        assert(before + (seq![c] + r) =~= out@ + r);
                    },
                    None => {},
                }
            }
            i += 2;
        } else {
            proof {
                assert(rest[0] == a);
                if a <= 0xDBFF && n - i >= 2 {
                    assert(rest[1] == u@[i + 1]);
                }
            }
            return None;
        }
    }
    proof {
        assert(u@.skip(n as int) =~= Seq::<u16>::empty());
        assert(out@ + Seq::<char>::empty() =~= out@);
    }
    Some(out)
}

/// Decoding the encoding of one character in front of more units gives
/// that character in front of what the rest decodes to.
proof fn lemma_decode_char_prefix(c: char, rest: Seq<u16>)
    ensures
        utf16_decode(utf16_of_char(c) + rest) == match utf16_decode(rest) {
            Some(r) => Some(seq![c] + r),
            None => None::<Seq<char>>,
        },
{
    vstd::utf8::char_is_scalar(c);
    let v = c as u32;
    vstd::utf8::char_u32_cast(c, v);
    let u = utf16_of_char(c) + rest;
    if (v as int) < 0x10000 {
        assert(u[0] == v as u16);
        assert(u.skip(1) =~= rest);
    } else {
        let w = v as int - 0x10000;
        let hi = 0xD800 + w / 0x400;
        let lo = 0xDC00 + w % 0x400;
        assert(0 <= w / 0x400 < 0x400 && 0 <= w % 0x400 < 0x400) by (nonlinear_arith)
            requires
                0 <= w < 0x100000,
        ;
        assert(u[0] == hi as u16 && u[1] == lo as u16);
        assert(u.skip(2) =~= rest);
        assert(0x10000 + (hi - 0xD800) * 0x400 + (lo - 0xDC00) == v) by (nonlinear_arith)
            requires
                hi == 0xD800 + w / 0x400,
                lo == 0xDC00 + w % 0x400,
                w == v - 0x10000,
        ;
    }
}

/// Decoding what was encoded gives the characters back.
pub proof fn law_decode_inverts_encode(s: Seq<char>)
    ensures
        utf16_decode(utf16_encode(s)) == Some(s),
    decreases s.len(),
{
    if s.len() > 0 {
        let c = s[0];
        let t = s.skip(1);
        assert(s =~= seq![c] + t);
        lemma_utf16_concat(seq![c], t);
        assert(seq![c].drop_last() =~= Seq::<char>::empty());
        assert(seq![c].last() == c);
        assert(utf16_encode(Seq::<char>::empty()) == Seq::<u16>::empty());
        assert(utf16_encode(seq![c]) == utf16_encode(Seq::<char>::empty()) + utf16_of_char(c));
        assert(utf16_encode(seq![c]) =~= utf16_of_char(c));
        law_decode_inverts_encode(t);
        lemma_decode_char_prefix(c, utf16_encode(t));
        assert(seq![c] + t =~= s);
    }
}

/// No code unit of an encoding is 0 unless the text holds U+0000.
proof fn lemma_encode_has_no_nul(s: Seq<char>)
    requires
        forall|i: int| 0 <= i < s.len() ==> s[i] != '\0',
    ensures
        forall|k: int| 0 <= k < utf16_encode(s).len() ==> utf16_encode(s)[k] != 0,
    decreases s.len(),
{
    if s.len() > 0 {
        let p = s.drop_last();
        assert forall|i: int| 0 <= i < p.len() implies p[i] != '\0' by {
            assert(p[i] == s[i]);
        }
        lemma_encode_has_no_nul(p);
        let c = s.last();
        vstd::utf8::char_is_scalar(c);
        vstd::utf8::char_u32_cast(c, c as u32);
        assert(c as u32 != 0) by {
            if c as u32 == 0 {
                vstd::utf8::char_u32_cast(c, 0u32);
                assert((0u32 as char) == '\0');
            }
        }
        let e = utf16_encode(s);
        assert forall|k: int| 0 <= k < e.len() implies e[k] != 0 by {
            if k >= utf16_encode(p).len() {
                let w = (c as u32) as int - 0x10000;
                if (c as u32) as int >= 0x10000 {
                    assert(0 <= w / 0x400) by (nonlinear_arith)
                        requires
                            0 <= w,
                    ;
                }
            }
        }
    }
}

/// A string of UTF-16 code units for the system, usually ending in a 0 unit;
/// the null string has no units at all.
#[derive(Debug, Clone)]
pub struct WideString {
    inner: Vec<u16>,
}

impl View for WideString {
    type V = Seq<u16>;

    closed spec fn view(&self) -> Seq<u16> {
        self.inner@
    }
}

impl WideString {
    /// The UTF-16 encoding of `s`, followed by a 0 unit.
    pub fn new(s: &str) -> (res: Self)
        ensures
            res@ == utf16_encode(s@).push(0u16),
    {
        let mut inner: Vec<u16> = Vec::new();
        push_utf16(&mut inner, s);
        inner.push(0);
        assert(inner@ =~= utf16_encode(s@).push(0u16));
        WideString { inner }
    }

    /// The units `v`, with a 0 unit added when they do not end in one; the
    /// empty string for no units.
    pub fn from_vec_u16(v: Vec<u16>) -> (res: Self)
        ensures
            res@ == (if v@.len() == 0 {
                seq![0u16]
            } else if v@.last() == 0 {
                v@
            } else {
                v@.push(0u16)
            }),
    {
        let mut v = v;
        if v.len() == 0 {
            return Self::empty();
        }
        let last_index = v.len() - 1;
        if v[last_index] != 0 {
            v.push(0);
        }
        WideString { inner: v }
    }

    /// The null string, which has no units.
    pub fn null() -> (res: Self)
        ensures
            res@ == Seq::<u16>::empty(),
    {
        WideString { inner: Vec::new() }
    }

    /// The empty string: a single 0 unit.
    pub fn empty() -> (res: Self)
        ensures
            res@ == seq![0u16],
    {
        let mut inner: Vec<u16> = Vec::new();
        inner.push(0);
        assert(inner@ =~= seq![0u16]);
        WideString { inner }
    }

    /// Whether this is the null string.
    pub fn is_null(&self) -> (res: bool)
        ensures
            res == (self@.len() == 0),
    {
        self.inner.len() == 0
    }

    /// A copy of the units.
    pub fn clone_u16_array(&self) -> (res: Vec<u16>)
        ensures
            res@ == self@,
    {
        let mut res: Vec<u16> = Vec::new();
        let mut i: usize = 0;
        while i < self.inner.len()
            invariant
                i <= self.inner@.len(),
                res@ == self.inner@.take(i as int),
            decreases self.inner@.len() - i,
        {
            res.push(self.inner[i]);
            i += 1;
            assert(res@ =~= self.inner@.take(i as int));
        }
        assert(self.inner@.take(self.inner@.len() as int) =~= self.inner@);
        res
    }

    /// The text of the string, read up to its first 0 unit: none for the
    /// null string, an error when those units are not well-formed UTF-16.
    pub fn to_string(&self) -> (res: Result<Option<String>, Utf16DecodeError>)
        ensures
            match res {
                Ok(None) => self@.len() == 0,
                Ok(Some(s)) => self@.len() > 0 && utf16_decode(units_before_nul(self@)) == Some(s@),
                Err(_) => self@.len() > 0 && utf16_decode(units_before_nul(self@)) is None,
            },
    {
        if self.inner.len() == 0 {
            return Ok(None);
        }
        let mut len: usize = 0;
        while len < self.inner.len() && self.inner[len] != 0
            invariant
                len <= self.inner@.len(),
                forall|i: int| 0 <= i < len ==> self.inner@[i] != 0,
            decreases self.inner@.len() - len,
        {
            len += 1;
        }
        proof {
            lemma_units_before_nul(self.inner@, len as int);
        }
        let mut units: Vec<u16> = Vec::new();
        let mut k: usize = 0;
        while k < len
            invariant
                k <= len <= self.inner@.len(),
                units@ == self.inner@.take(k as int),
            decreases len - k,
        {
            units.push(self.inner[k]);
            k += 1;
            assert(units@ =~= self.inner@.take(k as int));
        }
        match decode_utf16(units.as_slice()) {
            Some(s) => Ok(Some(s)),
            None => Err(Utf16DecodeError),
        }
    }

    /// Copies as many units as fit into `dst` while leaving room for a
    /// terminating 0, writes that 0 after them and returns how many units
    /// were copied. The rest of `dst` is left as it was.
    pub fn copy_to(&self, dst: &mut [u16]) -> (count: usize)
        requires
            old(dst)@.len() > 0,
        ensures
            count == (if self@.len() < old(dst)@.len() - 1 {
                self@.len() as int
            } else {
                old(dst)@.len() - 1
            }),
            final(dst)@.len() == old(dst)@.len(),
            forall|i: int| 0 <= i < count ==> final(dst)@[i] == self@[i],
            final(dst)@[count as int] == 0,
            forall|i: int| count < i < old(dst)@.len() ==> final(dst)@[i] == old(dst)@[i],
    {
        let limit = dst.len() - 1;
        let count = if self.inner.len() < limit {
            self.inner.len()
        } else {
            limit
        };
        let mut i: usize = 0;
        while i < count
            invariant
                count <= limit < dst@.len() == old(dst)@.len(),
                count <= self.inner@.len(),
                i <= count,
                forall|j: int| 0 <= j < i ==> dst@[j] == self.inner@[j],
                forall|j: int| i <= j < dst@.len() ==> dst@[j] == old(dst)@[j],
            decreases count - i,
        {
            dst.set(i, self.inner[i]);
            i += 1;
        }
        dst.set(count, 0);
        count
    }
}


/// UTF-16 units that do not decode: an unpaired surrogate.
#[derive(Debug, Clone, Copy, PartialEq, Eq, Structural)]
pub struct Utf16DecodeError;

/// A text without U+0000 reads back from its wide string as it was.
pub proof fn law_wide_string_round_trip(s: Seq<char>)
    requires
        forall|i: int| 0 <= i < s.len() ==> s[i] != '\0',
    ensures
        utf16_decode(units_before_nul(utf16_encode(s).push(0u16))) == Some(s),
        utf16_encode(s).push(0u16).len() > 0,
{
    let e = utf16_encode(s);
    lemma_encode_has_no_nul(s);
    let w = e.push(0u16);
    assert forall|i: int| 0 <= i < e.len() implies w[i] != 0 by {
        assert(w[i] == e[i]);
    }
    lemma_units_before_nul(w, e.len() as int);
    assert(w.take(e.len() as int) =~= e);
    law_decode_inverts_encode(s);
}

} // verus!
