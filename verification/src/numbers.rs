//! Integers written in decimal: formatting an unsigned number and parsing a
//! signed one the way `str::parse::<isize>` does.
use vstd::prelude::*;

verus! {

/// The character of the decimal digit `d`.
pub open spec fn digit_char(d: int) -> char {
    if d == 0 {
        '0'
    } else if d == 1 {
        '1'
    } else if d == 2 {
        '2'
    } else if d == 3 {
        '3'
    } else if d == 4 {
        '4'
    } else if d == 5 {
        '5'
    } else if d == 6 {
        '6'
    } else if d == 7 {
        '7'
    } else if d == 8 {
        '8'
    } else {
        '9'
    }
}

/// `c` is an ASCII decimal digit.
pub open spec fn is_digit(c: char) -> bool {
    '0' <= c && c <= '9'
}

/// The value of the ASCII decimal digit `c`.
pub open spec fn digit_value(c: char) -> int {
    c as int - '0' as int
}

/// The decimal form of `n`, without leading zeros.
pub open spec fn decimal(n: nat) -> Seq<char>
    decreases n,
{
    if n < 10 {
        seq![digit_char(n as int)]
    } else {
        decimal(n / 10).push(digit_char((n % 10) as int))
    }
}

/// The character of the digit `d`.
fn digit_to_char(d: u64) -> (c: char)
    requires
        d < 10,
    ensures
        c == digit_char(d as int),
{
    if d == 0 {
        '0'
    } else if d == 1 {
        '1'
    } else if d == 2 {
        '2'
    } else if d == 3 {
        '3'
    } else if d == 4 {
        '4'
    } else if d == 5 {
        '5'
    } else if d == 6 {
        '6'
    } else if d == 7 {
        '7'
    } else if d == 8 {
        '8'
    } else {
        '9'
    }
}

/// Appends the decimal form of `n` to `out`.
pub fn push_decimal(out: &mut Vec<char>, n: u64)
    ensures
        final(out)@ == old(out)@ + decimal(n as nat),
    decreases n,
{
    if n >= 10 {
        push_decimal(out, n / 10);
    }
    let c = digit_to_char(n % 10);
    let ghost before = out@;
    out.push(c);
    proof {
        if n >= 10 {
            assert(old(out)@ + decimal(n as nat) =~= before.push(c));
        } else {
            assert(old(out)@ + decimal(n as nat) =~= old(out)@.push(c));
        }
    }
}

/// Every character of `s` is a decimal digit.
pub open spec fn all_digits(s: Seq<char>) -> bool {
    forall|i: int| 0 <= i < s.len() ==> is_digit(#[trigger] s[i])
}

/// The value of the decimal digits `s`.
pub open spec fn digits_value(s: Seq<char>) -> int
    decreases s.len(),
{
    if s.len() == 0 {
        0
    } else {
        digits_value(s.drop_last()) * 10 + digit_value(s.last())
    }
}

/// The value that `s` spells as a decimal integer with an optional leading
/// `+` or `-` and at least one digit, when it does.
pub open spec fn signed_decimal_value(s: Seq<char>) -> Option<int> {
    let neg = s.len() > 0 && s[0] == '-';
    let body = if s.len() > 0 && (s[0] == '+' || s[0] == '-') {
        s.skip(1)
    } else {
        s
    };
    if body.len() == 0 || !all_digits(body) {
        None
    } else if neg {
        Some(-digits_value(body))
    } else {
        Some(digits_value(body))
    }
}

/// What `str::parse::<isize>` gives for `s`: its signed decimal value, when
/// it has one that fits in an `isize`.
pub open spec fn parse_isize_spec(s: Seq<char>) -> Option<int> {
    match signed_decimal_value(s) {
        Some(v) => if isize::MIN <= v <= isize::MAX {
            Some(v)
        } else {
            None
        },
        None => None,
    }
}

proof fn lemma_digits_value_nonneg(s: Seq<char>)
    requires
        all_digits(s),
    ensures
        digits_value(s) >= 0,
    decreases s.len(),
{
    if s.len() > 0 {
        assert(all_digits(s.drop_last())) by {
            assert forall|i: int| 0 <= i < s.drop_last().len() implies is_digit(
                #[trigger] s.drop_last()[i],
            ) by {
                assert(s.drop_last()[i] == s[i]);
            }
        }
        lemma_digits_value_nonneg(s.drop_last());
        assert(is_digit(s[s.len() - 1]));
    }
}

/// A longer run of digits is worth at least as much as its prefix.
pub proof fn lemma_digits_value_prefix(s: Seq<char>, k: int)
    requires
        all_digits(s),
        0 <= k <= s.len(),
    ensures
        digits_value(s) >= digits_value(s.take(k)),
    decreases s.len(),
{
    if k < s.len() {
        assert(all_digits(s.drop_last())) by {
            assert forall|i: int| 0 <= i < s.drop_last().len() implies is_digit(
                #[trigger] s.drop_last()[i],
            ) by {
                assert(s.drop_last()[i] == s[i]);
            }
        }
        lemma_digits_value_prefix(s.drop_last(), k);
        assert(s.drop_last().take(k) =~= s.take(k));
        lemma_digits_value_nonneg(s.drop_last());
        assert(is_digit(s[s.len() - 1]));
    } else {
        assert(s.take(k) =~= s);
    }
}

/// `s` parsed as an `isize`, as `str::parse::<isize>` parses it.
pub fn parse_isize(s: &[char]) -> (res: Option<isize>)
    ensures
        match res {
            Some(v) => parse_isize_spec(s@) == Some(v as int),
            None => parse_isize_spec(s@) is None,
        },
{
    let n = s.len();
    let neg = n > 0 && s[0] == '-';
    let start: usize = if n > 0 && (s[0] == '+' || s[0] == '-') {
        1
    } else {
        0
    };
    let ghost body = if s@.len() > 0 && (s@[0] == '+' || s@[0] == '-') {
        s@.skip(1)
    } else {
        s@
    };
    assert(body =~= s@.skip(start as int));
    if start == n {
        return None;
    }
    let mut acc: i128 = 0;
    let mut i: usize = start;
    let limit: i128 = 0x8000_0000_0000_0000;
    while i < n
        invariant
            start <= i <= n == s@.len(),
            body == s@.skip(start as int),
            body == (if s@.len() > 0 && (s@[0] == '+' || s@[0] == '-') {
                s@.skip(1)
            } else {
                s@
            }),
            all_digits(body.take(i - start)),
            acc == digits_value(body.take(i - start)),
            0 <= acc <= limit,
            limit == 0x8000_0000_0000_0000,
        decreases n - i,
    {
        let c = s[i];
        if !('0' <= c && c <= '9') {
            proof {
                assert(body[i - start] == c);
                assert(!is_digit(body[i - start]));
                assert(!all_digits(body));
            }
            return None;
        }
        let d: i128 = (c as u32 - '0' as u32) as i128;
        proof {
            assert(body.take(i + 1 - start).drop_last() =~= body.take(i - start));
            assert(body.take(i + 1 - start).last() == c);
            assert(all_digits(body.take(i + 1 - start))) by {
                assert forall|j: int| 0 <= j < body.take(i + 1 - start).len() implies is_digit(
                    #[trigger] body.take(i + 1 - start)[j],
                ) by {
                    if j < i - start {
                        assert(body.take(i + 1 - start)[j] == body.take(i - start)[j]);
                    }
                }
            }
        }
        let next = acc * 10 + d;
        if next > limit {
            proof {
                assert(d == digit_value(c));
                assert(next == digits_value(body.take(i + 1 - start)));
                if all_digits(body) {
                    lemma_digits_value_prefix(body, i + 1 - start);
                    assert(digits_value(body) > 0x8000_0000_0000_0000);
                }
            }
            return None;
        }
        acc = next;
        i += 1;
    }
    proof {
        assert(body.take(n - start) =~= body);
    }
    if neg {
        if -acc < isize::MIN as i128 {
            None
        } else {
            Some((-acc) as isize)
        }
    } else {
        if acc > isize::MAX as i128 {
            None
        } else {
            Some(acc as isize)
        }
    }
}


/// The decimal form of `v`, with a leading `-` when it is negative.
pub open spec fn signed_decimal(v: int) -> Seq<char> {
    if v < 0 {
        seq!['-'] + decimal((-v) as nat)
    } else {
        decimal(v as nat)
    }
}

/// Appends the decimal form of `v` to `out`, with a leading `-` when it is
/// negative.
pub fn push_signed_decimal(out: &mut Vec<char>, v: isize)
    ensures
        final(out)@ == old(out)@ + signed_decimal(v as int),
{
    if v < 0 {
        out.push('-');
        let magnitude: u64 = (-(v as i128)) as u64;
        let ghost mid = out@;
        push_decimal(out, magnitude);
        assert(old(out)@ + signed_decimal(v as int) =~= mid + decimal(magnitude as nat));
    } else {
        push_decimal(out, v as u64);
    }
}

/// A decimal form is made of digits, has at least one, and is worth the
/// number it was made from.
pub proof fn lemma_decimal_digits(n: nat)
    ensures
        decimal(n).len() >= 1,
        all_digits(decimal(n)),
        digits_value(decimal(n)) == n,
    decreases n,
{
    let d = (n % 10) as int;
    assert(digit_value(digit_char(d)) == d && is_digit(digit_char(d))) by {
        assert(digit_value('0') == 0);
        assert(digit_value('9') == 9);
    }
    if n >= 10 {
        lemma_decimal_digits(n / 10);
        let s = decimal(n / 10);
        let t = s.push(digit_char(d));
        assert(t.drop_last() =~= s);
        assert forall|i: int| 0 <= i < t.len() implies is_digit(#[trigger] t[i]) by {
            if i < s.len() {
                assert(t[i] == s[i]);
            }
        }
        assert((n / 10) * 10 + n % 10 == n) by (nonlinear_arith);
        assert(digits_value(t) == digits_value(s) * 10 + digit_value(t.last()));
        assert(decimal(n) == t);
        assert(digits_value(t) == n);
    } else {
        assert(n % 10 == n);
        let t = decimal(n);
        assert(t == seq![digit_char(d)]);
        assert(t.drop_last() =~= Seq::<char>::empty());
        assert(digits_value(Seq::<char>::empty()) == 0);
        assert(digits_value(t) == digits_value(t.drop_last()) * 10 + digit_value(t.last()));
    }
}

/// Parsing the signed decimal form of an `isize` gives the number back.
pub proof fn law_signed_decimal_parses_back(v: isize)
    ensures
        parse_isize_spec(signed_decimal(v as int)) == Some(v as int),
{
    let s = signed_decimal(v as int);
    if v < 0 {
        let m = (-(v as int)) as nat;
        lemma_decimal_digits(m);
        assert(s.skip(1) =~= decimal(m));
    } else {
        lemma_decimal_digits(v as nat);
        let d = decimal(v as nat);
        assert(is_digit(d[0]));
    }
}

} // verus!
