//! Decimal digits and small string helpers shared by the codecs.
use vstd::prelude::*;
use vstd::string::*;

verus! {

/// The character of a decimal digit `d < 10`.
pub open spec fn digit_char(d: nat) -> char {
    ((d + 48) as u32) as char
}

pub open spec fn is_digit(c: char) -> bool {
    '0' <= c <= '9'
}

pub open spec fn digit_value(c: char) -> int {
    c as int - 48
}

pub open spec fn all_digits(s: Seq<char>) -> bool {
    forall|i: int| 0 <= i < s.len() ==> is_digit(#[trigger] s[i])
}

/// The number that a string of decimal digits denotes.
pub open spec fn digits_value(s: Seq<char>) -> nat
    decreases s.len(),
{
    if s.len() == 0 {
        0
    } else {
        digits_value(s.drop_last()) * 10 + digit_value(s.last()) as nat
    }
}

/// A non-empty run of decimal digits whose value fits in a `u64`.
pub open spec fn is_u64_text(s: Seq<char>) -> bool {
    s.len() > 0 && all_digits(s) && digits_value(s) <= u64::MAX
}

/// The shortest decimal form of `n`: no sign, no leading zeros.
pub open spec fn decimal(n: nat) -> Seq<char>
    decreases n,
{
    if n < 10 {
        seq![digit_char(n)]
    } else {
        decimal(n / 10).push(digit_char(n % 10))
    }
}

/// The decimal form of a number reads back as that number.
pub proof fn lemma_decimal(n: nat)
    ensures
        decimal(n).len() > 0,
        all_digits(decimal(n)),
        digits_value(decimal(n)) == n,
    decreases n,
{
    if n >= 10 {
        lemma_decimal(n / 10);
        assert(decimal(n).drop_last() =~= decimal(n / 10));
        assert(decimal(n).last() == digit_char(n % 10));
        assert(digit_value(digit_char(n % 10)) == n % 10);
        assert(digits_value(decimal(n)) == digits_value(decimal(n / 10)) * 10 + n % 10);
    } else {
        assert(decimal(n).drop_last() =~= Seq::<char>::empty());
        assert(digit_value(digit_char(n)) == n);
        assert(digits_value(decimal(n)) == digits_value(Seq::<char>::empty()) * 10 + n);
    }
}

/// Reads the digits `text[from..to]` as a `u64`; `None` when that range is
/// empty, holds a character other than a digit, or exceeds `u64::MAX`.
pub fn parse_u64(text: &str, from: usize, to: usize) -> (r: Option<u64>)
    requires
        from <= to <= text@.len(),
    ensures
        r == (if is_u64_text(text@.subrange(from as int, to as int)) {
            Some(digits_value(text@.subrange(from as int, to as int)) as u64)
        } else {
            None::<u64>
        }),
{
    if from == to {
        return None;
    }
    let mut acc: u64 = 0;
    let mut overflow = false;
    let mut k: usize = from;
    while k < to
        invariant
            from <= k <= to <= text@.len(),
            all_digits(text@.subrange(from as int, k as int)),
            !overflow ==> acc == digits_value(text@.subrange(from as int, k as int)),
            overflow ==> digits_value(text@.subrange(from as int, k as int)) > u64::MAX,
        decreases to - k,
    {
        let c = text.get_char(k);
        if c < '0' || c > '9' {
            assert(text@.subrange(from as int, to as int)[k - from] == c);
            return None;
        }
        let d = ((c as u32) - ('0' as u32)) as u64;
        proof {
            let next = text@.subrange(from as int, k + 1);
            assert(next.drop_last() =~= text@.subrange(from as int, k as int));
            assert(digits_value(next) == digits_value(text@.subrange(from as int, k as int)) * 10
                + d);
        }
        if !overflow {
            if acc > (u64::MAX - d) / 10 {
                assert(acc * 10 + d > u64::MAX) by (nonlinear_arith)
                    requires
                        acc > (u64::MAX - d) / 10,
                        d <= 9,
                ;
                overflow = true;
            } else {
                assert(acc * 10 + d <= u64::MAX) by (nonlinear_arith)
                    requires
                        acc <= (u64::MAX - d) / 10,
                        d <= 9,
                ;
                acc = acc * 10 + d;
            }
        }
        k = k + 1;
    }
    if overflow {
        None
    } else {
        Some(acc)
    }
}

/// Relies on std's `ToString` for `u64` (its `Display`): the decimal digits,
/// without sign or leading zeros.
#[verifier::external_body]
pub(crate) fn decimal_text(n: u64) -> (r: String)
    ensures
        r@ == decimal(n as nat),
{
    n.to_string()
}

/// Whether `text` ends with `suffix`; if so, the length of the rest.
pub fn strip_suffix_len(text: &str, suffix: &str) -> (r: Option<usize>)
    ensures
        r == (if suffix@.len() <= text@.len() && text@.subrange(
            text@.len() - suffix@.len(),
            text@.len() as int,
        ) == suffix@ {
            Some((text@.len() - suffix@.len()) as usize)
        } else {
            None::<usize>
        }),
        r is Some ==> r->Some_0 == text@.len() - suffix@.len(),
{
    let n = text.unicode_len();
    let m = suffix.unicode_len();
    if m > n {
        return None;
    }
    let start = n - m;
    let mut i: usize = 0;
    while i < m
        invariant
            n == text@.len(),
            m == suffix@.len(),
            start == n - m,
            i <= m,
            forall|j: int| 0 <= j < i ==> text@[start + j] == suffix@[j],
        decreases m - i,
    {
        if text.get_char(start + i) != suffix.get_char(i) {
            assert(text@.subrange(start as int, n as int)[i as int] != suffix@[i as int]);
            return None;
        }
        i = i + 1;
    }
    assert(text@.subrange(start as int, n as int) =~= suffix@);
    Some(start)
}

} // verus!
