use crate::error::CodecError;
use crate::text::{
    decimal, decimal_text, digits_value, is_u64_text, lemma_decimal, parse_u64,
};
use core::cmp::Ordering;
use vstd::arithmetic::div_mod::{
    lemma_fundamental_div_mod, lemma_mod_multiples_basic, lemma_truncate_middle,
};
use vstd::prelude::*;
use vstd::string::*;

verus! {

/// Greatest common divisor, with `gcd(a, 0) == a` and `gcd(0, b) == b`.
pub open spec fn gcd(a: nat, b: nat) -> nat
    decreases b,
{
    if b == 0 {
        a
    } else {
        gcd(b, a % b)
    }
}

/// The gcd divides both arguments, and is positive unless both are zero.
pub proof fn lemma_gcd_divides(a: nat, b: nat)
    ensures
        a > 0 || b > 0 ==> gcd(a, b) > 0,
        gcd(a, b) > 0 ==> a % gcd(a, b) == 0 && b % gcd(a, b) == 0,
    decreases b,
{
    if b > 0 {
        lemma_gcd_divides(b, a % b);
        let g = gcd(a, b);
        if g > 0 {
            lemma_fundamental_div_mod(a as int, b as int);
            lemma_fundamental_div_mod(b as int, g as int);
            lemma_fundamental_div_mod((a % b) as int, g as int);
            let k = (b / g) * (a / b) + (a % b) / g;
            assert(a == g * k) by (nonlinear_arith)
                requires
                    a == b * (a / b) + a % b,
                    b == g * (b / g),
                    a % b == g * ((a % b) / g),
                    k == (b / g) * (a / b) + (a % b) / g,
            ;
            lemma_mod_multiples_basic(k as int, g as int);
            assert(a as int == k * g) by (nonlinear_arith)
                requires
                    a == g * k,
            ;
        }
    }
}

/// Scaling both arguments scales the gcd.
pub proof fn lemma_gcd_scale(a: nat, b: nat, k: nat)
    requires
        k > 0,
    ensures
        gcd(a * k, b * k) == gcd(a, b) * k,
    decreases b,
{
    if b > 0 {
        lemma_truncate_middle(a as int, k as int, b as int);
        assert((a * k) % (b * k) == (a % b) * k) by (nonlinear_arith)
            requires
                (k * a) % (k * b) == k * (a % b),
        ;
        assert(b * k > 0) by (nonlinear_arith)
            requires
                b > 0,
                k > 0,
        ;
        lemma_gcd_scale(b, a % b, k);
        assert(gcd(a * k, b * k) == gcd(b * k, (a * k) % (b * k)));
    } else {
        assert(b * k == 0) by (nonlinear_arith)
            requires
                b == 0,
        ;
    }
}

/// Relies on `gcd::binary_u64`: the greatest common divisor, with
/// `binary_u64(0, v) == v` and `binary_u64(u, 0) == u`.
#[verifier::external_body]
fn gcd_u64(a: u64, b: u64) -> (r: u64)
    ensures
        r == gcd(a as nat, b as nat),
{
    gcd::binary_u64(a, b)
}

/// `Less`, `Equal` or `Greater` as `a` is below, at or above `b`.
pub open spec fn compare_int(a: int, b: int) -> Ordering {
    if a < b {
        Ordering::Less
    } else if a == b {
        Ordering::Equal
    } else {
        Ordering::Greater
    }
}

/// A signed fraction `num / deno`, kept as written: `2/4` and `1/2` are
/// distinct values, and only `reduce` brings a fraction to lowest terms.
/// Equality compares the fields; ordering compares the values.
#[derive(Debug, Clone, Copy, PartialEq, Eq, Hash, Structural)]
pub struct Fraction {
    pub is_negative: bool,
    pub num: u64,
    pub deno: u64,
}

/// The fraction divided through by the gcd of its parts.
pub open spec fn reduced(f: Fraction) -> Fraction {
    let g = gcd(f.num as nat, f.deno as nat);
    Fraction { is_negative: f.is_negative, num: (f.num as nat / g) as u64, deno: (f.deno as nat / g) as u64 }
}

/// Reducing gives lowest terms and the same value, and reducing again
/// changes nothing.
pub proof fn lemma_reduced(f: Fraction)
    requires
        f.wf(),
    ensures
        reduced(f).wf(),
        gcd(reduced(f).num as nat, reduced(f).deno as nat) == 1,
        reduced(f).spec_cmp(f) == Ordering::Equal,
        reduced(reduced(f)) == reduced(f),
{
    let a = f.num as nat;
    let b = f.deno as nat;
    let g = gcd(a, b);
    lemma_gcd_divides(a, b);
    lemma_fundamental_div_mod(a as int, g as int);
    lemma_fundamental_div_mod(b as int, g as int);
    let a1 = a / g;
    let b1 = b / g;
    assert(a1 * g == a && b1 * g == b) by (nonlinear_arith)
        requires
            a == g * (a / g),
            b == g * (b / g),
            a1 == a / g,
            b1 == b / g,
    ;
    assert(b1 != 0) by (nonlinear_arith)
        requires
            b1 * g == b,
            b != 0,
    ;
    assert(a1 <= a && b1 <= b) by (nonlinear_arith)
        requires
            a1 * g == a,
            b1 * g == b,
            g > 0,
    ;
    lemma_gcd_scale(a1, b1, g);
    assert(gcd(a1, b1) == 1) by (nonlinear_arith)
        requires
            gcd(a1, b1) * g == g,
            g > 0,
    ;
    assert(a1 * b == a * b1) by (nonlinear_arith)
        requires
            a1 * g == a,
            b1 * g == b,
    ;
    assert(reduced(f).num == a1 && reduced(f).deno == b1);
    assert(a1 / 1 == a1 && b1 / 1 == b1);
}

impl Fraction {
    /// The denominator is never zero.
    pub open spec fn wf(self) -> bool {
        self.deno != 0
    }

    /// Builds a fraction; `None` when the denominator is zero.
    pub fn new(is_negative: bool, num: u64, deno: u64) -> (r: Option<Fraction>)
        ensures
            deno == 0 ==> r is None,
            deno != 0 ==> r == Some(Fraction { is_negative, num, deno }),
    {
        if deno == 0 {
            None
        } else {
            Some(Fraction { is_negative, num, deno })
        }
    }

    /// Order of two fractions: every negative one is below every
    /// non-negative one (so `-0/1 < 0/1`); within one sign the values are
    /// compared by cross-multiplication, reversed for negative fractions.
    pub open spec fn spec_cmp(self, other: Fraction) -> Ordering {
        if self.is_negative && !other.is_negative {
            Ordering::Less
        } else if !self.is_negative && other.is_negative {
            Ordering::Greater
        } else if self.is_negative {
            compare_int(other.num * self.deno, self.num * other.deno)
        } else {
            compare_int(self.num * other.deno, other.num * self.deno)
        }
    }

    /// Compares by value as `spec_cmp` says; products are formed in `u128`,
    /// so no input overflows.
    pub fn cmp(&self, other: &Fraction) -> (r: Ordering)
        ensures
            r == self.spec_cmp(*other),
    {
        if self.is_negative && !other.is_negative {
            return Ordering::Less;
        }
        if !self.is_negative && other.is_negative {
            return Ordering::Greater;
        }
        let a = self.num as u128;
        let b = other.num as u128;
        let da = self.deno as u128;
        let db = other.deno as u128;
        assert(a * db <= u64::MAX as u128 * u64::MAX as u128) by (nonlinear_arith)
            requires
                a <= u64::MAX,
                db <= u64::MAX,
        ;
        assert(b * da <= u64::MAX as u128 * u64::MAX as u128) by (nonlinear_arith)
            requires
                b <= u64::MAX,
                da <= u64::MAX,
        ;
        let (lhs, rhs) = if self.is_negative {
            (b * da, a * db)
        } else {
            (a * db, b * da)
        };
        if lhs < rhs {
            Ordering::Less
        } else if lhs == rhs {
            Ordering::Equal
        } else {
            Ordering::Greater
        }
    }

    /// Divides numerator and denominator by their gcd; the sign is kept.
    /// A zero numerator gives the denominator `1`.
    pub fn reduce(&self) -> (r: Fraction)
        requires
            self.wf(),
        ensures
            r == reduced(*self),
            r.wf(),
            gcd(r.num as nat, r.deno as nat) == 1,
            r.spec_cmp(*self) == Ordering::Equal,
    {
        let g = gcd_u64(self.num, self.deno);
        proof {
            lemma_reduced(*self);
            lemma_gcd_divides(self.num as nat, self.deno as nat);
            lemma_fundamental_div_mod(self.deno as int, g as int);
            assert(self.deno / g != 0) by (nonlinear_arith)
                requires
                    self.deno == g * (self.deno / g),
                    self.deno != 0,
            ;
        }
        Fraction { is_negative: self.is_negative, num: self.num / g, deno: self.deno / g }
    }

    /// The reciprocal, with the sign kept; `None` when the numerator is zero.
    pub fn recip(&self) -> (r: Option<Fraction>)
        ensures
            self.num == 0 ==> r is None,
            self.num != 0 ==> r == Some(
                (Fraction { is_negative: self.is_negative, num: self.deno, deno: self.num }),
            ),
    {
        if self.num == 0 {
            None
        } else {
            Some(Fraction { is_negative: self.is_negative, num: self.deno, deno: self.num })
        }
    }
}

/// The characters of a fraction's text: an optional minus sign, the
/// numerator's digits, a slash, the denominator's digits.
pub open spec fn fraction_text(f: Fraction) -> Seq<char> {
    (if f.is_negative {
        seq!['-']
    } else {
        Seq::<char>::empty()
    }) + decimal(f.num as nat) + seq!['/'] + decimal(f.deno as nat)
}

/// Length of the leading minus sign of `s`: one or zero.
pub open spec fn sign_len(s: Seq<char>) -> int {
    if s.len() > 0 && s[0] == '-' {
        1
    } else {
        0
    }
}

/// `s[i]` is the slash of a valid fraction text: digits of a `u64` before it
/// (after the sign) and digits of a non-zero `u64` after it.
pub open spec fn splits_at(s: Seq<char>, i: int) -> bool {
    &&& sign_len(s) <= i < s.len()
    &&& s[i] == '/'
    &&& is_u64_text(s.subrange(sign_len(s), i))
    &&& is_u64_text(s.subrange(i + 1, s.len() as int))
    &&& digits_value(s.subrange(i + 1, s.len() as int)) != 0
}

/// `s` matches `[-]digits/digits` with a non-zero denominator.
pub open spec fn is_fraction_text(s: Seq<char>) -> bool {
    exists|i: int| splits_at(s, i)
}

/// The fraction that `s` denotes when split at `i`.
pub open spec fn fraction_at(s: Seq<char>, i: int) -> Fraction {
    Fraction {
        is_negative: sign_len(s) == 1,
        num: digits_value(s.subrange(sign_len(s), i)) as u64,
        deno: digits_value(s.subrange(i + 1, s.len() as int)) as u64,
    }
}

/// The fraction that a fraction text denotes.
pub open spec fn parsed_fraction(s: Seq<char>) -> Fraction {
    fraction_at(s, choose|i: int| splits_at(s, i))
}

/// A fraction text has one slash at which it splits.
pub proof fn lemma_split_unique(s: Seq<char>, i: int, j: int)
    requires
        splits_at(s, i),
        splits_at(s, j),
    ensures
        i == j,
{
    if i < j {
        assert(s.subrange(sign_len(s), j)[i - sign_len(s)] == '/');
    } else if j < i {
        assert(s.subrange(sign_len(s), i)[j - sign_len(s)] == '/');
    }
}

/// Writing a fraction and reading the text back gives the same fraction,
/// field for field (no reduction happens on either side).
pub proof fn lemma_fraction_round_trip(f: Fraction)
    requires
        f.wf(),
    ensures
        is_fraction_text(fraction_text(f)),
        parsed_fraction(fraction_text(f)) == f,
{
    let s = fraction_text(f);
    let dn = decimal(f.num as nat);
    let dd = decimal(f.deno as nat);
    lemma_decimal(f.num as nat);
    lemma_decimal(f.deno as nat);
    let sl: int = if f.is_negative {
        1
    } else {
        0
    };
    assert(s.len() > 0);
    if !f.is_negative {
        assert(s[0] == dn[0]);
        assert(crate::text::is_digit(dn[0]));
    }
    assert(sign_len(s) == sl);
    let i = sl + dn.len();
    assert(s.subrange(sl, i) =~= dn);
    assert(s.subrange(i + 1, s.len() as int) =~= dd);
    assert(s[i] == '/');
    assert(splits_at(s, i));
    let k = choose|k: int| splits_at(s, k);
    lemma_split_unique(s, i, k);
}

impl Fraction {
    /// Reads `[-]num/deno`: a minus sign makes the fraction negative, both
    /// parts are runs of decimal digits that fit in `u64`, and the
    /// denominator is not zero. Anything else is a format error that
    /// carries the text.
    pub fn parse(text: &str) -> (r: Result<Fraction, CodecError>)
        ensures
            is_fraction_text(text@) ==> r == Ok::<Fraction, CodecError>(parsed_fraction(text@)),
            !is_fraction_text(text@) ==> r is Err && r->Err_0 is Format && r->Err_0->Format_0@
                == text@,
    {
        let n = text.unicode_len();
        let start: usize = if n > 0 && text.get_char(0) == '-' {
            1
        } else {
            0
        };
        assert(start == sign_len(text@));
        let mut i: usize = start;
        let mut found = false;
        while i < n && !found
            invariant
                n == text@.len(),
                start <= i <= n,
                found ==> i < n && text@[i as int] == '/',
                forall|j: int| start <= j < i ==> text@[j] != '/',
            decreases n - i + (if found {
                0int
            } else {
                1int
            }),
        {
            if text.get_char(i) == '/' {
                found = true;
            } else {
                i = i + 1;
            }
        }
        if !found {
            assert forall|j: int| !splits_at(text@, j) by {
                if splits_at(text@, j) {
                    assert(text@[j] == '/');
                }
            }
            return Err(CodecError::Format(text.to_owned()));
        }
        assert forall|j: int| i < j && splits_at(text@, j) implies false by {
            assert(text@.subrange(start as int, j)[i - start] == '/');
        }
        let num = parse_u64(text, start, i);
        let deno = parse_u64(text, i + 1, n);
        match (num, deno) {
            (Some(num), Some(deno)) => {
                if deno == 0 {
                    assert(!splits_at(text@, i as int));
                    return Err(CodecError::Format(text.to_owned()));
                }
                let f = Fraction { is_negative: start == 1, num, deno };
                proof {
                    assert(splits_at(text@, i as int));
                    let k = choose|k: int| splits_at(text@, k);
                    lemma_split_unique(text@, i as int, k);
                }
                Ok(f)
            },
            _ => {
                assert(!splits_at(text@, i as int));
                Err(CodecError::Format(text.to_owned()))
            },
        }
    }

    /// The text `[-]num/deno`, without reduction.
    pub fn to_string(&self) -> (r: String)
        ensures
            r@ == fraction_text(*self),
    {
        let mut s = String::new();
        proof {
            reveal_strlit("-");
            reveal_strlit("/");
        }
        if self.is_negative {
            s.append("-");
        }
        let num = decimal_text(self.num);
        s.append(num.as_str());
        s.append("/");
        let deno = decimal_text(self.deno);
        s.append(deno.as_str());
        assert(s@ =~= fraction_text(*self));
        s
    }
}

impl core::str::FromStr for Fraction {
    type Err = CodecError;

    /// Reads a fraction exactly as `Fraction::parse` does.
    fn from_str(text: &str) -> (r: Result<Fraction, CodecError>)
        ensures
            is_fraction_text(text@) ==> r == Ok::<Fraction, CodecError>(parsed_fraction(text@)),
            !is_fraction_text(text@) ==> r is Err && r->Err_0 is Format && r->Err_0->Format_0@
                == text@,
    {
        Fraction::parse(text)
    }
}

impl PartialOrd for Fraction {
    fn partial_cmp(&self, other: &Fraction) -> (r: Option<Ordering>)
        ensures
            r == Some(self.spec_cmp(*other)),
    {
        Some(self.cmp(other))
    }
}

impl vstd::std_specs::cmp::PartialOrdSpecImpl for Fraction {
    open spec fn obeys_partial_cmp_spec() -> bool {
        true
    }

    open spec fn partial_cmp_spec(&self, other: &Fraction) -> Option<Ordering> {
        Some(self.spec_cmp(*other))
    }
}

} // verus!
