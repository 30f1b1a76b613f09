use newslab_serde::error::CodecError;
use newslab_serde::fraction::Fraction;
use std::cmp::Ordering;

fn frac(is_negative: bool, num: u64, deno: u64) -> Fraction {
    Fraction { is_negative, num, deno }
}

#[test]
fn ordering_of_halves_and_thirds() {
    let a = frac(false, 1, 2);
    let b = frac(false, 2, 3);
    let c = frac(true, 1, 2);
    assert!(c < a);
    assert!(a < b);
    assert!(c < b);
    assert_eq!(a.cmp(&b), Ordering::Less);
    assert_eq!(b.cmp(&a), Ordering::Greater);
    assert_eq!(a.partial_cmp(&b), Some(Ordering::Less));
}

#[test]
fn reduce_keeps_lowest_terms_and_equality_is_structural() {
    let a = frac(false, 1, 2);
    assert_eq!(a.reduce(), a);
    let two_fourths = frac(false, 2, 4);
    assert_ne!(two_fourths, a);
    assert_eq!(two_fourths.reduce(), a);
    assert_eq!(two_fourths.cmp(&a), Ordering::Equal);
}

#[test]
fn reduce_divides_by_gcd() {
    assert_eq!(frac(true, 6, 4).reduce(), frac(true, 3, 2));
    assert_eq!(frac(false, 0, 7).reduce(), frac(false, 0, 1));
    assert_eq!(frac(false, 84, 36).reduce(), frac(false, 7, 3));
}

#[test]
fn recip_of_zero_and_three_fifths() {
    assert_eq!(frac(false, 0, 1).recip(), None);
    assert_eq!(frac(false, 3, 5).recip(), Some(frac(false, 5, 3)));
    assert_eq!(frac(true, 3, 5).recip(), Some(frac(true, 5, 3)));
}

#[test]
fn negative_sorts_below_non_negative() {
    assert!(frac(true, 0, 1) < frac(false, 0, 1));
    assert!(frac(true, 3, 1) < frac(true, 1, 1));
    assert!(frac(true, 1, 3) > frac(true, 1, 2));
}

#[test]
fn compare_large_values_without_overflow() {
    let big = frac(false, u64::MAX, u64::MAX - 1);
    let one = frac(false, u64::MAX - 1, u64::MAX - 1);
    assert_eq!(big.cmp(&one), Ordering::Greater);
}

#[test]
fn new_rejects_zero_denominator() {
    assert_eq!(Fraction::new(false, 1, 0), None);
    assert_eq!(Fraction::new(true, 1, 2), Some(frac(true, 1, 2)));
}

#[test]
fn parse_reads_sign_and_parts() {
    assert_eq!(Fraction::parse("3/4"), Ok(frac(false, 3, 4)));
    assert_eq!(Fraction::parse("-3/4"), Ok(frac(true, 3, 4)));
    assert_eq!(Fraction::parse("2/4"), Ok(frac(false, 2, 4)));
    assert_eq!(Fraction::parse("0/1"), Ok(frac(false, 0, 1)));
    assert_eq!(
        Fraction::parse("18446744073709551615/1"),
        Ok(frac(false, u64::MAX, 1))
    );
}

#[test]
fn parse_rejects_malformed_text() {
    for text in [
        "", "-", "1", "1/", "/2", "1/2/3", "a/b", "1/0", "+1/2", "1 /2", "--1/2",
        "18446744073709551616/1",
    ] {
        assert_eq!(
            Fraction::parse(text),
            Err(CodecError::Format(text.to_string())),
            "{text}"
        );
    }
}

#[test]
fn to_string_writes_unreduced_form() {
    assert_eq!(frac(false, 12, 5).to_string(), "12/5");
    assert_eq!(frac(true, 2, 4).to_string(), "-2/4");
    assert_eq!(frac(true, 0, 1).to_string(), "-0/1");
}

#[test]
fn fraction_text_round_trips() {
    for f in [
        frac(false, 1, 2),
        frac(true, 2, 4),
        frac(true, 0, 1),
        frac(false, u64::MAX, u64::MAX),
        frac(false, 1000, 7),
    ] {
        assert_eq!(Fraction::parse(&f.to_string()), Ok(f));
    }
}

#[test]
fn from_str_matches_parse() {
    assert_eq!("-7/9".parse::<Fraction>(), Ok(frac(true, 7, 9)));
    assert_eq!("7".parse::<Fraction>(), Err(CodecError::Format("7".to_string())));
}
