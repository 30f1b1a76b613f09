//! Text form of angles and lengths: a number followed by a unit symbol.
//!
//! The number itself is read and written by the caller; here the unit is
//! recognised on the way in and chosen on the way out.
use crate::error::CodecError;
use crate::text::{is_digit, strip_suffix_len};
use vstd::prelude::*;
use vstd::string::*;

verus! {

#[derive(Debug, Clone, Copy, PartialEq, Eq, Hash, Structural)]
pub enum AngleUnit {
    Degrees,
    Radians,
}

#[derive(Debug, Clone, Copy, PartialEq, Eq, Hash, Structural)]
pub enum LengthUnit {
    Nanometers,
    Micrometers,
    Millimeters,
    Centimeters,
    Decimeters,
    Meters,
    Hectometers,
    Kilometers,
    Inches,
    Feet,
    Yards,
    Furlongs,
    Miles,
}

pub open spec fn ends_with(s: Seq<char>, t: Seq<char>) -> bool {
    t.len() <= s.len() && s.subrange(s.len() - t.len(), s.len() as int) == t
}

/// The symbol that encoding writes after a length.
pub open spec fn length_symbol(u: LengthUnit) -> Seq<char> {
    match u {
        LengthUnit::Nanometers => seq!['n', 'm'],
        LengthUnit::Micrometers => seq!['\u{b5}', 'm'],
        LengthUnit::Millimeters => seq!['m', 'm'],
        LengthUnit::Centimeters => seq!['c', 'm'],
        LengthUnit::Decimeters => seq!['d', 'm'],
        LengthUnit::Meters => seq!['m'],
        LengthUnit::Hectometers => seq!['h', 'm'],
        LengthUnit::Kilometers => seq!['k', 'm'],
        LengthUnit::Inches => seq!['i', 'n'],
        LengthUnit::Feet => seq!['f', 't'],
        LengthUnit::Yards => seq!['y', 'd'],
        LengthUnit::Furlongs => seq!['f', 'u', 'r', 'l', 'o', 'n', 'g'],
        LengthUnit::Miles => seq!['m', 'i'],
    }
}

/// The unit of a length text and the length of its symbol: the first of
/// `nm`, `um`, `µm`, `mm`, `cm`, `dm`, `hm`, `km`, `m`, `in`, `yd`, `mi`,
/// `furlong`, `ft` that ends the text.
pub open spec fn length_unit_of(s: Seq<char>) -> Option<(LengthUnit, int)> {
    if ends_with(s, seq!['n', 'm']) {
        Some((LengthUnit::Nanometers, 2))
    } else if ends_with(s, seq!['u', 'm']) {
        Some((LengthUnit::Micrometers, 2))
    } else if ends_with(s, seq!['\u{b5}', 'm']) {
        Some((LengthUnit::Micrometers, 2))
    } else if ends_with(s, seq!['m', 'm']) {
        Some((LengthUnit::Millimeters, 2))
    } else if ends_with(s, seq!['c', 'm']) {
        Some((LengthUnit::Centimeters, 2))
    } else if ends_with(s, seq!['d', 'm']) {
        Some((LengthUnit::Decimeters, 2))
    } else if ends_with(s, seq!['h', 'm']) {
        Some((LengthUnit::Hectometers, 2))
    } else if ends_with(s, seq!['k', 'm']) {
        Some((LengthUnit::Kilometers, 2))
    } else if ends_with(s, seq!['m']) {
        Some((LengthUnit::Meters, 1))
    } else if ends_with(s, seq!['i', 'n']) {
        Some((LengthUnit::Inches, 2))
    } else if ends_with(s, seq!['y', 'd']) {
        Some((LengthUnit::Yards, 2))
    } else if ends_with(s, seq!['m', 'i']) {
        Some((LengthUnit::Miles, 2))
    } else if ends_with(s, seq!['f', 'u', 'r', 'l', 'o', 'n', 'g']) {
        Some((LengthUnit::Furlongs, 7))
    } else if ends_with(s, seq!['f', 't']) {
        Some((LengthUnit::Feet, 2))
    } else {
        None
    }
}

/// The unit of an angle text and the length of its symbol.
pub open spec fn angle_unit_of(s: Seq<char>) -> Option<(AngleUnit, int)> {
    if ends_with(s, seq!['d', 'e', 'g']) {
        Some((AngleUnit::Degrees, 3))
    } else if ends_with(s, seq!['r', 'a', 'd']) {
        Some((AngleUnit::Radians, 3))
    } else {
        None
    }
}

/// How an encoded length is written, given the decimal exponent `e` of its
/// value in meters (the value is `m * 10^e` with `1 <= |m| < 10`): the unit,
/// the power of ten by which `m` is scaled, and whether exponential
/// notation is used.
#[derive(Debug, Clone, Copy, PartialEq, Eq, Hash, Structural)]
pub struct LengthNotation {
    pub unit: LengthUnit,
    pub scale: i32,
    pub exponential: bool,
}

pub open spec fn notation_for(e: int) -> LengthNotation {
    if e >= 6 {
        LengthNotation { unit: LengthUnit::Kilometers, scale: (e - 3) as i32, exponential: true }
    } else if e >= 3 {
        LengthNotation { unit: LengthUnit::Kilometers, scale: (e - 3) as i32, exponential: false }
    } else if e >= 0 {
        LengthNotation { unit: LengthUnit::Meters, scale: e as i32, exponential: false }
    } else if e >= -3 {
        LengthNotation { unit: LengthUnit::Millimeters, scale: (e + 3) as i32, exponential: false }
    } else if e >= -6 {
        LengthNotation { unit: LengthUnit::Micrometers, scale: (e + 6) as i32, exponential: false }
    } else if e >= -9 {
        LengthNotation { unit: LengthUnit::Nanometers, scale: (e + 9) as i32, exponential: false }
    } else {
        LengthNotation { unit: LengthUnit::Nanometers, scale: (e + 9) as i32, exponential: true }
    }
}

/// Chooses unit, scale and notation for a length with decimal exponent
/// `exponent` (zero for a zero or non-finite value).
pub fn length_notation(exponent: i32) -> (r: LengthNotation)
    ensures
        r == notation_for(exponent as int),
{
    if exponent >= 6 {
        LengthNotation { unit: LengthUnit::Kilometers, scale: exponent - 3, exponential: true }
    } else if exponent >= 3 {
        LengthNotation { unit: LengthUnit::Kilometers, scale: exponent - 3, exponential: false }
    } else if exponent >= 0 {
        LengthNotation { unit: LengthUnit::Meters, scale: exponent, exponential: false }
    } else if exponent >= -3 {
        LengthNotation { unit: LengthUnit::Millimeters, scale: exponent + 3, exponential: false }
    } else if exponent >= -6 {
        LengthNotation { unit: LengthUnit::Micrometers, scale: exponent + 6, exponential: false }
    } else if exponent >= -9 {
        LengthNotation { unit: LengthUnit::Nanometers, scale: exponent + 9, exponential: false }
    } else {
        LengthNotation { unit: LengthUnit::Nanometers, scale: exponent + 9, exponential: true }
    }
}

impl LengthUnit {
    /// The symbol written after an encoded length.
    pub fn symbol(&self) -> (r: &'static str)
        ensures
            r@ == length_symbol(*self),
    {
        proof {
            reveal_strlit("nm");
            reveal_strlit("\u{b5}m");
            reveal_strlit("mm");
            reveal_strlit("cm");
            reveal_strlit("dm");
            reveal_strlit("m");
            reveal_strlit("hm");
            reveal_strlit("km");
            reveal_strlit("in");
            reveal_strlit("ft");
            reveal_strlit("yd");
            reveal_strlit("furlong");
            reveal_strlit("mi");
        }
        match self {
            LengthUnit::Nanometers => "nm",
            LengthUnit::Micrometers => "\u{b5}m",
            LengthUnit::Millimeters => "mm",
            LengthUnit::Centimeters => "cm",
            LengthUnit::Decimeters => "dm",
            LengthUnit::Meters => "m",
            LengthUnit::Hectometers => "hm",
            LengthUnit::Kilometers => "km",
            LengthUnit::Inches => "in",
            LengthUnit::Feet => "ft",
            LengthUnit::Yards => "yd",
            LengthUnit::Furlongs => "furlong",
            LengthUnit::Miles => "mi",
        }
    }
}

/// The text `number` followed by the unit's symbol.
pub fn encode_length(number: &str, unit: LengthUnit) -> (r: String)
    ensures
        r@ == number@ + length_symbol(unit),
{
    let mut s = number.to_owned();
    s.append(unit.symbol());
    s
}

/// The text `number` followed by `deg`: angles are always written in
/// degrees.
pub fn encode_angle(number: &str) -> (r: String)
    ensures
        r@ == number@ + seq!['d', 'e', 'g'],
{
    proof {
        reveal_strlit("deg");
    }
    let mut s = number.to_owned();
    s.append("deg");
    s
}

/// The text before the last `len` characters.
fn prefix(text: &str, len: usize) -> (r: String)
    requires
        len <= text@.len(),
    ensures
        r@ == text@.subrange(0, len as int),
{
    text.substring_char(0, len).to_owned()
}

/// Splits an angle text into its number text and its unit; a text that
/// ends with neither `deg` nor `rad` is a format error carrying the text.
pub fn decode_angle(text: &str) -> (r: Result<(String, AngleUnit), CodecError>)
    ensures
        angle_unit_of(text@) matches Some((u, n)) ==> r is Ok && r->Ok_0.1 == u && r->Ok_0.0@
            == text@.subrange(0, text@.len() - n),
        angle_unit_of(text@) is None ==> r is Err && r->Err_0 is Format && r->Err_0->Format_0@
            == text@,
{
    proof {
        reveal_strlit("deg");
        reveal_strlit("rad");
        assert("deg"@ =~= seq!['d', 'e', 'g']);
        assert("rad"@ =~= seq!['r', 'a', 'd']);
    }
    if let Some(k) = strip_suffix_len(text, "deg") {
        return Ok((prefix(text, k), AngleUnit::Degrees));
    }
    if let Some(k) = strip_suffix_len(text, "rad") {
        return Ok((prefix(text, k), AngleUnit::Radians));
    }
    Err(CodecError::Format(text.to_owned()))
}

/// Splits a length text into its number text and its unit, trying the
/// symbols in the order that `length_unit_of` gives; a text that ends with
/// none of them is a format error carrying the text. More units are read
/// than are ever written.
pub fn decode_length(text: &str) -> (r: Result<(String, LengthUnit), CodecError>)
    ensures
        length_unit_of(text@) matches Some((u, n)) ==> r is Ok && r->Ok_0.1 == u && r->Ok_0.0@
            == text@.subrange(0, text@.len() - n),
        length_unit_of(text@) is None ==> r is Err && r->Err_0 is Format && r->Err_0->Format_0@
            == text@,
{
    proof {
        reveal_strlit("nm");
        assert("nm"@ =~= seq!['n', 'm']);
        reveal_strlit("um");
        assert("um"@ =~= seq!['u', 'm']);
        reveal_strlit("\u{b5}m");
        assert("\u{b5}m"@ =~= seq!['\u{b5}', 'm']);
        reveal_strlit("mm");
        assert("mm"@ =~= seq!['m', 'm']);
        reveal_strlit("cm");
        assert("cm"@ =~= seq!['c', 'm']);
        reveal_strlit("dm");
        assert("dm"@ =~= seq!['d', 'm']);
        reveal_strlit("hm");
        assert("hm"@ =~= seq!['h', 'm']);
        reveal_strlit("km");
        assert("km"@ =~= seq!['k', 'm']);
        reveal_strlit("m");
        assert("m"@ =~= seq!['m']);
        reveal_strlit("in");
        assert("in"@ =~= seq!['i', 'n']);
        reveal_strlit("yd");
        assert("yd"@ =~= seq!['y', 'd']);
        reveal_strlit("mi");
        assert("mi"@ =~= seq!['m', 'i']);
        reveal_strlit("furlong");
        assert("furlong"@ =~= seq!['f', 'u', 'r', 'l', 'o', 'n', 'g']);
        reveal_strlit("ft");
        assert("ft"@ =~= seq!['f', 't']);
    }
    if let Some(k) = strip_suffix_len(text, "nm") {
        return Ok((prefix(text, k), LengthUnit::Nanometers));
    }
    if let Some(k) = strip_suffix_len(text, "um") {
        return Ok((prefix(text, k), LengthUnit::Micrometers));
    }
    if let Some(k) = strip_suffix_len(text, "\u{b5}m") {
        return Ok((prefix(text, k), LengthUnit::Micrometers));
    }
    if let Some(k) = strip_suffix_len(text, "mm") {
        return Ok((prefix(text, k), LengthUnit::Millimeters));
    }
    if let Some(k) = strip_suffix_len(text, "cm") {
        return Ok((prefix(text, k), LengthUnit::Centimeters));
    }
    if let Some(k) = strip_suffix_len(text, "dm") {
        return Ok((prefix(text, k), LengthUnit::Decimeters));
    }
    if let Some(k) = strip_suffix_len(text, "hm") {
        return Ok((prefix(text, k), LengthUnit::Hectometers));
    }
    if let Some(k) = strip_suffix_len(text, "km") {
        return Ok((prefix(text, k), LengthUnit::Kilometers));
    }
    if let Some(k) = strip_suffix_len(text, "m") {
        return Ok((prefix(text, k), LengthUnit::Meters));
    }
    if let Some(k) = strip_suffix_len(text, "in") {
        return Ok((prefix(text, k), LengthUnit::Inches));
    }
    if let Some(k) = strip_suffix_len(text, "yd") {
        return Ok((prefix(text, k), LengthUnit::Yards));
    }
    if let Some(k) = strip_suffix_len(text, "mi") {
        return Ok((prefix(text, k), LengthUnit::Miles));
    }
    if let Some(k) = strip_suffix_len(text, "furlong") {
        return Ok((prefix(text, k), LengthUnit::Furlongs));
    }
    if let Some(k) = strip_suffix_len(text, "ft") {
        return Ok((prefix(text, k), LengthUnit::Feet));
    }
    Err(CodecError::Format(text.to_owned()))
}

/// An encoded length is read back with its unit and its number text: every
/// length symbol, after a number that ends with a digit, is recognised as
/// its own unit.
pub proof fn lemma_length_symbol_decodes(number: Seq<char>, u: LengthUnit)
    requires
        number.len() > 0,
        is_digit(number.last()),
    ensures
        length_unit_of(number + length_symbol(u)) == Some((u, length_symbol(u).len() as int)),
        (number + length_symbol(u)).subrange(0, number.len() as int) == number,
{
    let s = number + length_symbol(u);
    let n = length_symbol(u).len() as int;
    assert(s.subrange(s.len() - n, s.len() as int) =~= length_symbol(u));
    assert(s[s.len() - n - 1] == number.last());
    assert forall|t: Seq<char>| t.len() > n && t.len() <= s.len() && #[trigger] ends_with(s, t)
        implies is_digit(t[t.len() - n - 1]) by {
        assert(s.subrange(s.len() - t.len(), s.len() as int)[t.len() - n - 1] == s[s.len() - n - 1]);
    }
    assert forall|t: Seq<char>| t.len() == n && #[trigger] ends_with(s, t)
        implies t == length_symbol(u) by {
        assert(s.subrange(s.len() - t.len(), s.len() as int) =~= length_symbol(u));
    }
    assert forall|t: Seq<char>| t.len() < n && #[trigger] ends_with(s, t)
        implies t == length_symbol(u).subrange(n - t.len(), n) by {
        assert(s.subrange(s.len() - t.len(), s.len() as int) =~= length_symbol(u).subrange(
            n - t.len(),
            n,
        ));
    }
    assert forall|t: Seq<char>| t.len() > 0 && #[trigger] ends_with(s, t) implies t.last()
        == s.last() by {
        assert(s.subrange(s.len() - t.len(), s.len() as int)[t.len() - 1] == s.last());
    }
    assert(s.last() == length_symbol(u).last());
    if u is Nanometers {
        assert(ends_with(s, seq!['n', 'm']));
    }
    assert(s.subrange(0, number.len() as int) =~= number);
}

/// An encoded angle is read back in degrees, with its number text.
pub proof fn lemma_angle_symbol_decodes(number: Seq<char>)
    requires
        number.len() > 0,
        is_digit(number.last()),
    ensures
        angle_unit_of(number + seq!['d', 'e', 'g']) == Some((AngleUnit::Degrees, 3int)),
        (number + seq!['d', 'e', 'g']).subrange(0, number.len() as int) == number,
{
    let s = number + seq!['d', 'e', 'g'];
    assert(s.subrange(s.len() - 3, s.len() as int) =~= seq!['d', 'e', 'g']);
    assert(s.subrange(0, number.len() as int) =~= number);
}

} // verus!
