//! Intervals whose sides are unbounded, closed or open, and their wire form:
//! four optional slots `">"`, `">="`, `"<"` and `"<="`, at most one per side.
use crate::error::{CodecError, Violation};
use vstd::prelude::*;

verus! {

/// One side of an interval.
#[derive(Debug, Clone, Copy, PartialEq, Eq, Hash)]
pub enum Bound<T> {
    Unbounded,
    Included(T),
    Excluded(T),
}

/// The wire form of an interval: `min` is `">"`, `imin` is `">="`, `max` is
/// `"<"` and `imax` is `"<="`.
#[derive(Debug, Clone, Copy, PartialEq, Eq, Hash)]
pub struct SerializedBound<T> {
    pub min: Option<T>,
    pub imin: Option<T>,
    pub max: Option<T>,
    pub imax: Option<T>,
}

/// The exclusive and the inclusive slot that a side fills.
pub open spec fn slots<T>(bound: Bound<T>) -> (Option<T>, Option<T>) {
    match bound {
        Bound::Unbounded => (None, None),
        Bound::Included(v) => (None, Some(v)),
        Bound::Excluded(v) => (Some(v), None),
    }
}

/// The side that an exclusive and an inclusive slot describe; `None` when
/// both are set.
pub open spec fn side_of<T>(bound: Option<T>, ibound: Option<T>) -> Option<Bound<T>> {
    match (bound, ibound) {
        (None, None) => Some(Bound::Unbounded),
        (Some(v), None) => Some(Bound::Excluded(v)),
        (None, Some(v)) => Some(Bound::Included(v)),
        (Some(_), Some(_)) => None,
    }
}

/// The wire form of an interval.
pub open spec fn serialized<T>(range: (Bound<T>, Bound<T>)) -> SerializedBound<T> {
    SerializedBound {
        min: slots(range.0).0,
        imin: slots(range.0).1,
        max: slots(range.1).0,
        imax: slots(range.1).1,
    }
}

/// The interval that a wire form describes, or the contradiction in it; the
/// lower side is checked first.
pub open spec fn deserialized<T>(raw: SerializedBound<T>) -> Result<
    (Bound<T>, Bound<T>),
    CodecError,
> {
    match (side_of(raw.min, raw.imin), side_of(raw.max, raw.imax)) {
        (None, _) => Err(CodecError::Validation(Violation::BothLowerBounds)),
        (Some(_), None) => Err(CodecError::Validation(Violation::BothUpperBounds)),
        (Some(lower), Some(upper)) => Ok((lower, upper)),
    }
}

/// The values behind an optional reference.
pub open spec fn deref_opt<T>(o: Option<&T>) -> Option<T> {
    match o {
        Some(v) => Some(*v),
        None => None,
    }
}

/// Every interval survives encoding and decoding unchanged.
pub proof fn lemma_interval_round_trip<T>(range: (Bound<T>, Bound<T>))
    ensures
        deserialized(serialized(range)) == Ok::<(Bound<T>, Bound<T>), CodecError>(range),
{
}

fn unpack<T>(bound: &Bound<T>) -> (r: (Option<&T>, Option<&T>))
    ensures
        deref_opt(r.0) == slots(*bound).0,
        deref_opt(r.1) == slots(*bound).1,
{
    match bound {
        Bound::Unbounded => (None, None),
        Bound::Included(val) => (None, Some(val)),
        Bound::Excluded(val) => (Some(val), None),
    }
}

fn pack<T>(bound: Option<T>, ibound: Option<T>) -> (r: Option<Bound<T>>)
    ensures
        r == side_of(bound, ibound),
{
    match (bound, ibound) {
        (None, None) => Some(Bound::Unbounded),
        (Some(val), None) => Some(Bound::Excluded(val)),
        (None, Some(val)) => Some(Bound::Included(val)),
        (Some(_), Some(_)) => None,
    }
}

impl<'a, T> SerializedBound<&'a T> {
    /// The wire form of an interval, borrowing its values. Never fails.
    pub fn from_bound(range: &'a (Bound<T>, Bound<T>)) -> (r: Self)
        ensures
            deref_opt(r.min) == serialized(*range).min,
            deref_opt(r.imin) == serialized(*range).imin,
            deref_opt(r.max) == serialized(*range).max,
            deref_opt(r.imax) == serialized(*range).imax,
    {
        let (min, imin) = unpack(&range.0);
        let (max, imax) = unpack(&range.1);
        SerializedBound { min, imin, max, imax }
    }
}

impl<T> SerializedBound<T> {
    /// The interval that the slots describe. Both slots of one side set is a
    /// validation error; an empty side is unbounded.
    pub fn into_bound(self) -> (r: Result<(Bound<T>, Bound<T>), CodecError>)
        ensures
            r == deserialized(self),
    {
        let SerializedBound { min, imin, max, imax } = self;
        let lower = match pack(min, imin) {
            Some(b) => b,
            None => return Err(CodecError::Validation(Violation::BothLowerBounds)),
        };
        let upper = match pack(max, imax) {
            Some(b) => b,
            None => return Err(CodecError::Validation(Violation::BothUpperBounds)),
        };
        Ok((lower, upper))
    }
}

/// The wire form of an optional interval: absent stays absent.
pub fn from_optional_bound<'a, T>(range: &'a Option<(Bound<T>, Bound<T>)>) -> (r: Option<
    SerializedBound<&'a T>,
>)
    ensures
        range is None <==> r is None,
        range is Some ==> {
            let s = serialized(range->Some_0);
            let w = r->Some_0;
            &&& deref_opt(w.min) == s.min
            &&& deref_opt(w.imin) == s.imin
            &&& deref_opt(w.max) == s.max
            &&& deref_opt(w.imax) == s.imax
        },
{
    match range {
        Some(range) => Some(SerializedBound::from_bound(range)),
        None => None,
    }
}

/// The optional interval that an optional wire form describes: an absent
/// form is no interval, not an error.
pub fn into_optional_bound<T>(raw: Option<SerializedBound<T>>) -> (r: Result<
    Option<(Bound<T>, Bound<T>)>,
    CodecError,
>)
    ensures
        raw is None ==> r == Ok::<Option<(Bound<T>, Bound<T>)>, CodecError>(None),
        raw is Some ==> match deserialized(raw->Some_0) {
            Ok(range) => r == Ok::<Option<(Bound<T>, Bound<T>)>, CodecError>(Some(range)),
            Err(e) => r == Err::<Option<(Bound<T>, Bound<T>)>, CodecError>(e),
        },
{
    match raw {
        Some(raw) => match raw.into_bound() {
            Ok(range) => Ok(Some(range)),
            Err(e) => Err(e),
        },
        None => Ok(None),
    }
}

} // verus!
