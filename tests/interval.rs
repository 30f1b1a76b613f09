use newslab_serde::error::{CodecError, Violation};
use newslab_serde::interval::{from_optional_bound, into_optional_bound, Bound, SerializedBound};

fn raw(min: Option<i32>, imin: Option<i32>, max: Option<i32>, imax: Option<i32>) -> SerializedBound<i32> {
    SerializedBound { min, imin, max, imax }
}

#[test]
fn both_lower_slots_is_a_validation_error() {
    assert_eq!(
        raw(Some(1), Some(1), None, None).into_bound(),
        Err(CodecError::Validation(Violation::BothLowerBounds))
    );
}

#[test]
fn both_upper_slots_is_a_validation_error() {
    assert_eq!(
        raw(None, None, Some(5), Some(5)).into_bound(),
        Err(CodecError::Validation(Violation::BothUpperBounds))
    );
}

#[test]
fn empty_map_is_unbounded_both_ways() {
    assert_eq!(
        raw(None, None, None, None).into_bound(),
        Ok((Bound::Unbounded, Bound::Unbounded))
    );
}

#[test]
fn slots_map_to_open_and_closed_sides() {
    assert_eq!(
        raw(Some(-10), None, None, Some(5)).into_bound(),
        Ok((Bound::Excluded(-10), Bound::Included(5)))
    );
    assert_eq!(
        raw(None, Some(0), Some(3), None).into_bound(),
        Ok((Bound::Included(0), Bound::Excluded(3)))
    );
}

#[test]
fn from_bound_fills_one_slot_per_side() {
    let range = (Bound::Excluded(-10), Bound::Included(5));
    let s = SerializedBound::from_bound(&range);
    assert_eq!(s.min, Some(&-10));
    assert_eq!(s.imin, None);
    assert_eq!(s.max, None);
    assert_eq!(s.imax, Some(&5));
}

#[test]
fn interval_round_trips() {
    let sides = [Bound::Unbounded, Bound::Included(2), Bound::Excluded(7)];
    for lower in sides {
        for upper in sides {
            let range = (lower, upper);
            let s = SerializedBound::from_bound(&range);
            let owned = SerializedBound {
                min: s.min.copied(),
                imin: s.imin.copied(),
                max: s.max.copied(),
                imax: s.imax.copied(),
            };
            assert_eq!(owned.into_bound(), Ok(range));
        }
    }
}

#[test]
fn optional_interval_absent_is_none() {
    let none: Option<(Bound<i32>, Bound<i32>)> = None;
    assert!(from_optional_bound(&none).is_none());
    assert_eq!(into_optional_bound::<i32>(None), Ok(None));
}

#[test]
fn optional_interval_present() {
    let range = Some((Bound::Included(1), Bound::Unbounded));
    let s = from_optional_bound(&range).unwrap();
    assert_eq!(s.imin, Some(&1));
    assert_eq!(
        into_optional_bound(Some(raw(None, Some(1), None, None))),
        Ok(Some((Bound::Included(1), Bound::Unbounded)))
    );
    assert_eq!(
        into_optional_bound(Some(raw(Some(1), Some(1), None, None))),
        Err(CodecError::Validation(Violation::BothLowerBounds))
    );
}
