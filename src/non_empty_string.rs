//! Strings that must not be empty, checked both when read and when written.
use crate::error::{CodecError, Violation};
use vstd::prelude::*;
use vstd::string::*;

verus! {

/// The outcome of checking a string: itself, or the empty-string error.
pub open spec fn checked(s: Seq<char>) -> Result<Seq<char>, Violation> {
    if s.len() == 0 {
        Err(Violation::EmptyString)
    } else {
        Ok(s)
    }
}

/// Writing then reading a non-empty string gives it back; the empty string
/// is refused by both.
pub proof fn lemma_non_empty_round_trip(s: Seq<char>)
    ensures
        checked(s) is Ok ==> checked(checked(s)->Ok_0) == checked(s),
        checked(s) is Err <==> s.len() == 0,
{
}

/// Encodes a string; refuses the empty one.
pub fn serialize(text: &str) -> (r: Result<String, CodecError>)
    ensures
        checked(text@) is Ok ==> r is Ok && r->Ok_0@ == text@,
        checked(text@) is Err ==> r == Err::<String, CodecError>(
            CodecError::Validation(Violation::EmptyString),
        ),
{
    if text.unicode_len() == 0 {
        return Err(CodecError::Validation(Violation::EmptyString));
    }
    Ok(text.to_owned())
}

/// Decodes a string; refuses the empty one.
pub fn deserialize(text: String) -> (r: Result<String, CodecError>)
    ensures
        checked(text@) is Ok ==> r is Ok && r->Ok_0@ == text@,
        checked(text@) is Err ==> r == Err::<String, CodecError>(
            CodecError::Validation(Violation::EmptyString),
        ),
{
    if text.as_str().unicode_len() == 0 {
        return Err(CodecError::Validation(Violation::EmptyString));
    }
    Ok(text)
}

} // verus!
