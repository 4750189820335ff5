//! Rendering of lazily formatted values into a caller-owned scratch buffer.

use vstd::prelude::*;
use crate::error::EncodeError;

verus! {

#[verifier::external_type_specification]
#[verifier::external_body]
pub struct ExArguments<'a>(core::fmt::Arguments<'a>);

/// Relies on `core::fmt::Write::write_fmt` for `String`: it appends the
/// text that the captured formatting callbacks produce for this one call,
/// and reports their error. A callback may read ambient state, so no two
/// calls are related to each other: nothing is stated about the appended
/// text, only that the old contents stay in place. On failure part of a
/// rendering may have been appended; the caller clears the buffer.
#[verifier::external_body]
pub(crate) fn render_into(buf: &mut String, args: &core::fmt::Arguments) -> (r: Result<
    (),
    EncodeError,
>)
    ensures
        final(buf)@.len() >= old(buf)@.len(),
        final(buf)@.take(old(buf)@.len() as int) == old(buf)@,
{
    match core::fmt::Write::write_fmt(buf, *args) {
        Ok(()) => Ok(()),
        Err(_) => Err(EncodeError::Serialization),
    }
}

/// Relies on `String::clear`: it empties the text while keeping the
/// buffer's allocation, so rendering needs no allocation per call.
#[verifier::external_body]
pub(crate) fn clear_string(s: &mut String)
    ensures
        final(s)@ == Seq::<char>::empty(),
{
    s.clear()
}

} // verus!
