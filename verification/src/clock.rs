use vstd::prelude::*;

verus! {

/// Calls `time::get_time` and takes the seconds of the timestamp it returns:
/// the wall clock, as seconds since the Unix epoch. Nothing is claimed of the
/// result.
#[verifier::external_body]
pub(crate) fn now_seconds() -> (r: i64)
{
    time::get_time().sec
}

} // verus!
