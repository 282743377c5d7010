use vstd::prelude::*;

verus! {

/// Relies on std's `SystemTime::now` measured against `UNIX_EPOCH`: the
/// number of whole seconds since the epoch, saturated at the `i64`
/// ceiling, and zero should the clock stand before the epoch.  Nothing
/// more can be promised about a clock than that the count is not negative.
#[verifier::external_body]
pub fn now_ts() -> (r: i64)
    ensures
        r >= 0,
{
    match std::time::SystemTime::now().duration_since(std::time::UNIX_EPOCH) {
        Ok(d) => {
            let secs = d.as_secs();
            if secs > i64::MAX as u64 {
                i64::MAX
            } else {
                secs as i64
            }
        },
        Err(_) => 0,
    }
}

} // verus!
