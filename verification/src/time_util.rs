//! Wall-clock reads for the timing envelope.

use vstd::prelude::*;
use vstd::string::*;
use crate::decimal::dec_chars;

verus! {

/// Relies on `std::time::SystemTime::now` and
/// `SystemTime::duration_since`: microseconds between the Unix epoch
/// and now, `None` when the system clock sits before the epoch.
/// Nothing can be promised of a clock reading.
#[verifier::external_body]
pub(crate) fn now_micros() -> (r: Option<u64>) {
    match std::time::SystemTime::now().duration_since(std::time::UNIX_EPOCH) {
        Ok(d) => Some(d.as_micros() as u64),
        Err(_) => None,
    }
}

/// Relies on `std::time::SystemTime::now` and
/// `SystemTime::duration_since`: milliseconds between the Unix epoch
/// and now, `None` when the system clock sits before the epoch.
#[verifier::external_body]
pub(crate) fn now_millis() -> (r: Option<u64>) {
    match std::time::SystemTime::now().duration_since(std::time::UNIX_EPOCH) {
        Ok(d) => Some(d.as_millis() as u64),
        Err(_) => None,
    }
}

/// The startup banner for a given clock reading.
pub open spec fn spec_startup_banner(millis: Option<u64>) -> Seq<char> {
    match millis {
        Some(n) => "Startup timestamp: "@ + dec_chars(n as nat),
        None => "Startup timestamp unavailable: clock before the Unix epoch"@,
    }
}

/// Reads the system clock and renders the startup line the process
/// logs; the caller prints it.
pub fn print_systemtime() -> (line: String)
    ensures
        exists|millis: Option<u64>| line@ == spec_startup_banner(millis),
{
    let millis = now_millis();
    match millis {
        Some(n) => {
            let mut line = "Startup timestamp: ".to_owned();
            let digits = crate::decimal::u64_to_string(n);
            line.append(digits.as_str());
            proof {
                assert(line@ == spec_startup_banner(Some(n)));
            }
            line
        },
        None => {
            let line = "Startup timestamp unavailable: clock before the Unix epoch".to_owned();
            proof {
                assert(line@ == spec_startup_banner(None::<u64>));
            }
            line
        },
    }
}

} // verus!
