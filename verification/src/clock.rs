use vstd::prelude::*;

verus! {

/// The current local time as `YYYY-MM-DD HH:MM:SS` (`chrono::Local::now` formatted).
/// Trusted: no claim on the text, which depends on the clock and the time zone.
#[verifier::external_body]
pub fn now_str() -> (r: String) {
    chrono::Local::now().format("%Y-%m-%d %H:%M:%S").to_string()
}

/// The local date `days_back` days before now as `YYYY-MM-DD` (`chrono::Local::now` minus
/// `chrono::Duration::days`). Trusted: no claim on the text. The bound keeps the duration
/// (which panics beyond about 10^11 days) and the date arithmetic (which panics outside the
/// years ±262,142) inside chrono's range for any clock within 15,000 years of year 0.
#[verifier::external_body]
pub fn local_date_days_ago(days_back: i64) -> (r: String)
    requires
        -90000000 <= days_back <= 90000000,
{
    (chrono::Local::now() - chrono::Duration::days(days_back)).format("%Y-%m-%d").to_string()
}

} // verus!
