use vstd::prelude::*;

verus! {

/// Relies on `chrono::Local::now` and `DateTime::format` with the OPML
/// header's date format (`%a, %d %b %Y %H:%M:%S %z`); the result depends on
/// the clock, so nothing is promised of it.
#[verifier::external_body]
pub(crate) fn now_opml_date() -> (r: String) {
    chrono::Local::now().format("%a, %d %b %Y %H:%M:%S %z").to_string()
}

/// Relies on `chrono::Local::now` and `DateTime::format` with the report's
/// date format (`%Y-%m-%d %H:%M:%S`); the result depends on the clock, so
/// nothing is promised of it.
#[verifier::external_body]
pub(crate) fn now_report_date() -> (r: String) {
    chrono::Local::now().format("%Y-%m-%d %H:%M:%S").to_string()
}

} // verus!
