//! The only unverified code of the library: thin wrappers around the outside
//! crates `chrono` and `dirs` and around Unicode case folding from std. Each
//! wrapper's contract states no more than the callee's documentation promises;
//! results that depend on the clock or the environment get no contract at all.

use vstd::prelude::*;

verus! {

/// What `str::to_lowercase` returns for a given character sequence. The
/// mapping is determined by the characters alone, so it can be named even
/// though writing it out would take pages.
pub uninterp spec fn lower_of(s: Seq<char>) -> Seq<char>;

/// What `chrono`'s `%Y%m%d_%H%M%S` UTC rendering of an epoch second is.
/// A pure function of the second, named rather than written out.
pub uninterp spec fn compact_stamp_of(secs: int) -> Seq<char>;

/// What `chrono`'s `%Y/%m/%d` UTC rendering of an epoch second is.
pub uninterp spec fn date_slash_of(secs: int) -> Seq<char>;

/// Relies on str::to_lowercase: the result depends on the characters alone.
#[verifier::external_body]
pub(crate) fn lowercase(s: &str) -> (r: String)
    ensures
        r@ == lower_of(s@),
{
    s.to_lowercase()
}

/// Relies on chrono::Utc::now and DateTime::timestamp: seconds since the
/// Unix epoch. Nothing can be promised of the clock's value.
#[verifier::external_body]
pub(crate) fn now_unix_seconds() -> i64 {
    chrono::Utc::now().timestamp()
}

/// Relies on chrono::Utc::now and DateTime::timestamp_nanos_opt: nanoseconds
/// since the Unix epoch, or 0 when out of chrono's range. Nothing can be
/// promised of the clock's value.
#[verifier::external_body]
pub(crate) fn now_unix_nanos() -> i64 {
    chrono::Utc::now().timestamp_nanos_opt().unwrap_or(0)
}

/// Relies on chrono::DateTime::from_timestamp and DateTime::format with
/// "%Y%m%d_%H%M%S": a compact UTC stamp of the given epoch second. The
/// bound keeps the second inside chrono's representable range, so the
/// fallback branch is never taken and the result depends on `secs` alone.
#[verifier::external_body]
pub(crate) fn format_compact_stamp(secs: i64) -> (r: String)
    requires
        0 <= secs <= 253402300799,
    ensures
        r@ == compact_stamp_of(secs as int),
{
    match chrono::DateTime::from_timestamp(secs, 0) {
        Some(dt) => format!("{}", dt.format("%Y%m%d_%H%M%S")),
        None => String::new(),
    }
}

/// Relies on chrono::DateTime::from_timestamp and DateTime::format with
/// "%Y/%m/%d": a slash-separated UTC date of the given epoch second. The
/// bound keeps the second inside chrono's representable range, so the
/// fallback branch is never taken and the result depends on `secs` alone.
#[verifier::external_body]
pub(crate) fn format_date_slash(secs: i64) -> (r: String)
    requires
        0 <= secs <= 253402300799,
    ensures
        r@ == date_slash_of(secs as int),
{
    match chrono::DateTime::from_timestamp(secs, 0) {
        Some(dt) => format!("{}", dt.format("%Y/%m/%d")),
        None => String::new(),
    }
}

/// Relies on dirs::config_dir: the platform configuration directory, if the
/// platform defines one. The result depends on the environment, so nothing
/// is promised of it.
#[verifier::external_body]
pub(crate) fn platform_config_dir() -> Option<String> {
    dirs::config_dir().map(|p| p.to_string_lossy().to_string())
}

} // verus!
