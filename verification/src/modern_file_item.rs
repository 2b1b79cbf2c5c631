//! Rendering helpers for the modern file-item view: the display mode, and
//! size/time formatting that shows em dashes for missing values and an
//! arithmetic calendar date for old times.

use vstd::prelude::*;
use crate::file_item::{nonzero_size_text, nonzero_size_text_spec};
use crate::strtext::{dec_digits_of, u64_to_string};
use crate::trusted::now_unix_seconds;

verus! {

/// How file items are laid out.
#[derive(Debug, Clone, Copy, PartialEq, Eq, Structural)]
pub enum FileItemDisplayMode {
    List,
    Grid,
    Compact,
}

/// A size rendered for display; zero bytes show as an em dash.
pub open spec fn modern_file_size_text(size: u64) -> Seq<char> {
    if size == 0 {
        "—"@
    } else {
        nonzero_size_text_spec(size)
    }
}

/// The arithmetic calendar date used for times older than a week: years of
/// 365 days and months of 30.4 days, an approximation rendered as
/// `year/month/day`.
pub open spec fn approx_date_text(secs: i64) -> Seq<char>
    recommends
        secs >= 0,
{
    dec_digits_of((1970 + secs / 31536000) as nat) + "/"@ + dec_digits_of(
        (1 + (secs % 31536000) / 2628000) as nat,
    ) + "/"@ + dec_digits_of((1 + (secs % 2628000) / 86400) as nat)
}

/// A modification time rendered for display, relative to `now`: like
/// `modified_time_text` but with em dashes for missing values and the
/// arithmetic date for old times.
pub open spec fn modern_modified_time_text(modified: Option<i64>, now: i64) -> Seq<char> {
    match modified {
        Option::None => "—"@,
        Option::Some(secs) => if secs < 0 {
            "不明"@
        } else {
            let diff = if now > secs {
                now - secs
            } else {
                0
            };
            if diff < 60 {
                "今"@
            } else if diff < 3600 {
                dec_digits_of((diff / 60) as nat) + "分前"@
            } else if diff < 86400 {
                dec_digits_of((diff / 3600) as nat) + "時間前"@
            } else if diff < 604800 {
                dec_digits_of((diff / 86400) as nat) + "日前"@
            } else {
                approx_date_text(secs)
            }
        },
    }
}

/// A size rendered for display, per `modern_file_size_text`.
pub fn format_file_size(size: u64) -> (r: String)
    ensures
        r@ == modern_file_size_text(size),
{
    if size == 0 {
        "—".to_owned()
    } else {
        nonzero_size_text(size)
    }
}

/// A modification time rendered relative to the given `now`, per
/// `modern_modified_time_text`.
pub fn format_modified_time_at(modified: Option<i64>, now: i64) -> (r: String)
    ensures
        r@ == modern_modified_time_text(modified, now),
{
    match modified {
        None => "—".to_owned(),
        Some(secs) => {
            if secs < 0 {
                return "不明".to_owned();
            }
            let diff: i64 = if now > secs {
                now - secs
            } else {
                0
            };
            if diff < 60 {
                "今".to_owned()
            } else if diff < 3600 {
                let r = u64_to_string((diff / 60) as u64).concat("分前");
                proof {
                    assert(r@ =~= modern_modified_time_text(modified, now));
                }
                r
            } else if diff < 86400 {
                let r = u64_to_string((diff / 3600) as u64).concat("時間前");
                proof {
                    assert(r@ =~= modern_modified_time_text(modified, now));
                }
                r
            } else if diff < 604800 {
                let r = u64_to_string((diff / 86400) as u64).concat("日前");
                proof {
                    assert(r@ =~= modern_modified_time_text(modified, now));
                }
                r
            } else {
                let years: u64 = 1970 + (secs / 31536000) as u64;
                let months: u64 = 1 + ((secs % 31536000) / 2628000) as u64;
                let days: u64 = 1 + ((secs % 2628000) / 86400) as u64;
                let r = u64_to_string(years).concat("/").concat(
                    u64_to_string(months).as_str(),
                ).concat("/").concat(u64_to_string(days).as_str());
                proof {
                    assert(r@ =~= modern_modified_time_text(modified, now));
                }
                r
            }
        },
    }
}

/// A modification time rendered relative to the current clock.
pub fn format_modified_time(modified: Option<i64>) -> (r: String)
    ensures
        modified is None ==> r@ == "—"@,
        exists|now: i64| r@ == modern_modified_time_text(modified, now),
{
    let now = now_unix_seconds();
    format_modified_time_at(modified, now)
}

} // verus!
