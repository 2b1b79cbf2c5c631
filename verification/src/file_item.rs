//! Human-readable rendering of file sizes and modification times for list
//! items. Sizes are shown with one decimal digit, truncated; times are shown
//! relative to now, falling back to a calendar date after a week.

use vstd::prelude::*;
use crate::strtext::{dec_digits_of, u64_to_string};
use crate::trusted::{date_slash_of, format_date_slash, now_unix_seconds};

verus! {

/// 1024 to the `k`-th power.
pub open spec fn pow1024(k: nat) -> nat
    decreases k,
{
    if k == 0 {
        1
    } else {
        1024 * pow1024((k - 1) as nat)
    }
}

/// The unit exponent a size is shown in: bytes up to a kibibyte, then one
/// step per factor of 1024, capped at terabytes.
pub open spec fn size_exponent(size: u64) -> nat {
    if size >= 1099511627776 {
        4
    } else if size >= 1073741824 {
        3
    } else if size >= 1048576 {
        2
    } else if size >= 1024 {
        1
    } else {
        0
    }
}

/// The unit suffix for an exponent.
pub open spec fn size_unit_text(k: nat) -> Seq<char> {
    if k == 0 {
        " B"@
    } else if k == 1 {
        " KB"@
    } else if k == 2 {
        " MB"@
    } else if k == 3 {
        " GB"@
    } else {
        " TB"@
    }
}

/// A positive size rendered in its unit: a whole byte count below a
/// kibibyte, otherwise the scaled value with one decimal digit, truncated.
pub open spec fn nonzero_size_text_spec(size: u64) -> Seq<char> {
    let k = size_exponent(size);
    if k == 0 {
        dec_digits_of(size as nat) + " B"@
    } else {
        let v = (size as nat) * 10 / pow1024(k);
        dec_digits_of(v / 10) + "."@ + dec_digits_of(v % 10) + size_unit_text(k)
    }
}

/// A size rendered for display; zero bytes show as `0 B`.
pub open spec fn file_size_text(size: u64) -> Seq<char> {
    if size == 0 {
        "0 B"@
    } else {
        nonzero_size_text_spec(size)
    }
}

/// A modification time rendered for display, relative to `now` (both in
/// seconds since the Unix epoch): a missing time shows as `-`, a time before
/// the epoch as unknown, recent times as minutes/hours/days ago, and
/// anything older than a week as a slash-separated date (clamped to the
/// renderable range).
pub open spec fn modified_time_text(modified: Option<i64>, now: i64) -> Seq<char> {
    match modified {
        Option::None => "-"@,
        Option::Some(secs) => if secs < 0 {
            "不明"@
        } else {
            let diff = if now > secs {
                now - secs
            } else {
                0
            };
            if diff < 60 {
                "今"@
            } else if diff < 3600 {
                dec_digits_of((diff / 60) as nat) + "分前"@
            } else if diff < 86400 {
                dec_digits_of((diff / 3600) as nat) + "時間前"@
            } else if diff < 604800 {
                dec_digits_of((diff / 86400) as nat) + "日前"@
            } else {
                date_slash_of(
                    if secs <= 253402300799 {
                        secs as int
                    } else {
                        253402300799
                    },
                )
            }
        },
    }
}

/// A positive size rendered in its unit, per `nonzero_size_text_spec`.
pub(crate) fn nonzero_size_text(size: u64) -> (r: String)
    requires
        size > 0,
    ensures
        r@ == nonzero_size_text_spec(size),
{
    proof {
        assert(pow1024(0) == 1);
        assert(pow1024(1) == 1024);
        assert(pow1024(2) == 1048576);
        assert(pow1024(3) == 1073741824);
        assert(pow1024(4) == 1099511627776);
    }
    if size < 1024 {
        let r = u64_to_string(size).concat(" B");
        proof {
            assert(r@ =~= nonzero_size_text_spec(size));
        }
        r
    } else {
        let p: u64 = if size >= 1099511627776 {
            1099511627776
        } else if size >= 1073741824 {
            1073741824
        } else if size >= 1048576 {
            1048576
        } else {
            1024
        };
        let unit: &str = if size >= 1099511627776 {
            " TB"
        } else if size >= 1073741824 {
            " GB"
        } else if size >= 1048576 {
            " MB"
        } else {
            " KB"
        };
        let scaled: u128 = (size as u128) * 10 / (p as u128);
        proof {
            vstd::arithmetic::div_mod::lemma_div_is_ordered_by_denominator(
                size as int * 10,
                1024,
                p as int,
            );
            vstd::arithmetic::div_mod::lemma_div_is_ordered(
                size as int * 10,
                0xFFFFFFFFFFFFFFFFint * 10,
                1024,
            );
            assert(scaled <= 0xFFFFFFFFFFFFFFFF * 10 / 1024);
        }
        let v: u64 = scaled as u64;
        let whole = v / 10;
        let tenth = v % 10;
        let r = u64_to_string(whole).concat(".").concat(u64_to_string(tenth).as_str()).concat(
            unit,
        );
        proof {
            assert(r@ =~= nonzero_size_text_spec(size));
        }
        r
    }
}

/// A size rendered for display, per `file_size_text`.
pub fn format_file_size(size: u64) -> (r: String)
    ensures
        r@ == file_size_text(size),
{
    if size == 0 {
        "0 B".to_owned()
    } else {
        nonzero_size_text(size)
    }
}

/// A modification time rendered relative to the given `now`, per
/// `modified_time_text`.
pub fn format_modified_time_at(modified: Option<i64>, now: i64) -> (r: String)
    ensures
        r@ == modified_time_text(modified, now),
{
    match modified {
        None => "-".to_owned(),
        Some(secs) => {
            if secs < 0 {
                return "不明".to_owned();
            }
            let diff: i64 = if now > secs {
                now - secs
            } else {
                0
            };
            if diff < 60 {
                "今".to_owned()
            } else if diff < 3600 {
                let r = u64_to_string((diff / 60) as u64).concat("分前");
                proof {
                    assert(r@ =~= modified_time_text(modified, now));
                }
                r
            } else if diff < 86400 {
                let r = u64_to_string((diff / 3600) as u64).concat("時間前");
                proof {
                    assert(r@ =~= modified_time_text(modified, now));
                }
                r
            } else if diff < 604800 {
                let r = u64_to_string((diff / 86400) as u64).concat("日前");
                proof {
                    assert(r@ =~= modified_time_text(modified, now));
                }
                r
            } else {
                let clamped: i64 = if secs <= 253402300799 {
                    secs
                } else {
                    253402300799
                };
                format_date_slash(clamped)
            }
        },
    }
}

/// A modification time rendered relative to the current clock.
pub fn format_modified_time(modified: Option<i64>) -> (r: String)
    ensures
        modified is None ==> r@ == "-"@,
        exists|now: i64| r@ == modified_time_text(modified, now),
{
    let now = now_unix_seconds();
    format_modified_time_at(modified, now)
}

} // verus!
