//! Sorting and filtering of directory listings: a deterministic,
//! side-effect-free transformation of a raw entry list into the list the
//! user sees. Filtering is a conjunction of independent predicates; sorting
//! orders entries by a configurable criterion and direction, optionally
//! partitioning directories ahead of everything else.

use vstd::prelude::*;
use vstd::multiset::Multiset;
use core::cmp::Ordering;
use crate::filesystem::{FileEntry, FileType};
use crate::pathtext::extension_spec;
use crate::strtext::{chars_of, contains_spec};
use crate::trusted::{lower_of, lowercase};

verus! {

/// The attribute entries are ordered by.
#[derive(Debug, Clone, Copy, PartialEq, Eq, Structural)]
pub enum SortCriteria {
    Name,
    Size,
    Modified,
    Type,
}

impl Default for SortCriteria {
    fn default() -> (r: SortCriteria)
        ensures
            r == SortCriteria::Name,
    {
        SortCriteria::Name
    }
}

/// Whether the criterion's order is applied forwards or reversed.
#[derive(Debug, Clone, Copy, PartialEq, Eq, Structural)]
pub enum SortDirection {
    Ascending,
    Descending,
}

impl Default for SortDirection {
    fn default() -> (r: SortDirection)
        ensures
            r == SortDirection::Ascending,
    {
        SortDirection::Ascending
    }
}

/// A complete sort configuration.
#[derive(Debug, Clone, Copy, PartialEq, Eq, Structural)]
pub struct SortConfig {
    pub criteria: SortCriteria,
    pub direction: SortDirection,
    /// Keep directory entries ahead of all others, whatever the direction.
    pub folders_first: bool,
}

impl Default for SortConfig {
    fn default() -> (r: SortConfig)
        ensures
            r.criteria == SortCriteria::Name,
            r.direction == SortDirection::Ascending,
            r.folders_first,
    {
        SortConfig { criteria: SortCriteria::Name, direction: SortDirection::Ascending, folders_first: true }
    }
}

/// The conjunction of filters an entry must pass.
#[derive(Debug, Clone, PartialEq, Eq)]
pub struct FilterCriteria {
    /// Admit entries whose name begins with a dot.
    pub show_hidden: bool,
    /// Case-insensitive substring required in the name.
    pub name_filter: Option<String>,
    /// Case-insensitive exact extension match.
    pub extension_filter: Option<String>,
    /// Minimum size in bytes, applied to file entries only.
    pub min_size: Option<u64>,
    /// Maximum size in bytes, applied to file entries only.
    pub max_size: Option<u64>,
}

impl FilterCriteria {
    /// The empty filter: everything but hidden entries passes.
    pub open spec fn is_default(self) -> bool {
        &&& !self.show_hidden
        &&& self.name_filter is None
        &&& self.extension_filter is None
        &&& self.min_size is None
        &&& self.max_size is None
    }
}

impl Default for FilterCriteria {
    fn default() -> (r: FilterCriteria)
        ensures
            r.is_default(),
    {
        FilterCriteria {
            show_hidden: false,
            name_filter: None,
            extension_filter: None,
            min_size: None,
            max_size: None,
        }
    }
}

/// A name is hidden when it begins with a dot.
pub open spec fn is_hidden_spec(name: Seq<char>) -> bool {
    name.len() > 0 && name.first() == '.'
}

/// The extension of a path, or the empty sequence when it has none.
pub open spec fn ext_or_empty(path: Seq<char>) -> Seq<char> {
    match extension_spec(path) {
        Option::Some(e) => e,
        Option::None => Seq::empty(),
    }
}

/// Whether an entry passes every filter of `fc`:
/// hidden names are excluded unless `show_hidden`; the lowercased name must
/// contain the lowercased name filter; the lowercased extension must equal
/// the lowercased extension filter (entries without an extension are
/// excluded while that filter is active); and size bounds apply to entries
/// of type `File` only — directories always pass the size test.
pub open spec fn passes_filter_spec(fc: FilterCriteria, e: FileEntry) -> bool {
    &&& (fc.show_hidden || !is_hidden_spec(e.name@))
    &&& (match fc.name_filter {
        Option::None => true,
        Option::Some(f) => f@.len() == 0 || contains_spec(lower_of(e.name@), lower_of(f@)),
    })
    &&& (match fc.extension_filter {
        Option::None => true,
        Option::Some(f) => f@.len() == 0 || (match extension_spec(e.path@) {
            Option::Some(ext) => lower_of(ext) == lower_of(f@),
            Option::None => false,
        }),
    })
    &&& (e.file_type == FileType::File ==> {
        &&& (match fc.min_size {
            Option::Some(m) => e.size >= m,
            Option::None => true,
        })
        &&& (match fc.max_size {
            Option::Some(m) => e.size <= m,
            Option::None => true,
        })
    })
}

/// Whether a name is hidden (begins with a dot).
pub fn is_hidden_file(name: &str) -> (r: bool)
    ensures
        r == is_hidden_spec(name@),
{
    if name.unicode_len() == 0 {
        false
    } else {
        name.get_char(0) == '.'
    }
}

/// The opposite ordering.
pub open spec fn ord_reverse(o: Ordering) -> Ordering {
    match o {
        Ordering::Less => Ordering::Greater,
        Ordering::Equal => Ordering::Equal,
        Ordering::Greater => Ordering::Less,
    }
}

/// Numeric order on sizes.
pub open spec fn u64_cmp(a: u64, b: u64) -> Ordering {
    if a < b {
        Ordering::Less
    } else if a == b {
        Ordering::Equal
    } else {
        Ordering::Greater
    }
}

/// Order on optional timestamps: an entry lacking a timestamp sorts before
/// one that has it; two timestamps compare numerically.
pub open spec fn opt_time_cmp(a: Option<i64>, b: Option<i64>) -> Ordering {
    match (a, b) {
        (Option::Some(x), Option::Some(y)) => if x < y {
            Ordering::Less
        } else if x == y {
            Ordering::Equal
        } else {
            Ordering::Greater
        },
        (Option::Some(_), Option::None) => Ordering::Greater,
        (Option::None, Option::Some(_)) => Ordering::Less,
        (Option::None, Option::None) => Ordering::Equal,
    }
}

/// Numeric order on sizes.
pub fn compare_sizes(a: u64, b: u64) -> (r: Ordering)
    ensures
        r == u64_cmp(a, b),
{
    if a < b {
        Ordering::Less
    } else if a == b {
        Ordering::Equal
    } else {
        Ordering::Greater
    }
}

/// An ASCII decimal digit.
pub open spec fn is_ascii_digit(c: char) -> bool {
    '0' <= c && c <= '9'
}

/// The length of the maximal digit run at the head of `s`.
pub open spec fn run_len(s: Seq<char>) -> nat
    decreases s.len(),
{
    if s.len() > 0 && is_ascii_digit(s.first()) {
        1 + run_len(s.drop_first())
    } else {
        0
    }
}

/// The numeric value of one digit character; other characters count zero.
pub open spec fn digit_val(c: char) -> nat {
    if '0' <= c && c <= '9' {
        (c as nat - 48) as nat
    } else {
        0
    }
}

/// The numeric value of a sequence of digits, most significant first.
pub open spec fn digits_val(s: Seq<char>) -> nat
    decreases s.len(),
{
    if s.len() == 0 {
        0
    } else {
        digits_val(s.drop_last()) * 10 + digit_val(s.last())
    }
}

/// The value of the digit run at the head of `s`, with a run whose value
/// does not fit in 64 bits collapsing to zero.
pub open spec fn run_value(s: Seq<char>) -> nat {
    let v = digits_val(s.subrange(0, run_len(s) as int));
    if v > u64::MAX {
        0
    } else {
        v
    }
}

/// The digit run never extends past the end of the sequence.
proof fn lemma_run_len_le(s: Seq<char>)
    ensures
        run_len(s) <= s.len(),
    decreases s.len(),
{
    if s.len() > 0 && is_ascii_digit(s.first()) {
        lemma_run_len_le(s.drop_first());
    }
}

#[via_fn]
proof fn nat_cmp_decreases(a: Seq<char>, b: Seq<char>) {
    lemma_run_len_le(a);
    lemma_run_len_le(b);
}

/// Case-sensitive natural order: digit runs compare by numeric value,
/// everything else by code point, and the sequence that runs out of
/// characters first sorts earlier.
pub open spec fn nat_cmp(a: Seq<char>, b: Seq<char>) -> Ordering
    decreases a.len() + b.len(),
    via nat_cmp_decreases
{
    if a.len() == 0 && b.len() == 0 {
        Ordering::Equal
    } else if a.len() == 0 {
        Ordering::Less
    } else if b.len() == 0 {
        Ordering::Greater
    } else if is_ascii_digit(a.first()) && is_ascii_digit(b.first()) {
        if run_value(a) < run_value(b) {
            Ordering::Less
        } else if run_value(a) > run_value(b) {
            Ordering::Greater
        } else {
            nat_cmp(a.skip(run_len(a) as int), b.skip(run_len(b) as int))
        }
    } else if a.first() == b.first() {
        nat_cmp(a.drop_first(), b.drop_first())
    } else if a.first() < b.first() {
        Ordering::Less
    } else {
        Ordering::Greater
    }
}

/// Plain lexicographic order by code point.
pub open spec fn lex_cmp(a: Seq<char>, b: Seq<char>) -> Ordering
    decreases a.len() + b.len(),
{
    if a.len() == 0 && b.len() == 0 {
        Ordering::Equal
    } else if a.len() == 0 {
        Ordering::Less
    } else if b.len() == 0 {
        Ordering::Greater
    } else if a.first() == b.first() {
        lex_cmp(a.drop_first(), b.drop_first())
    } else if a.first() < b.first() {
        Ordering::Less
    } else {
        Ordering::Greater
    }
}

/// Scan the digit run of `v` beginning at `i`: its end, and its value with
/// overflow collapsed to zero.
fn take_run(v: &Vec<char>, i: usize) -> (r: (usize, u64))
    requires
        i <= v@.len(),
    ensures
        r.0 == i + run_len(v@.skip(i as int)),
        i <= r.0 <= v@.len(),
        r.1 == run_value(v@.skip(i as int)),
{
    let ghost s = v@.skip(i as int);
    let n = v.len();
    let mut k: usize = i;
    let mut val: u64 = 0;
    let mut overflowed: bool = false;
    while k < n && is_digit_exec(v[k])
        invariant
            i <= k <= n,
            n == v@.len(),
            s == v@.skip(i as int),
            forall|j: int| i <= j < k ==> is_ascii_digit(v@[j]),
            !overflowed ==> val == digits_val(v@.subrange(i as int, k as int)),
            overflowed ==> digits_val(v@.subrange(i as int, k as int)) > u64::MAX && val == 0,
        decreases n - k,
    {
        let c = v[k];
        let d: u64 = (c as u32 - 48) as u64;
        proof {
            assert(v@.subrange(i as int, k + 1).drop_last() =~= v@.subrange(i as int, k as int));
            assert(digits_val(v@.subrange(i as int, k + 1)) == digits_val(
                v@.subrange(i as int, k as int),
            ) * 10 + d);
        }
        if overflowed {
            proof {
                let prev = digits_val(v@.subrange(i as int, k as int));
                assert(prev * 10 + d >= prev) by (nonlinear_arith)
                    requires
                        prev >= 0,
                        d >= 0,
                ;
            }
        } else {
            let stepped = val.checked_mul(10);
            match stepped {
                Some(m) => {
                    match m.checked_add(d) {
                        Some(total) => {
                            val = total;
                        },
                        None => {
                            overflowed = true;
                            val = 0;
                        },
                    }
                },
                None => {
                    proof {
                        let prev = digits_val(v@.subrange(i as int, k as int));
                        assert(prev * 10 + d >= prev * 10);
                    }
                    overflowed = true;
                    val = 0;
                },
            }
        }
        k = k + 1;
    }
    proof {
        lemma_run_len_exact(s, (k - i) as nat);
        assert(v@.subrange(i as int, k as int) =~= s.subrange(0, (k - i) as int));
    }
    (k, val)
}

/// When the first `m` characters are digits and the next one is not (or the
/// sequence ends), the digit run has length exactly `m`.
proof fn lemma_run_len_exact(s: Seq<char>, m: nat)
    requires
        m <= s.len(),
        forall|j: int| 0 <= j < m ==> is_ascii_digit(s[j]),
        m < s.len() ==> !is_ascii_digit(s[m as int]),
    ensures
        run_len(s) == m,
    decreases m,
{
    if m == 0 {
    } else {
        assert(is_ascii_digit(s.first()));
        lemma_run_len_exact(s.drop_first(), (m - 1) as nat);
    }
}

/// An ASCII decimal digit.
fn is_digit_exec(c: char) -> (r: bool)
    ensures
        r == is_ascii_digit(c),
{
    '0' <= c && c <= '9'
}

/// Natural order on the tails of two character vectors.
fn nat_cmp_from(a: &Vec<char>, b: &Vec<char>, i: usize, j: usize) -> (r: Ordering)
    requires
        i <= a@.len(),
        j <= b@.len(),
    ensures
        r == nat_cmp(a@.skip(i as int), b@.skip(j as int)),
    decreases a@.len() - i + b@.len() - j,
{
    let ghost sa = a@.skip(i as int);
    let ghost sb = b@.skip(j as int);
    if i == a.len() && j == b.len() {
        Ordering::Equal
    } else if i == a.len() {
        Ordering::Less
    } else if j == b.len() {
        Ordering::Greater
    } else {
        let ca = a[i];
        let cb = b[j];
        proof {
            assert(sa.first() == a@[i as int]);
            assert(sb.first() == b@[j as int]);
        }
        if is_digit_exec(ca) && is_digit_exec(cb) {
            let (ea, va) = take_run(a, i);
            let (eb, vb) = take_run(b, j);
            proof {
                lemma_skip_skip(a@, i as int, run_len(sa) as int);
                lemma_skip_skip(b@, j as int, run_len(sb) as int);
            }
            if va < vb {
                Ordering::Less
            } else if va > vb {
                Ordering::Greater
            } else {
                proof {
                    assert(run_len(sa) >= 1);
                    assert(run_len(sb) >= 1);
                }
                nat_cmp_from(a, b, ea, eb)
            }
        } else if ca == cb {
            proof {
                assert(sa.drop_first() =~= a@.skip(i + 1));
                assert(sb.drop_first() =~= b@.skip(j + 1));
            }
            nat_cmp_from(a, b, i + 1, j + 1)
        } else if ca < cb {
            Ordering::Less
        } else {
            Ordering::Greater
        }
    }
}

/// Skipping `k` then `m` characters is skipping `k + m` at once.
proof fn lemma_skip_skip(s: Seq<char>, k: int, m: int)
    requires
        0 <= k,
        0 <= m,
        k + m <= s.len(),
    ensures
        s.skip(k).skip(m) =~= s.skip(k + m),
{
}

/// Lexicographic order on the tails of two character vectors.
fn lex_cmp_from(a: &Vec<char>, b: &Vec<char>, i: usize, j: usize) -> (r: Ordering)
    requires
        i <= a@.len(),
        j <= b@.len(),
    ensures
        r == lex_cmp(a@.skip(i as int), b@.skip(j as int)),
    decreases a@.len() - i + b@.len() - j,
{
    let ghost sa = a@.skip(i as int);
    let ghost sb = b@.skip(j as int);
    if i == a.len() && j == b.len() {
        Ordering::Equal
    } else if i == a.len() {
        Ordering::Less
    } else if j == b.len() {
        Ordering::Greater
    } else {
        let ca = a[i];
        let cb = b[j];
        proof {
            assert(sa.first() == a@[i as int]);
            assert(sb.first() == b@[j as int]);
        }
        if ca == cb {
            proof {
                assert(sa.drop_first() =~= a@.skip(i + 1));
                assert(sb.drop_first() =~= b@.skip(j + 1));
            }
            lex_cmp_from(a, b, i + 1, j + 1)
        } else if ca < cb {
            Ordering::Less
        } else {
            Ordering::Greater
        }
    }
}

/// Case-sensitive natural order on two strings.
pub fn natural_sort_compare(a: &str, b: &str) -> (r: Ordering)
    ensures
        r == nat_cmp(a@, b@),
{
    let va = chars_of(a);
    let vb = chars_of(b);
    proof {
        assert(va@.skip(0) =~= a@);
        assert(vb@.skip(0) =~= b@);
    }
    nat_cmp_from(&va, &vb, 0, 0)
}

/// Case-insensitive natural order on two names: both are lowercased and the
/// results compare in natural order.
pub fn compare_names(a: &str, b: &str) -> (r: Ordering)
    ensures
        r == nat_cmp(lower_of(a@), lower_of(b@)),
{
    let la = lowercase(a);
    let lb = lowercase(b);
    natural_sort_compare(la.as_str(), lb.as_str())
}

/// Case-insensitive lexicographic order on the extensions of two paths,
/// with a missing extension treated as the empty string.
pub fn compare_types(a: &String, b: &String) -> (r: Ordering)
    ensures
        r == lex_cmp(lower_of(ext_or_empty(a@)), lower_of(ext_or_empty(b@))),
{
    let ea = extension_text(a);
    let eb = extension_text(b);
    let la = lowercase(ea.as_str());
    let lb = lowercase(eb.as_str());
    let va = chars_of(la.as_str());
    let vb = chars_of(lb.as_str());
    proof {
        assert(va@.skip(0) =~= lower_of(ext_or_empty(a@)));
        assert(vb@.skip(0) =~= lower_of(ext_or_empty(b@)));
    }
    lex_cmp_from(&va, &vb, 0, 0)
}

/// Plain lexicographic order on two strings, by code point.
pub fn compare_strings(a: &str, b: &str) -> (r: Ordering)
    ensures
        r == lex_cmp(a@, b@),
{
    let va = chars_of(a);
    let vb = chars_of(b);
    proof {
        assert(va@.skip(0) =~= a@);
        assert(vb@.skip(0) =~= b@);
    }
    lex_cmp_from(&va, &vb, 0, 0)
}

/// The extension of a path as a string, empty when it has none.
fn extension_text(path: &String) -> (r: String)
    ensures
        r@ == ext_or_empty(path@),
{
    match crate::pathtext::extension_of(path) {
        Some(e) => e,
        None => {
            proof {
                reveal_strlit("");
            }
            let empty = "".to_owned();
            proof {
                assert(empty@ =~= Seq::<char>::empty());
            }
            empty
        },
    }
}

/// Order on optional modification times, per `opt_time_cmp`.
pub fn compare_modified_times(a: Option<i64>, b: Option<i64>) -> (r: Ordering)
    ensures
        r == opt_time_cmp(a, b),
{
    match (a, b) {
        (Some(x), Some(y)) => if x < y {
            Ordering::Less
        } else if x == y {
            Ordering::Equal
        } else {
            Ordering::Greater
        },
        (Some(_), None) => Ordering::Greater,
        (None, Some(_)) => Ordering::Less,
        (None, None) => Ordering::Equal,
    }
}

/// Order on two entries under a criterion, before direction is applied.
pub open spec fn criterion_cmp(c: SortCriteria, a: FileEntry, b: FileEntry) -> Ordering {
    match c {
        SortCriteria::Name => nat_cmp(lower_of(a.name@), lower_of(b.name@)),
        SortCriteria::Size => u64_cmp(a.size, b.size),
        SortCriteria::Modified => opt_time_cmp(a.modified, b.modified),
        SortCriteria::Type => lex_cmp(lower_of(ext_or_empty(a.path@)), lower_of(ext_or_empty(b.path@))),
    }
}

/// Full order on two entries: the folders-first partition, when enabled, is
/// decided before — and never reversed by — the direction flag; within a
/// partition the criterion order applies, reversed when descending.
pub open spec fn entry_cmp(cfg: SortConfig, a: FileEntry, b: FileEntry) -> Ordering {
    if cfg.folders_first && a.file_type == FileType::Directory && b.file_type
        != FileType::Directory {
        Ordering::Less
    } else if cfg.folders_first && a.file_type != FileType::Directory && b.file_type
        == FileType::Directory {
        Ordering::Greater
    } else {
        let r = criterion_cmp(cfg.criteria, a, b);
        if cfg.direction == SortDirection::Descending {
            ord_reverse(r)
        } else {
            r
        }
    }
}

/// `a` may stand before `b` in sorted output.
pub open spec fn entry_le(cfg: SortConfig, a: FileEntry, b: FileEntry) -> bool {
    entry_cmp(cfg, a, b) != Ordering::Greater
}

/// Every neighbouring pair of `s` is ordered under `cfg`.
pub open spec fn sorted_adjacent(cfg: SortConfig, s: Seq<FileEntry>) -> bool {
    forall|i: int| 0 <= i < s.len() - 1 ==> #[trigger] entry_le(cfg, s[i], s[i + 1])
}

/// Manager holding the current sort configuration and filter criteria, and
/// applying both to entry lists.
pub struct FileSortFilterManager {
    sort_config: SortConfig,
    filter_criteria: FilterCriteria,
}

impl FileSortFilterManager {
    /// A manager with the default configuration: sort by name, ascending,
    /// folders first, no filters.
    pub fn new() -> (r: FileSortFilterManager)
        ensures
            r.sort_config_spec() == (SortConfig {
                criteria: SortCriteria::Name,
                direction: SortDirection::Ascending,
                folders_first: true,
            }),
            r.filter_criteria_spec().is_default(),
    {
        FileSortFilterManager {
            sort_config: SortConfig::default(),
            filter_criteria: FilterCriteria::default(),
        }
    }

    /// The current sort configuration.
    pub closed spec fn sort_config_spec(self) -> SortConfig {
        self.sort_config
    }

    /// The current filter criteria.
    pub closed spec fn filter_criteria_spec(self) -> FilterCriteria {
        self.filter_criteria
    }

    /// Replace the sort configuration.
    pub fn update_sort_config(&mut self, config: SortConfig)
        ensures
            final(self).sort_config_spec() == config,
            final(self).filter_criteria_spec() == old(self).filter_criteria_spec(),
    {
        self.sort_config = config;
    }

    /// Replace the filter criteria.
    pub fn update_filter_criteria(&mut self, criteria: FilterCriteria)
        ensures
            final(self).filter_criteria_spec() == criteria,
            final(self).sort_config_spec() == old(self).sort_config_spec(),
    {
        self.filter_criteria = criteria;
    }

    /// The current sort configuration, by value.
    pub fn sort_config(&self) -> (r: SortConfig)
        ensures
            r == self.sort_config_spec(),
    {
        self.sort_config
    }

    /// The current filter criteria, by reference.
    pub fn filter_criteria(&self) -> (r: &FilterCriteria)
        ensures
            r == self.filter_criteria_spec(),
    {
        &self.filter_criteria
    }

    /// Whether an entry passes the current filter criteria.
    pub fn passes_filter(&self, entry: &FileEntry) -> (r: bool)
        ensures
            r == passes_filter_spec(self.filter_criteria_spec(), *entry),
    {
        let fc = &self.filter_criteria;
        if !fc.show_hidden && is_hidden_file(entry.name.as_str()) {
            return false;
        }
        match &fc.name_filter {
            Some(name_filter) => {
                if name_filter.as_str().unicode_len() > 0 {
                    let lname = lowercase(entry.name.as_str());
                    let lfilter = lowercase(name_filter.as_str());
                    if !crate::strtext::str_contains(lname.as_str(), lfilter.as_str()) {
                        return false;
                    }
                }
            },
            None => {},
        }
        match &fc.extension_filter {
            Some(ext_filter) => {
                if ext_filter.as_str().unicode_len() > 0 {
                    match crate::pathtext::extension_of(&entry.path) {
                        Some(ext) => {
                            let lext = lowercase(ext.as_str());
                            let lfilter = lowercase(ext_filter.as_str());
                            if !lext.eq(&lfilter) {
                                return false;
                            }
                        },
                        None => {
                            return false;
                        },
                    }
                }
            },
            None => {},
        }
        if entry.file_type == FileType::File {
            match fc.min_size {
                Some(m) => {
                    if entry.size < m {
                        return false;
                    }
                },
                None => {},
            }
            match fc.max_size {
                Some(m) => {
                    if entry.size > m {
                        return false;
                    }
                },
                None => {},
            }
        }
        true
    }

    /// Order two entries under the current sort configuration.
    pub fn compare_entries(&self, a: &FileEntry, b: &FileEntry) -> (r: Ordering)
        ensures
            r == entry_cmp(self.sort_config_spec(), *a, *b),
    {
        let cfg = self.sort_config;
        if cfg.folders_first {
            let a_dir = a.file_type == FileType::Directory;
            let b_dir = b.file_type == FileType::Directory;
            if a_dir && !b_dir {
                return Ordering::Less;
            }
            if !a_dir && b_dir {
                return Ordering::Greater;
            }
        }
        let result = match cfg.criteria {
            SortCriteria::Name => compare_names(a.name.as_str(), b.name.as_str()),
            SortCriteria::Size => compare_sizes(a.size, b.size),
            SortCriteria::Modified => compare_modified_times(a.modified, b.modified),
            SortCriteria::Type => compare_types(&a.path, &b.path),
        };
        match cfg.direction {
            SortDirection::Ascending => result,
            SortDirection::Descending => match result {
                Ordering::Less => Ordering::Greater,
                Ordering::Equal => Ordering::Equal,
                Ordering::Greater => Ordering::Less,
            },
        }
    }

    /// Whether `a` may stand before `b` under the current configuration.
    fn entry_le_exec(&self, a: &FileEntry, b: &FileEntry) -> (r: bool)
        ensures
            r == entry_le(self.sort_config_spec(), *a, *b),
    {
        let c = self.compare_entries(a, b);
        match c {
            Ordering::Greater => false,
            _ => true,
        }
    }

    /// Drop every entry that fails the current filter criteria, keeping the
    /// survivors in order.
    fn apply_filter(&self, entries: &mut Vec<FileEntry>)
        ensures
            final(entries)@ == old(entries)@.filter(
                |e: FileEntry| passes_filter_spec(self.filter_criteria_spec(), e),
            ),
    {
        let ghost pred = |e: FileEntry| passes_filter_spec(self.filter_criteria_spec(), e);
        let mut kept: Vec<FileEntry> = Vec::new();
        let n = entries.len();
        let mut k: usize = 0;
        proof {
            reveal(Seq::filter);
            assert(entries@.subrange(0, 0) =~= Seq::<FileEntry>::empty());
        }
        while k < n
            invariant
                k <= n,
                n == entries@.len(),
                kept@ == entries@.subrange(0, k as int).filter(pred),
                pred == (|e: FileEntry| passes_filter_spec(self.filter_criteria_spec(), e)),
            decreases n - k,
        {
            let e = entries[k].clone();
            let keep = self.passes_filter(&e);
            proof {
                reveal(Seq::filter);
                assert(entries@.subrange(0, k + 1).drop_last() =~= entries@.subrange(0, k as int));
                assert(entries@.subrange(0, k + 1).last() == entries@[k as int]);
            }
            if keep {
                kept.push(e);
            }
            k = k + 1;
        }
        proof {
            assert(entries@.subrange(0, n as int) =~= entries@);
        }
        *entries = kept;
    }

    /// Sort the entries in place: the result is a rearrangement of the input
    /// in which every neighbouring pair is ordered under the current
    /// configuration.
    fn apply_sort(&self, entries: &mut Vec<FileEntry>)
        ensures
            final(entries)@.to_multiset() == old(entries)@.to_multiset(),
            final(entries)@.len() == old(entries)@.len(),
            sorted_pairwise(self.sort_config_spec(), final(entries)@),
    {
        let n = entries.len();
        if n == 0 {
            return;
        }
        let mut i: usize = 1;
        while i < n
            invariant
                1 <= i <= n,
                n == entries@.len(),
                entries@.to_multiset() == old(entries)@.to_multiset(),
                sorted_adjacent_upto(self.sort_config_spec(), entries@, i as int),
            decreases n - i,
        {
            let ghost before = entries@;
            let mut p: usize = 0;
            while p < i && self.entry_le_exec(&entries[p], &entries[i])
                invariant
                    p <= i < n,
                    n == entries@.len(),
                    forall|q: int| 0 <= q < p ==> #[trigger] entry_le(
                        self.sort_config_spec(),
                        entries@[q],
                        entries@[i as int],
                    ),
                decreases i - p,
            {
                p = p + 1;
            }
            if p < i {
                proof {
                    lemma_entry_cmp_reverse(self.sort_config_spec(), entries@[p as int], entries@[i as int]);
                }
                let x = entries.remove(i);
                entries.insert(p, x);
                proof {
                    lemma_insert_step_sorted(self.sort_config_spec(), before, p as int, i as int);
                    lemma_remove_insert_multiset(before, p as int, i as int);
                }
            }
            i = i + 1;
        }
        proof {
            assert(sorted_adjacent(self.sort_config_spec(), entries@));
            lemma_adjacent_implies_pairwise(self.sort_config_spec(), entries@);
        }
    }

    /// Filter, then sort: the output holds exactly the entries of the input
    /// that pass the filter, every neighbouring pair ordered under the
    /// current configuration.
    pub fn process_entries(&self, entries: &mut Vec<FileEntry>)
        ensures
            final(entries)@.to_multiset() == old(entries)@.filter(
                |e: FileEntry| passes_filter_spec(self.filter_criteria_spec(), e),
            ).to_multiset(),
            sorted_pairwise(self.sort_config_spec(), final(entries)@),
    {
        self.apply_filter(entries);
        self.apply_sort(entries);
    }

    /// Flip the sort direction, leaving everything else unchanged.
    pub fn toggle_sort_direction(&mut self)
        ensures
            final(self).sort_config_spec().direction == (if old(self).sort_config_spec().direction
                == SortDirection::Ascending {
                SortDirection::Descending
            } else {
                SortDirection::Ascending
            }),
            final(self).sort_config_spec().criteria == old(self).sort_config_spec().criteria,
            final(self).sort_config_spec().folders_first == old(self).sort_config_spec().folders_first,
            final(self).filter_criteria_spec() == old(self).filter_criteria_spec(),
    {
        self.sort_config.direction = match self.sort_config.direction {
            SortDirection::Ascending => SortDirection::Descending,
            SortDirection::Descending => SortDirection::Ascending,
        };
    }

    /// Select a criterion: selecting the current one flips the direction,
    /// selecting a new one resets the direction to ascending.
    pub fn set_sort_criteria(&mut self, criteria: SortCriteria)
        ensures
            final(self).sort_config_spec().criteria == criteria,
            final(self).sort_config_spec().direction == (if old(self).sort_config_spec().criteria
                == criteria {
                if old(self).sort_config_spec().direction == SortDirection::Ascending {
                    SortDirection::Descending
                } else {
                    SortDirection::Ascending
                }
            } else {
                SortDirection::Ascending
            }),
            final(self).sort_config_spec().folders_first == old(self).sort_config_spec().folders_first,
            final(self).filter_criteria_spec() == old(self).filter_criteria_spec(),
    {
        if self.sort_config.criteria == criteria {
            self.toggle_sort_direction();
        } else {
            self.sort_config.criteria = criteria;
            self.sort_config.direction = SortDirection::Ascending;
        }
    }

    /// Drop every filter, restoring the default criteria.
    pub fn clear_filters(&mut self)
        ensures
            final(self).filter_criteria_spec().is_default(),
            final(self).sort_config_spec() == old(self).sort_config_spec(),
    {
        self.filter_criteria = FilterCriteria::default();
    }

    /// Whether any filter beyond the defaults is active. Showing hidden
    /// entries widens the listing, so it does not count as a filter.
    pub fn has_active_filters(&self) -> (r: bool)
        ensures
            r == (self.filter_criteria_spec().name_filter is Some
                || self.filter_criteria_spec().extension_filter is Some
                || self.filter_criteria_spec().min_size is Some
                || self.filter_criteria_spec().max_size is Some),
    {
        self.filter_criteria.name_filter.is_some() || self.filter_criteria.extension_filter.is_some()
            || self.filter_criteria.min_size.is_some() || self.filter_criteria.max_size.is_some()
    }
}

impl Default for FileSortFilterManager {
    fn default() -> (r: FileSortFilterManager)
        ensures
            r.sort_config_spec() == (SortConfig {
                criteria: SortCriteria::Name,
                direction: SortDirection::Ascending,
                folders_first: true,
            }),
            r.filter_criteria_spec().is_default(),
    {
        FileSortFilterManager::new()
    }
}

/// Every neighbouring pair among the first `m` entries is ordered.
pub open spec fn sorted_adjacent_upto(cfg: SortConfig, s: Seq<FileEntry>, m: int) -> bool {
    forall|q: int| 0 <= q < m - 1 ==> #[trigger] entry_le(cfg, s[q], s[q + 1])
}

/// Comparing in the opposite direction yields the opposite ordering.
pub proof fn lemma_entry_cmp_reverse(cfg: SortConfig, a: FileEntry, b: FileEntry)
    ensures
        entry_cmp(cfg, b, a) == ord_reverse(entry_cmp(cfg, a, b)),
{
    lemma_criterion_cmp_reverse(cfg.criteria, a, b);
}

/// The criterion comparison reverses cleanly.
proof fn lemma_criterion_cmp_reverse(c: SortCriteria, a: FileEntry, b: FileEntry)
    ensures
        criterion_cmp(c, b, a) == ord_reverse(criterion_cmp(c, a, b)),
{
    match c {
        SortCriteria::Name => {
            lemma_nat_cmp_reverse(lower_of(a.name@), lower_of(b.name@));
        },
        SortCriteria::Size => {},
        SortCriteria::Modified => {},
        SortCriteria::Type => {
            lemma_lex_cmp_reverse(
                lower_of(ext_or_empty(a.path@)),
                lower_of(ext_or_empty(b.path@)),
            );
        },
    }
}

/// Natural order reverses cleanly.
proof fn lemma_nat_cmp_reverse(a: Seq<char>, b: Seq<char>)
    ensures
        nat_cmp(b, a) == ord_reverse(nat_cmp(a, b)),
    decreases a.len() + b.len(),
{
    if a.len() == 0 || b.len() == 0 {
    } else if is_ascii_digit(a.first()) && is_ascii_digit(b.first()) {
        if run_value(a) == run_value(b) {
            lemma_run_len_le(a);
            lemma_run_len_le(b);
            lemma_nat_cmp_reverse(a.skip(run_len(a) as int), b.skip(run_len(b) as int));
        }
    } else if a.first() == b.first() {
        lemma_nat_cmp_reverse(a.drop_first(), b.drop_first());
    }
}

/// Lexicographic order reverses cleanly.
pub proof fn lemma_lex_cmp_reverse(a: Seq<char>, b: Seq<char>)
    ensures
        lex_cmp(b, a) == ord_reverse(lex_cmp(a, b)),
    decreases a.len() + b.len(),
{
    if a.len() == 0 || b.len() == 0 {
    } else if a.first() == b.first() {
        lemma_lex_cmp_reverse(a.drop_first(), b.drop_first());
    }
}

/// Moving element `i` down to position `p` keeps the prefix up to `i + 1`
/// adjacently sorted, given the scan facts established by the sorting loop.
proof fn lemma_insert_step_sorted(cfg: SortConfig, s: Seq<FileEntry>, p: int, i: int)
    requires
        0 <= p < i < s.len(),
        sorted_adjacent_upto(cfg, s, i),
        forall|q: int| 0 <= q < p ==> #[trigger] entry_le(cfg, s[q], s[i]),
        entry_le(cfg, s[i], s[p]),
    ensures
        sorted_adjacent_upto(cfg, s.remove(i).insert(p, s[i]), i + 1),
{
    let t = s.remove(i).insert(p, s[i]);
    assert forall|q: int| 0 <= q < i implies #[trigger] entry_le(cfg, t[q], t[q + 1]) by {
        assert(forall|k: int| 0 <= k < p ==> t[k] == s[k]);
        assert(t[p] == s[i]);
        assert(forall|k: int| p < k <= i ==> t[k] == s[k - 1]);
        if q + 1 < p {
            assert(entry_le(cfg, s[q], s[q + 1]));
        } else if q + 1 == p {
            assert(entry_le(cfg, s[q], s[i]));
        } else if q == p {
            assert(entry_le(cfg, s[i], s[p]));
        } else {
            let qq = q - 1;
            assert(entry_le(cfg, s[qq], s[qq + 1]));
        }
    }
}

/// Moving one element within a sequence preserves its multiset.
proof fn lemma_remove_insert_multiset(s: Seq<FileEntry>, p: int, i: int)
    requires
        0 <= p < i < s.len(),
    ensures
        s.remove(i).insert(p, s[i]).to_multiset() == s.to_multiset(),
{
    broadcast use vstd::seq_lib::group_seq_lib_default;

    let w = s.remove(i);
    assert(w.to_multiset() == s.to_multiset().remove(s[i])) by {
        s.to_multiset_ensures();
    }
    lemma_insert_to_multiset(w, p, s[i]);
    assert(s.to_multiset().contains(s[i])) by {
        s.to_multiset_ensures();
    }
    assert(s.to_multiset().remove(s[i]).insert(s[i]) =~= s.to_multiset());
}

/// Inserting an element adds exactly it to the sequence's multiset.
proof fn lemma_insert_to_multiset(s: Seq<FileEntry>, p: int, x: FileEntry)
    requires
        0 <= p <= s.len(),
    ensures
        s.insert(p, x).to_multiset() == s.to_multiset().insert(x),
{
    let l = s.subrange(0, p);
    let r = s.subrange(p, s.len() as int);
    assert(s.insert(p, x) =~= l + (seq![x] + r));
    assert(s =~= l + r);
    vstd::seq_lib::lemma_multiset_commutative(l, seq![x] + r);
    vstd::seq_lib::lemma_multiset_commutative(seq![x], r);
    vstd::seq_lib::lemma_multiset_commutative(l, r);
    assert(seq![x].to_multiset() =~= Multiset::<FileEntry>::empty().insert(x)) by {
        assert(seq![x] =~= Seq::<FileEntry>::empty().push(x));
        Seq::<FileEntry>::empty().to_multiset_ensures();
    }
    assert(s.insert(p, x).to_multiset() =~= s.to_multiset().insert(x));
}

/// Every pair of `s`, in order, is ordered under `cfg`.
pub open spec fn sorted_pairwise(cfg: SortConfig, s: Seq<FileEntry>) -> bool {
    forall|i: int, j: int| 0 <= i < j < s.len() ==> #[trigger] entry_le(cfg, s[i], s[j])
}

/// Lexicographic order is transitive.
pub proof fn lemma_lex_cmp_trans(a: Seq<char>, b: Seq<char>, c: Seq<char>)
    requires
        lex_cmp(a, b) != Ordering::Greater,
        lex_cmp(b, c) != Ordering::Greater,
    ensures
        lex_cmp(a, c) != Ordering::Greater,
    decreases a.len() + b.len() + c.len(),
{
    if a.len() == 0 {
    } else {
        assert(b.len() > 0);
        assert(c.len() > 0);
        if a.first() == b.first() && b.first() == c.first() {
            lemma_lex_cmp_trans(a.drop_first(), b.drop_first(), c.drop_first());
        }
    }
}

/// Natural order is transitive.
proof fn lemma_nat_cmp_trans(a: Seq<char>, b: Seq<char>, c: Seq<char>)
    requires
        nat_cmp(a, b) != Ordering::Greater,
        nat_cmp(b, c) != Ordering::Greater,
    ensures
        nat_cmp(a, c) != Ordering::Greater,
    decreases a.len() + b.len() + c.len(),
{
    if a.len() == 0 {
        return;
    }
    assert(b.len() > 0);
    assert(c.len() > 0);
    let a0 = a.first();
    let b0 = b.first();
    let c0 = c.first();
    let da = is_ascii_digit(a0);
    let db = is_ascii_digit(b0);
    let dc = is_ascii_digit(c0);
    lemma_run_len_le(a);
    lemma_run_len_le(b);
    lemma_run_len_le(c);
    if da && db && dc {
        // all three lead with digit runs: values decide, ties recurse on the
        // tails after the runs
        if run_value(a) == run_value(b) && run_value(b) == run_value(c) {
            assert(run_len(a) >= 1 && run_len(b) >= 1 && run_len(c) >= 1);
            lemma_nat_cmp_trans(
                a.skip(run_len(a) as int),
                b.skip(run_len(b) as int),
                c.skip(run_len(c) as int),
            );
        }
    } else if da && db {
        // a and b compare by run value; c leads with a non-digit, so b
        // against c compares first characters, and c0 must exceed every
        // digit
        assert(!dc);
        assert(b0 != c0);
        assert(b0 < c0);
        assert(c0 > '9') by {
            if c0 <= '9' {
                assert('0' <= c0 && c0 <= '9');
            }
        }
        assert(a0 < c0);
    } else if da {
        // a leads with a digit, b does not: a0 < b0 by character; whatever
        // relates b and c keeps c0 at or above b0
        assert(!db);
        assert(a0 != b0);
        assert(a0 < b0);
        if b0 == c0 {
            assert(a0 < c0);
        } else {
            assert(b0 < c0);
            assert(a0 < c0);
        }
    } else if db {
        // b leads with a digit, a does not: a0 < b0, and b0 is below any
        // non-digit above the digits, so a0 is below '0'
        assert(a0 != b0);
        assert(a0 < b0);
        assert(a0 < '0') by {
            if a0 >= '0' {
                assert(a0 <= '9' ==> is_ascii_digit(a0));
                assert(a0 > '9' ==> a0 > b0);
            }
        }
        if dc {
            assert(c0 >= '0');
            assert(a0 < c0);
        } else {
            assert(b0 != c0);
            assert(b0 < c0);
            assert(a0 < c0);
        }
    } else {
        // neither a nor b leads with a digit: characters decide or recurse
        if a0 == b0 {
            if dc {
                assert(b0 != c0);
                assert(b0 < c0);
                assert(a0 < c0);
            } else if b0 == c0 {
                lemma_nat_cmp_trans(a.drop_first(), b.drop_first(), c.drop_first());
            } else {
                assert(b0 < c0);
                assert(a0 < c0);
            }
        } else {
            assert(a0 < b0);
            if dc {
                assert(b0 != c0);
                assert(b0 < c0);
            } else if b0 == c0 {
                assert(a0 < c0);
            } else {
                assert(b0 < c0);
            }
            assert(a0 < c0);
        }
    }
}

/// The criterion order is transitive, in both reading directions.
proof fn lemma_criterion_trans(cr: SortCriteria, a: FileEntry, b: FileEntry, c: FileEntry)
    ensures
        criterion_cmp(cr, a, b) != Ordering::Greater && criterion_cmp(cr, b, c)
            != Ordering::Greater ==> criterion_cmp(cr, a, c) != Ordering::Greater,
        criterion_cmp(cr, a, b) != Ordering::Less && criterion_cmp(cr, b, c) != Ordering::Less
            ==> criterion_cmp(cr, a, c) != Ordering::Less,
{
    lemma_criterion_cmp_reverse(cr, a, b);
    lemma_criterion_cmp_reverse(cr, b, c);
    lemma_criterion_cmp_reverse(cr, a, c);
    match cr {
        SortCriteria::Name => {
            if criterion_cmp(cr, a, b) != Ordering::Greater && criterion_cmp(cr, b, c)
                != Ordering::Greater {
                lemma_nat_cmp_trans(lower_of(a.name@), lower_of(b.name@), lower_of(c.name@));
            }
            if criterion_cmp(cr, a, b) != Ordering::Less && criterion_cmp(cr, b, c)
                != Ordering::Less {
                lemma_nat_cmp_trans(lower_of(c.name@), lower_of(b.name@), lower_of(a.name@));
            }
        },
        SortCriteria::Size => {},
        SortCriteria::Modified => {},
        SortCriteria::Type => {
            if criterion_cmp(cr, a, b) != Ordering::Greater && criterion_cmp(cr, b, c)
                != Ordering::Greater {
                lemma_lex_cmp_trans(
                    lower_of(ext_or_empty(a.path@)),
                    lower_of(ext_or_empty(b.path@)),
                    lower_of(ext_or_empty(c.path@)),
                );
            }
            if criterion_cmp(cr, a, b) != Ordering::Less && criterion_cmp(cr, b, c)
                != Ordering::Less {
                lemma_lex_cmp_trans(
                    lower_of(ext_or_empty(c.path@)),
                    lower_of(ext_or_empty(b.path@)),
                    lower_of(ext_or_empty(a.path@)),
                );
            }
        },
    }
}

/// The full entry order is transitive.
pub proof fn lemma_entry_le_trans(cfg: SortConfig, a: FileEntry, b: FileEntry, c: FileEntry)
    requires
        entry_le(cfg, a, b),
        entry_le(cfg, b, c),
    ensures
        entry_le(cfg, a, c),
{
    lemma_criterion_trans(cfg.criteria, a, b, c);
}

/// Adjacent order extends to every pair, by transitivity.
pub proof fn lemma_adjacent_implies_pairwise(cfg: SortConfig, s: Seq<FileEntry>)
    requires
        sorted_adjacent(cfg, s),
    ensures
        sorted_pairwise(cfg, s),
{
    assert forall|i: int, j: int| 0 <= i < j < s.len() implies #[trigger] entry_le(
        cfg,
        s[i],
        s[j],
    ) by {
        lemma_le_span(cfg, s, i, j);
    }
}

/// Any earlier entry may stand before any later one, by walking the
/// neighbouring pairs.
proof fn lemma_le_span(cfg: SortConfig, s: Seq<FileEntry>, i: int, j: int)
    requires
        sorted_adjacent(cfg, s),
        0 <= i < j < s.len(),
    ensures
        entry_le(cfg, s[i], s[j]),
    decreases j - i,
{
    if j == i + 1 {
        assert(entry_le(cfg, s[i], s[i + 1]));
    } else {
        lemma_le_span(cfg, s, i, j - 1);
        let q = j - 1;
        assert(entry_le(cfg, s[q], s[q + 1]));
        lemma_entry_le_trans(cfg, s[i], s[j - 1], s[j]);
    }
}

/// Folders-first law: in any output whose neighbouring pairs are ordered
/// under a folders-first configuration, every directory entry precedes every
/// non-directory entry — whatever the sort direction, which never touches
/// the partition.
pub proof fn lemma_folders_first(cfg: SortConfig, s: Seq<FileEntry>)
    requires
        cfg.folders_first,
        sorted_adjacent(cfg, s),
    ensures
        forall|i: int, j: int|
            0 <= i < j < s.len() && #[trigger] s[j].file_type == FileType::Directory
                ==> #[trigger] s[i].file_type == FileType::Directory,
{
    assert forall|i: int, j: int|
        0 <= i < j < s.len() && #[trigger] s[j].file_type == FileType::Directory implies
        #[trigger] s[i].file_type == FileType::Directory by {
        if s[i].file_type != FileType::Directory {
            lemma_nondir_propagates(cfg, s, i, j);
        }
    }
}

/// Once a non-directory entry appears, everything after it is non-directory.
proof fn lemma_nondir_propagates(cfg: SortConfig, s: Seq<FileEntry>, i: int, j: int)
    requires
        cfg.folders_first,
        sorted_adjacent(cfg, s),
        0 <= i <= j < s.len(),
        s[i].file_type != FileType::Directory,
    ensures
        s[j].file_type != FileType::Directory,
    decreases j - i,
{
    if j > i {
        lemma_nondir_propagates(cfg, s, i, j - 1);
        let q = j - 1;
        assert(entry_le(cfg, s[q], s[q + 1]));
        if s[j].file_type == FileType::Directory {
            assert(entry_cmp(cfg, s[q], s[j]) == Ordering::Greater);
        }
    }
}

/// Size filter exemption, first half: a min/max size bound excludes a file
/// entry whose size is out of range.
pub proof fn lemma_size_filter_excludes_files(fc: FilterCriteria, e: FileEntry)
    requires
        e.file_type == FileType::File,
    ensures
        fc.min_size matches Option::Some(m) && e.size < m ==> !passes_filter_spec(fc, e),
        fc.max_size matches Option::Some(m) && e.size > m ==> !passes_filter_spec(fc, e),
{
}

/// Size filter exemption, second half: for an entry that is not a file —
/// directories included — the size bounds play no part in the filter's
/// verdict.
pub proof fn lemma_size_filter_exempts_directories(
    fc1: FilterCriteria,
    fc2: FilterCriteria,
    e: FileEntry,
)
    requires
        e.file_type != FileType::File,
        fc1.show_hidden == fc2.show_hidden,
        fc1.name_filter == fc2.name_filter,
        fc1.extension_filter == fc2.extension_filter,
    ensures
        passes_filter_spec(fc1, e) == passes_filter_spec(fc2, e),
{
}

} // verus!
