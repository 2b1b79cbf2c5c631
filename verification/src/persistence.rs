//! Keyed persistence with rotating backups. The managed directory is
//! modelled as a list of named files with modification times and contents;
//! the caller that owns the real directory performs the reads and writes and
//! keeps this model in step. Saving a key first copies its previous content
//! to a stem-based backup (`<stem>.backup.<stamp>.json`), then overwrites
//! the key, then prunes backups beyond the configured maximum, oldest by
//! modification time first.

use vstd::prelude::*;
use vstd::multiset::Multiset;
use crate::error::AppError;
use crate::pathtext::{file_stem_spec, file_stem_of, join_path};
use crate::strtext::{starts_with_spec, str_eq, str_starts_with, str_ends_with, ends_with_spec};
use crate::trusted::{compact_stamp_of, format_compact_stamp, platform_config_dir};

verus! {

/// Where and how state is persisted.
#[derive(Debug)]
pub struct StatePersistenceConfig {
    /// The managed directory.
    pub state_dir: String,
    /// Informational auto-save interval in seconds; no scheduler acts on it
    /// here.
    pub auto_save_interval: u64,
    /// Informational auto-save flag.
    pub auto_save_enabled: bool,
    /// How many backups of one key are retained.
    pub max_backups: u32,
}

impl Clone for StatePersistenceConfig {
    /// A clone is equal to the original, field for field.
    fn clone(&self) -> (r: StatePersistenceConfig)
        ensures
            r == *self,
    {
        StatePersistenceConfig {
            state_dir: self.state_dir.clone(),
            auto_save_interval: self.auto_save_interval,
            auto_save_enabled: self.auto_save_enabled,
            max_backups: self.max_backups,
        }
    }
}

impl Default for StatePersistenceConfig {
    /// The platform configuration directory plus `rust-explorer/state` (or
    /// `./state` when the platform defines none), 30-second auto-save,
    /// enabled, five backups.
    fn default() -> (r: StatePersistenceConfig)
        ensures
            r.auto_save_interval == 30,
            r.auto_save_enabled,
            r.max_backups == 5,
    {
        StatePersistenceConfig {
            state_dir: default_state_dir(),
            auto_save_interval: 30,
            auto_save_enabled: true,
            max_backups: 5,
        }
    }
}

/// The default managed directory.
fn default_state_dir() -> String {
    let base = platform_config_dir();
    match base {
        Some(dir) => join_path(&join_path(&dir, &"rust-explorer".to_owned()), &"state".to_owned()),
        None => join_path(&".".to_owned(), &"state".to_owned()),
    }
}

/// One file of the managed directory: its name, its modification time in
/// seconds since the Unix epoch, and its content.
#[derive(Debug)]
pub struct StoredFile {
    pub name: String,
    pub mtime: i64,
    pub content: String,
}

impl Clone for StoredFile {
    /// A clone is equal to the original, field for field.
    fn clone(&self) -> (r: StoredFile)
        ensures
            r == *self,
    {
        StoredFile { name: self.name.clone(), mtime: self.mtime, content: self.content.clone() }
    }
}

/// The index of the first file named `name`, or -1 when there is none.
pub open spec fn find_file(files: Seq<StoredFile>, name: Seq<char>) -> int
    decreases files.len(),
{
    if files.len() == 0 {
        -1
    } else if files.first().name@ == name {
        0
    } else {
        let r = find_file(files.drop_first(), name);
        if r < 0 {
            -1
        } else {
            r + 1
        }
    }
}

/// The file named `name`, when present.
pub open spec fn lookup(files: Seq<StoredFile>, name: Seq<char>) -> Option<StoredFile> {
    if find_file(files, name) >= 0 {
        Option::Some(files[find_file(files, name)])
    } else {
        Option::None
    }
}

/// The file list after writing `name`: an existing record is replaced in
/// place, a new one is appended.
pub open spec fn spec_upsert(files: Seq<StoredFile>, f: StoredFile) -> Seq<StoredFile> {
    if find_file(files, f.name@) >= 0 {
        files.update(find_file(files, f.name@), f)
    } else {
        files.push(f)
    }
}

/// The model of the managed directory: a list of files with pairwise
/// distinct names.
#[derive(Debug)]
pub struct DirectoryModel {
    files: Vec<StoredFile>,
}

impl DirectoryModel {
    /// The files, in insertion order.
    pub closed spec fn files_spec(self) -> Seq<StoredFile> {
        self.files@
    }

    /// No two files share a name.
    pub open spec fn wf(self) -> bool {
        forall|i: int, j: int|
            #![trigger self.files_spec()[i].name, self.files_spec()[j].name]
            0 <= i < j < self.files_spec().len() ==> self.files_spec()[i].name@
                != self.files_spec()[j].name@
    }

    /// An empty directory.
    pub fn new() -> (r: DirectoryModel)
        ensures
            r.files_spec().len() == 0,
            r.wf(),
    {
        DirectoryModel { files: Vec::new() }
    }

    /// How many files the directory holds.
    pub fn len(&self) -> (r: usize)
        ensures
            r == self.files_spec().len(),
    {
        self.files.len()
    }

    /// The file at one position, as a copy.
    pub fn file_at(&self, i: usize) -> (r: StoredFile)
        requires
            i < self.files_spec().len(),
        ensures
            r == self.files_spec()[i as int],
    {
        self.files[i].clone()
    }

    /// The index of the file named `name`, when present.
    pub fn find(&self, name: &str) -> (r: Option<usize>)
        ensures
            match r {
                Option::Some(i) => i < self.files_spec().len() && find_file(self.files_spec(), name@)
                    == i as int,
                Option::None => find_file(self.files_spec(), name@) == -1,
            },
    {
        let n = self.files.len();
        let mut i: usize = 0;
        while i < n
            invariant
                i <= n,
                n == self.files_spec().len(),
                forall|j: int| 0 <= j < i ==> self.files_spec()[j].name@ != name@,
            decreases n - i,
        {
            if str_eq(self.files[i].name.as_str(), name) {
                proof {
                    lemma_find_file_at(self.files_spec(), name@, i as int);
                }
                return Some(i);
            }
            i = i + 1;
        }
        proof {
            lemma_find_file_missing(self.files_spec(), name@);
        }
        None
    }

    /// Whether a file named `name` is present.
    pub fn contains_file(&self, name: &str) -> (r: bool)
        ensures
            r == (find_file(self.files_spec(), name@) >= 0),
    {
        self.find(name).is_some()
    }

    /// The content of the file named `name`, when present.
    pub fn read_content(&self, name: &str) -> (r: Option<String>)
        ensures
            match r {
                Option::Some(c) => lookup(self.files_spec(), name@) matches Option::Some(f)
                    && f.content == c,
                Option::None => lookup(self.files_spec(), name@) is None,
            },
    {
        match self.find(name) {
            Some(i) => Some(self.files[i].content.clone()),
            None => None,
        }
    }

    /// Write a file: replace the record with that name or append a new one.
    pub fn upsert(&mut self, name: String, mtime: i64, content: String)
        requires
            old(self).wf(),
        ensures
            final(self).wf(),
            final(self).files_spec() == spec_upsert(
                old(self).files_spec(),
                StoredFile { name, mtime, content },
            ),
    {
        let ghost record = StoredFile { name: name, mtime: mtime, content: content };
        let found = self.find(name.as_str());
        match found {
            Some(i) => {
                let _old = self.files.remove(i);
                self.files.insert(i, StoredFile { name, mtime, content });
                proof {
                    assert(self.files@ =~= spec_upsert(old(self).files_spec(), record));
                    lemma_upsert_wf(old(self).files_spec(), record);
                }
            },
            None => {
                self.files.push(StoredFile { name, mtime, content });
                proof {
                    lemma_find_file_missing_names(old(self).files_spec(), record.name@);
                    lemma_upsert_wf(old(self).files_spec(), record);
                }
            },
        }
    }

    /// Remove the file named `name`; reports whether one was present.
    pub fn remove_file(&mut self, name: &str) -> (r: bool)
        requires
            old(self).wf(),
        ensures
            final(self).wf(),
            r == (find_file(old(self).files_spec(), name@) >= 0),
            r ==> final(self).files_spec() == old(self).files_spec().remove(
                find_file(old(self).files_spec(), name@),
            ),
            !r ==> final(self).files_spec() == old(self).files_spec(),
    {
        let found = self.find(name);
        match found {
            Some(i) => {
                let _removed = self.files.remove(i);
                proof {
                    lemma_remove_wf(old(self).files_spec(), i as int);
                }
                true
            },
            None => false,
        }
    }

    /// The names of all files, in order, as copies.
    pub fn names(&self) -> (r: Vec<String>)
        ensures
            r@.len() == self.files_spec().len(),
            forall|i: int| 0 <= i < r@.len() ==> r@[i]@ == self.files_spec()[i].name@,
    {
        let mut out: Vec<String> = Vec::new();
        let n = self.files.len();
        let mut i: usize = 0;
        while i < n
            invariant
                i <= n,
                n == self.files_spec().len(),
                out@.len() == i,
                forall|j: int| 0 <= j < i ==> out@[j]@ == self.files_spec()[j].name@,
            decreases n - i,
        {
            out.push(self.files[i].name.clone());
            i = i + 1;
        }
        out
    }
}

/// The backup prefix of a key: the key's stem followed by `.backup.`.
/// Meaningful only when the key has a stem.
pub open spec fn backup_prefix_spec(filename: Seq<char>) -> Seq<char> {
    match file_stem_spec(filename) {
        Option::Some(st) => st + ".backup."@,
        Option::None => Seq::empty(),
    }
}

/// The backup name for a key under a timestamp:
/// `<stem>.backup.<stamp>.json`.
pub open spec fn backup_name_spec(filename: Seq<char>, stamp: Seq<char>) -> Seq<char> {
    backup_prefix_spec(filename) + stamp + ".json"@
}

/// Whether a stored name is a backup of `filename`: it carries the key's
/// backup prefix and is not the key itself.
pub open spec fn is_backup_name(name: Seq<char>, filename: Seq<char>) -> bool {
    starts_with_spec(name, backup_prefix_spec(filename)) && name != filename
}

/// The backup predicate of a key, over stored files.
pub open spec fn backup_pred(filename: Seq<char>) -> spec_fn(StoredFile) -> bool {
    |f: StoredFile| is_backup_name(f.name@, filename)
}

/// How many backups of `filename` a file list holds.
pub open spec fn count_backups(files: Seq<StoredFile>, filename: Seq<char>) -> int {
    files.filter(backup_pred(filename)).len() as int
}

/// Mtimes never increase along the list.
pub open spec fn mtime_sorted_desc(s: Seq<StoredFile>) -> bool {
    forall|i: int, j: int|
        #![trigger s[i].mtime, s[j].mtime]
        0 <= i < j < s.len() ==> s[i].mtime >= s[j].mtime
}

/// When `k` is the first index whose file carries `name`, `find_file`
/// returns it.
proof fn lemma_find_file_at(files: Seq<StoredFile>, name: Seq<char>, k: int)
    requires
        0 <= k < files.len(),
        files[k].name@ == name,
        forall|j: int| 0 <= j < k ==> files[j].name@ != name,
    ensures
        find_file(files, name) == k,
    decreases files.len(),
{
    if k > 0 {
        lemma_find_file_at(files.drop_first(), name, k - 1);
    }
}

/// When no file carries `name`, `find_file` returns -1.
proof fn lemma_find_file_missing(files: Seq<StoredFile>, name: Seq<char>)
    requires
        forall|j: int| 0 <= j < files.len() ==> files[j].name@ != name,
    ensures
        find_file(files, name) == -1,
    decreases files.len(),
{
    if files.len() > 0 {
        lemma_find_file_missing(files.drop_first(), name);
    }
}

/// A missing name is missing at every index.
proof fn lemma_find_file_missing_names(files: Seq<StoredFile>, name: Seq<char>)
    requires
        find_file(files, name) == -1,
    ensures
        forall|j: int| 0 <= j < files.len() ==> #[trigger] files[j].name@ != name,
    decreases files.len(),
{
    if files.len() > 0 {
        assert(files.first().name@ != name);
        lemma_find_file_missing_names(files.drop_first(), name);
        assert forall|j: int| 0 <= j < files.len() implies #[trigger] files[j].name@ != name by {
            if j > 0 {
                assert(files.drop_first()[j - 1].name@ != name);
            }
        }
    }
}

/// A successful `find_file` names the first file with that name.
pub proof fn lemma_find_file_props(files: Seq<StoredFile>, name: Seq<char>)
    requires
        find_file(files, name) >= 0,
    ensures
        0 <= find_file(files, name) < files.len(),
        files[find_file(files, name)].name@ == name,
        forall|j: int| 0 <= j < find_file(files, name) ==> #[trigger] files[j].name@ != name,
    decreases files.len(),
{
    if files.len() > 0 && files.first().name@ != name {
        lemma_find_file_props(files.drop_first(), name);
        assert forall|j: int| 0 <= j < find_file(files, name) implies #[trigger] files[j].name@
            != name by {
            if j > 0 {
                assert(files.drop_first()[j - 1].name@ != name);
            }
        }
    }
}

/// Writing a record keeps names pairwise distinct.
proof fn lemma_upsert_wf(files: Seq<StoredFile>, f: StoredFile)
    requires
        forall|i: int, j: int|
            #![trigger files[i].name, files[j].name]
            0 <= i < j < files.len() ==> files[i].name@ != files[j].name@,
    ensures
        forall|i: int, j: int|
            #![trigger spec_upsert(files, f)[i].name, spec_upsert(files, f)[j].name]
            0 <= i < j < spec_upsert(files, f).len() ==> spec_upsert(files, f)[i].name@
                != spec_upsert(files, f)[j].name@,
{
    let t = spec_upsert(files, f);
    if find_file(files, f.name@) >= 0 {
        lemma_find_file_props(files, f.name@);
        let k = find_file(files, f.name@);
        assert forall|i: int, j: int|
            0 <= i < j < t.len() implies #[trigger] t[i].name@ != #[trigger] t[j].name@ by {
            if i != k && j != k {
                assert(t[i] == files[i] && t[j] == files[j]);
            } else if i == k {
                assert(t[j] == files[j]);
                assert(files[j].name@ != f.name@) by {
                    if files[j].name@ == f.name@ {
                        assert(files[k].name@ == files[j].name@);
                    }
                }
            } else {
                assert(t[i] == files[i]);
                assert(files[i].name@ != f.name@) by {
                    if files[i].name@ == f.name@ && i < k {
                        assert(files[i].name@ != f.name@);
                    }
                    if files[i].name@ == f.name@ && i > k {
                        assert(files[k].name@ == files[i].name@);
                    }
                }
            }
        }
    } else {
        lemma_find_file_missing_names(files, f.name@);
    }
}

/// The backup prefix of a key: `<stem>.backup.`. Fails with `Internal` when
/// the key has no stem (an empty or degenerate name).
pub fn backup_prefix(filename: &String) -> (r: Result<String, AppError>)
    ensures
        r is Ok <==> file_stem_spec(filename@) is Some,
        match r {
            Result::Ok(p) => p@ == backup_prefix_spec(filename@),
            Result::Err(e) => e is Internal,
        },
{
    match file_stem_of(filename) {
        Some(stem) => {
            let p = stem.concat(".backup.");
            Ok(p)
        },
        None => Err(AppError::Internal("invalid state file name".to_owned())),
    }
}

/// The backup name for a key under a timestamp:
/// `<stem>.backup.<stamp>.json`. Fails with `Internal` when the key has no
/// stem.
pub fn backup_file_name(filename: &String, stamp: &String) -> (r: Result<String, AppError>)
    ensures
        r is Ok <==> file_stem_spec(filename@) is Some,
        match r {
            Result::Ok(n) => n@ == backup_name_spec(filename@, stamp@),
            Result::Err(e) => e is Internal,
        },
{
    match backup_prefix(filename) {
        Ok(prefix) => {
            let n = prefix.concat(stamp.as_str()).concat(".json");
            proof {
                assert(n@ =~= backup_name_spec(filename@, stamp@));
            }
            Ok(n)
        },
        Err(e) => Err(e),
    }
}

/// The backups of `filename` in `dir`, as copies, in directory order.
fn collect_backups(dir: &DirectoryModel, filename: &String, prefix: &String) -> (r: Vec<
    StoredFile,
>)
    requires
        prefix@ == backup_prefix_spec(filename@),
    ensures
        r@ == dir.files_spec().filter(backup_pred(filename@)),
{
    let ghost pred = backup_pred(filename@);
    let mut out: Vec<StoredFile> = Vec::new();
    let n = dir.len();
    let mut k: usize = 0;
    proof {
        reveal(Seq::filter);
        assert(dir.files_spec().subrange(0, 0) =~= Seq::<StoredFile>::empty());
    }
    while k < n
        invariant
            k <= n,
            n == dir.files_spec().len(),
            prefix@ == backup_prefix_spec(filename@),
            out@ == dir.files_spec().subrange(0, k as int).filter(pred),
            pred == backup_pred(filename@),
        decreases n - k,
    {
        let f = dir.file_at(k);
        let keep = str_starts_with(f.name.as_str(), prefix.as_str()) && !str_eq(
            f.name.as_str(),
            filename.as_str(),
        );
        proof {
            reveal(Seq::filter);
            assert(dir.files_spec().subrange(0, k + 1).drop_last() =~= dir.files_spec().subrange(
                0,
                k as int,
            ));
            assert(dir.files_spec().subrange(0, k + 1).last() == dir.files_spec()[k as int]);
        }
        if keep {
            out.push(f);
        }
        k = k + 1;
    }
    proof {
        assert(dir.files_spec().subrange(0, n as int) =~= dir.files_spec());
    }
    out
}

/// Sort stored files by modification time, newest first.
fn sort_by_mtime_desc(v: &mut Vec<StoredFile>)
    ensures
        final(v)@.to_multiset() == old(v)@.to_multiset(),
        final(v)@.len() == old(v)@.len(),
        mtime_sorted_desc(final(v)@),
{
    let n = v.len();
    if n == 0 {
        return;
    }
    let mut i: usize = 1;
    while i < n
        invariant
            1 <= i <= n,
            n == v@.len(),
            v@.to_multiset() == old(v)@.to_multiset(),
            mtime_sorted_desc(v@.subrange(0, i as int)),
        decreases n - i,
    {
        let ghost before = v@;
        let mut p: usize = 0;
        while p < i && v[p].mtime >= v[i].mtime
            invariant
                p <= i < n,
                n == v@.len(),
                forall|q: int|
                    #![trigger v@[q].mtime]
                    0 <= q < p ==> v@[q].mtime >= v@[i as int].mtime,
            decreases i - p,
        {
            p = p + 1;
        }
        if p < i {
            let x = v.remove(i);
            v.insert(p, x);
            proof {
                lemma_mtime_insert_step(before, p as int, i as int);
                lemma_move_multiset(before, p as int, i as int);
            }
        }
        i = i + 1;
    }
    proof {
        assert(v@.subrange(0, n as int) =~= v@);
    }
}

/// Moving element `i` down to position `p` keeps the prefix up to `i + 1`
/// sorted by descending mtime, given the scan facts of the sorting loop.
proof fn lemma_mtime_insert_step(s: Seq<StoredFile>, p: int, i: int)
    requires
        0 <= p < i < s.len(),
        mtime_sorted_desc(s.subrange(0, i)),
        forall|q: int| #![trigger s[q].mtime] 0 <= q < p ==> s[q].mtime >= s[i].mtime,
        s[p].mtime < s[i].mtime,
    ensures
        mtime_sorted_desc(s.remove(i).insert(p, s[i]).subrange(0, i + 1)),
{
    let t = s.remove(i).insert(p, s[i]);
    assert(forall|k: int| 0 <= k < p ==> t[k] == s[k]);
    assert(t[p] == s[i]);
    assert(forall|k: int| p < k <= i ==> t[k] == s[k - 1]);
    let u = t.subrange(0, i + 1);
    assert forall|a: int, b: int| 0 <= a < b < u.len() implies #[trigger] u[a].mtime
        >= #[trigger] u[b].mtime by {
        assert(u[a] == t[a] && u[b] == t[b]);
        if b < p {
            assert(s.subrange(0, i)[a] == s[a] && s.subrange(0, i)[b] == s[b]);
        } else if b == p {
            assert(t[a] == s[a]);
        } else if a < p {
            assert(t[b] == s[b - 1]);
            if a < b - 1 {
                assert(s.subrange(0, i)[a].mtime >= s.subrange(0, i)[b - 1].mtime);
            }
        } else if a == p {
            assert(t[b] == s[b - 1]);
            if p < b - 1 {
                assert(s.subrange(0, i)[p].mtime >= s.subrange(0, i)[b - 1].mtime);
            }
            assert(s[i].mtime > s[p].mtime);
        } else {
            assert(t[a] == s[a - 1] && t[b] == s[b - 1]);
            assert(s.subrange(0, i)[a - 1].mtime >= s.subrange(0, i)[b - 1].mtime);
        }
    }
}

/// Moving one element within a sequence preserves its multiset.
proof fn lemma_move_multiset(s: Seq<StoredFile>, p: int, i: int)
    requires
        0 <= p < i < s.len(),
    ensures
        s.remove(i).insert(p, s[i]).to_multiset() == s.to_multiset(),
{
    let w = s.remove(i);
    assert(w.to_multiset() == s.to_multiset().remove(s[i])) by {
        s.to_multiset_ensures();
    }
    lemma_stored_insert_to_multiset(w, p, s[i]);
    assert(s.to_multiset().contains(s[i])) by {
        s.to_multiset_ensures();
    }
    assert(s.to_multiset().remove(s[i]).insert(s[i]) =~= s.to_multiset());
}

/// Inserting a record adds exactly it to the sequence's multiset.
proof fn lemma_stored_insert_to_multiset(s: Seq<StoredFile>, p: int, x: StoredFile)
    requires
        0 <= p <= s.len(),
    ensures
        s.insert(p, x).to_multiset() == s.to_multiset().insert(x),
{
    let l = s.subrange(0, p);
    let r = s.subrange(p, s.len() as int);
    assert(s.insert(p, x) =~= l + (seq![x] + r));
    assert(s =~= l + r);
    vstd::seq_lib::lemma_multiset_commutative(l, seq![x] + r);
    vstd::seq_lib::lemma_multiset_commutative(seq![x], r);
    vstd::seq_lib::lemma_multiset_commutative(l, r);
    assert(seq![x].to_multiset() =~= Multiset::<StoredFile>::empty().insert(x)) by {
        assert(seq![x] =~= Seq::<StoredFile>::empty().push(x));
        Seq::<StoredFile>::empty().to_multiset_ensures();
    }
    assert(s.insert(p, x).to_multiset() =~= s.to_multiset().insert(x));
}

/// Removing a record keeps names pairwise distinct.
proof fn lemma_remove_wf(files: Seq<StoredFile>, k: int)
    requires
        0 <= k < files.len(),
        forall|i: int, j: int|
            #![trigger files[i].name, files[j].name]
            0 <= i < j < files.len() ==> files[i].name@ != files[j].name@,
    ensures
        forall|i: int, j: int|
            #![trigger files.remove(k)[i].name, files.remove(k)[j].name]
            0 <= i < j < files.remove(k).len() ==> files.remove(k)[i].name@ != files.remove(
                k,
            )[j].name@,
{
    let t = files.remove(k);
    assert forall|i: int, j: int|
        0 <= i < j < t.len() implies #[trigger] t[i].name@ != #[trigger] t[j].name@ by {
        let oi = if i < k {
            i
        } else {
            i + 1
        };
        let oj = if j < k {
            j
        } else {
            j + 1
        };
        assert(t[i] == files[oi] && t[j] == files[oj]);
    }
}

/// The smaller of two integers.
pub open spec fn int_min(a: int, b: int) -> int {
    if a < b {
        a
    } else {
        b
    }
}

/// A key's stored files end with `.json`.
pub open spec fn json_pred() -> spec_fn(StoredFile) -> bool {
    |f: StoredFile| ends_with_spec(f.name@, ".json"@)
}

/// What a successful save leaves behind. `old_files` is the directory before,
/// `new_files` after; the key's record now holds `content_chars` with
/// modification time `now`; every record that is neither the key nor one of
/// its backups is untouched; and the backups of the key are the `max` newest
/// of what stood before plus the fresh copy of the key's previous content
/// (`staged_backups`), pruned oldest-first.
pub open spec fn save_post(
    old_files: Seq<StoredFile>,
    new_files: Seq<StoredFile>,
    filename: Seq<char>,
    content_chars: Seq<char>,
    stamp: Seq<char>,
    now: i64,
    max: int,
) -> bool {
    &&& (lookup(new_files, filename) matches Option::Some(f) && f.name@ == filename && f.content@
        == content_chars && f.mtime == now)
    &&& (forall|j: int|
        0 <= j < old_files.len() && !is_backup_name(#[trigger] old_files[j].name@, filename)
            && old_files[j].name@ != filename ==> lookup(new_files, old_files[j].name@)
            == Option::Some(old_files[j]))
    &&& exists|bks: Seq<StoredFile>|
        {
            &&& mtime_sorted_desc(bks)
            &&& #[trigger] staged_backups(old_files, filename, stamp, now, bks)
            &&& new_files.filter(backup_pred(filename)).to_multiset() == bks.subrange(
                0,
                int_min(max, bks.len() as int),
            ).to_multiset()
        }
}

/// The backups as they stand between the backup copy and the pruning: the
/// previous backups, plus — when the key existed and the backup name is not
/// the key itself — a record under the backup name holding the key's
/// previous content with modification time `now`, replacing any record that
/// already carried that name.
pub open spec fn staged_backups(
    old_files: Seq<StoredFile>,
    filename: Seq<char>,
    stamp: Seq<char>,
    now: i64,
    bks: Seq<StoredFile>,
) -> bool {
    let obm = old_files.filter(backup_pred(filename)).to_multiset();
    let bname = backup_name_spec(filename, stamp);
    if find_file(old_files, filename) >= 0 && bname != filename {
        exists|b: StoredFile|
            {
                &&& #[trigger] b.name@ == bname
                &&& b.mtime == now
                &&& b.content == old_files[find_file(old_files, filename)].content
                &&& bks.to_multiset() == (if find_file(old_files, bname) >= 0 {
                    obm.remove(old_files[find_file(old_files, bname)]).insert(b)
                } else {
                    obm.insert(b)
                })
            }
    } else {
        bks.to_multiset() == obm
    }
}

/// Durable, backup-protected storage of keyed values within one managed
/// directory, described by its configuration. The owning process performs
/// the actual reads and writes and keeps a `DirectoryModel` in step; every
/// decision — naming, ordering, pruning — is made here.
pub struct StatePersistenceManager {
    config: StatePersistenceConfig,
}

impl StatePersistenceManager {
    /// The configuration the manager was built with.
    pub closed spec fn config_spec(self) -> StatePersistenceConfig {
        self.config
    }

    /// A manager over `config`. Creating the managed directory on disk is
    /// the owning process's I/O step; the fallible signature is kept for it.
    pub fn new(config: StatePersistenceConfig) -> (r: Result<StatePersistenceManager, AppError>)
        ensures
            r is Ok,
            match r {
                Result::Ok(m) => m.config_spec() == config,
                Result::Err(_) => false,
            },
    {
        Ok(StatePersistenceManager { config })
    }

    /// A manager over the default configuration.
    pub fn with_default_config() -> (r: Result<StatePersistenceManager, AppError>)
        ensures
            r is Ok,
            match r {
                Result::Ok(m) => m.config_spec().auto_save_interval == 30
                    && m.config_spec().auto_save_enabled && m.config_spec().max_backups == 5,
                Result::Err(_) => false,
            },
    {
        StatePersistenceManager::new(StatePersistenceConfig::default())
    }

    /// The configuration, by reference.
    pub fn get_config(&self) -> (r: &StatePersistenceConfig)
        ensures
            *r == self.config_spec(),
    {
        &self.config
    }

    /// The full path of a key within the managed directory.
    pub fn file_path_for(&self, filename: &String) -> (r: String)
        ensures
            r@ == crate::pathtext::join_spec(self.config_spec().state_dir@, filename@),
    {
        join_path(&self.config.state_dir, filename)
    }

    /// Whether a file for `filename` exists.
    pub fn state_exists(&self, dir: &DirectoryModel, filename: &str) -> (r: bool)
        ensures
            r == (find_file(dir.files_spec(), filename@) >= 0),
    {
        dir.contains_file(filename)
    }

    /// The stored content of `filename`. Succeeds exactly when the file
    /// exists; a missing file reports `NotFound`.
    pub fn load_state(&self, dir: &DirectoryModel, filename: &str) -> (r: Result<String, AppError>)
        ensures
            r is Ok <==> find_file(dir.files_spec(), filename@) >= 0,
            match r {
                Result::Ok(c) => lookup(dir.files_spec(), filename@) matches Option::Some(f)
                    && c@ == f.content@,
                Result::Err(e) => e is NotFound,
            },
    {
        match dir.read_content(filename) {
            Some(c) => Ok(c),
            None => Err(AppError::NotFound("no state file".to_owned().concat(": ").concat(filename))),
        }
    }

    /// Remove the file for `filename`, if present; never fails.
    pub fn delete_state(&self, dir: &mut DirectoryModel, filename: &str) -> (r: Result<
        (),
        AppError,
    >)
        requires
            old(dir).wf(),
        ensures
            final(dir).wf(),
            r is Ok,
            find_file(old(dir).files_spec(), filename@) >= 0 ==> final(dir).files_spec() == old(
                dir,
            ).files_spec().remove(find_file(old(dir).files_spec(), filename@)),
            find_file(old(dir).files_spec(), filename@) < 0 ==> final(dir).files_spec() == old(
                dir,
            ).files_spec(),
    {
        let _removed = dir.remove_file(filename);
        Ok(())
    }

    /// The names of all `.json` files of the directory, in lexicographic
    /// order by code point (every neighbouring pair ordered).
    pub fn list_state_files(&self, dir: &DirectoryModel) -> (r: Result<Vec<String>, AppError>)
        ensures
            r is Ok,
            match r {
                Result::Ok(v) => {
                    &&& v@.to_multiset() == dir.files_spec().filter(json_pred()).map_values(
                        |f: StoredFile| f.name,
                    ).to_multiset()
                    &&& names_sorted_pairwise(v@)
                },
                Result::Err(_) => false,
            },
    {
        let ghost pred = json_pred();
        let mut out: Vec<String> = Vec::new();
        let n = dir.len();
        let mut k: usize = 0;
        proof {
            reveal(Seq::filter);
            assert(dir.files_spec().subrange(0, 0) =~= Seq::<StoredFile>::empty());
            assert(dir.files_spec().subrange(0, 0).filter(pred).map_values(|f: StoredFile| f.name)
                =~= Seq::<String>::empty());
        }
        while k < n
            invariant
                k <= n,
                n == dir.files_spec().len(),
                out@ == dir.files_spec().subrange(0, k as int).filter(pred).map_values(
                    |f: StoredFile| f.name,
                ),
                pred == json_pred(),
            decreases n - k,
        {
            let f = dir.file_at(k);
            let keep = str_ends_with(f.name.as_str(), ".json");
            proof {
                reveal(Seq::filter);
                assert(dir.files_spec().subrange(0, k + 1).drop_last() =~= dir.files_spec().subrange(
                    0,
                    k as int,
                ));
                assert(dir.files_spec().subrange(0, k + 1).last() == dir.files_spec()[k as int]);
            }
            if keep {
                out.push(f.name);
                proof {
                    assert(out@ =~= dir.files_spec().subrange(0, k + 1).filter(pred).map_values(
                        |g: StoredFile| g.name,
                    ));
                }
            }
            k = k + 1;
        }
        proof {
            assert(dir.files_spec().subrange(0, n as int) =~= dir.files_spec());
        }
        sort_names(&mut out);
        proof {
            lemma_names_pairwise(out@);
        }
        Ok(out)
    }

    /// The backups of `filename` in `dir`, newest first by modification
    /// time. Fails with `Internal` when the key has no stem.
    pub fn list_backups(&self, dir: &DirectoryModel, filename: &String) -> (r: Result<
        Vec<StoredFile>,
        AppError,
    >)
        ensures
            r is Ok <==> file_stem_spec(filename@) is Some,
            match r {
                Result::Ok(v) => {
                    &&& v@.to_multiset() == dir.files_spec().filter(
                        backup_pred(filename@),
                    ).to_multiset()
                    &&& v@.len() == count_backups(dir.files_spec(), filename@)
                    &&& mtime_sorted_desc(v@)
                },
                Result::Err(e) => e is Internal,
            },
    {
        let prefix = match backup_prefix(filename) {
            Ok(p) => p,
            Err(e) => {
                return Err(e);
            },
        };
        let mut backups = collect_backups(dir, filename, &prefix);
        sort_by_mtime_desc(&mut backups);
        proof {
            broadcast use vstd::seq_lib::group_to_multiset_ensures;

            assert(backups@.len() == backups@.to_multiset().len());
            assert(dir.files_spec().filter(backup_pred(filename@)).len() == dir.files_spec().filter(
                backup_pred(filename@),
            ).to_multiset().len());
        }
        Ok(backups)
    }

    /// The name of the newest backup of `filename`: a stored backup whose
    /// modification time no other backup exceeds. Fails with `Internal` when
    /// the key has no stem and with `NotFound` when it has no backups.
    pub fn get_latest_backup_path(&self, dir: &DirectoryModel, filename: &String) -> (r: Result<
        String,
        AppError,
    >)
        ensures
            r is Ok <==> file_stem_spec(filename@) is Some && count_backups(
                dir.files_spec(),
                filename@,
            ) > 0,
            match r {
                Result::Ok(n) => exists|f: StoredFile|
                    {
                        &&& #[trigger] dir.files_spec().filter(backup_pred(filename@)).contains(f)
                        &&& f.name == n
                        &&& forall|g: StoredFile|
                            dir.files_spec().filter(backup_pred(filename@)).contains(g)
                                ==> g.mtime <= f.mtime
                    },
                Result::Err(e) => e is Internal || e is NotFound,
            },
            r matches Result::Err(e) && e is NotFound ==> file_stem_spec(filename@) is Some,
    {
        let backups = match self.list_backups(dir, filename) {
            Ok(v) => v,
            Err(e) => {
                return Err(e);
            },
        };
        if backups.len() == 0 {
            return Err(AppError::NotFound("no backup files found".to_owned()));
        }
        let first = backups[0].clone();
        proof {
            broadcast use vstd::seq_lib::group_to_multiset_ensures;

            let filtered = dir.files_spec().filter(backup_pred(filename@));
            assert(backups@.to_multiset().contains(backups@[0]));
            assert(filtered.contains(backups@[0]));
            assert forall|g: StoredFile| filtered.contains(g) implies g.mtime
                <= backups@[0].mtime by {
                assert(backups@.to_multiset().contains(g));
                assert(backups@.contains(g));
                let gi = choose|i: int| 0 <= i < backups@.len() && backups@[i] == g;
                if gi > 0 {
                    assert(backups@[0].mtime >= backups@[gi].mtime);
                }
            }
        }
        Ok(first.name)
    }

    /// The content of the newest backup of `filename`. Fails with `Internal`
    /// when the key has no stem and with `NotFound` when it has no backups.
    pub fn restore_from_backup(&self, dir: &DirectoryModel, filename: &String) -> (r: Result<
        String,
        AppError,
    >)
        ensures
            r is Ok <==> file_stem_spec(filename@) is Some && count_backups(
                dir.files_spec(),
                filename@,
            ) > 0,
            match r {
                Result::Ok(c) => exists|f: StoredFile|
                    {
                        &&& #[trigger] dir.files_spec().filter(backup_pred(filename@)).contains(f)
                        &&& f.content@ == c@
                        &&& forall|g: StoredFile|
                            dir.files_spec().filter(backup_pred(filename@)).contains(g)
                                ==> g.mtime <= f.mtime
                    },
                Result::Err(e) => e is Internal || e is NotFound,
            },
    {
        let backups = match self.list_backups(dir, filename) {
            Ok(v) => v,
            Err(e) => {
                return Err(e);
            },
        };
        if backups.len() == 0 {
            return Err(AppError::NotFound("no backup files found".to_owned()));
        }
        let first = backups[0].clone();
        proof {
            broadcast use vstd::seq_lib::group_to_multiset_ensures;

            let filtered = dir.files_spec().filter(backup_pred(filename@));
            assert(backups@.to_multiset().contains(backups@[0]));
            assert(filtered.contains(backups@[0]));
            assert forall|g: StoredFile| filtered.contains(g) implies g.mtime
                <= backups@[0].mtime by {
                assert(backups@.to_multiset().contains(g));
                assert(backups@.contains(g));
                let gi = choose|i: int| 0 <= i < backups@.len() && backups@[i] == g;
                if gi > 0 {
                    assert(backups@[0].mtime >= backups@[gi].mtime);
                }
            }
        }
        Ok(first.content)
    }
}

impl StatePersistenceManager {
    /// Save `content` under `filename` with an explicit backup stamp: back up
    /// the previous content under `<stem>.backup.<stamp>.json`, overwrite the
    /// key, then prune its backups beyond the configured maximum, oldest by
    /// modification time first. Succeeds exactly when the key has a stem;
    /// otherwise nothing changes and `Internal` is reported.
    pub fn save_content_stamped(
        &self,
        dir: &mut DirectoryModel,
        filename: &String,
        content: String,
        stamp: &String,
        now: i64,
    ) -> (r: Result<(), AppError>)
        requires
            old(dir).wf(),
        ensures
            final(dir).wf(),
            r is Ok <==> file_stem_spec(filename@) is Some,
            match r {
                Result::Err(e) => e is Internal && final(dir).files_spec() == old(
                    dir,
                ).files_spec(),
                Result::Ok(_) => save_post(
                    old(dir).files_spec(),
                    final(dir).files_spec(),
                    filename@,
                    content@,
                    stamp@,
                    now,
                    self.config_spec().max_backups as int,
                ),
            },
    {
        let ghost pred = backup_pred(filename@);
        let ghost old_files = dir.files_spec();
        let prefix = match backup_prefix(filename) {
            Ok(p) => p,
            Err(e) => {
                return Err(e);
            },
        };
        // Copy the previous content to its stamped backup, unless the backup
        // name would collide with the key itself (a degenerate key).
        let existing = dir.read_content(filename.as_str());
        match existing {
            Some(old_content) => {
                let bname = prefix.clone().concat(stamp.as_str()).concat(".json");
                proof {
                    assert(bname@ =~= backup_name_spec(filename@, stamp@));
                }
                if !str_eq(bname.as_str(), filename.as_str()) {
                    let ghost brec = StoredFile { name: bname, mtime: now, content: old_content };
                    proof {
                        lemma_concat_starts_with(
                            backup_prefix_spec(filename@),
                            stamp@ + ".json"@,
                        );
                        assert(backup_prefix_spec(filename@) + (stamp@ + ".json"@) =~= bname@);
                        assert(is_backup_name(brec.name@, filename@));
                        if find_file(old_files, bname@) >= 0 {
                            lemma_find_file_props(old_files, bname@);
                        }
                    }
                    dir.upsert(bname, now, old_content);
                    proof {
                        if find_file(old_files, brec.name@) >= 0 {
                            lemma_filter_update_matching(
                                old_files,
                                find_file(old_files, brec.name@),
                                brec,
                                pred,
                            );
                        } else {
                            lemma_filter_push_matching(old_files, brec, pred);
                            broadcast use vstd::seq_lib::group_to_multiset_ensures;

                        }
                        lemma_lookup_upsert_other(old_files, brec, filename@);
                        assert forall|j: int|
                            0 <= j < old_files.len() && !is_backup_name(
                                #[trigger] old_files[j].name@,
                                filename@,
                            ) && old_files[j].name@ != filename@ implies lookup(
                            dir.files_spec(),
                            old_files[j].name@,
                        ) == Option::Some(old_files[j]) by {
                            lemma_lookup_self(old_files, j);
                            lemma_lookup_upsert_other(old_files, brec, old_files[j].name@);
                        }
                    }
                }
            },
            None => {},
        }
        let ghost staged_mid = dir.files_spec();
        proof {
            if find_file(old_files, filename@) < 0 {
                assert(staged_mid == old_files);
            }
        }
        // Overwrite the key with the new content.
        let name_for_write = filename.clone();
        let ghost wrec = StoredFile { name: name_for_write, mtime: now, content: content };
        dir.upsert(name_for_write, now, content);
        let ghost staged = dir.files_spec();
        proof {
            lemma_lookup_upsert_self(staged_mid, wrec);
            assert(!pred(wrec));
            if find_file(staged_mid, filename@) >= 0 {
                lemma_find_file_props(staged_mid, filename@);
            }
            lemma_filter_upsert_nonmatching(staged_mid, wrec, pred);
            assert forall|j: int|
                0 <= j < old_files.len() && !is_backup_name(
                    #[trigger] old_files[j].name@,
                    filename@,
                ) && old_files[j].name@ != filename@ implies lookup(
                staged,
                old_files[j].name@,
            ) == Option::Some(old_files[j]) by {
                lemma_lookup_self(old_files, j);
                lemma_lookup_upsert_other(staged_mid, wrec, old_files[j].name@);
            }
        }
        // Prune backups beyond the maximum, oldest first.
        let mut backups = collect_backups(dir, filename, &prefix);
        sort_by_mtime_desc(&mut backups);
        let ghost bks = backups@;
        proof {
            broadcast use vstd::seq_lib::group_to_multiset_ensures;

            assert(bks.to_multiset() == staged.filter(pred).to_multiset());
        }
        let maxb = self.config.max_backups as usize;
        let total = backups.len();
        if total > maxb {
            let mut k: usize = maxb;
            proof {
                assert(bks.subrange(0, maxb as int).to_multiset().add(
                    bks.skip(maxb as int).to_multiset(),
                ) =~= bks.to_multiset()) by {
                    assert(bks.subrange(0, maxb as int) + bks.skip(maxb as int) =~= bks);
                    vstd::seq_lib::lemma_multiset_commutative(
                        bks.subrange(0, maxb as int),
                        bks.skip(maxb as int),
                    );
                }
            }
            while k < total
                invariant
                    maxb <= k <= total,
                    total == bks.len(),
                    backups@ == bks,
                    dir.wf(),
                    pred == backup_pred(filename@),
                    dir.files_spec().filter(pred).to_multiset() == bks.subrange(
                        0,
                        maxb as int,
                    ).to_multiset().add(bks.skip(k as int).to_multiset()),
                    lookup(dir.files_spec(), filename@) == lookup(staged, filename@),
                    forall|j: int|
                        0 <= j < old_files.len() && !is_backup_name(
                            #[trigger] old_files[j].name@,
                            filename@,
                        ) && old_files[j].name@ != filename@ ==> lookup(
                            dir.files_spec(),
                            old_files[j].name@,
                        ) == Option::Some(old_files[j]),
                decreases total - k,
            {
                let ghost prev = dir.files_spec();
                let ghost target = bks[k as int];
                proof {
                    assert(bks.skip(k as int)[0] == target);
                    assert(bks.skip(k as int).contains(target));
                    broadcast use vstd::seq_lib::group_to_multiset_ensures;

                    assert(bks.skip(k as int).to_multiset().contains(target));
                    assert(prev.filter(pred).to_multiset().contains(target));
                    assert(prev.filter(pred).contains(target));
                    lemma_filter_sub(prev, pred);
                    assert(prev.contains(target) && pred(target));
                    lemma_member_unique(prev, target);
                }
                let name = backups[k].name.clone();
                proof {
                    assert(name == target.name);
                    assert(name@ == target.name@);
                }
                let removed = dir.remove_file(name.as_str());
                proof {
                    let fidx = find_file(prev, name@);
                    assert(prev[fidx] == target);
                    assert(removed);
                    lemma_filter_remove_matching(prev, fidx, pred);
                    assert(bks.skip(k as int) =~= seq![target] + bks.skip(k + 1));
                    vstd::seq_lib::lemma_multiset_commutative(seq![target], bks.skip(k + 1));
                    assert(seq![target].to_multiset() =~= Multiset::<StoredFile>::empty().insert(
                        target,
                    )) by {
                        assert(seq![target] =~= Seq::<StoredFile>::empty().push(target));
                        broadcast use vstd::seq_lib::group_to_multiset_ensures;

                    }
                    assert(dir.files_spec().filter(pred).to_multiset() =~= bks.subrange(
                        0,
                        maxb as int,
                    ).to_multiset().add(bks.skip(k + 1).to_multiset()));
                    assert(!is_backup_name(filename@, filename@));
                    assert(prev[fidx].name@ != filename@);
                    lemma_lookup_remove_other(prev, fidx, filename@);
                    assert forall|j: int|
                        0 <= j < old_files.len() && !is_backup_name(
                            #[trigger] old_files[j].name@,
                            filename@,
                        ) && old_files[j].name@ != filename@ implies lookup(
                        dir.files_spec(),
                        old_files[j].name@,
                    ) == Option::Some(old_files[j]) by {
                        assert(prev[fidx].name@ != old_files[j].name@);
                        lemma_lookup_remove_other(prev, fidx, old_files[j].name@);
                    }
                }
                k = k + 1;
            }
            proof {
                assert(bks.skip(total as int) =~= Seq::<StoredFile>::empty());
                assert(Seq::<StoredFile>::empty().to_multiset() =~= Multiset::<
                    StoredFile,
                >::empty());
                assert(dir.files_spec().filter(pred).to_multiset() =~= bks.subrange(
                    0,
                    maxb as int,
                ).to_multiset());
                assert(int_min(self.config_spec().max_backups as int, bks.len() as int)
                    == maxb as int);
            }
        } else {
            proof {
                assert(bks.subrange(0, bks.len() as int) =~= bks);
                assert(int_min(self.config_spec().max_backups as int, bks.len() as int)
                    == bks.len() as int);
            }
        }
        proof {
            assert(mtime_sorted_desc(bks));
            assert(staged_backups(old_files, filename@, stamp@, now, bks)) by {
                let obm = old_files.filter(pred).to_multiset();
                let bname_seq = backup_name_spec(filename@, stamp@);
                if find_file(old_files, filename@) >= 0 && bname_seq != filename@ {
                    lemma_find_file_props(old_files, filename@);
                } else {
                    assert(staged_mid == old_files);
                    assert(bks.to_multiset() == obm);
                }
            }
        }
        Ok(())
    }

    /// Save `content` under `filename`, stamping the backup with the current
    /// clock second `now` rendered compactly. The bound on `now` keeps it
    /// inside the rendering's range.
    pub fn save_content(
        &self,
        dir: &mut DirectoryModel,
        filename: &String,
        content: String,
        now: i64,
    ) -> (r: Result<(), AppError>)
        requires
            old(dir).wf(),
            0 <= now <= 253402300799,
        ensures
            final(dir).wf(),
            r is Ok <==> file_stem_spec(filename@) is Some,
            match r {
                Result::Err(e) => e is Internal && final(dir).files_spec() == old(
                    dir,
                ).files_spec(),
                Result::Ok(_) => save_post(
                    old(dir).files_spec(),
                    final(dir).files_spec(),
                    filename@,
                    content@,
                    compact_stamp_of(now as int),
                    now,
                    self.config_spec().max_backups as int,
                ),
            },
    {
        let stamp = format_compact_stamp(now);
        self.save_content_stamped(dir, filename, content, &stamp, now)
    }
}

/// A record with a unique name is found by name, exactly.
proof fn lemma_member_unique(files: Seq<StoredFile>, f: StoredFile)
    requires
        forall|i: int, j: int|
            #![trigger files[i].name, files[j].name]
            0 <= i < j < files.len() ==> files[i].name@ != files[j].name@,
        files.contains(f),
    ensures
        0 <= find_file(files, f.name@) < files.len(),
        files[find_file(files, f.name@)] == f,
{
    let i = choose|i: int| 0 <= i < files.len() && files[i] == f;
    if find_file(files, f.name@) < 0 {
        lemma_find_file_missing_names(files, f.name@);
        assert(files[i].name@ != f.name@);
    }
    lemma_find_file_props(files, f.name@);
    let k = find_file(files, f.name@);
    if k != i {
        assert(files[k].name@ == files[i].name@);
    }
}

/// Looking up a record's own name yields that record, under unique names.
proof fn lemma_lookup_self(files: Seq<StoredFile>, j: int)
    requires
        forall|i1: int, i2: int|
            #![trigger files[i1].name, files[i2].name]
            0 <= i1 < i2 < files.len() ==> files[i1].name@ != files[i2].name@,
        0 <= j < files.len(),
    ensures
        lookup(files, files[j].name@) == Option::Some(files[j]),
{
    lemma_member_unique(files, files[j]);
}

/// After writing a record, looking up its name yields it.
proof fn lemma_lookup_upsert_self(files: Seq<StoredFile>, f: StoredFile)
    requires
        forall|i: int, j: int|
            #![trigger files[i].name, files[j].name]
            0 <= i < j < files.len() ==> files[i].name@ != files[j].name@,
    ensures
        lookup(spec_upsert(files, f), f.name@) == Option::Some(f),
{
    let t = spec_upsert(files, f);
    if find_file(files, f.name@) >= 0 {
        lemma_find_file_props(files, f.name@);
        let k = find_file(files, f.name@);
        assert(t[k] == f);
        lemma_find_file_at(t, f.name@, k);
    } else {
        lemma_find_file_missing_names(files, f.name@);
        assert(t[files.len() as int] == f);
        lemma_find_file_at(t, f.name@, files.len() as int);
    }
}

/// Writing one name leaves every other name's lookup unchanged.
proof fn lemma_lookup_upsert_other(files: Seq<StoredFile>, f: StoredFile, n: Seq<char>)
    requires
        n != f.name@,
    ensures
        lookup(spec_upsert(files, f), n) == lookup(files, n),
{
    let t = spec_upsert(files, f);
    if find_file(files, f.name@) >= 0 {
        lemma_find_file_props(files, f.name@);
        let k = find_file(files, f.name@);
        assert(files[k].name@ == f.name@);
        if find_file(files, n) >= 0 {
            lemma_find_file_props(files, n);
            let m = find_file(files, n);
            assert(m != k);
            assert(t[m] == files[m]);
            assert forall|j: int| 0 <= j < m implies t[j].name@ != n by {
                if j == k {
                    assert(t[j].name@ == f.name@);
                } else {
                    assert(t[j] == files[j]);
                }
            }
            lemma_find_file_at(t, n, m);
        } else {
            lemma_find_file_missing_names(files, n);
            assert forall|j: int| 0 <= j < t.len() implies t[j].name@ != n by {
                if j == k {
                    assert(t[j].name@ == f.name@);
                } else {
                    assert(t[j] == files[j]);
                }
            }
            lemma_find_file_missing(t, n);
        }
    } else {
        if find_file(files, n) >= 0 {
            lemma_find_file_props(files, n);
            let m = find_file(files, n);
            assert(t[m] == files[m]);
            assert(forall|j: int| 0 <= j < m ==> t[j] == files[j]);
            lemma_find_file_at(t, n, m);
        } else {
            lemma_find_file_missing_names(files, n);
            assert forall|j: int| 0 <= j < t.len() implies t[j].name@ != n by {
                if j < files.len() {
                    assert(t[j] == files[j]);
                } else {
                    assert(t[j] == f);
                }
            }
            lemma_find_file_missing(t, n);
        }
    }
}

/// Removing one record leaves every other name's lookup unchanged, under
/// unique names.
proof fn lemma_lookup_remove_other(files: Seq<StoredFile>, k: int, n: Seq<char>)
    requires
        forall|i1: int, i2: int|
            #![trigger files[i1].name, files[i2].name]
            0 <= i1 < i2 < files.len() ==> files[i1].name@ != files[i2].name@,
        0 <= k < files.len(),
        files[k].name@ != n,
    ensures
        lookup(files.remove(k), n) == lookup(files, n),
{
    let t = files.remove(k);
    if find_file(files, n) >= 0 {
        lemma_find_file_props(files, n);
        let m = find_file(files, n);
        assert(m != k);
        let m2 = if m < k {
            m
        } else {
            m - 1
        };
        assert(t[m2] == files[m]);
        assert forall|j: int| 0 <= j < m2 implies t[j].name@ != n by {
            let oj = if j < k {
                j
            } else {
                j + 1
            };
            assert(t[j] == files[oj]);
            if files[oj].name@ == n {
                assert(oj != m);
                assert(files[oj].name@ != files[m].name@);
            }
        }
        lemma_find_file_at(t, n, m2);
    } else {
        lemma_find_file_missing_names(files, n);
        assert forall|j: int| 0 <= j < t.len() implies t[j].name@ != n by {
            let oj = if j < k {
                j
            } else {
                j + 1
            };
            assert(t[j] == files[oj]);
        }
        lemma_find_file_missing(t, n);
    }
}

/// What filtering keeps of a single record.
proof fn lemma_filter_singleton(f: StoredFile, pred: spec_fn(StoredFile) -> bool)
    ensures
        pred(f) ==> seq![f].filter(pred) =~= seq![f],
        !pred(f) ==> seq![f].filter(pred) =~= Seq::<StoredFile>::empty(),
{
    reveal_with_fuel(Seq::filter, 2);
    assert(seq![f].drop_last() =~= Seq::<StoredFile>::empty());
    assert(Seq::<StoredFile>::empty().filter(pred) =~= Seq::<StoredFile>::empty());
    assert(seq![f].last() == f);
    assert(seq![f].filter(pred) == (if pred(f) {
        Seq::<StoredFile>::empty().filter(pred).push(f)
    } else {
        Seq::<StoredFile>::empty().filter(pred)
    }));
}

/// Writing a record that the filter ignores — over a record it also ignored
/// — leaves the filtered sequence unchanged.
proof fn lemma_filter_upsert_nonmatching(
    files: Seq<StoredFile>,
    f: StoredFile,
    pred: spec_fn(StoredFile) -> bool,
)
    requires
        !pred(f),
        find_file(files, f.name@) >= 0 ==> !pred(files[find_file(files, f.name@)]),
    ensures
        spec_upsert(files, f).filter(pred) == files.filter(pred),
{
    broadcast use vstd::seq_lib::group_seq_lib_default;

    reveal(Seq::filter);
    let t = spec_upsert(files, f);
    if find_file(files, f.name@) >= 0 {
        lemma_find_file_props(files, f.name@);
        let k = find_file(files, f.name@);
        let a = files.subrange(0, k);
        let g = files[k];
        let b = files.subrange(k + 1, files.len() as int);
        assert(files =~= a + seq![g] + b);
        assert(t =~= a + seq![f] + b);
        Seq::filter_distributes_over_add(a + seq![g], b, pred);
        Seq::filter_distributes_over_add(a, seq![g], pred);
        Seq::filter_distributes_over_add(a + seq![f], b, pred);
        Seq::filter_distributes_over_add(a, seq![f], pred);
        lemma_filter_singleton(g, pred);
        lemma_filter_singleton(f, pred);
        assert(t.filter(pred) =~= files.filter(pred));
    } else {
        assert(t =~= files.push(f));
        assert(t.drop_last() =~= files);
        assert(t.filter(pred) =~= files.filter(pred));
    }
}

/// Appending a record the filter keeps appends it to the filtered sequence.
proof fn lemma_filter_push_matching(
    files: Seq<StoredFile>,
    f: StoredFile,
    pred: spec_fn(StoredFile) -> bool,
)
    requires
        pred(f),
    ensures
        files.push(f).filter(pred) == files.filter(pred).push(f),
{
    reveal(Seq::filter);
    assert(files.push(f).drop_last() =~= files);
    assert(files.push(f).filter(pred) =~= files.filter(pred).push(f));
}

/// Replacing a kept record by another kept record swaps them in the
/// filtered multiset.
proof fn lemma_filter_update_matching(
    files: Seq<StoredFile>,
    k: int,
    f: StoredFile,
    pred: spec_fn(StoredFile) -> bool,
)
    requires
        0 <= k < files.len(),
        pred(files[k]),
        pred(f),
    ensures
        files.update(k, f).filter(pred).to_multiset() == files.filter(pred).to_multiset().remove(
            files[k],
        ).insert(f),
{
    broadcast use vstd::seq_lib::group_to_multiset_ensures;

    let t = files.update(k, f);
    let a = files.subrange(0, k);
    let g = files[k];
    let b = files.subrange(k + 1, files.len() as int);
    assert(files =~= a + seq![g] + b);
    assert(t =~= a + seq![f] + b);
    Seq::filter_distributes_over_add(a + seq![g], b, pred);
    Seq::filter_distributes_over_add(a, seq![g], pred);
    Seq::filter_distributes_over_add(a + seq![f], b, pred);
    Seq::filter_distributes_over_add(a, seq![f], pred);
    lemma_filter_singleton(g, pred);
    lemma_filter_singleton(f, pred);
    vstd::seq_lib::lemma_multiset_commutative(a.filter(pred) + seq![g], b.filter(pred));
    vstd::seq_lib::lemma_multiset_commutative(a.filter(pred), seq![g]);
    vstd::seq_lib::lemma_multiset_commutative(a.filter(pred) + seq![f], b.filter(pred));
    vstd::seq_lib::lemma_multiset_commutative(a.filter(pred), seq![f]);
    assert(seq![g].to_multiset() =~= Multiset::<StoredFile>::empty().insert(g)) by {
        assert(seq![g] =~= Seq::<StoredFile>::empty().push(g));
    }
    assert(seq![f].to_multiset() =~= Multiset::<StoredFile>::empty().insert(f)) by {
        assert(seq![f] =~= Seq::<StoredFile>::empty().push(f));
    }
    assert((a + seq![g]).filter(pred) =~= a.filter(pred) + seq![g]);
    assert((a + seq![f]).filter(pred) =~= a.filter(pred) + seq![f]);
    assert(t.filter(pred).to_multiset() =~= files.filter(pred).to_multiset().remove(g).insert(f));
}

/// Removing a kept record removes it from the filtered multiset.
proof fn lemma_filter_remove_matching(
    files: Seq<StoredFile>,
    k: int,
    pred: spec_fn(StoredFile) -> bool,
)
    requires
        0 <= k < files.len(),
        pred(files[k]),
    ensures
        files.remove(k).filter(pred).to_multiset() == files.filter(pred).to_multiset().remove(
            files[k],
        ),
{
    broadcast use vstd::seq_lib::group_to_multiset_ensures;

    let t = files.remove(k);
    let a = files.subrange(0, k);
    let g = files[k];
    let b = files.subrange(k + 1, files.len() as int);
    assert(files =~= a + seq![g] + b);
    assert(t =~= a + b);
    Seq::filter_distributes_over_add(a + seq![g], b, pred);
    Seq::filter_distributes_over_add(a, seq![g], pred);
    Seq::filter_distributes_over_add(a, b, pred);
    lemma_filter_singleton(g, pred);
    vstd::seq_lib::lemma_multiset_commutative(a.filter(pred) + seq![g], b.filter(pred));
    vstd::seq_lib::lemma_multiset_commutative(a.filter(pred), seq![g]);
    vstd::seq_lib::lemma_multiset_commutative(a.filter(pred), b.filter(pred));
    assert(seq![g].to_multiset() =~= Multiset::<StoredFile>::empty().insert(g)) by {
        assert(seq![g] =~= Seq::<StoredFile>::empty().push(g));
    }
    assert((a + seq![g]).filter(pred) =~= a.filter(pred) + seq![g]);
    assert(t.filter(pred).to_multiset() =~= files.filter(pred).to_multiset().remove(g));
}

/// Every record the filter keeps comes from the sequence.
proof fn lemma_filter_sub(files: Seq<StoredFile>, pred: spec_fn(StoredFile) -> bool)
    ensures
        forall|x: StoredFile| #[trigger] files.filter(pred).contains(x) ==> files.contains(x)
            && pred(x),
    decreases files.len(),
{
    reveal_with_fuel(Seq::filter, 2);
    if files.len() > 0 {
        lemma_filter_sub(files.drop_last(), pred);
        let fs = files.filter(pred);
        let dl = files.drop_last().filter(pred);
        assert forall|x: StoredFile| #[trigger] fs.contains(x) implies files.contains(x) && pred(
            x,
        ) by {
            if pred(files.last()) {
                assert(fs == dl.push(files.last()));
                let i = choose|i: int| 0 <= i < fs.len() && fs[i] == x;
                if i == fs.len() - 1 {
                    assert(x == files.last());
                    assert(files[files.len() - 1] == x);
                } else {
                    assert(dl[i] == x);
                    assert(dl.contains(x));
                    assert(files.drop_last().contains(x));
                    let j = choose|j: int|
                        0 <= j < files.drop_last().len() && files.drop_last()[j] == x;
                    assert(files[j] == x);
                }
            } else {
                assert(fs == dl);
                assert(dl.contains(x));
                assert(files.drop_last().contains(x));
                let j = choose|j: int|
                    0 <= j < files.drop_last().len() && files.drop_last()[j] == x;
                assert(files[j] == x);
            }
        }
    }
}

/// A concatenation begins with its first part.
proof fn lemma_concat_starts_with(p: Seq<char>, q: Seq<char>)
    ensures
        starts_with_spec(p + q, p),
{
    assert((p + q).subrange(0, p.len() as int) =~= p);
}

/// Sort names lexicographically by code point, ascending.
fn sort_names(v: &mut Vec<String>)
    ensures
        final(v)@.to_multiset() == old(v)@.to_multiset(),
        final(v)@.len() == old(v)@.len(),
        names_sorted_upto(final(v)@, final(v)@.len() as int),
{
    let n = v.len();
    if n == 0 {
        return;
    }
    let mut i: usize = 1;
    while i < n
        invariant
            1 <= i <= n,
            n == v@.len(),
            v@.to_multiset() == old(v)@.to_multiset(),
            names_sorted_upto(v@, i as int),
        decreases n - i,
    {
        let ghost before = v@;
        let mut p: usize = 0;
        while p < i && lex_le(&v[p], &v[i])
            invariant
                p <= i < n,
                n == v@.len(),
                forall|q: int| 0 <= q < p ==> #[trigger] name_le(v@[q], v@[i as int]),
            decreases i - p,
        {
            p = p + 1;
        }
        if p < i {
            proof {
                reveal(name_le);
                crate::file_sorting::lemma_lex_cmp_reverse(v@[p as int]@, v@[i as int]@);
                assert(name_le(v@[i as int], v@[p as int]));
            }
            let x = v.remove(i);
            v.insert(p, x);
            proof {
                lemma_names_insert_step(before, p as int, i as int);
                lemma_name_move_multiset(before, p as int, i as int);
            }
        }
        i = i + 1;
    }
}

/// Whether `a` may stand before `b` in name order.
fn lex_le(a: &String, b: &String) -> (r: bool)
    ensures
        r == name_le(*a, *b),
{
    proof {
        reveal(name_le);
    }
    let c = crate::file_sorting::compare_strings(a.as_str(), b.as_str());
    match c {
        core::cmp::Ordering::Greater => false,
        _ => true,
    }
}

/// `a` may stand before `b` in code-point order.
#[verifier::opaque]
pub open spec fn name_le(a: String, b: String) -> bool {
    crate::file_sorting::lex_cmp(a@, b@) != core::cmp::Ordering::Greater
}

/// Every neighbouring pair among the first `m` names is ordered.
pub open spec fn names_sorted_upto(s: Seq<String>, m: int) -> bool {
    forall|q: int| 0 <= q < m - 1 ==> #[trigger] name_le(s[q], s[q + 1])
}

/// Every pair of names, in order, is ordered.
pub open spec fn names_sorted_pairwise(s: Seq<String>) -> bool {
    forall|i: int, j: int| 0 <= i < j < s.len() ==> #[trigger] name_le(s[i], s[j])
}

/// The name order is transitive.
proof fn lemma_name_le_trans(a: String, b: String, c: String)
    requires
        name_le(a, b),
        name_le(b, c),
    ensures
        name_le(a, c),
{
    reveal(name_le);
    crate::file_sorting::lemma_lex_cmp_trans(a@, b@, c@);
}

/// Adjacent name order extends to every pair, by transitivity.
proof fn lemma_names_pairwise(s: Seq<String>)
    requires
        names_sorted_upto(s, s.len() as int),
    ensures
        names_sorted_pairwise(s),
{
    assert forall|i: int, j: int| 0 <= i < j < s.len() implies #[trigger] name_le(s[i], s[j]) by {
        lemma_name_span(s, i, j);
    }
}

/// Any earlier name may stand before any later one.
proof fn lemma_name_span(s: Seq<String>, i: int, j: int)
    requires
        names_sorted_upto(s, s.len() as int),
        0 <= i < j < s.len(),
    ensures
        name_le(s[i], s[j]),
    decreases j - i,
{
    if j == i + 1 {
        assert(name_le(s[i], s[i + 1]));
    } else {
        lemma_name_span(s, i, j - 1);
        let q = j - 1;
        assert(name_le(s[q], s[q + 1]));
        lemma_name_le_trans(s[i], s[j - 1], s[j]);
    }
}

/// Moving name `i` down to position `p` keeps the prefix up to `i + 1`
/// adjacently ordered, given the scan facts of the sorting loop.
proof fn lemma_names_insert_step(s: Seq<String>, p: int, i: int)
    requires
        0 <= p < i < s.len(),
        names_sorted_upto(s, i),
        forall|q: int| 0 <= q < p ==> #[trigger] name_le(s[q], s[i]),
        name_le(s[i], s[p]),
    ensures
        names_sorted_upto(s.remove(i).insert(p, s[i]), i + 1),
{
    let t = s.remove(i).insert(p, s[i]);
    assert(forall|k: int| 0 <= k < p ==> t[k] == s[k]);
    assert(t[p] == s[i]);
    assert(forall|k: int| p < k <= i ==> t[k] == s[k - 1]);
    assert forall|q: int| 0 <= q < i implies #[trigger] name_le(t[q], t[q + 1]) by {
        if q + 1 < p {
            assert(name_le(s[q], s[q + 1]));
        } else if q + 1 == p {
            assert(name_le(s[q], s[i]));
        } else if q == p {
            assert(name_le(s[i], s[p]));
        } else {
            let qq = q - 1;
            assert(name_le(s[qq], s[qq + 1]));
        }
    }
}

/// Moving one name within a sequence preserves its multiset.
proof fn lemma_name_move_multiset(s: Seq<String>, p: int, i: int)
    requires
        0 <= p < i < s.len(),
    ensures
        s.remove(i).insert(p, s[i]).to_multiset() == s.to_multiset(),
{
    let w = s.remove(i);
    assert(w.to_multiset() == s.to_multiset().remove(s[i])) by {
        s.to_multiset_ensures();
    }
    let l = w.subrange(0, p);
    let r = w.subrange(p, w.len() as int);
    assert(w.insert(p, s[i]) =~= l + (seq![s[i]] + r));
    assert(w =~= l + r);
    vstd::seq_lib::lemma_multiset_commutative(l, seq![s[i]] + r);
    vstd::seq_lib::lemma_multiset_commutative(seq![s[i]], r);
    vstd::seq_lib::lemma_multiset_commutative(l, r);
    assert(seq![s[i]].to_multiset() =~= Multiset::<String>::empty().insert(s[i])) by {
        assert(seq![s[i]] =~= Seq::<String>::empty().push(s[i]));
        Seq::<String>::empty().to_multiset_ensures();
    }
    assert(w.insert(p, s[i]).to_multiset() =~= s.to_multiset().remove(s[i]).insert(s[i]));
    assert(s.to_multiset().contains(s[i])) by {
        s.to_multiset_ensures();
    }
    assert(s.to_multiset().remove(s[i]).insert(s[i]) =~= s.to_multiset());
}

/// Round-trip law, at the library's level: after a successful save of
/// `content_chars` under `filename`, loading `filename` yields exactly that
/// content (serialisation to and from the stored text is the caller's side
/// of the trip).
pub proof fn lemma_save_then_load(
    old_files: Seq<StoredFile>,
    new_files: Seq<StoredFile>,
    filename: Seq<char>,
    content_chars: Seq<char>,
    stamp: Seq<char>,
    now: i64,
    max: int,
)
    requires
        save_post(old_files, new_files, filename, content_chars, stamp, now, max),
    ensures
        lookup(new_files, filename) matches Option::Some(f) && f.content@ == content_chars
            && f.mtime == now,
{
}

/// Backup rotation law: when a save backs up an existing key under a fresh
/// stamp, the key afterwards has exactly `min(previous + 1, max)` backups,
/// and every backup that was dropped is no newer than any backup that
/// remains.
pub proof fn lemma_backup_rotation(
    old_files: Seq<StoredFile>,
    new_files: Seq<StoredFile>,
    filename: Seq<char>,
    content_chars: Seq<char>,
    stamp: Seq<char>,
    now: i64,
    max: int,
)
    requires
        save_post(old_files, new_files, filename, content_chars, stamp, now, max),
        max >= 0,
        find_file(old_files, filename) >= 0,
        backup_name_spec(filename, stamp) != filename,
        find_file(old_files, backup_name_spec(filename, stamp)) < 0,
    ensures
        count_backups(new_files, filename) == int_min(
            count_backups(old_files, filename) + 1,
            max,
        ),
        forall|i: int, j: int|
            0 <= i < new_files.len() && is_backup_name(#[trigger] new_files[i].name@, filename)
                && 0 <= j < old_files.len() && is_backup_name(
                #[trigger] old_files[j].name@,
                filename,
            ) && lookup(new_files, old_files[j].name@) is None ==> old_files[j].mtime
                <= new_files[i].mtime,
{
    broadcast use vstd::seq_lib::group_to_multiset_ensures;

    let pred = backup_pred(filename);
    let bks = choose|bks: Seq<StoredFile>|
        {
            &&& mtime_sorted_desc(bks)
            &&& #[trigger] staged_backups(old_files, filename, stamp, now, bks)
            &&& new_files.filter(pred).to_multiset() == bks.subrange(
                0,
                int_min(max, bks.len() as int),
            ).to_multiset()
        };
    let obm = old_files.filter(pred).to_multiset();
    let b = choose|b: StoredFile|
        {
            &&& #[trigger] b.name@ == backup_name_spec(filename, stamp)
            &&& b.mtime == now
            &&& b.content == old_files[find_file(old_files, filename)].content
            &&& bks.to_multiset() == obm.insert(b)
        };
    assert(bks.to_multiset() == obm.insert(b));
    assert(bks.len() == bks.to_multiset().len());
    assert(obm.insert(b).len() == obm.len() + 1);
    assert(old_files.filter(pred).len() == obm.len());
    let m = int_min(max, bks.len() as int);
    assert(new_files.filter(pred).len() == new_files.filter(pred).to_multiset().len());
    assert(bks.subrange(0, m).to_multiset().len() == bks.subrange(0, m).len());
    assert(count_backups(new_files, filename) == m);
    assert(m == int_min(count_backups(old_files, filename) + 1, max));
    assert forall|i: int, j: int|
        0 <= i < new_files.len() && is_backup_name(#[trigger] new_files[i].name@, filename) && 0
            <= j < old_files.len() && is_backup_name(#[trigger] old_files[j].name@, filename)
            && lookup(new_files, old_files[j].name@) is None implies old_files[j].mtime
        <= new_files[i].mtime by {
        let kept = new_files[i];
        let gone = old_files[j];
        assert(pred(kept));
        new_files.lemma_filter_contains(pred, i);
        assert(new_files.filter(pred).contains(kept));
        assert(new_files.filter(pred).to_multiset().contains(kept));
        assert(bks.subrange(0, m).to_multiset().contains(kept));
        assert(bks.subrange(0, m).contains(kept));
        let a = choose|a: int| 0 <= a < m && bks.subrange(0, m)[a] == kept;
        assert(bks[a] == kept);
        assert(pred(gone));
        old_files.lemma_filter_contains(pred, j);
        assert(old_files.filter(pred).contains(gone));
        assert(obm.contains(gone));
        assert(obm.insert(b).count(gone) >= obm.count(gone));
        assert(bks.to_multiset().contains(gone));
        assert(bks.contains(gone));
        let c = choose|c: int| 0 <= c < bks.len() && bks[c] == gone;
        if c < m {
            assert(bks.subrange(0, m)[c] == gone);
            assert(bks.subrange(0, m).to_multiset().contains(gone));
            assert(new_files.filter(pred).to_multiset().contains(gone));
            assert(new_files.filter(pred).contains(gone));
            lemma_filter_sub(new_files, pred);
            assert(new_files.contains(gone));
            if find_file(new_files, gone.name@) < 0 {
                lemma_find_file_missing_names(new_files, gone.name@);
                let gi = choose|gi: int| 0 <= gi < new_files.len() && new_files[gi] == gone;
                assert(new_files[gi].name@ != gone.name@);
            }
            assert(lookup(new_files, gone.name@) is Some);
            assert(false);
        }
        assert(m <= c);
        if a < c {
            assert(bks[a].mtime >= bks[c].mtime);
        } else if a == c {
        } else {
            assert(bks[c].mtime >= bks[a].mtime);
            assert(false) by {
                assert(c < m);
            }
        }
    }
}

} // verus!
