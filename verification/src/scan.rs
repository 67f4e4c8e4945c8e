//! The per-game input handed to the report by the scanning and backup
//! pipeline: found files, found registry keys with their values, and the sets
//! of entries that failed, all as plain values.

use vstd::prelude::*;

use crate::change::ScanChange;

verus! {

pub open spec fn opt_str_view(o: Option<String>) -> Option<Seq<char>> {
    match o {
        Some(s) => Some(s@),
        None => None,
    }
}

pub open spec fn str_views(s: Seq<String>) -> Seq<Seq<char>> {
    Seq::new(s.len(), |i: int| s[i]@)
}

/// One found file: where it is, how big it is, its content fingerprint, and
/// how it relates to the previous backup. `original_path` is set when a
/// restore will place the file somewhere other than the backed-up location;
/// `redirected` is set when a configured redirect moves the file.
pub struct ScannedFile {
    pub path: String,
    pub size: u64,
    pub hash: String,
    pub original_path: Option<String>,
    pub ignored: bool,
    pub change: ScanChange,
    pub redirected: Option<String>,
}

pub struct ScannedFileModel {
    pub path: Seq<char>,
    pub size: u64,
    pub hash: Seq<char>,
    pub original_path: Option<Seq<char>>,
    pub ignored: bool,
    pub change: ScanChange,
    pub redirected: Option<Seq<char>>,
}

impl View for ScannedFile {
    type V = ScannedFileModel;

    open spec fn view(&self) -> ScannedFileModel {
        ScannedFileModel {
            path: self.path@,
            size: self.size,
            hash: self.hash@,
            original_path: opt_str_view(self.original_path),
            ignored: self.ignored,
            change: self.change,
            redirected: opt_str_view(self.redirected),
        }
    }
}

pub open spec fn file_views(s: Seq<ScannedFile>) -> Seq<ScannedFileModel> {
    Seq::new(s.len(), |i: int| s[i]@)
}

impl ScannedFileModel {
    /// The path shown as the entry's main line: the file's own path when
    /// backing up; when restoring, the restore target, which a redirect moves
    /// and the original location otherwise names.
    pub open spec fn spec_readable(self, restoring: bool) -> Seq<char> {
        if restoring {
            match self.redirected {
                Some(p) => p,
                None => match self.original_path {
                    Some(p) => p,
                    None => self.path,
                },
            }
        } else {
            self.path
        }
    }

    /// The alternate path, shown beneath the main line when present: when
    /// restoring through a redirect, the location the file originally came
    /// from; when backing up, the redirect target.
    pub open spec fn spec_alt(self, restoring: bool) -> Option<Seq<char>> {
        if restoring {
            match self.redirected {
                Some(_) => Some(
                    match self.original_path {
                        Some(p) => p,
                        None => self.path,
                    },
                ),
                None => None,
            }
        } else {
            self.redirected
        }
    }
}

impl ScannedFile {
    pub fn new(path: String, size: u64, hash: String) -> (r: Self)
        ensures
            r@ == (ScannedFileModel {
                path: path@,
                size,
                hash: hash@,
                original_path: None,
                ignored: false,
                change: ScanChange::Unknown,
                redirected: None,
            }),
    {
        ScannedFile {
            path,
            size,
            hash,
            original_path: None,
            ignored: false,
            change: ScanChange::Unknown,
            redirected: None,
        }
    }

    pub fn change_as(self, change: ScanChange) -> (r: Self)
        ensures
            r@ == (ScannedFileModel { change, ..self@ }),
    {
        ScannedFile { change, ..self }
    }

    pub fn readable(&self, restoring: bool) -> (r: String)
        ensures
            r@ == self@.spec_readable(restoring),
    {
        if restoring {
            match &self.redirected {
                Some(p) => p.clone(),
                None => match &self.original_path {
                    Some(p) => p.clone(),
                    None => self.path.clone(),
                },
            }
        } else {
            self.path.clone()
        }
    }

    pub fn alt_readable(&self, restoring: bool) -> (r: Option<String>)
        ensures
            opt_str_view(r) == self@.spec_alt(restoring),
    {
        if restoring {
            match &self.redirected {
                Some(_) => match &self.original_path {
                    Some(p) => Some(p.clone()),
                    None => Some(self.path.clone()),
                },
                None => None,
            }
        } else {
            match &self.redirected {
                Some(p) => Some(p.clone()),
                None => None,
            }
        }
    }

    /// Whether the two entries agree in every field.
    pub fn eq_entry(&self, other: &ScannedFile) -> (r: bool)
        ensures
            r == (self@ == other@),
    {
        let paths = self.path == other.path && self.hash == other.hash;
        let opts = opt_str_eq(&self.original_path, &other.original_path) && opt_str_eq(
            &self.redirected,
            &other.redirected,
        );
        let rest = self.size == other.size && self.ignored == other.ignored && self.change
            == other.change;
        paths && opts && rest
    }
}

fn opt_str_eq(a: &Option<String>, b: &Option<String>) -> (r: bool)
    ensures
        r == (opt_str_view(*a) == opt_str_view(*b)),
{
    match (a, b) {
        (None, None) => true,
        (Some(x), Some(y)) => *x == *y,
        _ => false,
    }
}

/// One value under a found registry key.
pub struct ScannedRegistryValue {
    pub name: String,
    pub ignored: bool,
    pub change: ScanChange,
}

pub struct ScannedRegistryValueModel {
    pub name: Seq<char>,
    pub ignored: bool,
    pub change: ScanChange,
}

impl View for ScannedRegistryValue {
    type V = ScannedRegistryValueModel;

    open spec fn view(&self) -> ScannedRegistryValueModel {
        ScannedRegistryValueModel { name: self.name@, ignored: self.ignored, change: self.change }
    }
}

pub open spec fn reg_value_views(s: Seq<ScannedRegistryValue>) -> Seq<ScannedRegistryValueModel> {
    Seq::new(s.len(), |i: int| s[i]@)
}

/// One found registry key with its values.
pub struct ScannedRegistry {
    pub path: String,
    pub ignored: bool,
    pub change: ScanChange,
    pub values: Vec<ScannedRegistryValue>,
}

pub struct ScannedRegistryModel {
    pub path: Seq<char>,
    pub ignored: bool,
    pub change: ScanChange,
    pub values: Seq<ScannedRegistryValueModel>,
}

impl View for ScannedRegistry {
    type V = ScannedRegistryModel;

    open spec fn view(&self) -> ScannedRegistryModel {
        ScannedRegistryModel {
            path: self.path@,
            ignored: self.ignored,
            change: self.change,
            values: reg_value_views(self.values@),
        }
    }
}

pub open spec fn reg_views(s: Seq<ScannedRegistry>) -> Seq<ScannedRegistryModel> {
    Seq::new(s.len(), |i: int| s[i]@)
}

impl ScannedRegistryModel {
    /// Whether the key itself or any of its values carries the change `c`.
    pub open spec fn has_change(self, c: ScanChange) -> bool {
        self.change == c || exists|j: int| 0 <= j < self.values.len() && self.values[j].change == c
    }
}

impl ScannedRegistry {
    pub fn new(path: String) -> (r: Self)
        ensures
            r@ == (ScannedRegistryModel {
                path: path@,
                ignored: false,
                change: ScanChange::Unknown,
                values: Seq::empty(),
            }),
    {
        let r = ScannedRegistry {
            path,
            ignored: false,
            change: ScanChange::Unknown,
            values: Vec::new(),
        };
        proof {
            assert(reg_value_views(r.values@) =~= Seq::<ScannedRegistryValueModel>::empty());
        }
        r
    }

    pub fn change_as(self, change: ScanChange) -> (r: Self)
        ensures
            r@ == (ScannedRegistryModel { change, ..self@ }),
    {
        ScannedRegistry { change, ..self }
    }

    /// Adds a value that is unchanged since the previous backup.
    pub fn with_value_same(self, name: String) -> (r: Self)
        ensures
            r@ == (ScannedRegistryModel {
                values: self@.values.push(
                    ScannedRegistryValueModel {
                        name: name@,
                        ignored: false,
                        change: ScanChange::Same,
                    },
                ),
                ..self@
            }),
    {
        let ghost pre = self@;
        let mut values = self.values;
        values.push(ScannedRegistryValue { name, ignored: false, change: ScanChange::Same });
        let r = ScannedRegistry { values, ..self };
        proof {
            assert(reg_value_views(r.values@) =~= pre.values.push(r.values@.last()@));
        }
        r
    }

    fn key_has_change(&self, c: ScanChange) -> (r: bool)
        ensures
            r == self@.has_change(c),
    {
        if self.change == c {
            return true;
        }
        let mut j: usize = 0;
        while j < self.values.len()
            invariant
                j <= self.values@.len(),
                forall|t: int| 0 <= t < j ==> self@.values[t].change != c,
            decreases self.values@.len() - j,
        {
            if self.values[j].change == c {
                proof {
                    assert(self@.values[j as int].change == c);
                }
                return true;
            }
            j += 1;
        }
        false
    }
}

/// Which file entries of a scan failed, and which registry key paths.
pub struct BackupInfo {
    pub failed_files: Vec<ScannedFile>,
    pub failed_registry: Vec<String>,
}

pub struct BackupInfoModel {
    pub failed_files: Seq<ScannedFileModel>,
    pub failed_registry: Seq<Seq<char>>,
}

impl View for BackupInfo {
    type V = BackupInfoModel;

    open spec fn view(&self) -> BackupInfoModel {
        BackupInfoModel {
            failed_files: file_views(self.failed_files@),
            failed_registry: str_views(self.failed_registry@),
        }
    }
}

pub open spec fn contains_file(files: Seq<ScannedFileModel>, f: ScannedFileModel) -> bool {
    exists|i: int| 0 <= i < files.len() && files[i] == f
}

pub open spec fn contains_str(ss: Seq<Seq<char>>, s: Seq<char>) -> bool {
    exists|i: int| 0 <= i < ss.len() && ss[i] == s
}

impl Default for BackupInfo {
    fn default() -> (r: Self)
        ensures
            r@.failed_files == Seq::<ScannedFileModel>::empty(),
            r@.failed_registry == Seq::<Seq<char>>::empty(),
    {
        let r = BackupInfo { failed_files: Vec::new(), failed_registry: Vec::new() };
        proof {
            assert(r@.failed_files =~= Seq::<ScannedFileModel>::empty());
            assert(r@.failed_registry =~= Seq::<Seq<char>>::empty());
        }
        r
    }
}

impl BackupInfo {
    /// Whether this exact file entry is recorded as failed.
    pub fn is_file_failed(&self, f: &ScannedFile) -> (r: bool)
        ensures
            r == contains_file(self@.failed_files, f@),
    {
        let mut i: usize = 0;
        while i < self.failed_files.len()
            invariant
                i <= self.failed_files@.len(),
                forall|t: int| 0 <= t < i ==> self@.failed_files[t] != f@,
            decreases self.failed_files@.len() - i,
        {
            if self.failed_files[i].eq_entry(f) {
                proof {
                    assert(self@.failed_files[i as int] == f@);
                }
                return true;
            }
            i += 1;
        }
        false
    }

    /// Whether this registry key path is recorded as failed.
    pub fn is_registry_failed(&self, path: &String) -> (r: bool)
        ensures
            r == contains_str(self@.failed_registry, path@),
    {
        let mut i: usize = 0;
        while i < self.failed_registry.len()
            invariant
                i <= self.failed_registry@.len(),
                forall|t: int| 0 <= t < i ==> self@.failed_registry[t] != path@,
            decreases self.failed_registry@.len() - i,
        {
            if self.failed_registry[i] == *path {
                proof {
                    assert(self@.failed_registry[i as int] == path@);
                }
                return true;
            }
            i += 1;
        }
        false
    }
}

/// Everything the scan found for one game.
pub struct ScanInfo {
    pub game_name: String,
    pub found_files: Vec<ScannedFile>,
    pub found_registry_keys: Vec<ScannedRegistry>,
}

pub struct ScanInfoModel {
    pub game_name: Seq<char>,
    pub found_files: Seq<ScannedFileModel>,
    pub found_registry_keys: Seq<ScannedRegistryModel>,
}

impl View for ScanInfo {
    type V = ScanInfoModel;

    open spec fn view(&self) -> ScanInfoModel {
        ScanInfoModel {
            game_name: self.game_name@,
            found_files: file_views(self.found_files@),
            found_registry_keys: reg_views(self.found_registry_keys@),
        }
    }
}

/// The sum of the sizes of all file entries.
pub open spec fn sum_sizes(files: Seq<ScannedFileModel>) -> int
    decreases files.len(),
{
    if files.len() == 0 {
        0
    } else {
        sum_sizes(files.drop_last()) + files.last().size
    }
}

/// The sum of the sizes of the file entries that are not recorded as failed.
pub open spec fn sum_included(files: Seq<ScannedFileModel>, failed: Seq<ScannedFileModel>) -> int
    decreases files.len(),
{
    if files.len() == 0 {
        0
    } else {
        sum_included(files.drop_last(), failed) + if contains_file(failed, files.last()) {
            0
        } else {
            files.last().size as int
        }
    }
}

pub proof fn lemma_sum_included_bounds(files: Seq<ScannedFileModel>, failed: Seq<ScannedFileModel>)
    ensures
        0 <= sum_included(files, failed) <= sum_sizes(files),
    decreases files.len(),
{
    if files.len() > 0 {
        lemma_sum_included_bounds(files.drop_last(), failed);
    }
}

pub proof fn lemma_sum_sizes_nonneg(files: Seq<ScannedFileModel>)
    ensures
        0 <= sum_sizes(files),
    decreases files.len(),
{
    if files.len() > 0 {
        lemma_sum_sizes_nonneg(files.drop_last());
    }
}

pub proof fn lemma_sum_sizes_prefix(files: Seq<ScannedFileModel>, i: int)
    requires
        0 <= i <= files.len(),
    ensures
        0 <= sum_sizes(files.take(i)) <= sum_sizes(files),
    decreases files.len() - i,
{
    lemma_sum_sizes_nonneg(files.take(i));
    if i == files.len() {
        assert(files.take(i) =~= files);
    } else {
        lemma_sum_sizes_prefix(files, i + 1);
        assert(files.take(i + 1).drop_last() =~= files.take(i));
        assert(files.take(i + 1).last() == files[i]);
    }
}

impl ScanInfoModel {
    /// A scan is worth reporting when it found anything at all.
    pub open spec fn reportable(self) -> bool {
        self.found_files.len() > 0 || self.found_registry_keys.len() > 0
    }

    /// The run restores rather than backs up when any found file records the
    /// original location it is being restored to.
    pub open spec fn restoring(self) -> bool {
        exists|i: int|
            0 <= i < self.found_files.len() && self.found_files[i].original_path is Some
    }

    /// Whether any found entry, at any granularity, carries the change `c`.
    pub open spec fn has_change(self, c: ScanChange) -> bool {
        (exists|i: int| 0 <= i < self.found_files.len() && self.found_files[i].change == c)
            || exists|i: int|
            0 <= i < self.found_registry_keys.len() && self.found_registry_keys[i].has_change(c)
    }

    /// The game's overall change: new when everything found is new,
    /// different when anything is new or different among older entries, same
    /// when everything is settled, and unknown when nothing was found.
    /// Entries of unknown change count as settled.
    pub open spec fn spec_overall_change(self) -> ScanChange {
        let any_new = self.has_change(ScanChange::New);
        let any_different = self.has_change(ScanChange::Different);
        let any_settled = self.has_change(ScanChange::Same) || self.has_change(ScanChange::Unknown);
        if any_new && !any_different && !any_settled {
            ScanChange::New
        } else if any_new || any_different {
            ScanChange::Different
        } else if any_settled {
            ScanChange::Same
        } else {
            ScanChange::Unknown
        }
    }

    /// The whole scan fits the machine's byte counter.
    pub open spec fn wf(self) -> bool {
        sum_sizes(self.found_files) <= u64::MAX
    }
}

impl Default for ScanInfo {
    fn default() -> (r: Self)
        ensures
            r@.game_name == Seq::<char>::empty(),
            r@.found_files == Seq::<ScannedFileModel>::empty(),
            r@.found_registry_keys == Seq::<ScannedRegistryModel>::empty(),
    {
        let r = ScanInfo {
            game_name: String::new(),
            found_files: Vec::new(),
            found_registry_keys: Vec::new(),
        };
        proof {
            assert(r@.found_files =~= Seq::<ScannedFileModel>::empty());
            assert(r@.found_registry_keys =~= Seq::<ScannedRegistryModel>::empty());
        }
        r
    }
}

impl ScanInfo {
    /// Whether this scan found anything worth reporting; an empty scan is
    /// skipped without touching the report.
    pub fn can_report_game(&self) -> (r: bool)
        ensures
            r == self@.reportable(),
    {
        self.found_files.len() > 0 || self.found_registry_keys.len() > 0
    }

    /// Whether this scan belongs to a restore rather than a backup.
    pub fn restoring(&self) -> (r: bool)
        ensures
            r == self@.restoring(),
    {
        let mut i: usize = 0;
        while i < self.found_files.len()
            invariant
                i <= self.found_files@.len(),
                forall|t: int| 0 <= t < i ==> self@.found_files[t].original_path is None,
            decreases self.found_files@.len() - i,
        {
            if self.found_files[i].original_path.is_some() {
                proof {
                    assert(self@.found_files[i as int].original_path is Some);
                }
                return true;
            }
            i += 1;
        }
        false
    }

    fn has_change(&self, c: ScanChange) -> (r: bool)
        ensures
            r == self@.has_change(c),
    {
        let mut i: usize = 0;
        while i < self.found_files.len()
            invariant
                i <= self.found_files@.len(),
                forall|t: int| 0 <= t < i ==> self@.found_files[t].change != c,
            decreases self.found_files@.len() - i,
        {
            if self.found_files[i].change == c {
                proof {
                    assert(self@.found_files[i as int].change == c);
                }
                return true;
            }
            i += 1;
        }
        let mut k: usize = 0;
        while k < self.found_registry_keys.len()
            invariant
                k <= self.found_registry_keys@.len(),
                forall|t: int| 0 <= t < i ==> self@.found_files[t].change != c,
                i == self.found_files@.len(),
                forall|t: int| 0 <= t < k ==> !self@.found_registry_keys[t].has_change(c),
            decreases self.found_registry_keys@.len() - k,
        {
            if self.found_registry_keys[k].key_has_change(c) {
                proof {
                    assert(self@.found_registry_keys[k as int].has_change(c));
                }
                return true;
            }
            k += 1;
        }
        false
    }

    /// The game's overall change classification.
    pub fn overall_change(&self) -> (r: ScanChange)
        ensures
            r == self@.spec_overall_change(),
    {
        let any_new = self.has_change(ScanChange::New);
        let any_different = self.has_change(ScanChange::Different);
        let any_settled = self.has_change(ScanChange::Same) || self.has_change(ScanChange::Unknown);
        if any_new && !any_different && !any_settled {
            ScanChange::New
        } else if any_new || any_different {
            ScanChange::Different
        } else if any_settled {
            ScanChange::Same
        } else {
            ScanChange::Unknown
        }
    }

    /// The total size of the found files; with a backup result given, only
    /// of the files it does not record as failed.
    pub fn sum_bytes(&self, backup: Option<&BackupInfo>) -> (r: u64)
        requires
            self@.wf(),
        ensures
            r == match backup {
                Some(b) => sum_included(self@.found_files, b@.failed_files),
                None => sum_sizes(self@.found_files),
            },
    {
        let ghost files = self@.found_files;
        let mut acc: u64 = 0;
        let mut i: usize = 0;
        proof {
            assert(files.take(0) =~= Seq::<ScannedFileModel>::empty());
        }
        match backup {
            Some(b) => {
                while i < self.found_files.len()
                    invariant
                        i <= self.found_files@.len(),
                        files == self@.found_files,
                        self@.wf(),
                        acc == sum_included(files.take(i as int), b@.failed_files),
                        acc <= sum_sizes(files.take(i as int)),
                    decreases self.found_files@.len() - i,
                {
                    proof {
                        assert(files.take(i as int + 1).drop_last() =~= files.take(i as int));
                        assert(files.take(i as int + 1).last() == files[i as int]);
                        lemma_sum_sizes_prefix(files, i as int + 1);
                    }
                    if !b.is_file_failed(&self.found_files[i]) {
                        acc = acc + self.found_files[i].size;
                    }
                    i += 1;
                }
                proof {
                    assert(files.take(self.found_files@.len() as int) =~= files);
                }
                acc
            },
            None => {
                while i < self.found_files.len()
                    invariant
                        i <= self.found_files@.len(),
                        files == self@.found_files,
                        self@.wf(),
                        acc == sum_sizes(files.take(i as int)),
                    decreases self.found_files@.len() - i,
                {
                    proof {
                        assert(files.take(i as int + 1).drop_last() =~= files.take(i as int));
                        assert(files.take(i as int + 1).last() == files[i as int]);
                        lemma_sum_sizes_prefix(files, i as int + 1);
                    }
                    acc = acc + self.found_files[i].size;
                    i += 1;
                }
                proof {
                    assert(files.take(self.found_files@.len() as int) =~= files);
                }
                acc
            },
        }
    }
}

} // verus!
