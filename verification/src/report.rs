//! The report accumulator: fed once per game by the driver, then rendered
//! exactly once, either as console text or as the structured document.

use vstd::prelude::*;

use crate::backup::{Backup, BackupModel};
use crate::change::{OperationStepDecision, ScanChange};
use crate::document::{
    backup_views, document_text, render_document, ApiFile, ApiFileModel, ApiGame, ApiGameModel,
    ApiRegistry, ApiRegistryModel, ApiRegistryValue, ApiRegistryValueModel, JsonOutput,
    JsonOutputModel, file_entry_views, game_entry_views, reg_entry_views, value_entry_views,
};
use crate::duplicates::{
    duplication_of, lookup, lookup2, sharer_names, spec_game_duplication, DuplicateDetector,
    SharersModel,
};
use crate::errors::{ApiErrors, ApiErrorsModel};
use crate::fmt::{dec_str, push_size, push_u64, size_str};
use crate::order::{ranked_views, sort_ranked, spec_sort_ranked, RankedKey};
use crate::scan::{
    contains_file, contains_str, str_views, sum_included, sum_sizes, BackupInfo, BackupInfoModel,
    ScanInfo, ScanInfoModel, ScannedFile, ScannedFileModel, ScannedRegistry, ScannedRegistryModel,
    ScannedRegistryValueModel,
};
use crate::status::{zero_status, OperationStatus};

verus! {

// ------------------------------------------------------------------
// Sort keys for the report's deterministic iteration order.
// ------------------------------------------------------------------
pub open spec fn file_keys(files: Seq<ScannedFileModel>, restoring: bool) -> Seq<RankedKey> {
    Seq::new(files.len(), |i: int| (0u64, files[i].spec_readable(restoring), i as usize))
}

pub open spec fn reg_keys(keys: Seq<ScannedRegistryModel>) -> Seq<RankedKey> {
    Seq::new(keys.len(), |i: int| (0u64, keys[i].path, i as usize))
}

pub open spec fn value_keys(values: Seq<ScannedRegistryValueModel>) -> Seq<RankedKey> {
    Seq::new(values.len(), |i: int| (0u64, values[i].name, i as usize))
}

pub open spec fn name_keys(names: Seq<Seq<char>>) -> Seq<RankedKey> {
    Seq::new(names.len(), |i: int| (0u64, names[i], i as usize))
}

// ------------------------------------------------------------------
// Who else shares an entry.
// ------------------------------------------------------------------
/// The names with the owning game's own name removed.
pub open spec fn names_without(names: Seq<Seq<char>>, own: Seq<char>) -> Seq<Seq<char>>
    decreases names.len(),
{
    if names.len() == 0 {
        Seq::empty()
    } else {
        names_without(names.drop_last(), own) + if names.last() == own {
            Seq::<Seq<char>>::empty()
        } else {
            seq![names.last()]
        }
    }
}

/// The names arranged into the report order.
pub open spec fn sorted_names(names: Seq<Seq<char>>) -> Seq<Seq<char>> {
    spec_sort_ranked(name_keys(names)).map_values(|t: RankedKey| t.1)
}

/// The sharer list an entry reports: empty while the entry is resolved,
/// otherwise every sharing game but the owner, sorted.
pub open spec fn spec_duplicated_by(games: SharersModel, own: Seq<char>) -> Seq<Seq<char>> {
    if duplication_of(games).spec_resolved() {
        Seq::empty()
    } else {
        sorted_names(names_without(sharer_names(games), own))
    }
}

fn filter_own(names: Vec<String>, own: &String) -> (r: Vec<String>)
    ensures
        str_views(r@) == names_without(str_views(names@), own@),
{
    let ghost nv = str_views(names@);
    let mut out: Vec<String> = Vec::new();
    let mut i: usize = 0;
    proof {
        assert(nv.take(0) =~= Seq::<Seq<char>>::empty());
        assert(str_views(out@) =~= names_without(nv.take(0), own@));
    }
    while i < names.len()
        invariant
            i <= names@.len(),
            nv == str_views(names@),
            str_views(out@) == names_without(nv.take(i as int), own@),
        decreases names@.len() - i,
    {
        let ghost pre = out@;
        proof {
            assert(str_views(pre).len() == pre.len());
            assert(nv.take(i as int + 1).drop_last() =~= nv.take(i as int));
            assert(nv.take(i as int + 1).last() == nv[i as int]);
        }
        if names[i] != *own {
            out.push(names[i].clone());
            proof {
                assert(str_views(out@) =~= names_without(nv.take(i as int + 1), own@));
            }
        } else {
            proof {
                assert(str_views(out@) =~= names_without(nv.take(i as int + 1), own@));
            }
        }
        i += 1;
    }
    proof {
        assert(nv.take(names@.len() as int) =~= nv);
    }
    out
}

fn sort_names(names: Vec<String>) -> (r: Vec<String>)
    ensures
        str_views(r@) == sorted_names(str_views(names@)),
{
    let ghost nv = str_views(names@);
    let mut keys: Vec<(u64, String, usize)> = Vec::new();
    let mut i: usize = 0;
    proof {
        assert(ranked_views(keys@) =~= name_keys(nv).take(0));
    }
    while i < names.len()
        invariant
            i <= names@.len(),
            nv == str_views(names@),
            ranked_views(keys@) == name_keys(nv).take(i as int),
        decreases names@.len() - i,
    {
        let ghost pre = keys@;
        proof {
            assert(ranked_views(pre).len() == pre.len());
            assert(name_keys(nv).take(i as int).len() == i);
        }
        keys.push((0u64, names[i].clone(), i));
        proof {
            assert(ranked_views(keys@) =~= name_keys(nv).take(i as int + 1));
        }
        i += 1;
    }
    proof {
        assert(name_keys(nv).take(names@.len() as int) =~= name_keys(nv));
    }
    let sorted = sort_ranked(keys);
    let ghost order = spec_sort_ranked(name_keys(nv));
    let ghost target = order.map_values(|t: RankedKey| t.1);
    proof {
        crate::order::lemma_sort_ranked_len(name_keys(nv));
    }
    let mut out: Vec<String> = Vec::new();
    let mut k: usize = 0;
    proof {
        assert(str_views(out@) =~= target.take(0));
    }
    while k < sorted.len()
        invariant
            k <= sorted@.len(),
            ranked_views(sorted@) == order,
            order.len() == sorted@.len(),
            target == order.map_values(|t: RankedKey| t.1),
            str_views(out@) == target.take(k as int),
        decreases sorted@.len() - k,
    {
        let ghost pre = out@;
        proof {
            assert(str_views(pre).len() == pre.len());
            assert(target.take(k as int).len() == k);
            assert(ranked_views(sorted@)[k as int] == order[k as int]);
            assert(target[k as int] == order[k as int].1);
        }
        out.push(sorted[k].1.clone());
        proof {
            assert(str_views(out@) =~= target.take(k as int + 1));
        }
        k += 1;
    }
    proof {
        assert(target.take(sorted@.len() as int) =~= target);
    }
    out
}

fn duplicated_by_list(names: Vec<String>, own: &String) -> (r: Vec<String>)
    ensures
        str_views(r@) == sorted_names(names_without(str_views(names@), own@)),
{
    let filtered = filter_own(names, own);
    sort_names(filtered)
}

// ------------------------------------------------------------------
// One game's structured entry.
// ------------------------------------------------------------------
/// One found file mapped to its reported form.
pub open spec fn spec_api_file(
    scan: ScanInfoModel,
    backup: BackupInfoModel,
    det: crate::duplicates::DetectorModel,
    f: ScannedFileModel,
) -> ApiFileModel {
    let restoring = scan.restoring();
    let alt = f.spec_alt(restoring);
    ApiFileModel {
        failed: contains_file(backup.failed_files, f),
        ignored: f.ignored,
        change: f.change,
        bytes: f.size,
        original_path: if restoring {
            alt
        } else {
            None
        },
        redirected_path: if restoring {
            None
        } else {
            alt
        },
        duplicated_by: spec_duplicated_by(lookup(det.files, f.path), scan.game_name),
    }
}

/// One registry value mapped to its reported form.
pub open spec fn spec_api_registry_value(
    scan: ScanInfoModel,
    det: crate::duplicates::DetectorModel,
    key_path: Seq<char>,
    v: ScannedRegistryValueModel,
) -> ApiRegistryValueModel {
    ApiRegistryValueModel {
        ignored: v.ignored,
        change: v.change,
        duplicated_by: spec_duplicated_by(
            lookup2(det.registry_values, (key_path, v.name)),
            scan.game_name,
        ),
    }
}

/// Appends a keyed entry, overwriting an immediately preceding entry with
/// the same key, as a map insert would.
pub open spec fn dedup_push<V>(entries: Seq<(Seq<char>, V)>, k: Seq<char>, v: V) -> Seq<
    (Seq<char>, V),
> {
    if entries.len() > 0 && entries.last().0 == k {
        entries.drop_last().push((k, v))
    } else {
        entries.push((k, v))
    }
}

pub open spec fn value_entries_upto(
    scan: ScanInfoModel,
    det: crate::duplicates::DetectorModel,
    k: ScannedRegistryModel,
    order: Seq<RankedKey>,
) -> Seq<(Seq<char>, ApiRegistryValueModel)>
    decreases order.len(),
{
    if order.len() == 0 {
        Seq::empty()
    } else {
        let pos = order.last().2 as int;
        dedup_push(
            value_entries_upto(scan, det, k, order.drop_last()),
            k.values[pos].name,
            spec_api_registry_value(scan, det, k.path, k.values[pos]),
        )
    }
}

/// One registry key's values, sorted by name.
pub open spec fn spec_value_entries(
    scan: ScanInfoModel,
    det: crate::duplicates::DetectorModel,
    k: ScannedRegistryModel,
) -> Seq<(Seq<char>, ApiRegistryValueModel)> {
    value_entries_upto(scan, det, k, spec_sort_ranked(value_keys(k.values)))
}

/// One found registry key mapped to its reported form.
pub open spec fn spec_api_registry(
    scan: ScanInfoModel,
    backup: BackupInfoModel,
    det: crate::duplicates::DetectorModel,
    k: ScannedRegistryModel,
) -> ApiRegistryModel {
    ApiRegistryModel {
        failed: contains_str(backup.failed_registry, k.path),
        ignored: k.ignored,
        change: k.change,
        duplicated_by: spec_duplicated_by(lookup(det.registry, k.path), scan.game_name),
        values: spec_value_entries(scan, det, k),
    }
}

pub open spec fn file_entries_upto(
    scan: ScanInfoModel,
    backup: BackupInfoModel,
    det: crate::duplicates::DetectorModel,
    order: Seq<RankedKey>,
) -> Seq<(Seq<char>, ApiFileModel)>
    decreases order.len(),
{
    if order.len() == 0 {
        Seq::empty()
    } else {
        let pos = order.last().2 as int;
        dedup_push(
            file_entries_upto(scan, backup, det, order.drop_last()),
            scan.found_files[pos].spec_readable(scan.restoring()),
            spec_api_file(scan, backup, det, scan.found_files[pos]),
        )
    }
}

/// The game's file map, keyed by rendered path, sorted.
pub open spec fn spec_file_entries(
    scan: ScanInfoModel,
    backup: BackupInfoModel,
    det: crate::duplicates::DetectorModel,
) -> Seq<(Seq<char>, ApiFileModel)> {
    file_entries_upto(
        scan,
        backup,
        det,
        spec_sort_ranked(file_keys(scan.found_files, scan.restoring())),
    )
}

pub open spec fn registry_entries_upto(
    scan: ScanInfoModel,
    backup: BackupInfoModel,
    det: crate::duplicates::DetectorModel,
    order: Seq<RankedKey>,
) -> Seq<(Seq<char>, ApiRegistryModel)>
    decreases order.len(),
{
    if order.len() == 0 {
        Seq::empty()
    } else {
        let pos = order.last().2 as int;
        dedup_push(
            registry_entries_upto(scan, backup, det, order.drop_last()),
            scan.found_registry_keys[pos].path,
            spec_api_registry(scan, backup, det, scan.found_registry_keys[pos]),
        )
    }
}

/// The game's registry map, keyed by key path, sorted.
pub open spec fn spec_registry_entries(
    scan: ScanInfoModel,
    backup: BackupInfoModel,
    det: crate::duplicates::DetectorModel,
) -> Seq<(Seq<char>, ApiRegistryModel)> {
    registry_entries_upto(
        scan,
        backup,
        det,
        spec_sort_ranked(reg_keys(scan.found_registry_keys)),
    )
}

/// The full structured entry of one operated-on game.
pub open spec fn spec_operative(
    scan: ScanInfoModel,
    backup: BackupInfoModel,
    det: crate::duplicates::DetectorModel,
    decision: OperationStepDecision,
) -> ApiGameModel {
    ApiGameModel::Operative {
        decision,
        change: scan.spec_overall_change(),
        files: spec_file_entries(scan, backup, det),
        registry: spec_registry_entries(scan, backup, det),
    }
}

fn make_api_file(
    scan: &ScanInfo,
    backup: &BackupInfo,
    det: &DuplicateDetector,
    f: &ScannedFile,
    restoring: bool,
) -> (r: ApiFile)
    requires
        restoring == scan@.restoring(),
    ensures
        r@ == spec_api_file(scan@, backup@, det@, f@),
{
    let alt = f.alt_readable(restoring);
    let (original_path, redirected_path) = if restoring {
        (alt, None)
    } else {
        (None, alt)
    };
    let duplicated_by = if !det.is_file_duplicated(f).resolved() {
        duplicated_by_list(det.file(f), &scan.game_name)
    } else {
        Vec::new()
    };
    let r = ApiFile {
        failed: backup.is_file_failed(f),
        ignored: f.ignored,
        change: f.change,
        bytes: f.size,
        original_path,
        redirected_path,
        duplicated_by,
    };
    proof {
        if duplication_of(lookup(det@.files, f@.path)).spec_resolved() {
            assert(str_views(r.duplicated_by@) =~= Seq::<Seq<char>>::empty());
        }
    }
    r
}

fn make_api_value(
    scan: &ScanInfo,
    det: &DuplicateDetector,
    key_path: &String,
    ignored: bool,
    change: ScanChange,
    name: &String,
) -> (r: ApiRegistryValue)
    ensures
        r@ == (ApiRegistryValueModel {
            ignored,
            change,
            duplicated_by: spec_duplicated_by(
                lookup2(det@.registry_values, (key_path@, name@)),
                scan@.game_name,
            ),
        }),
{
    let duplicated_by = if !det.is_registry_value_duplicated(key_path, name).resolved() {
        duplicated_by_list(det.registry_value(key_path, name), &scan.game_name)
    } else {
        Vec::new()
    };
    let r = ApiRegistryValue { ignored, change, duplicated_by };
    proof {
        if duplication_of(lookup2(det@.registry_values, (key_path@, name@))).spec_resolved() {
            assert(str_views(r.duplicated_by@) =~= Seq::<Seq<char>>::empty());
        }
    }
    r
}

fn build_value_entries(scan: &ScanInfo, det: &DuplicateDetector, k: &ScannedRegistry) -> (r: Vec<
    (String, ApiRegistryValue),
>)
    ensures
        value_entry_views(r@) == spec_value_entries(scan@, det@, k@),
{
    let ghost vv = k@.values;
    let mut keys: Vec<(u64, String, usize)> = Vec::new();
    let mut i: usize = 0;
    proof {
        assert(ranked_views(keys@) =~= value_keys(vv).take(0));
    }
    while i < k.values.len()
        invariant
            i <= k.values@.len(),
            vv == k@.values,
            vv.len() == k.values@.len(),
            ranked_views(keys@) == value_keys(vv).take(i as int),
        decreases k.values@.len() - i,
    {
        let ghost pre = keys@;
        proof {
            assert(ranked_views(pre).len() == pre.len());
            assert(value_keys(vv).take(i as int).len() == i);
            assert(vv[i as int].name == k.values@[i as int].name@);
        }
        keys.push((0u64, k.values[i].name.clone(), i));
        proof {
            assert(ranked_views(keys@) =~= value_keys(vv).take(i as int + 1));
        }
        i += 1;
    }
    proof {
        assert(value_keys(vv).take(k.values@.len() as int) =~= value_keys(vv));
    }
    let sorted = sort_ranked(keys);
    let ghost order = spec_sort_ranked(value_keys(vv));
    proof {
        assert forall|t: int| 0 <= t < value_keys(vv).len() implies (#[trigger] value_keys(
            vv,
        )[t]).2 < k.values@.len() by {}
        crate::order::lemma_sort_ranked_positions(value_keys(vv), k.values.len());
        crate::order::lemma_sort_ranked_len(value_keys(vv));
    }
    let mut entries: Vec<(String, ApiRegistryValue)> = Vec::new();
    let mut t: usize = 0;
    proof {
        assert(order.take(0) =~= Seq::<RankedKey>::empty());
        assert(value_entry_views(entries@) =~= value_entries_upto(scan@, det@, k@, order.take(0)));
    }
    while t < sorted.len()
        invariant
            t <= sorted@.len(),
            vv == k@.values,
            vv.len() == k.values@.len(),
            ranked_views(sorted@) == order,
            order == spec_sort_ranked(value_keys(vv)),
            order.len() == sorted@.len(),
            forall|u: int| 0 <= u < order.len() ==> (#[trigger] order[u]).2 < k.values@.len(),
            value_entry_views(entries@) == value_entries_upto(scan@, det@, k@, order.take(t as int)),
        decreases sorted@.len() - t,
    {
        proof {
            assert(ranked_views(sorted@)[t as int] == order[t as int]);
            assert(order.take(t as int + 1).drop_last() =~= order.take(t as int));
            assert(order.take(t as int + 1).last() == order[t as int]);
        }
        let pos = sorted[t].2;
        let ghost pre = value_entry_views(entries@);
        proof {
            assert(pre.len() == entries@.len());
            assert(vv[pos as int].name == k.values@[pos as int].name@);
            assert(vv[pos as int].ignored == k.values@[pos as int].ignored);
            assert(vv[pos as int].change == k.values@[pos as int].change);
        }
        let key = k.values[pos].name.clone();
        let value = make_api_value(scan, det, &k.path, k.values[pos].ignored, k.values[pos].change, &key);
        if entries.len() > 0 {
            let last = entries.len() - 1;
            if entries[last].0 == key {
                entries.set(last, (key, value));
                proof {
                    assert(value_entry_views(entries@) =~= pre.drop_last().push(
                        (vv[pos as int].name, spec_api_registry_value(scan@, det@, k@.path, vv[pos as int])),
                    ));
                }
            } else {
                entries.push((key, value));
                proof {
                    assert(value_entry_views(entries@) =~= pre.push(
                        (vv[pos as int].name, spec_api_registry_value(scan@, det@, k@.path, vv[pos as int])),
                    ));
                }
            }
        } else {
            entries.push((key, value));
            proof {
                assert(value_entry_views(entries@) =~= pre.push(
                    (vv[pos as int].name, spec_api_registry_value(scan@, det@, k@.path, vv[pos as int])),
                ));
            }
        }
        t += 1;
    }
    proof {
        assert(order.take(sorted@.len() as int) =~= order);
    }
    entries
}

fn make_api_registry(
    scan: &ScanInfo,
    backup: &BackupInfo,
    det: &DuplicateDetector,
    k: &ScannedRegistry,
) -> (r: ApiRegistry)
    ensures
        r@ == spec_api_registry(scan@, backup@, det@, k@),
{
    let duplicated_by = if !det.is_registry_duplicated(&k.path).resolved() {
        duplicated_by_list(det.registry(&k.path), &scan.game_name)
    } else {
        Vec::new()
    };
    let values = build_value_entries(scan, det, k);
    let r = ApiRegistry {
        failed: backup.is_registry_failed(&k.path),
        ignored: k.ignored,
        change: k.change,
        duplicated_by,
        values,
    };
    proof {
        if duplication_of(lookup(det@.registry, k@.path)).spec_resolved() {
            assert(str_views(r.duplicated_by@) =~= Seq::<Seq<char>>::empty());
        }
    }
    r
}

fn build_file_entries(scan: &ScanInfo, backup: &BackupInfo, det: &DuplicateDetector) -> (r: Vec<
    (String, ApiFile),
>)
    ensures
        file_entry_views(r@) == spec_file_entries(scan@, backup@, det@),
{
    let restoring = scan.restoring();
    let ghost fv = scan@.found_files;
    let mut keys: Vec<(u64, String, usize)> = Vec::new();
    let mut i: usize = 0;
    proof {
        assert(ranked_views(keys@) =~= file_keys(fv, restoring).take(0));
    }
    while i < scan.found_files.len()
        invariant
            i <= scan.found_files@.len(),
            fv == scan@.found_files,
            fv.len() == scan.found_files@.len(),
            restoring == scan@.restoring(),
            ranked_views(keys@) == file_keys(fv, restoring).take(i as int),
        decreases scan.found_files@.len() - i,
    {
        let ghost pre = keys@;
        proof {
            assert(ranked_views(pre).len() == pre.len());
            assert(file_keys(fv, restoring).take(i as int).len() == i);
            assert(fv[i as int] == scan.found_files@[i as int]@);
        }
        keys.push((0u64, scan.found_files[i].readable(restoring), i));
        proof {
            assert(ranked_views(keys@) =~= file_keys(fv, restoring).take(i as int + 1));
        }
        i += 1;
    }
    proof {
        assert(file_keys(fv, restoring).take(scan.found_files@.len() as int) =~= file_keys(
            fv,
            restoring,
        ));
    }
    let sorted = sort_ranked(keys);
    let ghost order = spec_sort_ranked(file_keys(fv, restoring));
    proof {
        assert forall|t: int| 0 <= t < file_keys(fv, restoring).len() implies (#[trigger] file_keys(
            fv,
            restoring,
        )[t]).2 < scan.found_files@.len() by {}
        crate::order::lemma_sort_ranked_positions(file_keys(fv, restoring), scan.found_files.len());
        crate::order::lemma_sort_ranked_len(file_keys(fv, restoring));
    }
    let mut entries: Vec<(String, ApiFile)> = Vec::new();
    let mut t: usize = 0;
    proof {
        assert(order.take(0) =~= Seq::<RankedKey>::empty());
        assert(file_entry_views(entries@) =~= file_entries_upto(
            scan@,
            backup@,
            det@,
            order.take(0),
        ));
    }
    while t < sorted.len()
        invariant
            t <= sorted@.len(),
            fv == scan@.found_files,
            fv.len() == scan.found_files@.len(),
            restoring == scan@.restoring(),
            ranked_views(sorted@) == order,
            order == spec_sort_ranked(file_keys(fv, restoring)),
            order.len() == sorted@.len(),
            forall|u: int| 0 <= u < order.len() ==> (#[trigger] order[u]).2 < scan.found_files@.len(),
            file_entry_views(entries@) == file_entries_upto(scan@, backup@, det@, order.take(t as int)),
        decreases sorted@.len() - t,
    {
        proof {
            assert(ranked_views(sorted@)[t as int] == order[t as int]);
            assert(order.take(t as int + 1).drop_last() =~= order.take(t as int));
            assert(order.take(t as int + 1).last() == order[t as int]);
        }
        let pos = sorted[t].2;
        let ghost pre = file_entry_views(entries@);
        proof {
            assert(pre.len() == entries@.len());
            assert(fv[pos as int] == scan.found_files@[pos as int]@);
        }
        let key = scan.found_files[pos].readable(restoring);
        let value = make_api_file(scan, backup, det, &scan.found_files[pos], restoring);
        if entries.len() > 0 {
            let last = entries.len() - 1;
            if entries[last].0 == key {
                entries.set(last, (key, value));
                proof {
                    assert(file_entry_views(entries@) =~= pre.drop_last().push(
                        (
                            fv[pos as int].spec_readable(restoring),
                            spec_api_file(scan@, backup@, det@, fv[pos as int]),
                        ),
                    ));
                }
            } else {
                entries.push((key, value));
                proof {
                    assert(file_entry_views(entries@) =~= pre.push(
                        (
                            fv[pos as int].spec_readable(restoring),
                            spec_api_file(scan@, backup@, det@, fv[pos as int]),
                        ),
                    ));
                }
            }
        } else {
            entries.push((key, value));
            proof {
                assert(file_entry_views(entries@) =~= pre.push(
                    (
                        fv[pos as int].spec_readable(restoring),
                        spec_api_file(scan@, backup@, det@, fv[pos as int]),
                    ),
                ));
            }
        }
        t += 1;
    }
    proof {
        assert(order.take(sorted@.len() as int) =~= order);
    }
    entries
}

fn build_registry_entries(scan: &ScanInfo, backup: &BackupInfo, det: &DuplicateDetector) -> (r: Vec<
    (String, ApiRegistry),
>)
    ensures
        reg_entry_views(r@) == spec_registry_entries(scan@, backup@, det@),
{
    let ghost kv = scan@.found_registry_keys;
    let mut keys: Vec<(u64, String, usize)> = Vec::new();
    let mut i: usize = 0;
    proof {
        assert(ranked_views(keys@) =~= reg_keys(kv).take(0));
    }
    while i < scan.found_registry_keys.len()
        invariant
            i <= scan.found_registry_keys@.len(),
            kv == scan@.found_registry_keys,
            kv.len() == scan.found_registry_keys@.len(),
            ranked_views(keys@) == reg_keys(kv).take(i as int),
        decreases scan.found_registry_keys@.len() - i,
    {
        let ghost pre = keys@;
        proof {
            assert(ranked_views(pre).len() == pre.len());
            assert(reg_keys(kv).take(i as int).len() == i);
            assert(kv[i as int].path == scan.found_registry_keys@[i as int].path@);
        }
        keys.push((0u64, scan.found_registry_keys[i].path.clone(), i));
        proof {
            assert(ranked_views(keys@) =~= reg_keys(kv).take(i as int + 1));
        }
        i += 1;
    }
    proof {
        assert(reg_keys(kv).take(scan.found_registry_keys@.len() as int) =~= reg_keys(kv));
    }
    let sorted = sort_ranked(keys);
    let ghost order = spec_sort_ranked(reg_keys(kv));
    proof {
        assert forall|t: int| 0 <= t < reg_keys(kv).len() implies (#[trigger] reg_keys(kv)[t]).2
            < scan.found_registry_keys@.len() by {}
        crate::order::lemma_sort_ranked_positions(reg_keys(kv), scan.found_registry_keys.len());
        crate::order::lemma_sort_ranked_len(reg_keys(kv));
    }
    let mut entries: Vec<(String, ApiRegistry)> = Vec::new();
    let mut t: usize = 0;
    proof {
        assert(order.take(0) =~= Seq::<RankedKey>::empty());
        assert(reg_entry_views(entries@) =~= registry_entries_upto(
            scan@,
            backup@,
            det@,
            order.take(0),
        ));
    }
    while t < sorted.len()
        invariant
            t <= sorted@.len(),
            kv == scan@.found_registry_keys,
            kv.len() == scan.found_registry_keys@.len(),
            ranked_views(sorted@) == order,
            order == spec_sort_ranked(reg_keys(kv)),
            order.len() == sorted@.len(),
            forall|u: int|
                0 <= u < order.len() ==> (#[trigger] order[u]).2 < scan.found_registry_keys@.len(),
            reg_entry_views(entries@) == registry_entries_upto(
                scan@,
                backup@,
                det@,
                order.take(t as int),
            ),
        decreases sorted@.len() - t,
    {
        proof {
            assert(ranked_views(sorted@)[t as int] == order[t as int]);
            assert(order.take(t as int + 1).drop_last() =~= order.take(t as int));
            assert(order.take(t as int + 1).last() == order[t as int]);
        }
        let pos = sorted[t].2;
        let ghost pre = reg_entry_views(entries@);
        proof {
            assert(pre.len() == entries@.len());
            assert(kv[pos as int] == scan.found_registry_keys@[pos as int]@);
        }
        let key = scan.found_registry_keys[pos].path.clone();
        let value = make_api_registry(scan, backup, det, &scan.found_registry_keys[pos]);
        if entries.len() > 0 {
            let last = entries.len() - 1;
            if entries[last].0 == key {
                entries.set(last, (key, value));
                proof {
                    assert(reg_entry_views(entries@) =~= pre.drop_last().push(
                        (kv[pos as int].path, spec_api_registry(scan@, backup@, det@, kv[pos as int])),
                    ));
                }
            } else {
                entries.push((key, value));
                proof {
                    assert(reg_entry_views(entries@) =~= pre.push(
                        (kv[pos as int].path, spec_api_registry(scan@, backup@, det@, kv[pos as int])),
                    ));
                }
            }
        } else {
            entries.push((key, value));
            proof {
                assert(reg_entry_views(entries@) =~= pre.push(
                    (kv[pos as int].path, spec_api_registry(scan@, backup@, det@, kv[pos as int])),
                ));
            }
        }
        t += 1;
    }
    proof {
        assert(order.take(sorted@.len() as int) =~= order);
    }
    entries
}

fn build_operative(
    scan: &ScanInfo,
    backup: &BackupInfo,
    det: &DuplicateDetector,
    decision: OperationStepDecision,
) -> (r: ApiGame)
    ensures
        r@ == spec_operative(scan@, backup@, det@, decision),
{
    ApiGame::Operative {
        decision,
        change: scan.overall_change(),
        files: build_file_entries(scan, backup, det),
        registry: build_registry_entries(scan, backup, det),
    }
}

// ------------------------------------------------------------------
// Console lines.
// ------------------------------------------------------------------
/// One entry line: indentation, bracketed markers for failure, ignoring,
/// duplication and a flagged change, then the entry's label.
pub open spec fn line_item(
    label: Seq<char>,
    successful: bool,
    ignored: bool,
    duplicated: bool,
    change: ScanChange,
    nested: bool,
) -> Seq<char> {
    (if nested {
        "    - "@
    } else {
        "  - "@
    }) + (if !successful {
        "[FAILED] "@
    } else {
        Seq::<char>::empty()
    }) + (if ignored {
        "[IGNORED] "@
    } else {
        Seq::<char>::empty()
    }) + (if duplicated {
        "[DUPLICATED] "@
    } else {
        Seq::<char>::empty()
    }) + (match change.spec_badge() {
        Some(b) => b + " "@,
        None => Seq::<char>::empty(),
    }) + label
}

/// The game header: name and size always, then markers only when the game
/// was skipped, has duplicates, or carries a flagged overall change.
pub open spec fn header_line(
    name: Seq<char>,
    bytes: u64,
    decision: OperationStepDecision,
    duplicated: bool,
    change: ScanChange,
) -> Seq<char> {
    name + " ["@ + size_str(bytes) + "]"@ + (if decision == OperationStepDecision::Ignored {
        " [IGNORED]"@
    } else {
        Seq::<char>::empty()
    }) + (if duplicated {
        " [DUPLICATES]"@
    } else {
        Seq::<char>::empty()
    }) + (match change.spec_badge() {
        Some(b) => " "@ + b,
        None => Seq::<char>::empty(),
    }) + ":"@
}

/// The indented line beneath a file with an alternate path: where it was
/// redirected from during a restore, or to during a backup.
pub open spec fn alt_line(restoring: bool, alt: Seq<char>) -> Seq<char> {
    if restoring {
        "    - Redirected from: "@ + alt
    } else {
        "    - Redirected to: "@ + alt
    }
}

pub open spec fn spec_file_line(
    scan: ScanInfoModel,
    backup: BackupInfoModel,
    det: crate::duplicates::DetectorModel,
    f: ScannedFileModel,
) -> Seq<char> {
    line_item(
        f.spec_readable(scan.restoring()),
        !contains_file(backup.failed_files, f),
        f.ignored,
        !duplication_of(lookup(det.files, f.path)).spec_resolved(),
        f.change,
        false,
    )
}

pub open spec fn file_line_group(
    scan: ScanInfoModel,
    backup: BackupInfoModel,
    det: crate::duplicates::DetectorModel,
    f: ScannedFileModel,
) -> Seq<Seq<char>> {
    match f.spec_alt(scan.restoring()) {
        Some(alt) => seq![
            spec_file_line(scan, backup, det, f),
            alt_line(scan.restoring(), alt),
        ],
        None => seq![spec_file_line(scan, backup, det, f)],
    }
}

pub open spec fn file_lines_upto(
    scan: ScanInfoModel,
    backup: BackupInfoModel,
    det: crate::duplicates::DetectorModel,
    order: Seq<RankedKey>,
) -> Seq<Seq<char>>
    decreases order.len(),
{
    if order.len() == 0 {
        Seq::empty()
    } else {
        file_lines_upto(scan, backup, det, order.drop_last()) + file_line_group(
            scan,
            backup,
            det,
            scan.found_files[order.last().2 as int],
        )
    }
}

pub open spec fn value_line(
    scan: ScanInfoModel,
    det: crate::duplicates::DetectorModel,
    key_path: Seq<char>,
    v: ScannedRegistryValueModel,
) -> Seq<char> {
    line_item(
        v.name,
        true,
        v.ignored,
        !duplication_of(lookup2(det.registry_values, (key_path, v.name))).spec_resolved(),
        v.change,
        true,
    )
}

pub open spec fn value_lines_upto(
    scan: ScanInfoModel,
    det: crate::duplicates::DetectorModel,
    k: ScannedRegistryModel,
    order: Seq<RankedKey>,
) -> Seq<Seq<char>>
    decreases order.len(),
{
    if order.len() == 0 {
        Seq::empty()
    } else {
        value_lines_upto(scan, det, k, order.drop_last()).push(
            value_line(scan, det, k.path, k.values[order.last().2 as int]),
        )
    }
}

pub open spec fn reg_line_group(
    scan: ScanInfoModel,
    backup: BackupInfoModel,
    det: crate::duplicates::DetectorModel,
    k: ScannedRegistryModel,
) -> Seq<Seq<char>> {
    seq![
        line_item(
            k.path,
            !contains_str(backup.failed_registry, k.path),
            k.ignored,
            !duplication_of(lookup(det.registry, k.path)).spec_resolved(),
            k.change,
            false,
        ),
    ] + value_lines_upto(scan, det, k, spec_sort_ranked(value_keys(k.values)))
}

pub open spec fn reg_lines_upto(
    scan: ScanInfoModel,
    backup: BackupInfoModel,
    det: crate::duplicates::DetectorModel,
    order: Seq<RankedKey>,
) -> Seq<Seq<char>>
    decreases order.len(),
{
    if order.len() == 0 {
        Seq::empty()
    } else {
        reg_lines_upto(scan, backup, det, order.drop_last()) + reg_line_group(
            scan,
            backup,
            det,
            scan.found_registry_keys[order.last().2 as int],
        )
    }
}

/// Every console line one reported game appends: the header, one line per
/// file with its possible alternate-path line, one line per registry key
/// with its value lines, and a closing blank line, all in the report order.
pub open spec fn spec_game_lines(
    name: Seq<char>,
    scan: ScanInfoModel,
    backup: BackupInfoModel,
    det: crate::duplicates::DetectorModel,
    decision: OperationStepDecision,
) -> Seq<Seq<char>> {
    seq![
        header_line(
            name,
            sum_included(scan.found_files, backup.failed_files) as u64,
            decision,
            !spec_game_duplication(det, scan.game_name).spec_resolved(),
            scan.spec_overall_change(),
        ),
    ] + file_lines_upto(
        scan,
        backup,
        det,
        spec_sort_ranked(file_keys(scan.found_files, scan.restoring())),
    ) + reg_lines_upto(scan, backup, det, spec_sort_ranked(reg_keys(scan.found_registry_keys)))
        + seq![Seq::<char>::empty()]
}

fn line_item_string(
    label: &str,
    successful: bool,
    ignored: bool,
    duplicated: bool,
    change: ScanChange,
    nested: bool,
) -> (r: String)
    ensures
        r@ == line_item(label@, successful, ignored, duplicated, change, nested),
{
    let mut s = String::new();
    if nested {
        s.append("    - ");
    } else {
        s.append("  - ");
    }
    if !successful {
        s.append("[FAILED] ");
    }
    if ignored {
        s.append("[IGNORED] ");
    }
    if duplicated {
        s.append("[DUPLICATED] ");
    }
    match change.badge() {
        Some(b) => {
            s.append(b);
            s.append(" ");
        },
        None => {},
    }
    s.append(label);
    proof {
        assert(s@ =~= line_item(label@, successful, ignored, duplicated, change, nested));
    }
    s
}

fn header_line_string(
    name: &str,
    bytes: u64,
    decision: OperationStepDecision,
    duplicated: bool,
    change: ScanChange,
) -> (r: String)
    ensures
        r@ == header_line(name@, bytes, decision, duplicated, change),
{
    let mut s = String::new();
    s.append(name);
    s.append(" [");
    push_size(&mut s, bytes);
    s.append("]");
    if decision == OperationStepDecision::Ignored {
        s.append(" [IGNORED]");
    }
    if duplicated {
        s.append(" [DUPLICATES]");
    }
    match change.badge() {
        Some(b) => {
            s.append(" ");
            s.append(b);
        },
        None => {},
    }
    s.append(":");
    proof {
        assert(s@ =~= header_line(name@, bytes, decision, duplicated, change));
    }
    s
}

fn alt_line_string(restoring: bool, alt: &str) -> (r: String)
    ensures
        r@ == alt_line(restoring, alt@),
{
    let mut s = String::new();
    if restoring {
        s.append("    - Redirected from: ");
    } else {
        s.append("    - Redirected to: ");
    }
    s.append(alt);
    proof {
        assert(s@ =~= alt_line(restoring, alt@));
    }
    s
}

fn push_line(parts: &mut Vec<String>, line: String)
    ensures
        str_views(final(parts)@) == str_views(old(parts)@).push(line@),
{
    let ghost pre = parts@;
    proof {
        assert(str_views(pre).len() == pre.len());
    }
    parts.push(line);
    proof {
        assert(str_views(parts@) =~= str_views(pre).push(parts@.last()@));
    }
}

fn push_game_lines(
    parts: &mut Vec<String>,
    name: &str,
    scan: &ScanInfo,
    backup: &BackupInfo,
    decision: OperationStepDecision,
    det: &DuplicateDetector,
)
    requires
        scan@.wf(),
    ensures
        str_views(final(parts)@) == str_views(old(parts)@) + spec_game_lines(
            name@,
            scan@,
            backup@,
            det@,
            decision,
        ),
{
    let ghost base = str_views(old(parts)@);
    let restoring = scan.restoring();
    let bytes = scan.sum_bytes(Some(backup));
    proof {
        crate::scan::lemma_sum_included_bounds(scan@.found_files, backup@.failed_files);
        assert(bytes == sum_included(scan@.found_files, backup@.failed_files) as u64);
    }
    let duplicated = !det.is_game_duplicated(&scan.game_name).resolved();
    let change = scan.overall_change();
    push_line(parts, header_line_string(name, bytes, decision, duplicated, change));
    let ghost hdr = seq![
        header_line(
            name@,
            sum_included(scan@.found_files, backup@.failed_files) as u64,
            decision,
            !spec_game_duplication(det@, scan@.game_name).spec_resolved(),
            scan@.spec_overall_change(),
        ),
    ];
    proof {
        assert(str_views(parts@) =~= base + hdr);
    }
    // Files, in the report order.
    let ghost fv = scan@.found_files;
    let mut keys: Vec<(u64, String, usize)> = Vec::new();
    let mut i: usize = 0;
    proof {
        assert(ranked_views(keys@) =~= file_keys(fv, restoring).take(0));
    }
    while i < scan.found_files.len()
        invariant
            i <= scan.found_files@.len(),
            fv == scan@.found_files,
            fv.len() == scan.found_files@.len(),
            restoring == scan@.restoring(),
            ranked_views(keys@) == file_keys(fv, restoring).take(i as int),
        decreases scan.found_files@.len() - i,
    {
        let ghost pre = keys@;
        proof {
            assert(ranked_views(pre).len() == pre.len());
            assert(file_keys(fv, restoring).take(i as int).len() == i);
            assert(fv[i as int] == scan.found_files@[i as int]@);
        }
        keys.push((0u64, scan.found_files[i].readable(restoring), i));
        proof {
            assert(ranked_views(keys@) =~= file_keys(fv, restoring).take(i as int + 1));
        }
        i += 1;
    }
    proof {
        assert(file_keys(fv, restoring).take(scan.found_files@.len() as int) =~= file_keys(
            fv,
            restoring,
        ));
    }
    let sorted = sort_ranked(keys);
    let ghost forder = spec_sort_ranked(file_keys(fv, restoring));
    proof {
        assert forall|t: int| 0 <= t < file_keys(fv, restoring).len() implies (#[trigger] file_keys(
            fv,
            restoring,
        )[t]).2 < scan.found_files@.len() by {}
        crate::order::lemma_sort_ranked_positions(file_keys(fv, restoring), scan.found_files.len());
        crate::order::lemma_sort_ranked_len(file_keys(fv, restoring));
    }
    let mut t: usize = 0;
    proof {
        assert(forder.take(0) =~= Seq::<RankedKey>::empty());
        assert(str_views(parts@) =~= base + hdr + file_lines_upto(
            scan@,
            backup@,
            det@,
            forder.take(0),
        ));
    }
    while t < sorted.len()
        invariant
            t <= sorted@.len(),
            fv == scan@.found_files,
            fv.len() == scan.found_files@.len(),
            restoring == scan@.restoring(),
            ranked_views(sorted@) == forder,
            forder == spec_sort_ranked(file_keys(fv, restoring)),
            forder.len() == sorted@.len(),
            forall|u: int|
                0 <= u < forder.len() ==> (#[trigger] forder[u]).2 < scan.found_files@.len(),
            str_views(parts@) == base + hdr + file_lines_upto(
                scan@,
                backup@,
                det@,
                forder.take(t as int),
            ),
        decreases sorted@.len() - t,
    {
        proof {
            assert(ranked_views(sorted@)[t as int] == forder[t as int]);
            assert(forder.take(t as int + 1).drop_last() =~= forder.take(t as int));
            assert(forder.take(t as int + 1).last() == forder[t as int]);
        }
        let pos = sorted[t].2;
        let ghost before = str_views(parts@);
        proof {
            assert(fv[pos as int] == scan.found_files@[pos as int]@);
        }
        let f = &scan.found_files[pos];
        let label = f.readable(restoring);
        let line = line_item_string(
            label.as_str(),
            !backup.is_file_failed(f),
            f.ignored,
            !det.is_file_duplicated(f).resolved(),
            f.change,
            false,
        );
        push_line(parts, line);
        match f.alt_readable(restoring) {
            Some(alt) => {
                push_line(parts, alt_line_string(restoring, alt.as_str()));
                proof {
                    assert(str_views(parts@) =~= before + file_line_group(
                        scan@,
                        backup@,
                        det@,
                        fv[pos as int],
                    ));
                }
            },
            None => {
                proof {
                    assert(str_views(parts@) =~= before + file_line_group(
                        scan@,
                        backup@,
                        det@,
                        fv[pos as int],
                    ));
                }
            },
        }
        proof {
            assert(str_views(parts@) =~= base + hdr + file_lines_upto(
                scan@,
                backup@,
                det@,
                forder.take(t as int + 1),
            ));
        }
        t += 1;
    }
    proof {
        assert(forder.take(sorted@.len() as int) =~= forder);
    }
    let ghost flines = file_lines_upto(scan@, backup@, det@, forder);
    // Registry keys, in the report order, each with its values.
    let ghost kv = scan@.found_registry_keys;
    let mut rkeys: Vec<(u64, String, usize)> = Vec::new();
    let mut i2: usize = 0;
    proof {
        assert(ranked_views(rkeys@) =~= reg_keys(kv).take(0));
    }
    while i2 < scan.found_registry_keys.len()
        invariant
            i2 <= scan.found_registry_keys@.len(),
            kv == scan@.found_registry_keys,
            kv.len() == scan.found_registry_keys@.len(),
            ranked_views(rkeys@) == reg_keys(kv).take(i2 as int),
        decreases scan.found_registry_keys@.len() - i2,
    {
        let ghost pre = rkeys@;
        proof {
            assert(ranked_views(pre).len() == pre.len());
            assert(reg_keys(kv).take(i2 as int).len() == i2);
            assert(kv[i2 as int].path == scan.found_registry_keys@[i2 as int].path@);
        }
        rkeys.push((0u64, scan.found_registry_keys[i2].path.clone(), i2));
        proof {
            assert(ranked_views(rkeys@) =~= reg_keys(kv).take(i2 as int + 1));
        }
        i2 += 1;
    }
    proof {
        assert(reg_keys(kv).take(scan.found_registry_keys@.len() as int) =~= reg_keys(kv));
    }
    let rsorted = sort_ranked(rkeys);
    let ghost korder = spec_sort_ranked(reg_keys(kv));
    proof {
        assert forall|u: int| 0 <= u < reg_keys(kv).len() implies (#[trigger] reg_keys(kv)[u]).2
            < scan.found_registry_keys@.len() by {}
        crate::order::lemma_sort_ranked_positions(reg_keys(kv), scan.found_registry_keys.len());
        crate::order::lemma_sort_ranked_len(reg_keys(kv));
    }
    let mut kt: usize = 0;
    proof {
        assert(korder.take(0) =~= Seq::<RankedKey>::empty());
        assert(str_views(parts@) =~= base + hdr + flines + reg_lines_upto(
            scan@,
            backup@,
            det@,
            korder.take(0),
        ));
    }
    while kt < rsorted.len()
        invariant
            kt <= rsorted@.len(),
            kv == scan@.found_registry_keys,
            kv.len() == scan.found_registry_keys@.len(),
            ranked_views(rsorted@) == korder,
            korder == spec_sort_ranked(reg_keys(kv)),
            korder.len() == rsorted@.len(),
            forall|u: int|
                0 <= u < korder.len() ==> (#[trigger] korder[u]).2
                    < scan.found_registry_keys@.len(),
            str_views(parts@) == base + hdr + flines + reg_lines_upto(
                scan@,
                backup@,
                det@,
                korder.take(kt as int),
            ),
        decreases rsorted@.len() - kt,
    {
        proof {
            assert(ranked_views(rsorted@)[kt as int] == korder[kt as int]);
            assert(korder.take(kt as int + 1).drop_last() =~= korder.take(kt as int));
            assert(korder.take(kt as int + 1).last() == korder[kt as int]);
        }
        let pos = rsorted[kt].2;
        let ghost before = str_views(parts@);
        proof {
            assert(kv[pos as int] == scan.found_registry_keys@[pos as int]@);
        }
        let k = &scan.found_registry_keys[pos];
        let line = line_item_string(
            k.path.as_str(),
            !backup.is_registry_failed(&k.path),
            k.ignored,
            !det.is_registry_duplicated(&k.path).resolved(),
            k.change,
            false,
        );
        push_line(parts, line);
        let ghost keyline = seq![
            line_item(
                kv[pos as int].path,
                !contains_str(backup@.failed_registry, kv[pos as int].path),
                kv[pos as int].ignored,
                !duplication_of(lookup(det@.registry, kv[pos as int].path)).spec_resolved(),
                kv[pos as int].change,
                false,
            ),
        ];
        proof {
            assert(str_views(parts@) =~= before + keyline);
        }
        // Values of this key, in the report order.
        let ghost vv = kv[pos as int].values;
        let mut vkeys: Vec<(u64, String, usize)> = Vec::new();
        let mut vi: usize = 0;
        proof {
            assert(ranked_views(vkeys@) =~= value_keys(vv).take(0));
            assert(vv == crate::scan::reg_value_views(
                scan.found_registry_keys@[pos as int].values@,
            ));
        }
        while vi < k.values.len()
            invariant
                vi <= k.values@.len(),
                pos < scan.found_registry_keys@.len(),
                kv == scan@.found_registry_keys,
                vv == kv[pos as int].values,
                vv.len() == k.values@.len(),
                k == &scan.found_registry_keys[pos as int],
                ranked_views(vkeys@) == value_keys(vv).take(vi as int),
            decreases k.values@.len() - vi,
        {
            let ghost pre = vkeys@;
            proof {
                assert(ranked_views(pre).len() == pre.len());
                assert(value_keys(vv).take(vi as int).len() == vi);
                assert(vv[vi as int].name == k.values@[vi as int].name@);
            }
            vkeys.push((0u64, k.values[vi].name.clone(), vi));
            proof {
                assert(ranked_views(vkeys@) =~= value_keys(vv).take(vi as int + 1));
            }
            vi += 1;
        }
        proof {
            assert(value_keys(vv).take(k.values@.len() as int) =~= value_keys(vv));
        }
        let vsorted = sort_ranked(vkeys);
        let ghost vorder = spec_sort_ranked(value_keys(vv));
        proof {
            assert forall|u: int| 0 <= u < value_keys(vv).len() implies (#[trigger] value_keys(
                vv,
            )[u]).2 < k.values@.len() by {}
            crate::order::lemma_sort_ranked_positions(value_keys(vv), k.values.len());
            crate::order::lemma_sort_ranked_len(value_keys(vv));
        }
        let mut vt: usize = 0;
        proof {
            assert(vorder.take(0) =~= Seq::<RankedKey>::empty());
            assert(str_views(parts@) =~= before + keyline + value_lines_upto(
                scan@,
                det@,
                kv[pos as int],
                vorder.take(0),
            ));
        }
        while vt < vsorted.len()
            invariant
                vt <= vsorted@.len(),
                pos < scan.found_registry_keys@.len(),
                kv == scan@.found_registry_keys,
                vv == kv[pos as int].values,
                vv.len() == k.values@.len(),
                k == &scan.found_registry_keys[pos as int],
                ranked_views(vsorted@) == vorder,
                vorder == spec_sort_ranked(value_keys(vv)),
                vorder.len() == vsorted@.len(),
                forall|u: int| 0 <= u < vorder.len() ==> (#[trigger] vorder[u]).2 < k.values@.len(),
                str_views(parts@) == before + keyline + value_lines_upto(
                    scan@,
                    det@,
                    kv[pos as int],
                    vorder.take(vt as int),
                ),
            decreases vsorted@.len() - vt,
        {
            proof {
                assert(ranked_views(vsorted@)[vt as int] == vorder[vt as int]);
                assert(vorder.take(vt as int + 1).drop_last() =~= vorder.take(vt as int));
                assert(vorder.take(vt as int + 1).last() == vorder[vt as int]);
            }
            let vpos = vsorted[vt].2;
            proof {
                assert(vv[vpos as int].name == k.values@[vpos as int].name@);
                assert(vv[vpos as int].ignored == k.values@[vpos as int].ignored);
                assert(vv[vpos as int].change == k.values@[vpos as int].change);
            }
            let v = &k.values[vpos];
            let vline = line_item_string(
                v.name.as_str(),
                true,
                v.ignored,
                !det.is_registry_value_duplicated(&k.path, &v.name).resolved(),
                v.change,
                true,
            );
            push_line(parts, vline);
            proof {
                assert(str_views(parts@) =~= before + keyline + value_lines_upto(
                    scan@,
                    det@,
                    kv[pos as int],
                    vorder.take(vt as int + 1),
                ));
            }
            vt += 1;
        }
        proof {
            assert(vorder.take(vsorted@.len() as int) =~= vorder);
            assert(str_views(parts@) =~= before + reg_line_group(
                scan@,
                backup@,
                det@,
                kv[pos as int],
            ));
            assert(str_views(parts@) =~= base + hdr + flines + reg_lines_upto(
                scan@,
                backup@,
                det@,
                korder.take(kt as int + 1),
            ));
        }
        kt += 1;
    }
    proof {
        assert(korder.take(rsorted@.len() as int) =~= korder);
    }
    push_line(parts, String::new());
    proof {
        assert(str_views(parts@) =~= base + spec_game_lines(name@, scan@, backup@, det@, decision));
    }
}

// ------------------------------------------------------------------
// The accumulator.
// ------------------------------------------------------------------
/// Whether every entry of the game succeeded: no found file and no found
/// registry key is recorded as failed.
pub open spec fn spec_successful(scan: ScanInfoModel, backup: BackupInfoModel) -> bool {
    &&& forall|i: int|
        0 <= i < scan.found_files.len() ==> !contains_file(
            backup.failed_files,
            #[trigger] scan.found_files[i],
        )
    &&& forall|i: int|
        0 <= i < scan.found_registry_keys.len() ==> !contains_str(
            backup.failed_registry,
            (#[trigger] scan.found_registry_keys[i]).path,
        )
}

fn compute_successful(scan: &ScanInfo, backup: &BackupInfo) -> (r: bool)
    ensures
        r == spec_successful(scan@, backup@),
{
    let mut i: usize = 0;
    while i < scan.found_files.len()
        invariant
            i <= scan.found_files@.len(),
            forall|t: int|
                0 <= t < i ==> !contains_file(
                    backup@.failed_files,
                    #[trigger] scan@.found_files[t],
                ),
        decreases scan.found_files@.len() - i,
    {
        if backup.is_file_failed(&scan.found_files[i]) {
            proof {
                assert(contains_file(backup@.failed_files, scan@.found_files[i as int]));
            }
            return false;
        }
        i += 1;
    }
    let mut k: usize = 0;
    while k < scan.found_registry_keys.len()
        invariant
            i == scan.found_files@.len(),
            k <= scan.found_registry_keys@.len(),
            forall|t: int|
                0 <= t < i ==> !contains_file(
                    backup@.failed_files,
                    #[trigger] scan@.found_files[t],
                ),
            forall|t: int|
                0 <= t < k ==> !contains_str(
                    backup@.failed_registry,
                    (#[trigger] scan@.found_registry_keys[t]).path,
                ),
        decreases scan.found_registry_keys@.len() - k,
    {
        if backup.is_registry_failed(&scan.found_registry_keys[k].path) {
            proof {
                assert(contains_str(
                    backup@.failed_registry,
                    scan@.found_registry_keys[k as int].path,
                ));
            }
            return false;
        }
        k += 1;
    }
    true
}

/// Inserts one game's entry, replacing the entry a name already has:
/// exactly one shape exists per name.
pub open spec fn upsert_game(
    games: Seq<(Seq<char>, ApiGameModel)>,
    name: Seq<char>,
    g: ApiGameModel,
) -> Seq<(Seq<char>, ApiGameModel)>
    decreases games.len(),
{
    if games.len() == 0 {
        seq![(name, g)]
    } else if games[0].0 == name {
        seq![(name, g)] + games.skip(1)
    } else {
        seq![games[0]] + upsert_game(games.skip(1), name, g)
    }
}

/// Game-name keys are pairwise distinct.
pub open spec fn games_unique(games: Seq<(Seq<char>, ApiGameModel)>) -> bool {
    forall|i: int, j: int|
        0 <= i < j < games.len() ==> (#[trigger] games[i]).0 != (#[trigger] games[j]).0
}

proof fn lemma_upsert_game_at(
    games: Seq<(Seq<char>, ApiGameModel)>,
    name: Seq<char>,
    g: ApiGameModel,
    i: int,
)
    requires
        0 <= i <= games.len(),
        forall|j: int| 0 <= j < i ==> (#[trigger] games[j]).0 != name,
        i < games.len() ==> games[i].0 == name,
    ensures
        upsert_game(games, name, g) == if i < games.len() {
            games.update(i, (name, g))
        } else {
            games.push((name, g))
        },
    decreases games.len(),
{
    if games.len() == 0 {
        assert(upsert_game(games, name, g) =~= games.push((name, g)));
    } else if games[0].0 == name {
        assert(i == 0);
        assert(seq![(name, g)] + games.skip(1) =~= games.update(0, (name, g)));
    } else {
        assert(i >= 1);
        assert(forall|j: int|
            0 <= j < i - 1 ==> (#[trigger] games.skip(1)[j]).0 != name && games.skip(1)[j]
                == games[j + 1]);
        lemma_upsert_game_at(games.skip(1), name, g, i - 1);
        if i < games.len() {
            assert(seq![games[0]] + games.skip(1).update(i - 1, (name, g)) =~= games.update(
                i,
                (name, g),
            ));
        } else {
            assert(seq![games[0]] + games.skip(1).push((name, g)) =~= games.push((name, g)));
        }
    }
}

fn upsert_game_vec(games: &mut Vec<(String, ApiGame)>, name: &String, g: ApiGame)
    ensures
        game_entry_views(final(games)@) == upsert_game(
            game_entry_views(old(games)@),
            name@,
            g@,
        ),
        games_unique(game_entry_views(old(games)@)) ==> games_unique(
            game_entry_views(final(games)@),
        ),
{
    let ghost pre = game_entry_views(games@);
    proof {
        assert(pre.len() == games@.len());
    }
    let mut i: usize = 0;
    while i < games.len()
        invariant
            i <= games@.len(),
            pre == game_entry_views(games@),
            pre == game_entry_views(old(games)@),
            forall|j: int| 0 <= j < i ==> (#[trigger] pre[j]).0 != name@,
        decreases games@.len() - i,
    {
        if games[i].0 == *name {
            proof {
                assert(pre[i as int].0 == games@[i as int].0@);
            }
            games.set(i, (name.clone(), g));
            proof {
                lemma_upsert_game_at(pre, name@, g@, i as int);
                assert(game_entry_views(games@).len() == games@.len());
                assert(game_entry_views(games@) =~= pre.update(i as int, (name@, g@)));
                if games_unique(pre) {
                    let post = game_entry_views(games@);
                    assert(forall|j: int| 0 <= j < post.len() ==> (#[trigger] post[j]).0 == pre[j].0);
                    assert(games_unique(post));
                }
            }
            return ;
        }
        i += 1;
    }
    games.push((name.clone(), g));
    proof {
        lemma_upsert_game_at(pre, name@, g@, pre.len() as int);
        assert(game_entry_views(games@).len() == games@.len());
        assert(game_entry_views(games@) =~= pre.push((name@, g@)));
        if games_unique(pre) {
            let post = game_entry_views(games@);
            assert(forall|j: int| 0 <= j < pre.len() ==> (#[trigger] post[j]) == pre[j]);
            assert(games_unique(post));
        }
    }
}

/// The error block with the cross-run failure flag set.
pub open spec fn with_failure(e: ApiErrorsModel) -> ApiErrorsModel {
    ApiErrorsModel { some_games_failed: Some(true), ..e }
}

pub open spec fn errors_or_empty(o: Option<ApiErrorsModel>) -> ApiErrorsModel {
    match o {
        Some(e) => e,
        None => ApiErrorsModel::empty(),
    }
}

/// The accumulator after one reportable game: its lines or entry added, the
/// totals folded unless suppressed, and the failure concern set exactly when
/// an entry failed.
pub open spec fn spec_reported(
    rep: ReporterModel,
    name: Seq<char>,
    scan: ScanInfoModel,
    backup: BackupInfoModel,
    decision: OperationStepDecision,
    det: crate::duplicates::DetectorModel,
) -> ReporterModel {
    let ok = spec_successful(scan, backup);
    let processed = decision == OperationStepDecision::Processed;
    match rep {
        ReporterModel::Standard { parts, status, errors } => ReporterModel::Standard {
            parts: parts + spec_game_lines(name, scan, backup, det, decision),
            status: match status {
                Some(st) => Some(st.spec_add_game(scan, Some(backup), processed)),
                None => None,
            },
            errors: if ok {
                errors
            } else {
                with_failure(errors)
            },
        },
        ReporterModel::Json { output } => ReporterModel::Json {
            output: JsonOutputModel {
                errors: if ok {
                    output.errors
                } else {
                    Some(with_failure(errors_or_empty(output.errors)))
                },
                overall: match output.overall {
                    Some(st) => Some(st.spec_add_game(scan, Some(backup), processed)),
                    None => None,
                },
                games: upsert_game(output.games, name, spec_operative(scan, backup, det, decision)),
            },
        },
    }
}

/// One console backup line; `local` is whatever the machine's time zone
/// made of the timestamp.
pub open spec fn backup_line(b: BackupModel, local: Seq<char>) -> Seq<char> {
    "  - \""@ + b.name + "\" ("@ + local + ")"@ + (match b.os {
        Some(os) => " ["@ + os.spec_label() + "]"@,
        None => Seq::<char>::empty(),
    }) + (if b.locked {
        " [\u{1f512}]"@
    } else {
        Seq::<char>::empty()
    }) + (match b.comment {
        Some(c) => " - "@ + c,
        None => Seq::<char>::empty(),
    })
}

pub open spec fn backup_lines(bs: Seq<BackupModel>, locals: Seq<Seq<char>>) -> Seq<Seq<char>> {
    Seq::new(bs.len(), |i: int| backup_line(bs[i], locals[i]))
}

/// The games folded in by a listing of found titles, each a bare marker.
pub open spec fn found_upserted(
    games: Seq<(Seq<char>, ApiGameModel)>,
    names: Seq<Seq<char>>,
) -> Seq<(Seq<char>, ApiGameModel)>
    decreases names.len(),
{
    if names.len() == 0 {
        games
    } else {
        upsert_game(found_upserted(games, names.drop_last()), names.last(), ApiGameModel::Found)
    }
}

/// Adjacent repeats collapsed to one occurrence; on a sorted listing this
/// leaves exactly the distinct names.
pub open spec fn dedup_adjacent(names: Seq<Seq<char>>) -> Seq<Seq<char>>
    decreases names.len(),
{
    if names.len() == 0 {
        Seq::empty()
    } else {
        let prev = dedup_adjacent(names.drop_last());
        if prev.len() > 0 && prev.last() == names.last() {
            prev
        } else {
            prev.push(names.last())
        }
    }
}

/// The names as the set listing emits them: sorted, each distinct name once.
pub open spec fn ordered_names(names: Seq<Seq<char>>) -> Seq<Seq<char>> {
    dedup_adjacent(sorted_names(names))
}

fn ordered_name_list(names: &Vec<String>) -> (r: Vec<String>)
    ensures
        str_views(r@) == ordered_names(str_views(names@)),
{
    let mut owned: Vec<String> = Vec::new();
    let mut i: usize = 0;
    proof {
        assert(str_views(owned@) =~= str_views(names@).take(0));
    }
    while i < names.len()
        invariant
            i <= names@.len(),
            str_views(owned@) == str_views(names@).take(i as int),
        decreases names@.len() - i,
    {
        let ghost pre = owned@;
        proof {
            assert(str_views(pre).len() == pre.len());
            assert(str_views(names@).take(i as int).len() == i);
        }
        owned.push(names[i].clone());
        proof {
            assert(str_views(owned@) =~= str_views(names@).take(i as int + 1));
        }
        i += 1;
    }
    proof {
        assert(str_views(names@).take(names@.len() as int) =~= str_views(names@));
    }
    let sorted = sort_names(owned);
    let ghost sv = str_views(sorted@);
    let mut out: Vec<String> = Vec::new();
    let mut k: usize = 0;
    proof {
        assert(sv.take(0) =~= Seq::<Seq<char>>::empty());
        assert(str_views(out@) =~= dedup_adjacent(sv.take(0)));
    }
    while k < sorted.len()
        invariant
            k <= sorted@.len(),
            sv == str_views(sorted@),
            str_views(out@) == dedup_adjacent(sv.take(k as int)),
        decreases sorted@.len() - k,
    {
        let ghost pre = str_views(out@);
        proof {
            assert(pre.len() == out@.len());
            assert(sv.take(k as int + 1).drop_last() =~= sv.take(k as int));
            assert(sv.take(k as int + 1).last() == sv[k as int]);
        }
        if out.len() > 0 && out[out.len() - 1] == sorted[k] {
            proof {
                assert(pre.last() == sv[k as int]);
            }
        } else {
            proof {
                if out@.len() > 0 {
                    assert(pre.last() == out@[out@.len() - 1]@);
                }
            }
            out.push(sorted[k].clone());
            proof {
                assert(str_views(out@) =~= pre.push(sv[k as int]));
            }
        }
        k += 1;
    }
    proof {
        assert(sv.take(sorted@.len() as int) =~= sv);
    }
    out
}

// ------------------------------------------------------------------
// Rendering.
// ------------------------------------------------------------------
pub open spec fn join_lines(parts: Seq<Seq<char>>) -> Seq<char>
    decreases parts.len(),
{
    if parts.len() == 0 {
        Seq::empty()
    } else if parts.len() == 1 {
        parts[0]
    } else {
        join_lines(parts.drop_last()) + "\n"@ + parts.last()
    }
}

/// The summary's games line: the processed count, over the total where they
/// differ, then bracketed counts of new and changed games.
pub open spec fn games_count_text(st: OperationStatus) -> Seq<char> {
    (if st.processed_games == st.total_games {
        dec_str(st.total_games as nat)
    } else {
        dec_str(st.processed_games as nat) + " / "@ + dec_str(st.total_games as nat)
    }) + (if st.changed_games.new > 0 {
        " [+"@ + dec_str(st.changed_games.new as nat) + "]"@
    } else {
        Seq::<char>::empty()
    }) + (if st.changed_games.different > 0 {
        " [\u{0394}"@ + dec_str(st.changed_games.different as nat) + "]"@
    } else {
        Seq::<char>::empty()
    })
}

/// The summary's size line: the processed bytes over the total where they
/// differ.
pub open spec fn size_count_text(st: OperationStatus) -> Seq<char> {
    if st.processed_bytes == st.total_bytes {
        size_str(st.total_bytes)
    } else {
        size_str(st.processed_bytes) + " / "@ + size_str(st.total_bytes)
    }
}

pub open spec fn summary_text(st: OperationStatus, path: Seq<char>) -> Seq<char> {
    "Overall:\n  Games: "@ + games_count_text(st) + "\n  Size: "@ + size_count_text(st)
        + "\n  Location: "@ + path
}

pub open spec fn warnings_text(msgs: Seq<Seq<char>>) -> Seq<char>
    decreases msgs.len(),
{
    if msgs.len() == 0 {
        Seq::empty()
    } else {
        warnings_text(msgs.drop_last()) + "\n\n"@ + msgs.last()
    }
}

/// The one rendering of the accumulated state: joined lines plus the
/// summary and queued warnings in console mode, the pretty document in
/// structured mode.
pub open spec fn spec_render(rep: ReporterModel, path: Seq<char>) -> Seq<char> {
    match rep {
        ReporterModel::Standard { parts, status, errors } => match status {
            Some(st) => join_lines(parts) + "\n"@ + summary_text(st, path) + warnings_text(
                errors.spec_messages(),
            ),
            None => join_lines(parts),
        },
        ReporterModel::Json { output } => document_text(output),
    }
}

#[verifier::rlimit(50)]
fn summary_string(st: &OperationStatus, path: &str) -> (r: String)
    ensures
        r@ == summary_text(*st, path@),
{
    let mut s = String::new();
    s.append("Overall:\n  Games: ");
    if st.processed_games == st.total_games {
        push_u64(&mut s, st.total_games);
    } else {
        push_u64(&mut s, st.processed_games);
        s.append(" / ");
        push_u64(&mut s, st.total_games);
    }
    if st.changed_games.new > 0 {
        s.append(" [+");
        push_u64(&mut s, st.changed_games.new);
        s.append("]");
    }
    if st.changed_games.different > 0 {
        s.append(" [\u{0394}");
        push_u64(&mut s, st.changed_games.different);
        s.append("]");
    }
    s.append("\n  Size: ");
    if st.processed_bytes == st.total_bytes {
        push_size(&mut s, st.total_bytes);
    } else {
        push_size(&mut s, st.processed_bytes);
        s.append(" / ");
        push_size(&mut s, st.total_bytes);
    }
    s.append("\n  Location: ");
    s.append(path);
    proof {
        assert(s@ =~= summary_text(*st, path@));
    }
    s
}

/// The dual-mode report accumulator: console lines or the structured
/// document, fed one game or listing at a time, rendered exactly once.
pub enum Reporter {
    Standard { parts: Vec<String>, status: Option<OperationStatus>, errors: ApiErrors },
    Json { output: JsonOutput },
}

pub enum ReporterModel {
    Standard { parts: Seq<Seq<char>>, status: Option<OperationStatus>, errors: ApiErrorsModel },
    Json { output: JsonOutputModel },
}

impl View for Reporter {
    type V = ReporterModel;

    open spec fn view(&self) -> ReporterModel {
        match self {
            Reporter::Standard { parts, status, errors } => ReporterModel::Standard {
                parts: str_views(parts@),
                status: *status,
                errors: errors@,
            },
            Reporter::Json { output } => ReporterModel::Json { output: output@ },
        }
    }
}

/// The totals an accumulator is folding into, if any.
pub open spec fn spec_status_of(rep: ReporterModel) -> Option<OperationStatus> {
    match rep {
        ReporterModel::Standard { status, .. } => status,
        ReporterModel::Json { output } => output.overall,
    }
}

impl ReporterModel {
    /// What always holds of an accumulator: its totals are well formed and
    /// its game-name keys are unique.
    pub open spec fn wf(self) -> bool {
        &&& match spec_status_of(self) {
            Some(st) => st.wf(),
            None => true,
        }
        &&& match self {
            ReporterModel::Json { output } => games_unique(output.games),
            ReporterModel::Standard { .. } => true,
        }
    }
}

impl Reporter {
    /// A console-mode accumulator with all-zero totals and no concerns.
    pub fn standard() -> (r: Self)
        ensures
            r@ == (ReporterModel::Standard {
                parts: Seq::<Seq<char>>::empty(),
                status: Some(zero_status()),
                errors: ApiErrorsModel::empty(),
            }),
            r@.wf(),
    {
        let r = Reporter::Standard {
            parts: Vec::new(),
            status: Some(OperationStatus::new()),
            errors: ApiErrors::default(),
        };
        proof {
            assert(str_views(Seq::<String>::empty()) =~= Seq::<Seq<char>>::empty());
        }
        r
    }

    /// A structured-mode accumulator with all-zero totals, no games, and no
    /// error block.
    pub fn json() -> (r: Self)
        ensures
            r@ == (ReporterModel::Json {
                output: JsonOutputModel {
                    errors: None,
                    overall: Some(zero_status()),
                    games: Seq::empty(),
                },
            }),
            r@.wf(),
    {
        let r = Reporter::Json {
            output: JsonOutput { errors: None, overall: Some(OperationStatus::new()), games: Vec::new() },
        };
        proof {
            assert(game_entry_views(Seq::<(String, ApiGame)>::empty()) =~= Seq::<
                (Seq<char>, ApiGameModel),
            >::empty());
        }
        r
    }

    /// Records the names the run did not recognize. Idempotent in presence:
    /// a later call replaces the list.
    pub fn trip_unknown_games(&mut self, games: Vec<String>)
        ensures
            final(self)@ == match old(self)@ {
                ReporterModel::Standard { parts, status, errors } => ReporterModel::Standard {
                    parts,
                    status,
                    errors: ApiErrorsModel { unknown_games: Some(str_views(games@)), ..errors },
                },
                ReporterModel::Json { output } => ReporterModel::Json {
                    output: JsonOutputModel {
                        errors: Some(
                            ApiErrorsModel {
                                unknown_games: Some(str_views(games@)),
                                ..errors_or_empty(output.errors)
                            },
                        ),
                        ..output
                    },
                },
            },
            old(self)@.wf() ==> final(self)@.wf(),
    {
        match self {
            Reporter::Standard { errors, .. } => {
                errors.unknown_games = Some(games);
            },
            Reporter::Json { output } => {
                match &mut output.errors {
                    Some(e) => {
                        e.unknown_games = Some(games);
                    },
                    None => {
                        let mut e = ApiErrors::default();
                        e.unknown_games = Some(games);
                        output.errors = Some(e);
                    },
                }
            },
        }
    }

    /// Records that the local and cloud backups are in conflict.
    pub fn trip_cloud_conflict(&mut self)
        ensures
            final(self)@ == match old(self)@ {
                ReporterModel::Standard { parts, status, errors } => ReporterModel::Standard {
                    parts,
                    status,
                    errors: ApiErrorsModel { cloud_conflict: true, ..errors },
                },
                ReporterModel::Json { output } => ReporterModel::Json {
                    output: JsonOutputModel {
                        errors: Some(
                            ApiErrorsModel { cloud_conflict: true, ..errors_or_empty(output.errors) },
                        ),
                        ..output
                    },
                },
            },
            old(self)@.wf() ==> final(self)@.wf(),
    {
        match self {
            Reporter::Standard { errors, .. } => {
                errors.cloud_conflict = Some(crate::errors::CloudConflict {});
            },
            Reporter::Json { output } => {
                match &mut output.errors {
                    Some(e) => {
                        e.cloud_conflict = Some(crate::errors::CloudConflict {});
                    },
                    None => {
                        let mut e = ApiErrors::default();
                        e.cloud_conflict = Some(crate::errors::CloudConflict {});
                        output.errors = Some(e);
                    },
                }
            },
        }
    }

    /// Records that synchronizing with the cloud failed.
    pub fn trip_cloud_sync_failed(&mut self)
        ensures
            final(self)@ == match old(self)@ {
                ReporterModel::Standard { parts, status, errors } => ReporterModel::Standard {
                    parts,
                    status,
                    errors: ApiErrorsModel { cloud_sync_failed: true, ..errors },
                },
                ReporterModel::Json { output } => ReporterModel::Json {
                    output: JsonOutputModel {
                        errors: Some(
                            ApiErrorsModel {
                                cloud_sync_failed: true,
                                ..errors_or_empty(output.errors)
                            },
                        ),
                        ..output
                    },
                },
            },
            old(self)@.wf() ==> final(self)@.wf(),
    {
        match self {
            Reporter::Standard { errors, .. } => {
                errors.cloud_sync_failed = Some(crate::errors::CloudSyncFailed {});
            },
            Reporter::Json { output } => {
                match &mut output.errors {
                    Some(e) => {
                        e.cloud_sync_failed = Some(crate::errors::CloudSyncFailed {});
                    },
                    None => {
                        let mut e = ApiErrors::default();
                        e.cloud_sync_failed = Some(crate::errors::CloudSyncFailed {});
                        output.errors = Some(e);
                    },
                }
            },
        }
    }

    /// Disables summary aggregation: rendering will omit the summary or the
    /// overall block, and later games are not folded into totals.
    pub fn suppress_overall(&mut self)
        ensures
            final(self)@ == match old(self)@ {
                ReporterModel::Standard { parts, status, errors } => ReporterModel::Standard {
                    parts,
                    status: None,
                    errors,
                },
                ReporterModel::Json { output } => ReporterModel::Json {
                    output: JsonOutputModel { overall: None, ..output },
                },
            },
            old(self)@.wf() ==> final(self)@.wf(),
    {
        match self {
            Reporter::Standard { status, .. } => {
                *status = None;
            },
            Reporter::Json { output } => {
                output.overall = None;
            },
        }
    }

    /// Folds one game into the report. A scan with nothing to report leaves
    /// the accumulator untouched and counts as a success. Otherwise the
    /// game's lines or entry are added, the totals are folded unless
    /// suppressed, and the result says whether every entry succeeded; a
    /// failure also sets the cross-run failure concern.
    pub fn add_game(
        &mut self,
        name: &str,
        scan: &ScanInfo,
        backup: &BackupInfo,
        decision: &OperationStepDecision,
        det: &DuplicateDetector,
    ) -> (r: bool)
        requires
            old(self)@.wf(),
            scan@.wf(),
            scan@.reportable() ==> match spec_status_of(old(self)@) {
                Some(st) => st.total_games < u64::MAX && st.total_bytes + sum_sizes(
                    scan@.found_files,
                ) <= u64::MAX,
                None => true,
            },
        ensures
            !scan@.reportable() ==> final(self)@ == old(self)@ && r == true,
            scan@.reportable() ==> r == spec_successful(scan@, backup@) && final(self)@
                == spec_reported(old(self)@, name@, scan@, backup@, *decision, det@),
            final(self)@.wf(),
    {
        if !scan.can_report_game() {
            return true;
        }
        let successful = compute_successful(scan, backup);
        let processed = *decision == OperationStepDecision::Processed;
        match self {
            Reporter::Standard { parts, status, errors } => {
                push_game_lines(parts, name, scan, backup, *decision, det);
                if let Some(st) = status {
                    st.add_game(scan, Some(backup), processed);
                }
                if !successful {
                    errors.some_games_failed = Some(true);
                }
            },
            Reporter::Json { output } => {
                let game = build_operative(scan, backup, det, *decision);
                if let Some(st) = &mut output.overall {
                    st.add_game(scan, Some(backup), processed);
                }
                let key = name.to_owned();
                upsert_game_vec(&mut output.games, &key, game);
                if !successful {
                    match &mut output.errors {
                        Some(e) => {
                            e.some_games_failed = Some(true);
                        },
                        None => {
                            let mut e = ApiErrors::default();
                            e.some_games_failed = Some(true);
                            output.errors = Some(e);
                        },
                    }
                }
            },
        }
        successful
    }

    /// Lists a game's stored backups: a header and one line per backup in
    /// console mode, a stored entry in structured mode; an empty list leaves
    /// the report untouched. The console timestamp is the machine's local
    /// rendering, so console mode promises the lines' shape around it.
    pub fn add_backups(&mut self, name: &str, available_backups: &Vec<Backup>)
        requires
            old(self)@.wf(),
            forall|i: int|
                0 <= i < available_backups@.len() ==> (#[trigger] available_backups@[i])@.wf(),
        ensures
            available_backups@.len() == 0 ==> final(self)@ == old(self)@,
            available_backups@.len() > 0 ==> match (old(self)@, final(self)@) {
                (
                    ReporterModel::Standard { parts, status, errors },
                    ReporterModel::Standard { parts: parts2, status: status2, errors: errors2 },
                ) => status2 == status && errors2 == errors && exists|locals: Seq<Seq<char>>|
                    locals.len() == available_backups@.len() && parts2 == parts + seq![name@ + ":"@]
                        + backup_lines(backup_views(available_backups@), locals) + seq![
                        Seq::<char>::empty(),
                    ],
                (ReporterModel::Json { output }, ReporterModel::Json { output: output2 }) => (
                output2 == JsonOutputModel {
                    games: upsert_game(
                        output.games,
                        name@,
                        ApiGameModel::Stored { backups: backup_views(available_backups@) },
                    ),
                    ..output
                }),
                _ => false,
            },
            final(self)@.wf(),
    {
        if available_backups.len() == 0 {
            return ;
        }
        match self {
            Reporter::Standard { parts, .. } => {
                let ghost base = str_views(parts@);
                let ghost bv = backup_views(available_backups@);
                let mut header = name.to_owned();
                header.append(":");
                push_line(parts, header);
                proof {
                    assert(str_views(parts@) =~= base + seq![name@ + ":"@]);
                }
                let ghost mut locals = Seq::<Seq<char>>::empty();
                let mut i: usize = 0;
                proof {
                    assert(str_views(parts@) + Seq::<Seq<char>>::empty() =~= str_views(parts@));
                }
                while i < available_backups.len()
                    invariant
                        i <= available_backups@.len(),
                        bv == backup_views(available_backups@),
                        bv.len() == available_backups@.len(),
                        forall|t: int|
                            0 <= t < available_backups@.len() ==> (#[trigger] available_backups@[t])@.wf(),
                        locals.len() == i,
                        str_views(parts@) == base + seq![name@ + ":"@] + Seq::new(
                            i as nat,
                            |j: int| backup_line(bv[j], locals[j]),
                        ),
                    decreases available_backups@.len() - i,
                {
                    let b = &available_backups[i];
                    let local = b.when_local_text();
                    let mut line = String::new();
                    line.append("  - \"");
                    line.append(b.name.as_str());
                    line.append("\" (");
                    line.append(local.as_str());
                    line.append(")");
                    match b.os {
                        Some(os) => {
                            line.append(" [");
                            line.append(os.label());
                            line.append("]");
                        },
                        None => {},
                    }
                    if b.locked {
                        line.append(" [\u{1f512}]");
                    }
                    match &b.comment {
                        Some(c) => {
                            line.append(" - ");
                            line.append(c.as_str());
                        },
                        None => {},
                    }
                    proof {
                        assert(bv[i as int] == available_backups@[i as int]@);
                        assert(line@ =~= backup_line(bv[i as int], local@));
                    }
                    push_line(parts, line);
                    proof {
                        locals = locals.push(local@);
                        assert(str_views(parts@) =~= base + seq![name@ + ":"@] + Seq::new(
                            i as nat + 1,
                            |j: int| backup_line(bv[j], locals[j]),
                        ));
                    }
                    i += 1;
                }
                push_line(parts, String::new());
                proof {
                    assert(Seq::new(available_backups@.len(), |j: int| backup_line(bv[j], locals[j]))
                        =~= backup_lines(bv, locals));
                    assert(str_views(parts@) =~= base + seq![name@ + ":"@] + backup_lines(
                        bv,
                        locals,
                    ) + seq![Seq::<char>::empty()]);
                }
            },
            Reporter::Json { output } => {
                let mut backups: Vec<Backup> = Vec::new();
                let mut i: usize = 0;
                proof {
                    assert(backup_views(backups@) =~= backup_views(available_backups@).take(0));
                }
                while i < available_backups.len()
                    invariant
                        i <= available_backups@.len(),
                        backup_views(backups@) == backup_views(available_backups@).take(i as int),
                    decreases available_backups@.len() - i,
                {
                    let ghost pre = backups@;
                    proof {
                        assert(backup_views(pre).len() == pre.len());
                        assert(backup_views(available_backups@).take(i as int).len() == i);
                    }
                    let b = &available_backups[i];
                    backups.push(
                        Backup {
                            name: b.name.clone(),
                            year: b.year,
                            month: b.month,
                            day: b.day,
                            hour: b.hour,
                            minute: b.minute,
                            second: b.second,
                            os: b.os,
                            comment: match &b.comment {
                                Some(c) => Some(c.clone()),
                                None => None,
                            },
                            locked: b.locked,
                        },
                    );
                    proof {
                        assert(backup_views(backups@) =~= backup_views(available_backups@).take(
                            i as int + 1,
                        ));
                    }
                    i += 1;
                }
                proof {
                    assert(backup_views(available_backups@).take(available_backups@.len() as int)
                        =~= backup_views(available_backups@));
                }
                let key = name.to_owned();
                upsert_game_vec(&mut output.games, &key, ApiGame::Stored { backups });
            },
        }
    }

    /// Lists found titles. The names form a set: they are emitted sorted,
    /// one console line or one bare marker entry per distinct name.
    pub fn add_found_titles(&mut self, names: &Vec<String>)
        requires
            old(self)@.wf(),
        ensures
            final(self)@ == match old(self)@ {
                ReporterModel::Standard { parts, status, errors } => ReporterModel::Standard {
                    parts: parts + ordered_names(str_views(names@)),
                    status,
                    errors,
                },
                ReporterModel::Json { output } => ReporterModel::Json {
                    output: JsonOutputModel {
                        games: found_upserted(output.games, ordered_names(str_views(names@))),
                        ..output
                    },
                },
            },
            final(self)@.wf(),
    {
        let listing = ordered_name_list(names);
        let ghost nv = str_views(listing@);
        match self {
            Reporter::Standard { parts, status, errors } => {
                let ghost st0 = *status;
                let ghost er0 = errors@;
                let ghost base = str_views(parts@);
                let mut i: usize = 0;
                proof {
                    assert(nv.take(0) =~= Seq::<Seq<char>>::empty());
                    assert(base + nv.take(0) =~= base);
                }
                while i < listing.len()
                    invariant
                        i <= listing@.len(),
                        nv == str_views(listing@),
                        str_views(parts@) == base + nv.take(i as int),
                    decreases listing@.len() - i,
                {
                    push_line(parts, listing[i].clone());
                    proof {
                        assert(str_views(parts@) =~= base + nv.take(i as int + 1));
                    }
                    i += 1;
                }
                proof {
                    assert(nv.take(listing@.len() as int) =~= nv);
                    assert(str_views(parts@) == base + nv);
                    assert(*status == st0);
                    assert(errors@ == er0);
                }
            },
            Reporter::Json { output } => {
                let mut i: usize = 0;
                let ghost g0 = output@.games;
                let ghost e0 = output@.errors;
                let ghost o0 = output@.overall;
                proof {
                    assert(nv.take(0) =~= Seq::<Seq<char>>::empty());
                }
                while i < listing.len()
                    invariant
                        i <= listing@.len(),
                        nv == str_views(listing@),
                        output@.errors == e0,
                        output@.overall == o0,
                        game_entry_views(output.games@) == found_upserted(g0, nv.take(i as int)),
                        games_unique(g0) ==> games_unique(game_entry_views(output.games@)),
                    decreases listing@.len() - i,
                {
                    proof {
                        assert(nv.take(i as int + 1).drop_last() =~= nv.take(i as int));
                        assert(nv.take(i as int + 1).last() == nv[i as int]);
                    }
                    upsert_game_vec(&mut output.games, &listing[i], ApiGame::Found);
                    i += 1;
                }
                proof {
                    assert(nv.take(listing@.len() as int) =~= nv);
                }
            },
        }
    }

    /// Finalizes the accumulated state into its one rendering.
    pub fn render(&self, path: &String) -> (r: String)
        ensures
            r@ == spec_render(self@, path@),
    {
        match self {
            Reporter::Standard { parts, status, errors } => {
                let ghost pv = str_views(parts@);
                let mut out = String::new();
                let mut i: usize = 0;
                proof {
                    assert(out@ =~= join_lines(pv.take(0)));
                }
                while i < parts.len()
                    invariant
                        i <= parts@.len(),
                        pv == str_views(parts@),
                        out@ == join_lines(pv.take(i as int)),
                    decreases parts@.len() - i,
                {
                    proof {
                        assert(pv.take(i as int + 1).drop_last() =~= pv.take(i as int));
                        assert(pv.take(i as int + 1).last() == pv[i as int]);
                    }
                    if i > 0 {
                        out.append("\n");
                    }
                    out.append(parts[i].as_str());
                    proof {
                        if i == 0 {
                            assert(out@ =~= join_lines(pv.take(1)));
                        } else {
                            assert(out@ =~= join_lines(pv.take(i as int + 1)));
                        }
                    }
                    i += 1;
                }
                proof {
                    assert(pv.take(parts@.len() as int) =~= pv);
                }
                match status {
                    Some(st) => {
                        out.append("\n");
                        let summary = summary_string(st, path.as_str());
                        out.append(summary.as_str());
                        let ghost sofar = join_lines(pv) + "\n"@ + summary_text(*st, path@);
                        proof {
                            assert(out@ =~= sofar);
                        }
                        let msgs = errors.messages();
                        let ghost mv = str_views(msgs@);
                        let mut k: usize = 0;
                        proof {
                            assert(mv.take(0) =~= Seq::<Seq<char>>::empty());
                            assert(out@ + warnings_text(mv.take(0)) =~= out@);
                            assert(out@ =~= sofar + warnings_text(mv.take(0)));
                        }
                        while k < msgs.len()
                            invariant
                                k <= msgs@.len(),
                                mv == str_views(msgs@),
                                out@ == sofar + warnings_text(mv.take(k as int)),
                            decreases msgs@.len() - k,
                        {
                            proof {
                                assert(mv.take(k as int + 1).drop_last() =~= mv.take(k as int));
                                assert(mv.take(k as int + 1).last() == mv[k as int]);
                            }
                            out.append("\n\n");
                            out.append(msgs[k].as_str());
                            proof {
                                assert(out@ =~= sofar + warnings_text(mv.take(k as int + 1)));
                            }
                            k += 1;
                        }
                        proof {
                            assert(mv.take(msgs@.len() as int) =~= mv);
                        }
                        out
                    },
                    None => out,
                }
            },
            Reporter::Json { output } => render_document(output),
        }
    }
}

} // verus!
