//! The structured document: one entry per game, run-wide totals, and the
//! error block, with the omit-when-default rules and the sorted, pretty
//! rendering that make the output byte-for-byte reproducible.

use vstd::prelude::*;

use crate::backup::{Backup, BackupModel};
use crate::change::{OperationStepDecision, ScanChange};
use crate::errors::{ApiErrors, ApiErrorsModel};
use crate::fmt::dec_str;
use crate::json::{
    arr_text, bool_string, bool_text, member_views, obj_text, push_obj, quoted, quoted_string,
    str_arr_string, str_arr_text, u64_string, Member,
};
use crate::order::{ranked_views, sort_ranked, spec_sort_ranked, RankedKey};
use crate::status::OperationStatus;

verus! {

/// One reported file of an operative game entry.
pub struct ApiFile {
    pub failed: bool,
    pub ignored: bool,
    pub change: ScanChange,
    pub bytes: u64,
    pub original_path: Option<String>,
    pub redirected_path: Option<String>,
    pub duplicated_by: Vec<String>,
}

pub struct ApiFileModel {
    pub failed: bool,
    pub ignored: bool,
    pub change: ScanChange,
    pub bytes: u64,
    pub original_path: Option<Seq<char>>,
    pub redirected_path: Option<Seq<char>>,
    pub duplicated_by: Seq<Seq<char>>,
}

impl View for ApiFile {
    type V = ApiFileModel;

    open spec fn view(&self) -> ApiFileModel {
        ApiFileModel {
            failed: self.failed,
            ignored: self.ignored,
            change: self.change,
            bytes: self.bytes,
            original_path: crate::scan::opt_str_view(self.original_path),
            redirected_path: crate::scan::opt_str_view(self.redirected_path),
            duplicated_by: crate::scan::str_views(self.duplicated_by@),
        }
    }
}

/// One reported value of a reported registry key.
pub struct ApiRegistryValue {
    pub ignored: bool,
    pub change: ScanChange,
    pub duplicated_by: Vec<String>,
}

pub struct ApiRegistryValueModel {
    pub ignored: bool,
    pub change: ScanChange,
    pub duplicated_by: Seq<Seq<char>>,
}

impl View for ApiRegistryValue {
    type V = ApiRegistryValueModel;

    open spec fn view(&self) -> ApiRegistryValueModel {
        ApiRegistryValueModel {
            ignored: self.ignored,
            change: self.change,
            duplicated_by: crate::scan::str_views(self.duplicated_by@),
        }
    }
}

/// One reported registry key of an operative game entry.
pub struct ApiRegistry {
    pub failed: bool,
    pub ignored: bool,
    pub change: ScanChange,
    pub duplicated_by: Vec<String>,
    pub values: Vec<(String, ApiRegistryValue)>,
}

pub struct ApiRegistryModel {
    pub failed: bool,
    pub ignored: bool,
    pub change: ScanChange,
    pub duplicated_by: Seq<Seq<char>>,
    pub values: Seq<(Seq<char>, ApiRegistryValueModel)>,
}

pub open spec fn value_entry_views(s: Seq<(String, ApiRegistryValue)>) -> Seq<
    (Seq<char>, ApiRegistryValueModel),
> {
    Seq::new(s.len(), |i: int| (s[i].0@, s[i].1@))
}

impl View for ApiRegistry {
    type V = ApiRegistryModel;

    open spec fn view(&self) -> ApiRegistryModel {
        ApiRegistryModel {
            failed: self.failed,
            ignored: self.ignored,
            change: self.change,
            duplicated_by: crate::scan::str_views(self.duplicated_by@),
            values: value_entry_views(self.values@),
        }
    }
}

/// One game's entry: full per-entry detail for a game the run operated on,
/// the list of its stored backups, or a bare existence marker. Exactly one
/// shape exists per game name.
pub enum ApiGame {
    Operative {
        decision: OperationStepDecision,
        change: ScanChange,
        files: Vec<(String, ApiFile)>,
        registry: Vec<(String, ApiRegistry)>,
    },
    Stored { backups: Vec<Backup> },
    Found,
}

pub enum ApiGameModel {
    Operative {
        decision: OperationStepDecision,
        change: ScanChange,
        files: Seq<(Seq<char>, ApiFileModel)>,
        registry: Seq<(Seq<char>, ApiRegistryModel)>,
    },
    Stored { backups: Seq<BackupModel> },
    Found,
}

pub open spec fn file_entry_views(s: Seq<(String, ApiFile)>) -> Seq<(Seq<char>, ApiFileModel)> {
    Seq::new(s.len(), |i: int| (s[i].0@, s[i].1@))
}

pub open spec fn reg_entry_views(s: Seq<(String, ApiRegistry)>) -> Seq<
    (Seq<char>, ApiRegistryModel),
> {
    Seq::new(s.len(), |i: int| (s[i].0@, s[i].1@))
}

pub open spec fn backup_views(s: Seq<Backup>) -> Seq<BackupModel> {
    Seq::new(s.len(), |i: int| s[i]@)
}

impl View for ApiGame {
    type V = ApiGameModel;

    open spec fn view(&self) -> ApiGameModel {
        match self {
            ApiGame::Operative { decision, change, files, registry } => ApiGameModel::Operative {
                decision: *decision,
                change: *change,
                files: file_entry_views(files@),
                registry: reg_entry_views(registry@),
            },
            ApiGame::Stored { backups } => ApiGameModel::Stored { backups: backup_views(backups@) },
            ApiGame::Found => ApiGameModel::Found,
        }
    }
}

/// The whole structured document.
pub struct JsonOutput {
    pub errors: Option<ApiErrors>,
    pub overall: Option<OperationStatus>,
    pub games: Vec<(String, ApiGame)>,
}

pub struct JsonOutputModel {
    pub errors: Option<ApiErrorsModel>,
    pub overall: Option<OperationStatus>,
    pub games: Seq<(Seq<char>, ApiGameModel)>,
}

pub open spec fn game_entry_views(s: Seq<(String, ApiGame)>) -> Seq<(Seq<char>, ApiGameModel)> {
    Seq::new(s.len(), |i: int| (s[i].0@, s[i].1@))
}

impl View for JsonOutput {
    type V = JsonOutputModel;

    open spec fn view(&self) -> JsonOutputModel {
        JsonOutputModel {
            errors: match self.errors {
                Some(ref e) => Some(e@),
                None => None,
            },
            overall: self.overall,
            games: game_entry_views(self.games@),
        }
    }
}

// ------------------------------------------------------------------
// The document's rendered form.
// ------------------------------------------------------------------
/// The members of one file object, in fixed order, with default-valued
/// fields omitted: a false flag, an absent path, and an empty sharer list
/// leave no member behind.
pub open spec fn file_members(f: ApiFileModel, ind: nat) -> Seq<Member> {
    (if f.failed {
        seq![("failed"@, bool_text(true))]
    } else {
        Seq::<Member>::empty()
    }) + (if f.ignored {
        seq![("ignored"@, bool_text(true))]
    } else {
        Seq::<Member>::empty()
    }) + seq![("change"@, quoted(f.change.spec_json_name())), ("bytes"@, dec_str(f.bytes as nat))]
        + (match f.original_path {
        Some(p) => seq![("originalPath"@, quoted(p))],
        None => Seq::<Member>::empty(),
    }) + (match f.redirected_path {
        Some(p) => seq![("redirectedPath"@, quoted(p))],
        None => Seq::<Member>::empty(),
    }) + (if f.duplicated_by.len() > 0 {
        seq![("duplicatedBy"@, str_arr_text(f.duplicated_by, ind + 2))]
    } else {
        Seq::<Member>::empty()
    })
}

pub open spec fn file_obj_text(f: ApiFileModel, ind: nat) -> Seq<char> {
    obj_text(file_members(f, ind), ind)
}

pub open spec fn value_members(v: ApiRegistryValueModel, ind: nat) -> Seq<Member> {
    (if v.ignored {
        seq![("ignored"@, bool_text(true))]
    } else {
        Seq::<Member>::empty()
    }) + seq![("change"@, quoted(v.change.spec_json_name()))] + (if v.duplicated_by.len() > 0 {
        seq![("duplicatedBy"@, str_arr_text(v.duplicated_by, ind + 2))]
    } else {
        Seq::<Member>::empty()
    })
}

pub open spec fn value_obj_text(v: ApiRegistryValueModel, ind: nat) -> Seq<char> {
    obj_text(value_members(v, ind), ind)
}

pub open spec fn values_obj_text(
    values: Seq<(Seq<char>, ApiRegistryValueModel)>,
    ind: nat,
) -> Seq<char> {
    obj_text(Seq::new(values.len(), |i: int| (values[i].0, value_obj_text(values[i].1, ind + 2))), ind)
}

/// The members of one registry-key object: flags omitted when false, the
/// sharer list when empty, and the value map when no values were found.
pub open spec fn registry_members(k: ApiRegistryModel, ind: nat) -> Seq<Member> {
    (if k.failed {
        seq![("failed"@, bool_text(true))]
    } else {
        Seq::<Member>::empty()
    }) + (if k.ignored {
        seq![("ignored"@, bool_text(true))]
    } else {
        Seq::<Member>::empty()
    }) + seq![("change"@, quoted(k.change.spec_json_name()))] + (if k.duplicated_by.len() > 0 {
        seq![("duplicatedBy"@, str_arr_text(k.duplicated_by, ind + 2))]
    } else {
        Seq::<Member>::empty()
    }) + (if k.values.len() > 0 {
        seq![("values"@, values_obj_text(k.values, ind + 2))]
    } else {
        Seq::<Member>::empty()
    })
}

pub open spec fn registry_obj_text(k: ApiRegistryModel, ind: nat) -> Seq<char> {
    obj_text(registry_members(k, ind), ind)
}

pub open spec fn backup_members(b: BackupModel, ind: nat) -> Seq<Member> {
    seq![("name"@, quoted(b.name)), ("when"@, quoted(b.spec_utc_text()))] + (match b.os {
        Some(os) => seq![("os"@, quoted(os.spec_label()))],
        None => Seq::<Member>::empty(),
    }) + (match b.comment {
        Some(c) => seq![("comment"@, quoted(c))],
        None => Seq::<Member>::empty(),
    }) + seq![("locked"@, bool_text(b.locked))]
}

pub open spec fn backup_obj_text(b: BackupModel, ind: nat) -> Seq<char> {
    obj_text(backup_members(b, ind), ind)
}

pub open spec fn game_obj_text(g: ApiGameModel, ind: nat) -> Seq<char> {
    match g {
        ApiGameModel::Operative { decision, change, files, registry } => obj_text(
            seq![
                ("decision"@, quoted(decision.spec_json_name())),
                ("change"@, quoted(change.spec_json_name())),
                (
                    "files"@,
                    obj_text(
                        Seq::new(
                            files.len(),
                            |i: int| (files[i].0, file_obj_text(files[i].1, ind + 4)),
                        ),
                        ind + 2,
                    ),
                ),
                (
                    "registry"@,
                    obj_text(
                        Seq::new(
                            registry.len(),
                            |i: int| (registry[i].0, registry_obj_text(registry[i].1, ind + 4)),
                        ),
                        ind + 2,
                    ),
                ),
            ],
            ind,
        ),
        ApiGameModel::Stored { backups } => obj_text(
            seq![
                (
                    "backups"@,
                    arr_text(
                        Seq::new(backups.len(), |i: int| backup_obj_text(backups[i], ind + 4)),
                        ind + 2,
                    ),
                ),
            ],
            ind,
        ),
        ApiGameModel::Found => obj_text(Seq::empty(), ind),
    }
}

/// The sort keys of the game map: plain rank, name, original position.
pub open spec fn game_keys(games: Seq<(Seq<char>, ApiGameModel)>) -> Seq<RankedKey> {
    Seq::new(games.len(), |i: int| (0u64, games[i].0, i as usize))
}

/// The game map rendered with its keys sorted.
pub open spec fn games_obj_text(games: Seq<(Seq<char>, ApiGameModel)>, ind: nat) -> Seq<char> {
    let order = spec_sort_ranked(game_keys(games));
    obj_text(
        Seq::new(
            order.len(),
            |i: int|
                (games[order[i].2 as int].0, game_obj_text(games[order[i].2 as int].1, ind + 2)),
        ),
        ind,
    )
}

pub open spec fn errors_members(e: ApiErrorsModel, ind: nat) -> Seq<Member> {
    (match e.some_games_failed {
        Some(b) => seq![("someGamesFailed"@, bool_text(b))],
        None => Seq::<Member>::empty(),
    }) + (match e.unknown_games {
        Some(names) => seq![("unknownGames"@, str_arr_text(names, ind + 2))],
        None => Seq::<Member>::empty(),
    }) + (if e.cloud_conflict {
        seq![("cloudConflict"@, "{}"@)]
    } else {
        Seq::<Member>::empty()
    }) + (if e.cloud_sync_failed {
        seq![("cloudSyncFailed"@, "{}"@)]
    } else {
        Seq::<Member>::empty()
    })
}

pub open spec fn errors_obj_text(e: ApiErrorsModel, ind: nat) -> Seq<char> {
    obj_text(errors_members(e, ind), ind)
}

pub open spec fn overall_obj_text(st: OperationStatus, ind: nat) -> Seq<char> {
    obj_text(
        seq![
            ("totalGames"@, dec_str(st.total_games as nat)),
            ("totalBytes"@, dec_str(st.total_bytes as nat)),
            ("processedGames"@, dec_str(st.processed_games as nat)),
            ("processedBytes"@, dec_str(st.processed_bytes as nat)),
            (
                "changedGames"@,
                obj_text(
                    seq![
                        ("new"@, dec_str(st.changed_games.new as nat)),
                        ("different"@, dec_str(st.changed_games.different as nat)),
                        ("same"@, dec_str(st.changed_games.same as nat)),
                    ],
                    ind + 2,
                ),
            ),
        ],
        ind,
    )
}

/// The whole document: the error block only once a concern was set, the
/// totals unless suppressed, the game map always.
pub open spec fn document_text(out: JsonOutputModel) -> Seq<char> {
    obj_text(
        (match out.errors {
            Some(e) => seq![("errors"@, errors_obj_text(e, 2))],
            None => Seq::<Member>::empty(),
        }) + (match out.overall {
            Some(st) => seq![("overall"@, overall_obj_text(st, 2))],
            None => Seq::<Member>::empty(),
        }) + seq![("games"@, games_obj_text(out.games, 2))],
        0,
    )
}

// ------------------------------------------------------------------
// Rendering.
// ------------------------------------------------------------------
fn render_file(f: &ApiFile, ind: usize) -> (r: String)
    requires
        ind <= 100,
    ensures
        r@ == file_obj_text(f@, ind as nat),
{
    let mut ms: Vec<(String, String)> = Vec::new();
    if f.failed {
        ms.push(("failed".to_owned(), bool_string(true)));
    }
    if f.ignored {
        ms.push(("ignored".to_owned(), bool_string(true)));
    }
    ms.push(("change".to_owned(), quoted_string(f.change.json_name())));
    ms.push(("bytes".to_owned(), u64_string(f.bytes)));
    match &f.original_path {
        Some(p) => ms.push(("originalPath".to_owned(), quoted_string(p.as_str()))),
        None => {},
    }
    match &f.redirected_path {
        Some(p) => ms.push(("redirectedPath".to_owned(), quoted_string(p.as_str()))),
        None => {},
    }
    if f.duplicated_by.len() > 0 {
        ms.push(("duplicatedBy".to_owned(), str_arr_string(&f.duplicated_by, ind + 2)));
    }
    proof {
        assert(member_views(ms@) =~= file_members(f@, ind as nat));
    }
    let mut out = String::new();
    push_obj(&mut out, &ms, ind);
    proof {
        assert(out@ =~= file_obj_text(f@, ind as nat));
    }
    out
}

fn render_value(v: &ApiRegistryValue, ind: usize) -> (r: String)
    requires
        ind <= 100,
    ensures
        r@ == value_obj_text(v@, ind as nat),
{
    let mut ms: Vec<(String, String)> = Vec::new();
    if v.ignored {
        ms.push(("ignored".to_owned(), bool_string(true)));
    }
    ms.push(("change".to_owned(), quoted_string(v.change.json_name())));
    if v.duplicated_by.len() > 0 {
        ms.push(("duplicatedBy".to_owned(), str_arr_string(&v.duplicated_by, ind + 2)));
    }
    proof {
        assert(member_views(ms@) =~= value_members(v@, ind as nat));
    }
    let mut out = String::new();
    push_obj(&mut out, &ms, ind);
    proof {
        assert(out@ =~= value_obj_text(v@, ind as nat));
    }
    out
}

fn render_values_map(values: &Vec<(String, ApiRegistryValue)>, ind: usize) -> (r: String)
    requires
        ind <= 98,
    ensures
        r@ == values_obj_text(value_entry_views(values@), ind as nat),
{
    let ghost vv = value_entry_views(values@);
    let ghost target = Seq::new(vv.len(), |i: int| (vv[i].0, value_obj_text(vv[i].1, ind as nat + 2)));
    let mut ms: Vec<(String, String)> = Vec::new();
    let mut i: usize = 0;
    proof {
        assert(member_views(ms@) =~= target.take(0));
    }
    while i < values.len()
        invariant
            i <= values@.len(),
            ind <= 98,
            vv == value_entry_views(values@),
            target == Seq::new(vv.len(), |j: int| (vv[j].0, value_obj_text(vv[j].1, ind as nat + 2))),
            member_views(ms@) == target.take(i as int),
        decreases values@.len() - i,
    {
        let ghost pre = ms@;
        proof {
            assert(member_views(pre).len() == pre.len());
            assert(target.take(i as int).len() == i);
        }
        ms.push((values[i].0.clone(), render_value(&values[i].1, ind + 2)));
        proof {
            assert(member_views(ms@) =~= target.take(i as int + 1));
        }
        i += 1;
    }
    proof {
        assert(target.take(values@.len() as int) =~= target);
    }
    let mut out = String::new();
    push_obj(&mut out, &ms, ind);
    proof {
        assert(out@ =~= values_obj_text(vv, ind as nat));
    }
    out
}

fn render_registry(k: &ApiRegistry, ind: usize) -> (r: String)
    requires
        ind <= 96,
    ensures
        r@ == registry_obj_text(k@, ind as nat),
{
    let mut ms: Vec<(String, String)> = Vec::new();
    if k.failed {
        ms.push(("failed".to_owned(), bool_string(true)));
    }
    if k.ignored {
        ms.push(("ignored".to_owned(), bool_string(true)));
    }
    ms.push(("change".to_owned(), quoted_string(k.change.json_name())));
    if k.duplicated_by.len() > 0 {
        ms.push(("duplicatedBy".to_owned(), str_arr_string(&k.duplicated_by, ind + 2)));
    }
    if k.values.len() > 0 {
        ms.push(("values".to_owned(), render_values_map(&k.values, ind + 2)));
    }
    proof {
        assert(member_views(ms@) =~= registry_members(k@, ind as nat));
    }
    let mut out = String::new();
    push_obj(&mut out, &ms, ind);
    proof {
        assert(out@ =~= registry_obj_text(k@, ind as nat));
    }
    out
}

fn render_backup(b: &Backup, ind: usize) -> (r: String)
    requires
        ind <= 100,
    ensures
        r@ == backup_obj_text(b@, ind as nat),
{
    let mut ms: Vec<(String, String)> = Vec::new();
    ms.push(("name".to_owned(), quoted_string(b.name.as_str())));
    let mut when = String::new();
    b.push_utc_text(&mut when);
    ms.push(("when".to_owned(), quoted_string(when.as_str())));
    match b.os {
        Some(os) => ms.push(("os".to_owned(), quoted_string(os.label()))),
        None => {},
    }
    match &b.comment {
        Some(c) => ms.push(("comment".to_owned(), quoted_string(c.as_str()))),
        None => {},
    }
    ms.push(("locked".to_owned(), bool_string(b.locked)));
    proof {
        assert(member_views(ms@) =~= backup_members(b@, ind as nat));
    }
    let mut out = String::new();
    push_obj(&mut out, &ms, ind);
    proof {
        assert(out@ =~= backup_obj_text(b@, ind as nat));
    }
    out
}

fn render_file_map(files: &Vec<(String, ApiFile)>, ind: usize) -> (r: String)
    requires
        ind <= 98,
    ensures
        r@ == obj_text(
            Seq::new(
                file_entry_views(files@).len(),
                |i: int|
                    (
                        file_entry_views(files@)[i].0,
                        file_obj_text(file_entry_views(files@)[i].1, ind as nat + 2),
                    ),
            ),
            ind as nat,
        ),
{
    let ghost fv = file_entry_views(files@);
    let ghost target = Seq::new(fv.len(), |i: int| (fv[i].0, file_obj_text(fv[i].1, ind as nat + 2)));
    let mut ms: Vec<(String, String)> = Vec::new();
    let mut i: usize = 0;
    proof {
        assert(member_views(ms@) =~= target.take(0));
    }
    while i < files.len()
        invariant
            i <= files@.len(),
            ind <= 98,
            fv == file_entry_views(files@),
            target == Seq::new(fv.len(), |j: int| (fv[j].0, file_obj_text(fv[j].1, ind as nat + 2))),
            member_views(ms@) == target.take(i as int),
        decreases files@.len() - i,
    {
        let ghost pre = ms@;
        proof {
            assert(member_views(pre).len() == pre.len());
            assert(target.take(i as int).len() == i);
        }
        ms.push((files[i].0.clone(), render_file(&files[i].1, ind + 2)));
        proof {
            assert(member_views(ms@) =~= target.take(i as int + 1));
        }
        i += 1;
    }
    proof {
        assert(target.take(files@.len() as int) =~= target);
    }
    let mut out = String::new();
    push_obj(&mut out, &ms, ind);
    proof {
        assert(out@ =~= obj_text(target, ind as nat));
    }
    out
}

fn render_registry_map(registry: &Vec<(String, ApiRegistry)>, ind: usize) -> (r: String)
    requires
        ind <= 94,
    ensures
        r@ == obj_text(
            Seq::new(
                reg_entry_views(registry@).len(),
                |i: int|
                    (
                        reg_entry_views(registry@)[i].0,
                        registry_obj_text(reg_entry_views(registry@)[i].1, ind as nat + 2),
                    ),
            ),
            ind as nat,
        ),
{
    let ghost rv = reg_entry_views(registry@);
    let ghost target = Seq::new(
        rv.len(),
        |i: int| (rv[i].0, registry_obj_text(rv[i].1, ind as nat + 2)),
    );
    let mut ms: Vec<(String, String)> = Vec::new();
    let mut i: usize = 0;
    proof {
        assert(member_views(ms@) =~= target.take(0));
    }
    while i < registry.len()
        invariant
            i <= registry@.len(),
            ind <= 94,
            rv == reg_entry_views(registry@),
            target == Seq::new(
                rv.len(),
                |j: int| (rv[j].0, registry_obj_text(rv[j].1, ind as nat + 2)),
            ),
            member_views(ms@) == target.take(i as int),
        decreases registry@.len() - i,
    {
        let ghost pre = ms@;
        proof {
            assert(member_views(pre).len() == pre.len());
            assert(target.take(i as int).len() == i);
        }
        ms.push((registry[i].0.clone(), render_registry(&registry[i].1, ind + 2)));
        proof {
            assert(member_views(ms@) =~= target.take(i as int + 1));
        }
        i += 1;
    }
    proof {
        assert(target.take(registry@.len() as int) =~= target);
    }
    let mut out = String::new();
    push_obj(&mut out, &ms, ind);
    proof {
        assert(out@ =~= obj_text(target, ind as nat));
    }
    out
}

fn render_backups_arr(backups: &Vec<Backup>, ind: usize) -> (r: String)
    requires
        ind <= 98,
    ensures
        r@ == arr_text(
            Seq::new(
                backup_views(backups@).len(),
                |i: int| backup_obj_text(backup_views(backups@)[i], ind as nat + 2),
            ),
            ind as nat,
        ),
{
    let ghost bv = backup_views(backups@);
    let ghost target = Seq::new(bv.len(), |i: int| backup_obj_text(bv[i], ind as nat + 2));
    let mut items: Vec<String> = Vec::new();
    let mut i: usize = 0;
    proof {
        assert(crate::json::item_views(items@) =~= target.take(0));
    }
    while i < backups.len()
        invariant
            i <= backups@.len(),
            ind <= 98,
            bv == backup_views(backups@),
            target == Seq::new(bv.len(), |j: int| backup_obj_text(bv[j], ind as nat + 2)),
            crate::json::item_views(items@) == target.take(i as int),
        decreases backups@.len() - i,
    {
        let ghost pre = items@;
        proof {
            assert(crate::json::item_views(pre).len() == pre.len());
            assert(target.take(i as int).len() == i);
        }
        items.push(render_backup(&backups[i], ind + 2));
        proof {
            assert(crate::json::item_views(items@) =~= target.take(i as int + 1));
        }
        i += 1;
    }
    proof {
        assert(target.take(backups@.len() as int) =~= target);
    }
    let mut out = String::new();
    crate::json::push_arr(&mut out, &items, ind);
    proof {
        assert(out@ =~= arr_text(target, ind as nat));
    }
    out
}

fn render_game(g: &ApiGame, ind: usize) -> (r: String)
    requires
        ind <= 92,
    ensures
        r@ == game_obj_text(g@, ind as nat),
{
    let mut ms: Vec<(String, String)> = Vec::new();
    match g {
        ApiGame::Operative { decision, change, files, registry } => {
            ms.push(("decision".to_owned(), quoted_string(decision.json_name())));
            ms.push(("change".to_owned(), quoted_string(change.json_name())));
            ms.push(("files".to_owned(), render_file_map(files, ind + 2)));
            ms.push(("registry".to_owned(), render_registry_map(registry, ind + 2)));
        },
        ApiGame::Stored { backups } => {
            ms.push(("backups".to_owned(), render_backups_arr(backups, ind + 2)));
        },
        ApiGame::Found => {},
    }
    let ghost gm = g@;
    proof {
        match gm {
            ApiGameModel::Operative { decision, change, files, registry } => {
                assert(member_views(ms@) =~= seq![
                    ("decision"@, quoted(decision.spec_json_name())),
                    ("change"@, quoted(change.spec_json_name())),
                    (
                        "files"@,
                        obj_text(
                            Seq::new(
                                files.len(),
                                |i: int| (files[i].0, file_obj_text(files[i].1, ind as nat + 4)),
                            ),
                            ind as nat + 2,
                        ),
                    ),
                    (
                        "registry"@,
                        obj_text(
                            Seq::new(
                                registry.len(),
                                |i: int|
                                    (registry[i].0, registry_obj_text(registry[i].1, ind as nat + 4)),
                            ),
                            ind as nat + 2,
                        ),
                    ),
                ]);
            },
            ApiGameModel::Stored { backups } => {
                assert(member_views(ms@) =~= seq![
                    (
                        "backups"@,
                        arr_text(
                            Seq::new(
                                backups.len(),
                                |i: int| backup_obj_text(backups[i], ind as nat + 4),
                            ),
                            ind as nat + 2,
                        ),
                    ),
                ]);
            },
            ApiGameModel::Found => {
                assert(member_views(ms@) =~= Seq::<Member>::empty());
            },
        }
    }
    let mut out = String::new();
    push_obj(&mut out, &ms, ind);
    proof {
        assert(out@ =~= game_obj_text(g@, ind as nat));
    }
    out
}

fn render_games_map(games: &Vec<(String, ApiGame)>, ind: usize) -> (r: String)
    requires
        ind <= 90,
    ensures
        r@ == games_obj_text(game_entry_views(games@), ind as nat),
{
    let ghost gv = game_entry_views(games@);
    let ghost order = spec_sort_ranked(game_keys(gv));
    let ghost target = Seq::new(
        order.len(),
        |i: int| (gv[order[i].2 as int].0, game_obj_text(gv[order[i].2 as int].1, ind as nat + 2)),
    );
    let mut keys: Vec<(u64, String, usize)> = Vec::new();
    let mut i: usize = 0;
    proof {
        assert(ranked_views(keys@) =~= game_keys(gv).take(0));
    }
    while i < games.len()
        invariant
            i <= games@.len(),
            gv == game_entry_views(games@),
            ranked_views(keys@) == game_keys(gv).take(i as int),
        decreases games@.len() - i,
    {
        let ghost pre = keys@;
        proof {
            assert(ranked_views(pre).len() == pre.len());
            assert(game_keys(gv).take(i as int).len() == i);
        }
        keys.push((0u64, games[i].0.clone(), i));
        proof {
            assert(ranked_views(keys@) =~= game_keys(gv).take(i as int + 1));
        }
        i += 1;
    }
    proof {
        assert(game_keys(gv).take(games@.len() as int) =~= game_keys(gv));
    }
    let sorted = sort_ranked(keys);
    proof {
        assert forall|t: int| 0 <= t < game_keys(gv).len() implies (#[trigger] game_keys(
            gv,
        )[t]).2 < games@.len() by {}
        crate::order::lemma_sort_ranked_positions(game_keys(gv), games.len());
        crate::order::lemma_sort_ranked_len(game_keys(gv));
    }
    let mut ms: Vec<(String, String)> = Vec::new();
    let mut k: usize = 0;
    proof {
        assert(member_views(ms@) =~= target.take(0));
    }
    while k < sorted.len()
        invariant
            k <= sorted@.len(),
            ind <= 90,
            gv == game_entry_views(games@),
            order == spec_sort_ranked(game_keys(gv)),
            ranked_views(sorted@) == order,
            order.len() == sorted@.len(),
            forall|t: int| 0 <= t < order.len() ==> (#[trigger] order[t]).2 < games@.len(),
            target == Seq::new(
                order.len(),
                |j: int|
                    (
                        gv[order[j].2 as int].0,
                        game_obj_text(gv[order[j].2 as int].1, ind as nat + 2),
                    ),
            ),
            member_views(ms@) == target.take(k as int),
        decreases sorted@.len() - k,
    {
        proof {
            assert(ranked_views(sorted@)[k as int] == order[k as int]);
            assert(order[k as int].2 == sorted@[k as int].2);
        }
        let pos = sorted[k].2;
        let ghost pre = ms@;
        proof {
            assert(member_views(pre).len() == pre.len());
            assert(target.take(k as int).len() == k);
            assert(gv[pos as int].0 == games@[pos as int].0@);
            assert(gv[pos as int].1 == games@[pos as int].1@);
        }
        ms.push((games[pos].0.clone(), render_game(&games[pos].1, ind + 2)));
        proof {
            assert(member_views(ms@) =~= target.take(k as int + 1));
        }
        k += 1;
    }
    proof {
        assert(target.take(sorted@.len() as int) =~= target);
    }
    let mut out = String::new();
    push_obj(&mut out, &ms, ind);
    proof {
        assert(out@ =~= games_obj_text(gv, ind as nat));
    }
    out
}

fn render_errors(e: &ApiErrors, ind: usize) -> (r: String)
    requires
        ind <= 98,
    ensures
        r@ == errors_obj_text(e@, ind as nat),
{
    let mut ms: Vec<(String, String)> = Vec::new();
    match e.some_games_failed {
        Some(b) => ms.push(("someGamesFailed".to_owned(), bool_string(b))),
        None => {},
    }
    match &e.unknown_games {
        Some(names) => ms.push(("unknownGames".to_owned(), str_arr_string(names, ind + 2))),
        None => {},
    }
    if e.cloud_conflict.is_some() {
        ms.push(("cloudConflict".to_owned(), "{}".to_owned()));
    }
    if e.cloud_sync_failed.is_some() {
        ms.push(("cloudSyncFailed".to_owned(), "{}".to_owned()));
    }
    proof {
        assert(member_views(ms@) =~= errors_members(e@, ind as nat));
    }
    let mut out = String::new();
    push_obj(&mut out, &ms, ind);
    proof {
        assert(out@ =~= errors_obj_text(e@, ind as nat));
    }
    out
}

fn render_overall(st: &OperationStatus, ind: usize) -> (r: String)
    requires
        ind <= 98,
    ensures
        r@ == overall_obj_text(*st, ind as nat),
{
    let mut inner: Vec<(String, String)> = Vec::new();
    inner.push(("new".to_owned(), u64_string(st.changed_games.new)));
    inner.push(("different".to_owned(), u64_string(st.changed_games.different)));
    inner.push(("same".to_owned(), u64_string(st.changed_games.same)));
    let mut changed = String::new();
    push_obj(&mut changed, &inner, ind + 2);
    proof {
        assert(member_views(inner@) =~= seq![
            ("new"@, dec_str(st.changed_games.new as nat)),
            ("different"@, dec_str(st.changed_games.different as nat)),
            ("same"@, dec_str(st.changed_games.same as nat)),
        ]);
    }
    let mut ms: Vec<(String, String)> = Vec::new();
    ms.push(("totalGames".to_owned(), u64_string(st.total_games)));
    ms.push(("totalBytes".to_owned(), u64_string(st.total_bytes)));
    ms.push(("processedGames".to_owned(), u64_string(st.processed_games)));
    ms.push(("processedBytes".to_owned(), u64_string(st.processed_bytes)));
    ms.push(("changedGames".to_owned(), changed));
    let mut out = String::new();
    push_obj(&mut out, &ms, ind);
    proof {
        assert(member_views(ms@) =~= seq![
            ("totalGames"@, dec_str(st.total_games as nat)),
            ("totalBytes"@, dec_str(st.total_bytes as nat)),
            ("processedGames"@, dec_str(st.processed_games as nat)),
            ("processedBytes"@, dec_str(st.processed_bytes as nat)),
            (
                "changedGames"@,
                obj_text(
                    seq![
                        ("new"@, dec_str(st.changed_games.new as nat)),
                        ("different"@, dec_str(st.changed_games.different as nat)),
                        ("same"@, dec_str(st.changed_games.same as nat)),
                    ],
                    ind as nat + 2,
                ),
            ),
        ]);
        assert(out@ =~= overall_obj_text(*st, ind as nat));
    }
    out
}

/// Renders the whole structured document, pretty-printed, keys sorted,
/// default-valued fields omitted.
pub fn render_document(doc: &JsonOutput) -> (r: String)
    ensures
        r@ == document_text(doc@),
{
    let mut ms: Vec<(String, String)> = Vec::new();
    match &doc.errors {
        Some(e) => ms.push(("errors".to_owned(), render_errors(e, 2))),
        None => {},
    }
    match &doc.overall {
        Some(st) => ms.push(("overall".to_owned(), render_overall(st, 2))),
        None => {},
    }
    ms.push(("games".to_owned(), render_games_map(&doc.games, 2)));
    proof {
        assert(member_views(ms@) =~= (match doc@.errors {
            Some(e) => seq![("errors"@, errors_obj_text(e, 2))],
            None => Seq::<Member>::empty(),
        }) + (match doc@.overall {
            Some(st) => seq![("overall"@, overall_obj_text(st, 2))],
            None => Seq::<Member>::empty(),
        }) + seq![("games"@, games_obj_text(doc@.games, 2))]);
    }
    let mut out = String::new();
    push_obj(&mut out, &ms, 0);
    proof {
        assert(out@ =~= document_text(doc@));
    }
    out
}

} // verus!
