//! The report's cross-cutting guarantees, stated and proved once for every
//! input: the totals' bounds, the change-bucket histogram, the owner's
//! exclusion from sharer lists, the direction rule for alternate paths, and
//! the omit-when-default rule of the structured document.

use vstd::prelude::*;

use crate::change::ScanChange;
use crate::document::{file_members, registry_members, value_members, ApiFileModel, ApiGameModel, ApiRegistryModel, ApiRegistryValueModel};
use crate::duplicates::{lookup, DetectorModel, SharersModel};
use crate::json::bool_text;
use crate::order::spec_sort_ranked;
use crate::document::{games_obj_text, overall_obj_text, JsonOutputModel};
use crate::errors::ApiErrorsModel;
use crate::json::Member;
use crate::report::{
    file_entries_upto, join_lines, name_keys, names_without, registry_entries_upto, sorted_names,
    spec_api_file, spec_duplicated_by, spec_operative, spec_render, summary_text, value_entries_upto,
    warnings_text, ReporterModel,
};
use crate::status::zero_status;
use crate::scan::{BackupInfoModel, ScanInfoModel, ScannedFileModel, ScannedRegistryModel};
use crate::status::OperationStatus;

verus! {

/// Byte and game aggregation never inverts: processed counts stay within
/// totals, and the three change buckets never hold more games than were
/// added.
pub proof fn lemma_status_totals_bounds(st: OperationStatus)
    requires
        st.wf(),
    ensures
        st.processed_bytes <= st.total_bytes,
        st.processed_games <= st.total_games,
        st.changed_games.new + st.changed_games.different + st.changed_games.same
            <= st.total_games,
{
}

/// A game whose overall change is unknown feeds none of the three change
/// buckets; any other game feeds exactly its own.
pub proof fn lemma_unknown_change_feeds_no_bucket(
    st: OperationStatus,
    scan: ScanInfoModel,
    backup: Option<BackupInfoModel>,
    processed: bool,
)
    requires
        scan.spec_overall_change() == ScanChange::Unknown,
    ensures
        st.spec_add_game(scan, backup, processed).changed_games == st.changed_games,
{
}

/// Empty-run idempotence: with no game added, the console report is nothing
/// but the explicit all-zero summary, and the structured document is nothing
/// but the all-zero overall block and an empty game map.
pub proof fn lemma_empty_run_renders_all_zero(path: Seq<char>)
    ensures
        spec_render(
            ReporterModel::Standard {
                parts: Seq::empty(),
                status: Some(zero_status()),
                errors: ApiErrorsModel::empty(),
            },
            path,
        ) == "\n"@ + summary_text(zero_status(), path),
        spec_render(
            ReporterModel::Json {
                output: JsonOutputModel {
                    errors: None,
                    overall: Some(zero_status()),
                    games: Seq::empty(),
                },
            },
            path,
        ) == crate::json::obj_text(
            seq![
                ("overall"@, overall_obj_text(zero_status(), 2)),
                ("games"@, games_obj_text(Seq::empty(), 2)),
            ],
            0,
        ),
{
    let msgs = ApiErrorsModel::empty().spec_messages();
    assert(msgs =~= Seq::<Seq<char>>::empty());
    assert(warnings_text(msgs) == Seq::<char>::empty());
    assert(join_lines(Seq::<Seq<char>>::empty()) == Seq::<char>::empty());
    assert(Seq::<char>::empty() + "\n"@ + summary_text(zero_status(), path) + Seq::<char>::empty()
        =~= "\n"@ + summary_text(zero_status(), path));
    let m_over: Member = ("overall"@, overall_obj_text(zero_status(), 2));
    let m_games: Member = (
        "games"@,
        games_obj_text(Seq::<(Seq<char>, crate::document::ApiGameModel)>::empty(), 2),
    );
    assert(Seq::<Member>::empty() + seq![m_over] + seq![m_games] =~= seq![m_over, m_games]);
}

proof fn lemma_names_without_excludes(names: Seq<Seq<char>>, own: Seq<char>)
    ensures
        !names_without(names, own).contains(own),
    decreases names.len(),
{
    if names.len() > 0 {
        lemma_names_without_excludes(names.drop_last(), own);
        let res = names_without(names, own);
        let prev = names_without(names.drop_last(), own);
        if res.contains(own) {
            let i = choose|i: int| 0 <= i < res.len() && res[i] == own;
            if i < prev.len() {
                assert(prev[i] == own);
            } else {
                assert(res[i] == names.last());
            }
        }
    }
}

proof fn lemma_sorted_names_subset(names: Seq<Seq<char>>, x: Seq<char>)
    ensures
        sorted_names(names).contains(x) ==> names.contains(x),
{
    if sorted_names(names).contains(x) {
        let sorted = spec_sort_ranked(name_keys(names));
        let i = choose|i: int| 0 <= i < sorted_names(names).len() && sorted_names(names)[i] == x;
        assert(sorted_names(names)[i] == sorted[i].1);
        assert(sorted.contains(sorted[i]));
        crate::order::lemma_sort_ranked_membership(name_keys(names), sorted[i]);
        let j = choose|j: int| 0 <= j < name_keys(names).len() && name_keys(names)[j] == sorted[i];
        assert(names[j] == x);
    }
}

/// A game's name never appears in a sharer list built for one of its own
/// entries.
pub proof fn lemma_duplicated_by_excludes_owner(games: SharersModel, own: Seq<char>)
    ensures
        !spec_duplicated_by(games, own).contains(own),
{
    if !crate::duplicates::duplication_of(games).spec_resolved() {
        lemma_names_without_excludes(crate::duplicates::sharer_names(games), own);
        lemma_sorted_names_subset(names_without(crate::duplicates::sharer_names(games), own), own);
    }
}

proof fn lemma_value_entries_exclude(
    scan: ScanInfoModel,
    det: DetectorModel,
    k: ScannedRegistryModel,
    order: Seq<crate::order::RankedKey>,
)
    ensures
        forall|i: int|
            0 <= i < value_entries_upto(scan, det, k, order).len() ==> !(#[trigger] value_entries_upto(
                scan,
                det,
                k,
                order,
            )[i]).1.duplicated_by.contains(scan.game_name),
    decreases order.len(),
{
    if order.len() > 0 {
        lemma_value_entries_exclude(scan, det, k, order.drop_last());
        let prev = value_entries_upto(scan, det, k, order.drop_last());
        let res = value_entries_upto(scan, det, k, order);
        let pos = order.last().2 as int;
        lemma_duplicated_by_excludes_owner(
            crate::duplicates::lookup2(det.registry_values, (k.path, k.values[pos].name)),
            scan.game_name,
        );
        assert forall|i: int| 0 <= i < res.len() implies !(#[trigger] res[i]).1.duplicated_by.contains(
            scan.game_name,
        ) by {
            if i < res.len() - 1 {
                assert(res[i] == prev[i]);
            }
        }
    }
}

proof fn lemma_file_entries_exclude(
    scan: ScanInfoModel,
    backup: BackupInfoModel,
    det: DetectorModel,
    order: Seq<crate::order::RankedKey>,
)
    ensures
        forall|i: int|
            0 <= i < file_entries_upto(scan, backup, det, order).len() ==> !(
            #[trigger] file_entries_upto(scan, backup, det, order)[i]).1.duplicated_by.contains(
                scan.game_name,
            ),
    decreases order.len(),
{
    if order.len() > 0 {
        lemma_file_entries_exclude(scan, backup, det, order.drop_last());
        let prev = file_entries_upto(scan, backup, det, order.drop_last());
        let res = file_entries_upto(scan, backup, det, order);
        let pos = order.last().2 as int;
        lemma_duplicated_by_excludes_owner(
            lookup(det.files, scan.found_files[pos].path),
            scan.game_name,
        );
        assert forall|i: int| 0 <= i < res.len() implies !(#[trigger] res[i]).1.duplicated_by.contains(
            scan.game_name,
        ) by {
            if i < res.len() - 1 {
                assert(res[i] == prev[i]);
            }
        }
    }
}

proof fn lemma_registry_entries_exclude(
    scan: ScanInfoModel,
    backup: BackupInfoModel,
    det: DetectorModel,
    order: Seq<crate::order::RankedKey>,
)
    ensures
        forall|i: int|
            0 <= i < registry_entries_upto(scan, backup, det, order).len() ==> !(
            #[trigger] registry_entries_upto(scan, backup, det, order)[i]).1.duplicated_by.contains(
                scan.game_name,
            ),
        forall|i: int, j: int|
            0 <= i < registry_entries_upto(scan, backup, det, order).len() && 0 <= j
                < registry_entries_upto(scan, backup, det, order)[i].1.values.len() ==> !(
            #[trigger] registry_entries_upto(scan, backup, det, order)[i].1.values[j]).1.duplicated_by.contains(
                scan.game_name,
            ),
    decreases order.len(),
{
    if order.len() > 0 {
        lemma_registry_entries_exclude(scan, backup, det, order.drop_last());
        let prev = registry_entries_upto(scan, backup, det, order.drop_last());
        let res = registry_entries_upto(scan, backup, det, order);
        let pos = order.last().2 as int;
        let k = scan.found_registry_keys[pos];
        lemma_duplicated_by_excludes_owner(lookup(det.registry, k.path), scan.game_name);
        lemma_value_entries_exclude(scan, det, k, spec_sort_ranked(crate::report::value_keys(k.values)));
        assert forall|i: int| 0 <= i < res.len() implies !(#[trigger] res[i]).1.duplicated_by.contains(
            scan.game_name,
        ) by {
            if i < res.len() - 1 {
                assert(res[i] == prev[i]);
            }
        }
        assert forall|i: int, j: int|
            0 <= i < res.len() && 0 <= j < res[i].1.values.len() implies !(
        #[trigger] res[i].1.values[j]).1.duplicated_by.contains(scan.game_name) by {
            if i < res.len() - 1 {
                assert(res[i] == prev[i]);
            }
        }
    }
}

/// Duplicate self-exclusion: nowhere in a game's structured entry — not on
/// a file, not on a registry key, not on a registry value — does the game's
/// own name appear among the games it is said to be duplicated by.
pub proof fn lemma_entry_never_lists_owner(
    scan: ScanInfoModel,
    backup: BackupInfoModel,
    det: DetectorModel,
    decision: crate::change::OperationStepDecision,
)
    ensures
        match spec_operative(scan, backup, det, decision) {
            ApiGameModel::Operative { files, registry, .. } => {
                &&& forall|i: int|
                    0 <= i < files.len() ==> !(#[trigger] files[i]).1.duplicated_by.contains(
                        scan.game_name,
                    )
                &&& forall|i: int|
                    0 <= i < registry.len() ==> !(#[trigger] registry[i]).1.duplicated_by.contains(
                        scan.game_name,
                    )
                &&& forall|i: int, j: int|
                    0 <= i < registry.len() && 0 <= j < registry[i].1.values.len() ==> !(
                    #[trigger] registry[i].1.values[j]).1.duplicated_by.contains(scan.game_name)
            },
            _ => true,
        },
{
    lemma_file_entries_exclude(
        scan,
        backup,
        det,
        spec_sort_ranked(crate::report::file_keys(scan.found_files, scan.restoring())),
    );
    lemma_registry_entries_exclude(
        scan,
        backup,
        det,
        spec_sort_ranked(crate::report::reg_keys(scan.found_registry_keys)),
    );
}

/// Direction exclusivity: a file's alternate path surfaces as exactly one
/// of the two path fields, chosen solely by the run's direction, and a file
/// without an alternate path populates neither.
pub proof fn lemma_direction_exclusive(
    scan: ScanInfoModel,
    backup: BackupInfoModel,
    det: DetectorModel,
    f: ScannedFileModel,
)
    ensures
        !(spec_api_file(scan, backup, det, f).original_path is Some && spec_api_file(
            scan,
            backup,
            det,
            f,
        ).redirected_path is Some),
        scan.restoring() ==> spec_api_file(scan, backup, det, f).redirected_path is None
            && spec_api_file(scan, backup, det, f).original_path == f.spec_alt(true),
        !scan.restoring() ==> spec_api_file(scan, backup, det, f).original_path is None
            && spec_api_file(scan, backup, det, f).redirected_path == f.spec_alt(false),
        f.spec_alt(scan.restoring()) is None ==> spec_api_file(scan, backup, det, f).original_path
            is None && spec_api_file(scan, backup, det, f).redirected_path is None,
{
}

/// Omission rule for file objects: a false failed or ignored flag and an
/// empty sharer list leave no member behind, so a present flag member is
/// always true.
pub proof fn lemma_file_members_omit_defaults(f: ApiFileModel, ind: nat)
    ensures
        forall|i: int|
            0 <= i < file_members(f, ind).len() ==> ((#[trigger] file_members(f, ind)[i]).0
                == "failed"@ ==> f.failed && file_members(f, ind)[i].1 == bool_text(true)),
        forall|i: int|
            0 <= i < file_members(f, ind).len() ==> ((#[trigger] file_members(f, ind)[i]).0
                == "ignored"@ ==> f.ignored && file_members(f, ind)[i].1 == bool_text(true)),
        forall|i: int|
            0 <= i < file_members(f, ind).len() ==> ((#[trigger] file_members(f, ind)[i]).0
                == "duplicatedBy"@ ==> f.duplicated_by.len() > 0),
{
    reveal_strlit("failed");
    reveal_strlit("ignored");
    reveal_strlit("change");
    reveal_strlit("bytes");
    reveal_strlit("originalPath");
    reveal_strlit("redirectedPath");
    reveal_strlit("duplicatedBy");
    assert("change"@[0] == 'c' && "failed"@[0] == 'f' && "ignored"@[0] == 'i' && "bytes"@[0]
        == 'b');
    assert("originalPath"@[0] == 'o' && "redirectedPath"@[0] == 'r' && "duplicatedBy"@[0] == 'd');
}

/// Omission rule for registry-key objects.
pub proof fn lemma_registry_members_omit_defaults(k: ApiRegistryModel, ind: nat)
    ensures
        forall|i: int|
            0 <= i < registry_members(k, ind).len() ==> ((#[trigger] registry_members(k, ind)[i]).0
                == "failed"@ ==> k.failed && registry_members(k, ind)[i].1 == bool_text(true)),
        forall|i: int|
            0 <= i < registry_members(k, ind).len() ==> ((#[trigger] registry_members(k, ind)[i]).0
                == "ignored"@ ==> k.ignored && registry_members(k, ind)[i].1 == bool_text(true)),
        forall|i: int|
            0 <= i < registry_members(k, ind).len() ==> ((#[trigger] registry_members(k, ind)[i]).0
                == "duplicatedBy"@ ==> k.duplicated_by.len() > 0),
        forall|i: int|
            0 <= i < registry_members(k, ind).len() ==> ((#[trigger] registry_members(k, ind)[i]).0
                == "values"@ ==> k.values.len() > 0),
{
    reveal_strlit("failed");
    reveal_strlit("ignored");
    reveal_strlit("change");
    reveal_strlit("duplicatedBy");
    reveal_strlit("values");
    assert("change"@[0] == 'c' && "failed"@[0] == 'f' && "ignored"@[0] == 'i' && "values"@[0]
        == 'v');
}

/// Omission rule for registry-value objects.
pub proof fn lemma_value_members_omit_defaults(v: ApiRegistryValueModel, ind: nat)
    ensures
        forall|i: int|
            0 <= i < value_members(v, ind).len() ==> ((#[trigger] value_members(v, ind)[i]).0
                == "ignored"@ ==> v.ignored && value_members(v, ind)[i].1 == bool_text(true)),
        forall|i: int|
            0 <= i < value_members(v, ind).len() ==> ((#[trigger] value_members(v, ind)[i]).0
                == "duplicatedBy"@ ==> v.duplicated_by.len() > 0),
{
    reveal_strlit("ignored");
    reveal_strlit("change");
    reveal_strlit("duplicatedBy");
    assert("change"@[0] == 'c' && "ignored"@[0] == 'i' && "duplicatedBy"@[0] == 'd');
}

} // verus!
