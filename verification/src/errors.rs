//! The cross-game concerns a run can raise: per-entry failures, names the
//! run did not recognize, and cloud synchronization trouble.

use vstd::prelude::*;

use crate::scan::str_views;

verus! {

/// Marks that the local and cloud backups are in conflict.
#[derive(Debug, Default)]
pub struct CloudConflict {}

/// Marks that synchronizing with the cloud failed.
#[derive(Debug, Default)]
pub struct CloudSyncFailed {}

/// The accumulated concerns of one run. Every field starts absent and is
/// only ever set, never cleared.
#[derive(Debug)]
pub struct ApiErrors {
    pub some_games_failed: Option<bool>,
    pub unknown_games: Option<Vec<String>>,
    pub cloud_conflict: Option<CloudConflict>,
    pub cloud_sync_failed: Option<CloudSyncFailed>,
}

pub struct ApiErrorsModel {
    pub some_games_failed: Option<bool>,
    pub unknown_games: Option<Seq<Seq<char>>>,
    pub cloud_conflict: bool,
    pub cloud_sync_failed: bool,
}

impl View for ApiErrors {
    type V = ApiErrorsModel;

    open spec fn view(&self) -> ApiErrorsModel {
        ApiErrorsModel {
            some_games_failed: self.some_games_failed,
            unknown_games: match self.unknown_games {
                Some(ref v) => Some(str_views(v@)),
                None => None,
            },
            cloud_conflict: self.cloud_conflict is Some,
            cloud_sync_failed: self.cloud_sync_failed is Some,
        }
    }
}

impl ApiErrorsModel {
    /// No concern set.
    pub open spec fn empty() -> ApiErrorsModel {
        ApiErrorsModel {
            some_games_failed: None,
            unknown_games: None,
            cloud_conflict: false,
            cloud_sync_failed: false,
        }
    }

    /// Whether anything at all was set.
    pub open spec fn any(self) -> bool {
        self != Self::empty()
    }

    /// The console warning lines owed to the set concerns, in fixed order:
    /// the cloud-conflict warning first, then the cloud-sync-failure
    /// warning. Failed and unknown games surface through per-line markers
    /// and the process exit status instead, never as extra messages.
    pub open spec fn spec_messages(self) -> Seq<Seq<char>> {
        let base: Seq<Seq<char>> = if self.cloud_conflict {
            seq![cloud_conflict_message()]
        } else {
            Seq::empty()
        };
        if self.cloud_sync_failed {
            base.push(cloud_sync_failed_message())
        } else {
            base
        }
    }
}

pub open spec fn cloud_conflict_message() -> Seq<char> {
    "[WARNING] Your local and cloud backups are in conflict. Perform an upload or download to resolve it."@
}

pub open spec fn cloud_sync_failed_message() -> Seq<char> {
    "[WARNING] Unable to synchronize with the cloud."@
}

impl Default for ApiErrors {
    /// No concern set.
    fn default() -> (r: Self)
        ensures
            r@ == ApiErrorsModel::empty(),
    {
        ApiErrors {
            some_games_failed: None,
            unknown_games: None,
            cloud_conflict: None,
            cloud_sync_failed: None,
        }
    }
}

impl ApiErrors {
    /// The console warning lines owed to the set concerns.
    pub fn messages(&self) -> (r: Vec<String>)
        ensures
            str_views(r@) == self@.spec_messages(),
    {
        let mut out: Vec<String> = Vec::new();
        if self.cloud_conflict.is_some() {
            out.push(
                "[WARNING] Your local and cloud backups are in conflict. Perform an upload or download to resolve it.".to_owned(),
            );
        }
        if self.cloud_sync_failed.is_some() {
            out.push("[WARNING] Unable to synchronize with the cloud.".to_owned());
        }
        proof {
            assert(str_views(out@) =~= self@.spec_messages());
        }
        out
    }
}

} // verus!
