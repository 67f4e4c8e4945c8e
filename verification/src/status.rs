//! The run-wide totals: how many games were seen and processed, how many
//! bytes they hold, and a histogram of their overall change kinds.

use vstd::prelude::*;

use crate::change::ScanChange;
use crate::scan::{sum_included, sum_sizes, BackupInfo, BackupInfoModel, ScanInfo, ScanInfoModel};

verus! {

/// How many games fell into each overall change bucket.
#[derive(Clone, Copy, Debug, PartialEq, Eq, Structural)]
pub struct ChangeCount {
    pub new: u64,
    pub different: u64,
    pub same: u64,
}

/// The running totals of one run.
#[derive(Clone, Copy, Debug, PartialEq, Eq, Structural)]
pub struct OperationStatus {
    pub total_games: u64,
    pub total_bytes: u64,
    pub processed_games: u64,
    pub processed_bytes: u64,
    pub changed_games: ChangeCount,
}

pub open spec fn zero_status() -> OperationStatus {
    OperationStatus {
        total_games: 0,
        total_bytes: 0,
        processed_games: 0,
        processed_bytes: 0,
        changed_games: ChangeCount { new: 0, different: 0, same: 0 },
    }
}

impl OperationStatus {
    /// What always holds of the totals: processed counts never pass totals,
    /// and the change buckets never hold more games than were added.
    pub open spec fn wf(self) -> bool {
        &&& self.processed_games <= self.total_games
        &&& self.processed_bytes <= self.total_bytes
        &&& self.changed_games.new + self.changed_games.different + self.changed_games.same
            <= self.total_games
    }

    /// The bytes a processed game contributes: the scan total, narrowed to
    /// the entries the backup result does not record as failed when one is
    /// given.
    pub open spec fn spec_processed_delta(scan: ScanInfoModel, backup: Option<BackupInfoModel>) -> int {
        match backup {
            Some(b) => sum_included(scan.found_files, b.failed_files),
            None => sum_sizes(scan.found_files),
        }
    }

    /// One game folded into the totals: the game and its bytes always count;
    /// the processed counts move only for a processed game; exactly the
    /// bucket of the game's overall change grows, and an unknown overall
    /// change grows none.
    pub open spec fn spec_add_game(
        self,
        scan: ScanInfoModel,
        backup: Option<BackupInfoModel>,
        processed: bool,
    ) -> OperationStatus {
        let change = scan.spec_overall_change();
        OperationStatus {
            total_games: (self.total_games + 1) as u64,
            total_bytes: (self.total_bytes + sum_sizes(scan.found_files)) as u64,
            processed_games: if processed {
                (self.processed_games + 1) as u64
            } else {
                self.processed_games
            },
            processed_bytes: if processed {
                (self.processed_bytes + Self::spec_processed_delta(scan, backup)) as u64
            } else {
                self.processed_bytes
            },
            changed_games: ChangeCount {
                new: if change == ScanChange::New {
                    (self.changed_games.new + 1) as u64
                } else {
                    self.changed_games.new
                },
                different: if change == ScanChange::Different {
                    (self.changed_games.different + 1) as u64
                } else {
                    self.changed_games.different
                },
                same: if change == ScanChange::Same {
                    (self.changed_games.same + 1) as u64
                } else {
                    self.changed_games.same
                },
            },
        }
    }

    /// An all-zero, well-formed starting state.
    pub fn new() -> (r: Self)
        ensures
            r == zero_status(),
            r.wf(),
    {
        OperationStatus {
            total_games: 0,
            total_bytes: 0,
            processed_games: 0,
            processed_bytes: 0,
            changed_games: ChangeCount { new: 0, different: 0, same: 0 },
        }
    }

    /// Folds one game into the totals.
    pub fn add_game(&mut self, scan: &ScanInfo, backup: Option<&BackupInfo>, processed: bool)
        requires
            old(self).wf(),
            scan@.wf(),
            old(self).total_games < u64::MAX,
            old(self).total_bytes + sum_sizes(scan@.found_files) <= u64::MAX,
        ensures
            *final(self) == old(self).spec_add_game(
                scan@,
                match backup {
                    Some(b) => Some(b@),
                    None => None,
                },
                processed,
            ),
            final(self).wf(),
    {
        proof {
            crate::scan::lemma_sum_sizes_nonneg(scan@.found_files);
            if backup is Some {
                crate::scan::lemma_sum_included_bounds(
                    scan@.found_files,
                    backup->Some_0@.failed_files,
                );
            }
        }
        self.total_games = self.total_games + 1;
        self.total_bytes = self.total_bytes + scan.sum_bytes(None);
        if processed {
            self.processed_games = self.processed_games + 1;
            self.processed_bytes = self.processed_bytes + scan.sum_bytes(backup);
        }
        let change = scan.overall_change();
        if change == ScanChange::New {
            self.changed_games.new = self.changed_games.new + 1;
        } else if change == ScanChange::Different {
            self.changed_games.different = self.changed_games.different + 1;
        } else if change == ScanChange::Same {
            self.changed_games.same = self.changed_games.same + 1;
        }
    }
}

impl Default for OperationStatus {
    /// The all-zero starting state.
    fn default() -> (r: Self)
        ensures
            r == zero_status(),
            r.wf(),
    {
        OperationStatus::new()
    }
}

} // verus!
