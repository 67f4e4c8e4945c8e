//! The small enums shared by the whole report: how an entry changed since the
//! previous backup, what was decided about a game, and the operating system
//! tag of a stored backup.

use vstd::prelude::*;

verus! {

/// How an entry compares to the previous backup.
#[derive(Clone, Copy, Debug, PartialEq, Eq, Structural, Default)]
pub enum ScanChange {
    New,
    Different,
    Same,
    #[default]
    Unknown,
}

impl ScanChange {
    /// The name this change kind carries in the structured document.
    pub open spec fn spec_json_name(self) -> Seq<char> {
        match self {
            ScanChange::New => "New"@,
            ScanChange::Different => "Different"@,
            ScanChange::Same => "Same"@,
            ScanChange::Unknown => "Unknown"@,
        }
    }

    pub fn json_name(self) -> (r: &'static str)
        ensures
            r@ == self.spec_json_name(),
    {
        match self {
            ScanChange::New => "New",
            ScanChange::Different => "Different",
            ScanChange::Same => "Same",
            ScanChange::Unknown => "Unknown",
        }
    }

    /// The single-character symbol used by the console report.
    pub open spec fn spec_symbol(self) -> Seq<char> {
        match self {
            ScanChange::New => "+"@,
            ScanChange::Different => "\u{0394}"@,
            ScanChange::Same => "="@,
            ScanChange::Unknown => "?"@,
        }
    }

    pub fn symbol(self) -> (r: &'static str)
        ensures
            r@ == self.spec_symbol(),
    {
        match self {
            ScanChange::New => "+",
            ScanChange::Different => "\u{0394}",
            ScanChange::Same => "=",
            ScanChange::Unknown => "?",
        }
    }

    /// The bracketed badge shown on console lines, if the change is one worth
    /// flagging: only new and different entries carry a badge.
    pub open spec fn spec_badge(self) -> Option<Seq<char>> {
        match self {
            ScanChange::New => Some("[+]"@),
            ScanChange::Different => Some("[\u{0394}]"@),
            ScanChange::Same => None,
            ScanChange::Unknown => None,
        }
    }

    pub fn badge(self) -> (r: Option<&'static str>)
        ensures
            match r {
                Some(s) => self.spec_badge() == Some(s@),
                None => self.spec_badge() is None,
            },
    {
        match self {
            ScanChange::New => Some("[+]"),
            ScanChange::Different => Some("[\u{0394}]"),
            ScanChange::Same => None,
            ScanChange::Unknown => None,
        }
    }

    /// A rank that mirrors the declaration order, used when sorting cloud
    /// change lines by change kind first.
    pub open spec fn spec_rank(self) -> u64 {
        match self {
            ScanChange::New => 0,
            ScanChange::Different => 1,
            ScanChange::Same => 2,
            ScanChange::Unknown => 3,
        }
    }

    pub fn rank(self) -> (r: u64)
        ensures
            r == self.spec_rank(),
    {
        match self {
            ScanChange::New => 0,
            ScanChange::Different => 1,
            ScanChange::Same => 2,
            ScanChange::Unknown => 3,
        }
    }
}

/// What the run decided to do with a game.
#[derive(Clone, Copy, Debug, PartialEq, Eq, Structural)]
pub enum OperationStepDecision {
    Processed,
    Ignored,
    Previewed,
}

impl OperationStepDecision {
    /// The name this decision carries in the structured document.
    pub open spec fn spec_json_name(self) -> Seq<char> {
        match self {
            OperationStepDecision::Processed => "Processed"@,
            OperationStepDecision::Ignored => "Ignored"@,
            OperationStepDecision::Previewed => "Previewed"@,
        }
    }

    pub fn json_name(self) -> (r: &'static str)
        ensures
            r@ == self.spec_json_name(),
    {
        match self {
            OperationStepDecision::Processed => "Processed",
            OperationStepDecision::Ignored => "Ignored",
            OperationStepDecision::Previewed => "Previewed",
        }
    }
}

/// The operating system recorded on a stored backup.
#[derive(Clone, Copy, Debug, PartialEq, Eq, Structural)]
pub enum Os {
    Windows,
    Linux,
    Mac,
    Other,
}

impl Os {
    /// The name this tag carries in both output modes.
    pub open spec fn spec_label(self) -> Seq<char> {
        match self {
            Os::Windows => "Windows"@,
            Os::Linux => "Linux"@,
            Os::Mac => "Mac"@,
            Os::Other => "Other"@,
        }
    }

    pub fn label(self) -> (r: &'static str)
        ensures
            r@ == self.spec_label(),
    {
        match self {
            Os::Windows => "Windows",
            Os::Linux => "Linux",
            Os::Mac => "Mac",
            Os::Other => "Other",
        }
    }
}

} // verus!
