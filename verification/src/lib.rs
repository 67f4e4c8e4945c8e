//! Accumulates the results of a completed backup or restore run, one game at
//! a time, and renders them exactly once: either as human-readable console
//! text or as a pretty-printed structured document with stable field names,
//! sorted keys, and default-valued fields omitted.

pub mod backup;
pub mod change;
pub mod cloud;
pub mod document;
pub mod duplicates;
pub mod errors;
pub mod fmt;
pub mod json;
pub mod laws;
pub mod order;
pub mod report;
pub mod scan;
pub mod status;

pub use backup::Backup;
pub use change::{OperationStepDecision, Os, ScanChange};
pub use cloud::{report_cloud_changes, CloudChange, CloudChangeOutput};
pub use document::JsonOutput;
pub use duplicates::{DuplicateDetector, Duplication};
pub use errors::{ApiErrors, CloudConflict, CloudSyncFailed};
pub use report::Reporter;
pub use scan::{BackupInfo, ScanInfo, ScannedFile, ScannedRegistry, ScannedRegistryValue};
pub use status::{ChangeCount, OperationStatus};
