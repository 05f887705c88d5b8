//! The transaction journal of an applied patch.
use vstd::prelude::*;

verus! {

/// The schema name of a transaction journal.
pub const JOURNAL_SCHEMA: &'static str = "pptx-compose.journal.v1";

/// The version of a transaction journal.
pub const JOURNAL_VERSION: u32 = 1;

/// What a transaction did to a document and where its output went.
#[derive(Debug, Clone, PartialEq, Eq)]
pub struct TransactionJournal {
    pub schema: String,
    pub version: u32,
    pub transaction_id: String,
    pub document_id: String,
    pub base_revision: u32,
    pub status: JournalStatus,
    pub operations: Vec<String>,
    pub changed_parts: Vec<JournalChangedPart>,
    pub validation_report: String,
    pub output_path: String,
}

/// The state of a transaction.
#[derive(Debug, Clone, Copy, PartialEq, Eq)]
pub enum JournalStatus {
    Pending,
    Applied,
    Failed,
    RolledBack,
}

/// A part a transaction changed, with its checksums before and after.
#[derive(Debug, Clone, PartialEq, Eq)]
pub struct JournalChangedPart {
    pub part: String,
    pub before_checksum: String,
    pub after_checksum: String,
}

} // verus!
