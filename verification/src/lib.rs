//! A permissioned, append-only chain-of-custody ledger for physical evidence
//! handling.
//!
//! The crate records crime-scene registrations, scene-investigation log
//! entries, evidence registrations, and evidence-handling log entries, and
//! gates every write behind an access-control check.  Records are addressed
//! deterministically: a case by its position in the case table, a log entry by
//! its parent and its sequence number.  The well-formedness predicates and the
//! lemmas in [`laws`] show that every chain of numbered entries is gap-free
//! and duplicate-free, and that records are never altered once written.

pub mod laws;
pub mod ledger;
pub mod records;
pub mod registry;

pub use records::AccessControl;
pub use records::CaseAddr;
pub use records::CrimeScene;
pub use records::ErrorCode;
pub use records::Evidence;
pub use records::EvidenceAddr;
pub use records::EvidenceLog;
pub use records::Identity;
pub use records::SceneLog;
pub use registry::AccessRegistry;
pub use ledger::CaseEntry;
pub use ledger::EvidenceEntry;
pub use ledger::EvidenceManagement;
