//! The record types of the ledger: identities, addresses, error kinds, and
//! the five kinds of stored records, each with its validity predicate.

use vstd::prelude::*;

verus! {

/// Maximum length, in characters, of a case identifier.
pub const MAX_CASE_ID_LEN: usize = 100;

/// Maximum length, in characters, of a scene or evidence description.
pub const MAX_DESCRIPTION_LEN: usize = 200;

/// Maximum length, in characters, of a location string.
pub const MAX_LOCATION_LEN: usize = 100;

/// Maximum length, in characters, of an officer identifier.
pub const MAX_OFFICER_ID_LEN: usize = 50;

/// Maximum length, in characters, of a handling action.
pub const MAX_ACTION_LEN: usize = 100;

/// Maximum length, in characters, of a handler identifier.
pub const MAX_HANDLER_LEN: usize = 50;

/// Maximum length, in characters, of handling notes.
pub const MAX_NOTES_LEN: usize = 200;

/// A caller identity.  It stands for the public key under which the ledger
/// runtime authenticates a caller's signature; the ledger only ever compares
/// identities for equality.
#[derive(Clone, Copy, PartialEq, Eq, Structural, Debug)]
pub struct Identity {
    pub key: u64,
}

/// The deterministic address of a crime-scene record: its position in the
/// case table.  Every child record reaches its parent case through this
/// address alone, so no secondary index is needed.
pub type CaseAddr = u64;

/// The deterministic address of an evidence record, derived from its parent
/// case and its sequence number within that case.
#[derive(Clone, Copy, PartialEq, Eq, Structural, Debug)]
pub struct EvidenceAddr {
    pub crime_scene: CaseAddr,
    pub evidence_number: u64,
}

/// The error kinds an operation can surface.  Every failure is terminal for
/// the request and leaves the stored state untouched.
#[derive(Clone, Copy, PartialEq, Eq, Structural, Debug)]
pub enum ErrorCode {
    /// An input string exceeds its declared maximum length.
    TooLong,
    /// Declared for a future re-grant of an already-active entry; no current
    /// operation raises it.
    AlreadyHasAccess,
    /// Revoke was requested for an identity that does not currently hold
    /// access.
    NoAccess,
    /// The caller's access entry is missing, is revoked, or the caller is not
    /// the authority of the case it writes to.
    Unauthorized,
    /// The caller does not match the recorded admin identity.
    InvalidAdmin,
    /// The deterministic address derived for a new record already holds one:
    /// a duplicate case id, a duplicate grant, or a second bootstrap.
    DuplicateAddress,
}

/// One access-control entry: whether `wallet` may currently perform mutating
/// operations, who granted it, and the admin identity it is rooted at.
/// `has_access` is the only field a later operation may change.
#[derive(Clone, Copy, Debug)]
pub struct AccessControl {
    pub wallet: Identity,
    pub has_access: bool,
    pub granted_by: Identity,
    pub admin: Identity,
}

impl AccessControl {
    /// The same entry with access withdrawn.
    pub open spec fn revoked(self) -> AccessControl {
        AccessControl {
            wallet: self.wallet,
            has_access: false,
            granted_by: self.granted_by,
            admin: self.admin,
        }
    }
}

/// The top-level record of one investigation: its case identity, its
/// location, the authority that opened it, and the two monotonic counters
/// that sequence its chains.  Only the counters ever change.
pub struct CrimeScene {
    pub case_id: String,
    pub location: String,
    pub log_count: u64,
    pub evidence_count: u64,
    pub authority: Identity,
}

impl CrimeScene {
    /// Field validity: both strings are within their declared bounds.
    pub open spec fn wf(self) -> bool {
        &&& self.case_id@.len() <= MAX_CASE_ID_LEN
        &&& self.location@.len() <= MAX_LOCATION_LEN
    }
}

/// One scene-investigation log entry, immutable once created.  `log_number`
/// is the snapshot of the parent's `log_count` at creation time.
pub struct SceneLog {
    pub crime_scene: CaseAddr,
    pub timestamp: i64,
    pub description: String,
    pub officer_id: String,
    pub log_number: u64,
}

impl SceneLog {
    /// Field validity: both strings are within their declared bounds.
    pub open spec fn wf(self) -> bool {
        &&& self.description@.len() <= MAX_DESCRIPTION_LEN
        &&& self.officer_id@.len() <= MAX_OFFICER_ID_LEN
    }
}

/// One evidence item, scoped to a case.  `evidence_number` is the snapshot of
/// the parent's `evidence_count` at creation; `log_count` is the item's own
/// counter for its handling-log chain and is the only field that changes.
pub struct Evidence {
    pub crime_scene: CaseAddr,
    pub evidence_id: String,
    pub description: String,
    pub location_found: String,
    pub log_count: u64,
    pub evidence_number: u64,
}

impl Evidence {
    /// Field validity: all three strings are within their declared bounds.
    pub open spec fn wf(self) -> bool {
        &&& self.evidence_id@.len() <= MAX_CASE_ID_LEN
        &&& self.description@.len() <= MAX_DESCRIPTION_LEN
        &&& self.location_found@.len() <= MAX_LOCATION_LEN
    }
}

/// One evidence-handling log entry, immutable once created.  `log_number` is
/// the snapshot of the parent evidence item's `log_count` at creation time.
pub struct EvidenceLog {
    pub evidence: EvidenceAddr,
    pub timestamp: i64,
    pub action: String,
    pub handler: String,
    pub notes: String,
    pub log_number: u64,
}

impl EvidenceLog {
    /// Field validity: all three strings are within their declared bounds.
    pub open spec fn wf(self) -> bool {
        &&& self.action@.len() <= MAX_ACTION_LEN
        &&& self.handler@.len() <= MAX_HANDLER_LEN
        &&& self.notes@.len() <= MAX_NOTES_LEN
    }
}

} // verus!
