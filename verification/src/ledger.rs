//! The case ledger: crime-scene records, their scene-log chains, their
//! evidence items, and each item's handling-log chain, all behind the access
//! registry.  A case's address is its position in the case table; a chain
//! entry's address is its parent together with its sequence number, so every
//! record is retrievable by index alone.

use vstd::prelude::*;
use vstd::string::StrSliceExecFns;

use crate::records::CaseAddr;
use crate::records::CrimeScene;
use crate::records::ErrorCode;
use crate::records::Evidence;
use crate::records::EvidenceAddr;
use crate::records::EvidenceLog;
use crate::records::Identity;
use crate::records::SceneLog;
use crate::records::MAX_ACTION_LEN;
use crate::records::MAX_CASE_ID_LEN;
use crate::records::MAX_DESCRIPTION_LEN;
use crate::records::MAX_HANDLER_LEN;
use crate::records::MAX_LOCATION_LEN;
use crate::records::MAX_NOTES_LEN;
use crate::records::MAX_OFFICER_ID_LEN;
use crate::registry::AccessRegistry;

verus! {

/// One evidence item together with its append-only handling-log chain.
pub struct EvidenceEntry {
    pub record: Evidence,
    pub handling_logs: Vec<EvidenceLog>,
}

impl EvidenceEntry {
    /// Chain invariant for the evidence item stored at `(a, j)`: the record
    /// points back at its case and carries its own sequence number, and the
    /// handling log at position `k` is exactly entry number `k` of the chain,
    /// so the chain is gap-free and duplicate-free.
    pub open spec fn wf_at(self, a: int, j: int) -> bool {
        &&& self.record.wf()
        &&& self.record.crime_scene == a
        &&& self.record.evidence_number == j
        &&& self.record.log_count == self.handling_logs@.len()
        &&& forall|k: int|
            0 <= k < self.handling_logs@.len() ==> (#[trigger] self.handling_logs@[k]).wf()
                && self.handling_logs@[k].evidence == (EvidenceAddr {
                crime_scene: a as CaseAddr,
                evidence_number: j as u64,
            }) && self.handling_logs@[k].log_number == k
    }

    /// `post` is `pre` with handling logs only appended and the record
    /// unchanged apart from its log counter.
    pub open spec fn extends(pre: EvidenceEntry, post: EvidenceEntry) -> bool {
        &&& post.record.crime_scene == pre.record.crime_scene
        &&& post.record.evidence_id == pre.record.evidence_id
        &&& post.record.description == pre.record.description
        &&& post.record.location_found == pre.record.location_found
        &&& post.record.evidence_number == pre.record.evidence_number
        &&& pre.record.log_count <= post.record.log_count
        &&& pre.handling_logs@.is_prefix_of(post.handling_logs@)
    }
}

/// One crime scene together with its two append-only chains: the scene logs
/// and the evidence items.
pub struct CaseEntry {
    pub scene: CrimeScene,
    pub scene_logs: Vec<SceneLog>,
    pub evidence: Vec<EvidenceEntry>,
}

impl CaseEntry {
    /// Chain invariant for the case stored at address `a`: each chain's
    /// counter equals its length, the log at position `i` is exactly entry
    /// number `i`, and the evidence item at position `j` carries sequence
    /// number `j`, so both chains are gap-free and duplicate-free.
    pub open spec fn wf_at(self, a: int) -> bool {
        &&& self.scene.wf()
        &&& self.scene.log_count == self.scene_logs@.len()
        &&& forall|i: int|
            0 <= i < self.scene_logs@.len() ==> (#[trigger] self.scene_logs@[i]).wf()
                && self.scene_logs@[i].crime_scene == a && self.scene_logs@[i].log_number == i
        &&& self.scene.evidence_count == self.evidence@.len()
        &&& forall|j: int|
            0 <= j < self.evidence@.len() ==> (#[trigger] self.evidence@[j]).wf_at(a, j)
    }

    /// `post` is `pre` with chain entries only appended: the scene's
    /// identifying fields are untouched, its counters only grow, existing
    /// logs and evidence records are unchanged.
    pub open spec fn extends(pre: CaseEntry, post: CaseEntry) -> bool {
        &&& post.scene.case_id == pre.scene.case_id
        &&& post.scene.location == pre.scene.location
        &&& post.scene.authority == pre.scene.authority
        &&& pre.scene.log_count <= post.scene.log_count
        &&& pre.scene.evidence_count <= post.scene.evidence_count
        &&& pre.scene_logs@.is_prefix_of(post.scene_logs@)
        &&& pre.evidence@.len() <= post.evidence@.len()
        &&& forall|j: int|
            0 <= j < pre.evidence@.len() ==> EvidenceEntry::extends(
                pre.evidence@[j],
                #[trigger] post.evidence@[j],
            )
    }
}

/// The whole ledger: the access registry and the case table.  Every mutating
/// operation validates its inputs, asks the registry whether the caller
/// currently holds access, and then appends exactly one record while
/// advancing exactly one counter.
pub struct EvidenceManagement {
    pub access: AccessRegistry,
    pub cases: Vec<CaseEntry>,
}

impl EvidenceManagement {
    /// The crime-scene record stored at case address `a`.
    pub open spec fn scene_at(self, a: int) -> CrimeScene {
        self.cases@[a].scene
    }

    /// The scene-log chain of the case at address `a`.
    pub open spec fn scene_logs_at(self, a: int) -> Seq<SceneLog> {
        self.cases@[a].scene_logs@
    }

    /// The evidence record number `j` of the case at address `a`.
    pub open spec fn evidence_at(self, a: int, j: int) -> Evidence {
        self.cases@[a].evidence@[j].record
    }

    /// The handling-log chain of evidence number `j` of the case at `a`.
    pub open spec fn evidence_logs_at(self, a: int, j: int) -> Seq<EvidenceLog> {
        self.cases@[a].evidence@[j].handling_logs@
    }

    /// Log number `n` occurs somewhere in the scene-log chain of the case
    /// at address `a`.
    pub open spec fn scene_log_number_present(self, a: int, n: u64) -> bool {
        exists|i: int|
            0 <= i < self.scene_logs_at(a).len() && (#[trigger] self.scene_logs_at(
                a,
            )[i]).log_number == n
    }

    /// Evidence number `n` occurs somewhere in the evidence ledger of the
    /// case at address `a`.
    pub open spec fn evidence_number_present(self, a: int, n: u64) -> bool {
        exists|j: int|
            0 <= j < self.cases@[a].evidence@.len() && (#[trigger] self.cases@[a].evidence@[j]).record.evidence_number
                == n
    }

    /// Log number `n` occurs somewhere in the handling-log chain of
    /// evidence number `j` of the case at address `a`.
    pub open spec fn handling_log_number_present(self, a: int, j: int, n: u64) -> bool {
        exists|k: int|
            0 <= k < self.evidence_logs_at(a, j).len() && (#[trigger] self.evidence_logs_at(
                a,
                j,
            )[k]).log_number == n
    }

    /// A case with this identifier exists.
    pub open spec fn has_case(self, case_id: Seq<char>) -> bool {
        exists|a: int|
            0 <= a < self.cases@.len() && (#[trigger] self.cases@[a]).scene.case_id@ == case_id
    }

    /// Ledger invariant: the registry is well formed, every case satisfies
    /// its chain invariant at its own address, and case identifiers are
    /// globally unique.
    pub open spec fn wf(self) -> bool {
        &&& self.access.wf()
        &&& forall|a: int| 0 <= a < self.cases@.len() ==> (#[trigger] self.cases@[a]).wf_at(a)
        &&& forall|a: int, b: int|
            0 <= a < self.cases@.len() && 0 <= b < self.cases@.len() && a != b
                ==> (#[trigger] self.cases@[a]).scene.case_id@ != (#[trigger] self.cases@[b]).scene.case_id@
    }

    /// `post` is `pre` with records only added: no stored record is ever
    /// altered or removed, apart from the designated counters and the
    /// `has_access` flag of access entries.
    pub open spec fn extends(pre: EvidenceManagement, post: EvidenceManagement) -> bool {
        &&& AccessRegistry::extends(pre.access, post.access)
        &&& pre.cases@.len() <= post.cases@.len()
        &&& forall|a: int|
            0 <= a < pre.cases@.len() ==> CaseEntry::extends(
                pre.cases@[a],
                #[trigger] post.cases@[a],
            )
    }

    /// The outcome an `initialize_crime_scene` request must decide: length
    /// checks first, then the access check, then the address collision of a
    /// duplicate case identifier.
    pub open spec fn open_case_decision(
        self,
        authority: Identity,
        case_id: Seq<char>,
        location: Seq<char>,
    ) -> Option<ErrorCode> {
        if case_id.len() > MAX_CASE_ID_LEN {
            Some(ErrorCode::TooLong)
        } else if location.len() > MAX_LOCATION_LEN {
            Some(ErrorCode::TooLong)
        } else if !self.access.has_access_now(authority) {
            Some(ErrorCode::Unauthorized)
        } else if self.has_case(case_id) {
            Some(ErrorCode::DuplicateAddress)
        } else {
            None
        }
    }

    /// The outcome an `add_scene_log` request must decide: length checks
    /// first; then the caller must both hold access and be the case's
    /// authority, either failure surfacing as `Unauthorized`.
    pub open spec fn scene_log_decision(
        self,
        authority: Identity,
        crime_scene: CaseAddr,
        description: Seq<char>,
        officer_id: Seq<char>,
    ) -> Option<ErrorCode> {
        if description.len() > MAX_DESCRIPTION_LEN {
            Some(ErrorCode::TooLong)
        } else if officer_id.len() > MAX_OFFICER_ID_LEN {
            Some(ErrorCode::TooLong)
        } else if !self.access.has_access_now(authority) || authority != self.scene_at(
            crime_scene as int,
        ).authority {
            Some(ErrorCode::Unauthorized)
        } else {
            None
        }
    }

    /// The outcome an `add_evidence` request must decide: length checks
    /// first; then, as for scene logs, the caller must hold access and be
    /// the case's authority.
    pub open spec fn add_evidence_decision(
        self,
        authority: Identity,
        crime_scene: CaseAddr,
        evidence_id: Seq<char>,
        description: Seq<char>,
        location_found: Seq<char>,
    ) -> Option<ErrorCode> {
        if evidence_id.len() > MAX_CASE_ID_LEN {
            Some(ErrorCode::TooLong)
        } else if description.len() > MAX_DESCRIPTION_LEN {
            Some(ErrorCode::TooLong)
        } else if location_found.len() > MAX_LOCATION_LEN {
            Some(ErrorCode::TooLong)
        } else if !self.access.has_access_now(authority) || authority != self.scene_at(
            crime_scene as int,
        ).authority {
            Some(ErrorCode::Unauthorized)
        } else {
            None
        }
    }

    /// The outcome an `add_evidence_log` request must decide: length checks
    /// first, then the access check alone.  Unlike scene logs, handling logs
    /// are deliberately not restricted to the case authority: any identity
    /// holding access may record evidence handling.
    pub open spec fn evidence_log_decision(
        self,
        authority: Identity,
        action: Seq<char>,
        handler: Seq<char>,
        notes: Seq<char>,
    ) -> Option<ErrorCode> {
        if action.len() > MAX_ACTION_LEN {
            Some(ErrorCode::TooLong)
        } else if handler.len() > MAX_HANDLER_LEN {
            Some(ErrorCode::TooLong)
        } else if notes.len() > MAX_NOTES_LEN {
            Some(ErrorCode::TooLong)
        } else if !self.access.has_access_now(authority) {
            Some(ErrorCode::Unauthorized)
        } else {
            None
        }
    }

    /// An empty ledger: no access entries, no cases.  The one place the
    /// system is created; bootstrap-uniqueness is enforced from here on by
    /// `initialize_access_control` itself.
    pub fn new() -> (r: EvidenceManagement)
        ensures
            r.wf(),
            !r.access.is_bootstrapped(),
            r.access.entries@.len() == 0,
            r.cases@.len() == 0,
    {
        EvidenceManagement { access: AccessRegistry::new(), cases: Vec::new() }
    }

    /// The position of the case with this identifier, if one exists.
    fn case_position(&self, case_id: &String) -> (r: Option<usize>)
        ensures
            match r {
                Some(a) => a < self.cases@.len() && self.cases@[a as int].scene.case_id@
                    == case_id@,
                None => !self.has_case(case_id@),
            },
    {
        let mut a: usize = 0;
        while a < self.cases.len()
            invariant
                a <= self.cases@.len(),
                forall|b: int| 0 <= b < a ==> (#[trigger] self.cases@[b]).scene.case_id@ != case_id@,
            decreases self.cases@.len() - a,
        {
            if self.cases[a].scene.case_id == *case_id {
                return Some(a);
            }
            a = a + 1;
        }
        None
    }

    /// The address of the case with this identifier, if one exists: the
    /// deterministic lookup a caller uses to reach a case from its key.
    pub fn find_case(&self, case_id: &String) -> (r: Option<CaseAddr>)
        ensures
            match r {
                Some(a) => a < self.cases@.len() && self.scene_at(a as int).case_id@ == case_id@,
                None => !self.has_case(case_id@),
            },
    {
        match self.case_position(case_id) {
            Some(a) => Some(a as u64),
            None => None,
        }
    }

    /// The scene-log entry of a case with the given log number, reached by
    /// its address `(crime_scene, log_number)` alone.  Returns `None` exactly
    /// when no such record exists.
    pub fn get_scene_log(&self, crime_scene: CaseAddr, log_number: u64) -> (r: Option<&SceneLog>)
        ensures
            match r {
                Some(log) => crime_scene < self.cases@.len() && log_number < self.scene_logs_at(
                    crime_scene as int,
                ).len() && *log == self.scene_logs_at(crime_scene as int)[log_number as int],
                None => crime_scene >= self.cases@.len() || log_number >= self.scene_logs_at(
                    crime_scene as int,
                ).len(),
            },
    {
        if crime_scene >= self.cases.len() as u64 {
            return None;
        }
        let a = crime_scene as usize;
        let entry = &self.cases[a];
        if log_number >= entry.scene_logs.len() as u64 {
            return None;
        }
        Some(&entry.scene_logs[log_number as usize])
    }

    /// The evidence record of a case with the given evidence number, reached
    /// by its address alone.  Returns `None` exactly when no such record
    /// exists.
    pub fn get_evidence(&self, evidence: EvidenceAddr) -> (r: Option<&Evidence>)
        ensures
            match r {
                Some(record) => evidence.crime_scene < self.cases@.len()
                    && evidence.evidence_number
                    < self.cases@[evidence.crime_scene as int].evidence@.len() && *record
                    == self.evidence_at(
                    evidence.crime_scene as int,
                    evidence.evidence_number as int,
                ),
                None => evidence.crime_scene >= self.cases@.len() || evidence.evidence_number
                    >= self.cases@[evidence.crime_scene as int].evidence@.len(),
            },
    {
        if evidence.crime_scene >= self.cases.len() as u64 {
            return None;
        }
        let a = evidence.crime_scene as usize;
        let entry = &self.cases[a];
        if evidence.evidence_number >= entry.evidence.len() as u64 {
            return None;
        }
        Some(&entry.evidence[evidence.evidence_number as usize].record)
    }

    /// The handling-log entry of an evidence item with the given log number,
    /// reached by its address `(evidence, log_number)` alone.  Returns
    /// `None` exactly when no such record exists.
    pub fn get_evidence_log(&self, evidence: EvidenceAddr, log_number: u64) -> (r: Option<
        &EvidenceLog,
    >)
        ensures
            match r {
                Some(log) => evidence.crime_scene < self.cases@.len() && evidence.evidence_number
                    < self.cases@[evidence.crime_scene as int].evidence@.len() && log_number
                    < self.evidence_logs_at(
                    evidence.crime_scene as int,
                    evidence.evidence_number as int,
                ).len() && *log == self.evidence_logs_at(
                    evidence.crime_scene as int,
                    evidence.evidence_number as int,
                )[log_number as int],
                None => evidence.crime_scene >= self.cases@.len() || evidence.evidence_number
                    >= self.cases@[evidence.crime_scene as int].evidence@.len() || log_number
                    >= self.evidence_logs_at(
                    evidence.crime_scene as int,
                    evidence.evidence_number as int,
                ).len(),
            },
    {
        if evidence.crime_scene >= self.cases.len() as u64 {
            return None;
        }
        let a = evidence.crime_scene as usize;
        let entry = &self.cases[a];
        if evidence.evidence_number >= entry.evidence.len() as u64 {
            return None;
        }
        let item = &entry.evidence[evidence.evidence_number as usize];
        if log_number >= item.handling_logs.len() as u64 {
            return None;
        }
        Some(&item.handling_logs[log_number as usize])
    }

    /// Creates the crime-scene record for a new case: counters at zero, the
    /// caller recorded as its authority.  Returns the new case's address.
    /// Fails with `TooLong` if an input exceeds its bound, `Unauthorized` if
    /// the caller does not hold access, and `DuplicateAddress` if a case
    /// with this identifier already exists.
    pub fn initialize_crime_scene(
        &mut self,
        authority: Identity,
        case_id: String,
        location: String,
    ) -> (r: Result<CaseAddr, ErrorCode>)
        requires
            old(self).wf(),
        ensures
            final(self).wf(),
            final(self).access == old(self).access,
            EvidenceManagement::extends(*old(self), *final(self)),
            (old(self).open_case_decision(authority, case_id@, location@) matches Some(e) ==> r
                == Err::<CaseAddr, ErrorCode>(e) && *final(self) == *old(self)),
            old(self).open_case_decision(authority, case_id@, location@) is None ==> r == Ok::<
                CaseAddr,
                ErrorCode,
            >(old(self).cases@.len() as u64) && final(self).cases@.len() == old(self).cases@.len() + 1 && (forall|b: int|
                0 <= b < old(self).cases@.len() ==> final(self).cases@[b] == old(self).cases@[b])
                && final(self).scene_at(old(self).cases@.len() as int) == (CrimeScene {
                case_id: case_id,
                location: location,
                log_count: 0,
                evidence_count: 0,
                authority: authority,
            }) && final(self).scene_logs_at(old(self).cases@.len() as int).len() == 0 && final(self).cases@.last().evidence@.len() == 0,
    {
        if case_id.as_str().unicode_len() > MAX_CASE_ID_LEN {
            return Err(ErrorCode::TooLong);
        }
        if location.as_str().unicode_len() > MAX_LOCATION_LEN {
            return Err(ErrorCode::TooLong);
        }
        if !self.access.has_access(authority) {
            return Err(ErrorCode::Unauthorized);
        }
        if self.case_position(&case_id).is_some() {
            return Err(ErrorCode::DuplicateAddress);
        }
        let addr = self.cases.len() as u64;
        self.cases.push(
            CaseEntry {
                scene: CrimeScene {
                    case_id,
                    location,
                    log_count: 0,
                    evidence_count: 0,
                    authority,
                },
                scene_logs: Vec::new(),
                evidence: Vec::new(),
            },
        );
        proof {
            let n = old(self).cases@.len() as int;
            assert forall|b: int| 0 <= b < self.cases@.len() implies (
            #[trigger] self.cases@[b]).wf_at(b) by {
                if b < n {
                    assert(old(self).cases@[b].wf_at(b));
                }
            }
            assert forall|b: int, c: int|
                0 <= b < self.cases@.len() && 0 <= c < self.cases@.len() && b
                    != c implies (#[trigger] self.cases@[b]).scene.case_id@ != (
            #[trigger] self.cases@[c]).scene.case_id@ by {
                if b < n && c < n {
                    assert(old(self).cases@[b].scene.case_id@ != old(self).cases@[c].scene.case_id@);
                } else if b == n {
                    assert(old(self).cases@[c].scene.case_id@ != self.cases@[n].scene.case_id@);
                } else {
                    assert(old(self).cases@[b].scene.case_id@ != self.cases@[n].scene.case_id@);
                }
            }
        }
        Ok(addr)
    }

    /// Appends scene-log entry number `log_count` to a case's chain and
    /// advances the counter.  Returns the entry's log number.  Only the
    /// case's authority, while holding access, may append; a length failure
    /// is `TooLong`, either authorization failure is `Unauthorized`.
    pub fn add_scene_log(
        &mut self,
        authority: Identity,
        crime_scene: CaseAddr,
        timestamp: i64,
        description: String,
        officer_id: String,
    ) -> (r: Result<u64, ErrorCode>)
        requires
            old(self).wf(),
            crime_scene < old(self).cases@.len(),
            old(self).scene_at(crime_scene as int).log_count < u64::MAX,
        ensures
            final(self).wf(),
            final(self).access == old(self).access,
            EvidenceManagement::extends(*old(self), *final(self)),
            (old(self).scene_log_decision(authority, crime_scene, description@, officer_id@)
                matches Some(e) ==> r == Err::<u64, ErrorCode>(e) && *final(self) == *old(self)),
            old(self).scene_log_decision(authority, crime_scene, description@, officer_id@)
                is None ==> r == Ok::<u64, ErrorCode>(
                old(self).scene_at(crime_scene as int).log_count,
            ) && final(self).cases@.len() == old(self).cases@.len() && (forall|b: int|
                0 <= b < old(self).cases@.len() && b != crime_scene ==> final(self).cases@[b]
                    == old(self).cases@[b]) && final(self).scene_at(crime_scene as int) == (
            CrimeScene {
                log_count: (old(self).scene_at(crime_scene as int).log_count + 1) as u64,
                ..old(self).scene_at(crime_scene as int)
            }) && final(self).scene_logs_at(crime_scene as int) == old(self).scene_logs_at(
                crime_scene as int,
            ).push(
                SceneLog {
                    crime_scene: crime_scene,
                    timestamp: timestamp,
                    description: description,
                    officer_id: officer_id,
                    log_number: old(self).scene_at(crime_scene as int).log_count,
                },
            ) && final(self).cases@[crime_scene as int].evidence == old(self).cases@[crime_scene as int].evidence,
    {
        if description.as_str().unicode_len() > MAX_DESCRIPTION_LEN {
            return Err(ErrorCode::TooLong);
        }
        if officer_id.as_str().unicode_len() > MAX_OFFICER_ID_LEN {
            return Err(ErrorCode::TooLong);
        }
        if !self.access.has_access(authority) {
            return Err(ErrorCode::Unauthorized);
        }
        let a = crime_scene as usize;
        proof {
            assert(self.cases.len() == self.cases@.len());
            assert(a == crime_scene);
        }
        if authority != self.cases[a].scene.authority {
            return Err(ErrorCode::Unauthorized);
        }
        let n = self.cases[a].scene.log_count;
        let entry = &mut self.cases[a];
        entry.scene_logs.push(
            SceneLog {
                crime_scene,
                timestamp,
                description,
                officer_id,
                log_number: n,
            },
        );
        entry.scene.log_count = n + 1;
        proof {
            let ai = crime_scene as int;
            assert forall|b: int| 0 <= b < self.cases@.len() implies (
            #[trigger] self.cases@[b]).wf_at(b) by {
                assert(old(self).cases@[b].wf_at(b));
                if b == ai {
                    let pre_logs = old(self).cases@[ai].scene_logs@;
                    let post_logs = self.cases@[ai].scene_logs@;
                    assert forall|i: int| 0 <= i < post_logs.len() implies (
                    #[trigger] post_logs[i]).wf() && post_logs[i].crime_scene == ai
                        && post_logs[i].log_number == i by {
                        if i < pre_logs.len() {
                            assert(pre_logs[i].wf() && pre_logs[i].crime_scene == ai
                                && pre_logs[i].log_number == i);
                        }
                    }
                }
            }
            assert forall|b: int, c: int|
                0 <= b < self.cases@.len() && 0 <= c < self.cases@.len() && b
                    != c implies (#[trigger] self.cases@[b]).scene.case_id@ != (
            #[trigger] self.cases@[c]).scene.case_id@ by {
                assert(old(self).cases@[b].scene.case_id@ != old(self).cases@[c].scene.case_id@);
            }
            assert(old(self).cases@[crime_scene as int].scene_logs@.is_prefix_of(
                self.cases@[crime_scene as int].scene_logs@,
            ));
        }
        Ok(n)
    }

    /// Registers evidence item number `evidence_count` for a case, with its
    /// own handling-log counter at zero, and advances the case's counter.
    /// Returns the item's evidence number.  The same authorization rule as
    /// for scene logs applies.
    pub fn add_evidence(
        &mut self,
        authority: Identity,
        crime_scene: CaseAddr,
        evidence_id: String,
        description: String,
        location_found: String,
    ) -> (r: Result<u64, ErrorCode>)
        requires
            old(self).wf(),
            crime_scene < old(self).cases@.len(),
            old(self).scene_at(crime_scene as int).evidence_count < u64::MAX,
        ensures
            final(self).wf(),
            final(self).access == old(self).access,
            EvidenceManagement::extends(*old(self), *final(self)),
            (old(self).add_evidence_decision(
                authority,
                crime_scene,
                evidence_id@,
                description@,
                location_found@,
            ) matches Some(e) ==> r == Err::<u64, ErrorCode>(e) && *final(self) == *old(self)),
            old(self).add_evidence_decision(
                authority,
                crime_scene,
                evidence_id@,
                description@,
                location_found@,
            ) is None ==> r == Ok::<u64, ErrorCode>(
                old(self).scene_at(crime_scene as int).evidence_count,
            ) && final(self).cases@.len() == old(self).cases@.len() && (forall|b: int|
                0 <= b < old(self).cases@.len() && b != crime_scene ==> final(self).cases@[b]
                    == old(self).cases@[b]) && final(self).scene_at(crime_scene as int) == (
            CrimeScene {
                evidence_count: (old(self).scene_at(crime_scene as int).evidence_count + 1) as u64,
                ..old(self).scene_at(crime_scene as int)
            }) && final(self).cases@[crime_scene as int].scene_logs == old(self).cases@[crime_scene as int].scene_logs && final(self).cases@[crime_scene as int].evidence@.len()
                == old(self).cases@[crime_scene as int].evidence@.len() + 1 && (forall|j: int|
                0 <= j < old(self).cases@[crime_scene as int].evidence@.len() ==> final(self).cases@[crime_scene as int].evidence@[j] == old(self).cases@[crime_scene as int].evidence@[j]) && final(self).evidence_at(
                crime_scene as int,
                old(self).cases@[crime_scene as int].evidence@.len() as int,
            ) == (Evidence {
                crime_scene: crime_scene,
                evidence_id: evidence_id,
                description: description,
                location_found: location_found,
                log_count: 0,
                evidence_number: old(self).scene_at(crime_scene as int).evidence_count,
            }) && final(self).evidence_logs_at(
                crime_scene as int,
                old(self).cases@[crime_scene as int].evidence@.len() as int,
            ).len() == 0,
    {
        if evidence_id.as_str().unicode_len() > MAX_CASE_ID_LEN {
            return Err(ErrorCode::TooLong);
        }
        if description.as_str().unicode_len() > MAX_DESCRIPTION_LEN {
            return Err(ErrorCode::TooLong);
        }
        if location_found.as_str().unicode_len() > MAX_LOCATION_LEN {
            return Err(ErrorCode::TooLong);
        }
        if !self.access.has_access(authority) {
            return Err(ErrorCode::Unauthorized);
        }
        let a = crime_scene as usize;
        proof {
            assert(self.cases.len() == self.cases@.len());
            assert(a == crime_scene);
        }
        if authority != self.cases[a].scene.authority {
            return Err(ErrorCode::Unauthorized);
        }
        let m = self.cases[a].scene.evidence_count;
        let entry = &mut self.cases[a];
        entry.evidence.push(
            EvidenceEntry {
                record: Evidence {
                    crime_scene,
                    evidence_id,
                    description,
                    location_found,
                    log_count: 0,
                    evidence_number: m,
                },
                handling_logs: Vec::new(),
            },
        );
        entry.scene.evidence_count = m + 1;
        proof {
            let ai = crime_scene as int;
            assert forall|b: int| 0 <= b < self.cases@.len() implies (
            #[trigger] self.cases@[b]).wf_at(b) by {
                assert(old(self).cases@[b].wf_at(b));
                if b == ai {
                    let pre_items = old(self).cases@[ai].evidence@;
                    let post_items = self.cases@[ai].evidence@;
                    assert forall|j: int| 0 <= j < post_items.len() implies (
                    #[trigger] post_items[j]).wf_at(ai, j) by {
                        if j < pre_items.len() {
                            assert(pre_items[j].wf_at(ai, j));
                        }
                    }
                }
            }
            assert forall|b: int, c: int|
                0 <= b < self.cases@.len() && 0 <= c < self.cases@.len() && b
                    != c implies (#[trigger] self.cases@[b]).scene.case_id@ != (
            #[trigger] self.cases@[c]).scene.case_id@ by {
                assert(old(self).cases@[b].scene.case_id@ != old(self).cases@[c].scene.case_id@);
            }
            assert(old(self).cases@[crime_scene as int].scene_logs@.is_prefix_of(
                self.cases@[crime_scene as int].scene_logs@,
            ));
            assert forall|j: int|
                0 <= j < old(self).cases@[crime_scene as int].evidence@.len() implies EvidenceEntry::extends(
                old(self).cases@[crime_scene as int].evidence@[j],
                #[trigger] self.cases@[crime_scene as int].evidence@[j],
            ) by {
                assert(self.cases@[crime_scene as int].evidence@[j] == old(self).cases@[crime_scene as int].evidence@[j]);
                assert(old(self).cases@[crime_scene as int].evidence@[j].handling_logs@.is_prefix_of(
                    self.cases@[crime_scene as int].evidence@[j].handling_logs@,
                ));
            }
        }
        Ok(m)
    }

    /// Appends handling-log entry number `log_count` to an evidence item's
    /// chain and advances the item's own counter.  Returns the entry's log
    /// number.  Any identity holding access may append — handling logs are
    /// deliberately not restricted to the case authority.
    pub fn add_evidence_log(
        &mut self,
        authority: Identity,
        evidence: EvidenceAddr,
        timestamp: i64,
        action: String,
        handler: String,
        notes: String,
    ) -> (r: Result<u64, ErrorCode>)
        requires
            old(self).wf(),
            evidence.crime_scene < old(self).cases@.len(),
            evidence.evidence_number < old(self).cases@[evidence.crime_scene as int].evidence@.len(),
            old(self).evidence_at(
                evidence.crime_scene as int,
                evidence.evidence_number as int,
            ).log_count < u64::MAX,
        ensures
            final(self).wf(),
            final(self).access == old(self).access,
            EvidenceManagement::extends(*old(self), *final(self)),
            (old(self).evidence_log_decision(authority, action@, handler@, notes@) matches Some(e)
                ==> r == Err::<u64, ErrorCode>(e) && *final(self) == *old(self)),
            old(self).evidence_log_decision(authority, action@, handler@, notes@) is None ==> r
                == Ok::<u64, ErrorCode>(
                old(self).evidence_at(
                    evidence.crime_scene as int,
                    evidence.evidence_number as int,
                ).log_count,
            ) && final(self).cases@.len() == old(self).cases@.len() && (forall|b: int|
                0 <= b < old(self).cases@.len() && b != evidence.crime_scene ==> final(self).cases@[b] == old(self).cases@[b]) && final(self).scene_at(
                evidence.crime_scene as int,
            ) == old(self).scene_at(evidence.crime_scene as int) && final(self).cases@[evidence.crime_scene as int].scene_logs == old(self).cases@[evidence.crime_scene as int].scene_logs && final(self).cases@[evidence.crime_scene as int].evidence@.len() == old(self).cases@[evidence.crime_scene as int].evidence@.len() && (forall|j: int|
                0 <= j < old(self).cases@[evidence.crime_scene as int].evidence@.len() && j
                    != evidence.evidence_number ==> final(self).cases@[evidence.crime_scene as int].evidence@[j] == old(self).cases@[evidence.crime_scene as int].evidence@[j]) && final(self).evidence_at(
                evidence.crime_scene as int,
                evidence.evidence_number as int,
            ) == (Evidence {
                log_count: (old(self).evidence_at(
                    evidence.crime_scene as int,
                    evidence.evidence_number as int,
                ).log_count + 1) as u64,
                ..old(self).evidence_at(
                    evidence.crime_scene as int,
                    evidence.evidence_number as int,
                )
            }) && final(self).evidence_logs_at(
                evidence.crime_scene as int,
                evidence.evidence_number as int,
            ) == old(self).evidence_logs_at(
                evidence.crime_scene as int,
                evidence.evidence_number as int,
            ).push(
                EvidenceLog {
                    evidence: evidence,
                    timestamp: timestamp,
                    action: action,
                    handler: handler,
                    notes: notes,
                    log_number: old(self).evidence_at(
                        evidence.crime_scene as int,
                        evidence.evidence_number as int,
                    ).log_count,
                },
            ),
    {
        if action.as_str().unicode_len() > MAX_ACTION_LEN {
            return Err(ErrorCode::TooLong);
        }
        if handler.as_str().unicode_len() > MAX_HANDLER_LEN {
            return Err(ErrorCode::TooLong);
        }
        if notes.as_str().unicode_len() > MAX_NOTES_LEN {
            return Err(ErrorCode::TooLong);
        }
        if !self.access.has_access(authority) {
            return Err(ErrorCode::Unauthorized);
        }
        let a = evidence.crime_scene as usize;
        let j = evidence.evidence_number as usize;
        proof {
            assert(self.cases.len() == self.cases@.len());
            assert(a == evidence.crime_scene);
            assert(self.cases@[a as int].evidence.len() == self.cases@[a as int].evidence@.len());
            assert(j == evidence.evidence_number);
        }
        let k = self.cases[a].evidence[j].record.log_count;
        let entry = &mut self.cases[a];
        let item = &mut entry.evidence[j];
        item.handling_logs.push(
            EvidenceLog {
                evidence,
                timestamp,
                action,
                handler,
                notes,
                log_number: k,
            },
        );
        item.record.log_count = k + 1;
        proof {
            let ai = evidence.crime_scene as int;
            let ji = evidence.evidence_number as int;
            assert forall|b: int| 0 <= b < self.cases@.len() implies (
            #[trigger] self.cases@[b]).wf_at(b) by {
                assert(old(self).cases@[b].wf_at(b));
                if b == ai {
                    let pre_items = old(self).cases@[ai].evidence@;
                    let post_items = self.cases@[ai].evidence@;
                    assert forall|j2: int| 0 <= j2 < post_items.len() implies (
                    #[trigger] post_items[j2]).wf_at(ai, j2) by {
                        assert(pre_items[j2].wf_at(ai, j2));
                        if j2 == ji {
                            let pre_logs = pre_items[ji].handling_logs@;
                            let post_logs = post_items[ji].handling_logs@;
                            assert forall|k2: int| 0 <= k2 < post_logs.len() implies (
                            #[trigger] post_logs[k2]).wf() && post_logs[k2].evidence == (
                            EvidenceAddr {
                                crime_scene: ai as CaseAddr,
                                evidence_number: ji as u64,
                            }) && post_logs[k2].log_number == k2 by {
                                if k2 < pre_logs.len() {
                                    assert(pre_logs[k2].wf() && pre_logs[k2].evidence == (
                                    EvidenceAddr {
                                        crime_scene: ai as CaseAddr,
                                        evidence_number: ji as u64,
                                    }) && pre_logs[k2].log_number == k2);
                                }
                            }
                        }
                    }
                }
            }
            assert forall|b: int, c: int|
                0 <= b < self.cases@.len() && 0 <= c < self.cases@.len() && b
                    != c implies (#[trigger] self.cases@[b]).scene.case_id@ != (
            #[trigger] self.cases@[c]).scene.case_id@ by {
                assert(old(self).cases@[b].scene.case_id@ != old(self).cases@[c].scene.case_id@);
            }
            assert(old(self).cases@[ai].scene_logs@.is_prefix_of(self.cases@[ai].scene_logs@));
            assert forall|j2: int|
                0 <= j2 < old(self).cases@[ai].evidence@.len() implies EvidenceEntry::extends(
                old(self).cases@[ai].evidence@[j2],
                #[trigger] self.cases@[ai].evidence@[j2],
            ) by {
                assert(old(self).cases@[ai].evidence@[j2].handling_logs@.is_prefix_of(
                    self.cases@[ai].evidence@[j2].handling_logs@,
                ));
            }
        }
        Ok(k)
    }
}

} // verus!
