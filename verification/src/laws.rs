//! The ledger's guarantees, stated and proved over the contracts of the
//! operations: chains are gap-free and duplicate-free, revocation is not
//! idempotent, records are never altered once written, and a revoked
//! authority can no longer append.

use vstd::prelude::*;

use crate::ledger::CaseEntry;
use crate::ledger::EvidenceEntry;
use crate::ledger::EvidenceManagement;
use crate::records::CaseAddr;
use crate::records::ErrorCode;
use crate::records::Identity;
use crate::records::MAX_DESCRIPTION_LEN;
use crate::records::MAX_OFFICER_ID_LEN;
use crate::registry::AccessRegistry;

verus! {

/// A prefix of a prefix is a prefix.
proof fn lemma_prefix_transitive<A>(s1: Seq<A>, s2: Seq<A>, s3: Seq<A>)
    requires
        s1.is_prefix_of(s2),
        s2.is_prefix_of(s3),
    ensures
        s1.is_prefix_of(s3),
{
    assert forall|i: int| 0 <= i < s1.len() implies s1[i] == s3.subrange(
        0,
        s1.len() as int,
    )[i] by {
        assert(s1[i] == s2.subrange(0, s1.len() as int)[i]);
        assert(s2[i] == s3.subrange(0, s2.len() as int)[i]);
    }
    assert(s1 =~= s3.subrange(0, s1.len() as int));
}

/// In any well-formed ledger, a case's scene-log chain is complete: entry
/// number `i` sits at position `i`, no two entries share a log number, and
/// the log numbers present are exactly those below `log_count` — however
/// many `add_scene_log` calls built the chain.
pub proof fn lemma_scene_log_chain_complete(s: EvidenceManagement, a: int)
    requires
        s.wf(),
        0 <= a < s.cases@.len(),
    ensures
        s.scene_logs_at(a).len() == s.scene_at(a).log_count,
        forall|i: int|
            0 <= i < s.scene_logs_at(a).len() ==> (#[trigger] s.scene_logs_at(a)[i]).log_number
                == i,
        forall|i: int, j: int|
            0 <= i < s.scene_logs_at(a).len() && 0 <= j < s.scene_logs_at(a).len() && i != j
                ==> (#[trigger] s.scene_logs_at(a)[i]).log_number != (
            #[trigger] s.scene_logs_at(a)[j]).log_number,
        forall|n: u64| #[trigger] s.scene_log_number_present(a, n) <==> n < s.scene_at(
            a,
        ).log_count,
{
    assert(s.cases@[a].wf_at(a));
    assert forall|n: u64| n < s.scene_at(a).log_count implies #[trigger] s.scene_log_number_present(
        a,
        n,
    ) by {
        assert(s.scene_logs_at(a)[n as int].log_number == n);
    }
}

/// In any well-formed ledger, a case's evidence ledger is complete: item
/// number `j` sits at position `j`, no two items share an evidence number,
/// and the evidence numbers present are exactly those below
/// `evidence_count` — however many `add_evidence` calls built it.
pub proof fn lemma_evidence_chain_complete(s: EvidenceManagement, a: int)
    requires
        s.wf(),
        0 <= a < s.cases@.len(),
    ensures
        s.cases@[a].evidence@.len() == s.scene_at(a).evidence_count,
        forall|j: int|
            0 <= j < s.cases@[a].evidence@.len() ==> s.evidence_at(a, j).evidence_number == j
                && s.evidence_at(a, j).crime_scene == a,
        forall|i: int, j: int|
            0 <= i < s.cases@[a].evidence@.len() && 0 <= j < s.cases@[a].evidence@.len() && i != j
                ==> s.evidence_at(a, i).evidence_number != s.evidence_at(a, j).evidence_number,
        forall|n: u64| #[trigger] s.evidence_number_present(a, n) <==> n < s.scene_at(
            a,
        ).evidence_count,
{
    assert(s.cases@[a].wf_at(a));
    assert forall|j: int| 0 <= j < s.cases@[a].evidence@.len() implies #[trigger] s.evidence_at(
        a,
        j,
    ).evidence_number == j && s.evidence_at(a, j).crime_scene == a by {
        assert(s.cases@[a].evidence@[j].wf_at(a, j));
    }
    assert forall|n: u64| n < s.scene_at(a).evidence_count implies #[trigger] s.evidence_number_present(
        a,
        n,
    ) by {
        assert(s.cases@[a].evidence@[n as int].wf_at(a, n as int));
        assert(s.cases@[a].evidence@[n as int].record.evidence_number == n);
    }
}

/// In any well-formed ledger, each evidence item's handling-log chain
/// independently satisfies the same completeness: entry number `k` sits at
/// position `k` and the log numbers present are exactly those below the
/// item's own `log_count`.
pub proof fn lemma_handling_log_chain_complete(s: EvidenceManagement, a: int, j: int)
    requires
        s.wf(),
        0 <= a < s.cases@.len(),
        0 <= j < s.cases@[a].evidence@.len(),
    ensures
        s.evidence_logs_at(a, j).len() == s.evidence_at(a, j).log_count,
        forall|k: int|
            0 <= k < s.evidence_logs_at(a, j).len() ==> (#[trigger] s.evidence_logs_at(
                a,
                j,
            )[k]).log_number == k,
        forall|i: int, k: int|
            0 <= i < s.evidence_logs_at(a, j).len() && 0 <= k < s.evidence_logs_at(a, j).len()
                && i != k ==> (#[trigger] s.evidence_logs_at(a, j)[i]).log_number != (
            #[trigger] s.evidence_logs_at(a, j)[k]).log_number,
        forall|n: u64| #[trigger] s.handling_log_number_present(a, j, n) <==> n < s.evidence_at(
            a,
            j,
        ).log_count,
{
    assert(s.cases@[a].wf_at(a));
    assert(s.cases@[a].evidence@[j].wf_at(a, j));
    assert forall|n: u64| n < s.evidence_at(a, j).log_count implies #[trigger] s.handling_log_number_present(
        a,
        j,
        n,
    ) by {
        assert(s.evidence_logs_at(a, j)[n as int].log_number == n);
    }
}

/// Append-only growth composes: if `s2` extends `s1` and `s3` extends `s2`,
/// then `s3` extends `s1`.  Together with the `extends` clause every
/// mutating operation ensures, any sequence of operations leaves every
/// record it found intact, apart from the designated counters and the
/// `has_access` flag — records, once created, are never altered.
pub proof fn lemma_extends_transitive(
    s1: EvidenceManagement,
    s2: EvidenceManagement,
    s3: EvidenceManagement,
)
    requires
        EvidenceManagement::extends(s1, s2),
        EvidenceManagement::extends(s2, s3),
    ensures
        EvidenceManagement::extends(s1, s3),
{
    assert forall|a: int| 0 <= a < s1.cases@.len() implies CaseEntry::extends(
        s1.cases@[a],
        #[trigger] s3.cases@[a],
    ) by {
        let c1 = s1.cases@[a];
        let c2 = s2.cases@[a];
        let c3 = s3.cases@[a];
        assert(CaseEntry::extends(c1, c2));
        assert(CaseEntry::extends(c2, c3));
        lemma_prefix_transitive(c1.scene_logs@, c2.scene_logs@, c3.scene_logs@);
        assert forall|j: int| 0 <= j < c1.evidence@.len() implies EvidenceEntry::extends(
            c1.evidence@[j],
            #[trigger] c3.evidence@[j],
        ) by {
            assert(EvidenceEntry::extends(c1.evidence@[j], c2.evidence@[j]));
            assert(EvidenceEntry::extends(c2.evidence@[j], c3.evidence@[j]));
            lemma_prefix_transitive(
                c1.evidence@[j].handling_logs@,
                c2.evidence@[j].handling_logs@,
                c3.evidence@[j].handling_logs@,
            );
        }
    }
}

/// Revocation is not idempotent, by design.  After a successful revoke of
/// `wallet` — whose contract guarantees `wallet` no longer holds access —
/// the admin's second revoke of `wallet` is decided `NoAccess`; it can
/// never silently succeed.
pub proof fn lemma_revoke_not_idempotent(s: AccessRegistry, authority: Identity, wallet: Identity)
    requires
        s.wf(),
        s.is_bootstrapped(),
        authority == s.admin_id(),
        !s.has_access_now(wallet),
    ensures
        s.revoke_decision(authority, wallet) == Some(ErrorCode::NoAccess),
{
}

/// A caller that is not the recorded admin cannot grant access: whatever
/// the subject, the grant is decided `InvalidAdmin`.
pub proof fn lemma_non_admin_cannot_grant(s: AccessRegistry, caller: Identity, wallet: Identity)
    requires
        caller != s.admin_id(),
    ensures
        s.grant_decision(caller, wallet) == Some(ErrorCode::InvalidAdmin),
{
}

/// An identity that holds access but is not a case's authority still cannot
/// append to that case's scene-log chain: the append is decided
/// `Unauthorized` even when the strings are within bounds.
pub proof fn lemma_non_authority_cannot_append(
    s: EvidenceManagement,
    caller: Identity,
    crime_scene: CaseAddr,
    description: Seq<char>,
    officer_id: Seq<char>,
)
    requires
        crime_scene < s.cases@.len(),
        description.len() <= MAX_DESCRIPTION_LEN,
        officer_id.len() <= MAX_OFFICER_ID_LEN,
        caller != s.scene_at(crime_scene as int).authority,
    ensures
        s.scene_log_decision(caller, crime_scene, description, officer_id) == Some(
            ErrorCode::Unauthorized,
        ),
{
}

/// Once an identity's access is revoked, its appends are decided
/// `Unauthorized` — even if it is still the case's recorded authority.
pub proof fn lemma_revoked_authority_cannot_append(
    s: EvidenceManagement,
    caller: Identity,
    crime_scene: CaseAddr,
    description: Seq<char>,
    officer_id: Seq<char>,
)
    requires
        crime_scene < s.cases@.len(),
        description.len() <= MAX_DESCRIPTION_LEN,
        officer_id.len() <= MAX_OFFICER_ID_LEN,
        caller == s.scene_at(crime_scene as int).authority,
        !s.access.has_access_now(caller),
    ensures
        s.scene_log_decision(caller, crime_scene, description, officer_id) == Some(
            ErrorCode::Unauthorized,
        ),
{
}

} // verus!
