//! The access registry: a flat grant list rooted at a single bootstrap
//! admin.  Every mutating ledger operation asks it whether the acting
//! identity currently holds access.

use vstd::prelude::*;

use crate::records::AccessControl;
use crate::records::ErrorCode;
use crate::records::Identity;

verus! {

/// The registry singleton.  `admin` is `None` until the bootstrap operation
/// has run; afterwards `entries` holds exactly one entry per granted
/// identity, the admin's own entry among them.
pub struct AccessRegistry {
    pub admin: Option<Identity>,
    pub entries: Vec<AccessControl>,
}

impl AccessRegistry {
    /// The bootstrap admin entry has been created.
    pub open spec fn is_bootstrapped(self) -> bool {
        self.admin is Some
    }

    /// The bootstrap admin identity.  Meaningful only once bootstrapped.
    pub open spec fn admin_id(self) -> Identity {
        self.admin->Some_0
    }

    /// Some entry (granted or revoked) exists for `id`.
    pub open spec fn has_entry_for(self, id: Identity) -> bool {
        exists|i: int|
            0 <= i < self.entries@.len() && (#[trigger] self.entries@[i]).wallet == id
    }

    /// `id` currently holds access: its entry exists and is not revoked.
    pub open spec fn has_access_now(self, id: Identity) -> bool {
        exists|i: int|
            0 <= i < self.entries@.len() && (#[trigger] self.entries@[i]).wallet == id
                && self.entries@[i].has_access
    }

    /// Registry invariant: no entries before bootstrap; at most one entry per
    /// identity; the admin entry exists; every entry was granted by, and is
    /// rooted at, the one admin.
    pub open spec fn wf(self) -> bool {
        &&& !self.is_bootstrapped() ==> self.entries@.len() == 0
        &&& forall|i: int, j: int|
            0 <= i < self.entries@.len() && 0 <= j < self.entries@.len() && i != j
                ==> (#[trigger] self.entries@[i]).wallet != (#[trigger] self.entries@[j]).wallet
        &&& self.is_bootstrapped() ==> self.has_entry_for(self.admin_id())
        &&& forall|i: int|
            0 <= i < self.entries@.len()
                ==> (#[trigger] self.entries@[i]).admin == self.admin_id()
                    && self.entries@[i].granted_by == self.admin_id()
    }

    /// The outcome the bootstrap operation must decide: a second bootstrap
    /// collides with the existing admin entry's address.
    pub open spec fn bootstrap_decision(self) -> Option<ErrorCode> {
        if self.is_bootstrapped() {
            Some(ErrorCode::DuplicateAddress)
        } else {
            None
        }
    }

    /// The outcome a grant must decide: only the admin may grant, and a
    /// second entry for the same identity collides with the first.
    pub open spec fn grant_decision(self, authority: Identity, wallet: Identity) -> Option<
        ErrorCode,
    > {
        if !self.is_bootstrapped() || authority != self.admin_id() {
            Some(ErrorCode::InvalidAdmin)
        } else if self.has_entry_for(wallet) {
            Some(ErrorCode::DuplicateAddress)
        } else {
            None
        }
    }

    /// The outcome a revoke must decide: only the admin may revoke, and an
    /// identity that does not currently hold access cannot lose it.
    pub open spec fn revoke_decision(self, authority: Identity, wallet: Identity) -> Option<
        ErrorCode,
    > {
        if !self.is_bootstrapped() || authority != self.admin_id() {
            Some(ErrorCode::InvalidAdmin)
        } else if !self.has_access_now(wallet) {
            Some(ErrorCode::NoAccess)
        } else {
            None
        }
    }

    /// `post` is `pre` with records only added, never altered or removed,
    /// except for the `has_access` flag of existing entries.
    pub open spec fn extends(pre: AccessRegistry, post: AccessRegistry) -> bool {
        &&& pre.entries@.len() <= post.entries@.len()
        &&& forall|i: int|
            0 <= i < pre.entries@.len()
                ==> (#[trigger] post.entries@[i]).wallet == pre.entries@[i].wallet
                    && post.entries@[i].granted_by == pre.entries@[i].granted_by
                    && post.entries@[i].admin == pre.entries@[i].admin
        &&& pre.is_bootstrapped() ==> post.admin == pre.admin
    }

    /// An empty registry, before bootstrap.
    pub fn new() -> (r: AccessRegistry)
        ensures
            r.wf(),
            !r.is_bootstrapped(),
            r.entries@.len() == 0,
    {
        AccessRegistry { admin: None, entries: Vec::new() }
    }

    /// The position of `wallet`'s entry, if one exists.
    fn entry_position(&self, wallet: Identity) -> (r: Option<usize>)
        ensures
            match r {
                Some(i) => i < self.entries@.len() && self.entries@[i as int].wallet == wallet,
                None => !self.has_entry_for(wallet),
            },
    {
        let mut i: usize = 0;
        while i < self.entries.len()
            invariant
                i <= self.entries@.len(),
                forall|j: int| 0 <= j < i ==> (#[trigger] self.entries@[j]).wallet != wallet,
            decreases self.entries@.len() - i,
        {
            if self.entries[i].wallet == wallet {
                return Some(i);
            }
            i = i + 1;
        }
        None
    }

    /// Whether `wallet` currently holds access.
    pub fn has_access(&self, wallet: Identity) -> (r: bool)
        requires
            self.wf(),
        ensures
            r == self.has_access_now(wallet),
    {
        match self.entry_position(wallet) {
            Some(i) => {
                let granted = self.entries[i].has_access;
                proof {
                    if !granted {
                        assert forall|j: int|
                            0 <= j < self.entries@.len() && (#[trigger] self.entries@[j]).wallet
                                == wallet implies !self.entries@[j].has_access by {
                            assert(j == i as int);
                        }
                    }
                }
                granted
            },
            None => false,
        }
    }

    /// Creates the singleton bootstrap admin entry for `authority`: access
    /// granted, self-granted, rooted at itself.  Fails with
    /// `DuplicateAddress` if the registry was already bootstrapped.
    pub fn initialize_access_control(&mut self, authority: Identity) -> (r: Result<
        (),
        ErrorCode,
    >)
        requires
            old(self).wf(),
        ensures
            final(self).wf(),
            (old(self).bootstrap_decision() matches Some(e) ==> r == Err::<(), ErrorCode>(e)
                && *final(self) == *old(self)),
            old(self).bootstrap_decision() is None ==> r == Ok::<(), ErrorCode>(())
                && final(self).admin == Some(authority)
                && final(self).entries@ == old(self).entries@.push(
                AccessControl {
                    wallet: authority,
                    has_access: true,
                    granted_by: authority,
                    admin: authority,
                },
            ),
            AccessRegistry::extends(*old(self), *final(self)),
    {
        if self.admin.is_some() {
            return Err(ErrorCode::DuplicateAddress);
        }
        self.admin = Some(authority);
        self.entries.push(
            AccessControl {
                wallet: authority,
                has_access: true,
                granted_by: authority,
                admin: authority,
            },
        );
        proof {
            assert(old(self).entries@.len() == 0);
            assert(self.entries@[0].wallet == authority);
            assert(self.has_entry_for(self.admin_id()));
        }
        Ok(())
    }

    /// Creates a fresh access entry for `wallet`, granted by the admin.
    /// Fails with `InvalidAdmin` unless `authority` is the bootstrap admin,
    /// and with `DuplicateAddress` if `wallet` already has an entry.
    pub fn grant_access(&mut self, authority: Identity, wallet: Identity) -> (r: Result<
        (),
        ErrorCode,
    >)
        requires
            old(self).wf(),
        ensures
            final(self).wf(),
            (old(self).grant_decision(authority, wallet) matches Some(e) ==> r == Err::<
                (),
                ErrorCode,
            >(e) && *final(self) == *old(self)),
            old(self).grant_decision(authority, wallet) is None ==> r == Ok::<(), ErrorCode>(())
                && final(self).admin == old(self).admin
                && final(self).entries@ == old(self).entries@.push(
                AccessControl {
                    wallet: wallet,
                    has_access: true,
                    granted_by: authority,
                    admin: authority,
                },
            ),
            r is Ok ==> final(self).has_access_now(wallet),
            forall|id: Identity|
                id != wallet ==> final(self).has_access_now(id) == old(self).has_access_now(id),
            AccessRegistry::extends(*old(self), *final(self)),
    {
        let admin_ok = match self.admin {
            Some(a) => a == authority,
            None => false,
        };
        if !admin_ok {
            return Err(ErrorCode::InvalidAdmin);
        }
        if self.entry_position(wallet).is_some() {
            return Err(ErrorCode::DuplicateAddress);
        }
        self.entries.push(
            AccessControl { wallet, has_access: true, granted_by: authority, admin: authority },
        );
        proof {
            let n = old(self).entries@.len() as int;
            assert(self.entries@[n].wallet == wallet && self.entries@[n].has_access);
            assert(self.has_access_now(wallet));
            assert forall|i: int, j: int|
                0 <= i < self.entries@.len() && 0 <= j < self.entries@.len() && i
                    != j implies (#[trigger] self.entries@[i]).wallet != (#[trigger] self.entries@[j]).wallet by {
                if i < n && j < n {
                    assert(old(self).entries@[i].wallet != old(self).entries@[j].wallet);
                } else if i == n {
                    assert(old(self).entries@[j].wallet != wallet);
                } else {
                    assert(old(self).entries@[i].wallet != wallet);
                }
            }
            assert(old(self).has_entry_for(old(self).admin_id()));
            let k = choose|k: int|
                0 <= k < old(self).entries@.len() && (#[trigger] old(self).entries@[k]).wallet
                    == old(self).admin_id();
            assert(self.entries@[k].wallet == self.admin_id());
            assert(self.has_entry_for(self.admin_id()));
        }
        proof {
            assert forall|id: Identity| id != wallet implies self.has_access_now(id)
                == old(self).has_access_now(id) by {
                let post_entries = self.entries@;
                if old(self).has_access_now(id) {
                    let i = choose|i: int|
                        0 <= i < old(self).entries@.len()
                            && (#[trigger] old(self).entries@[i]).wallet == id
                            && old(self).entries@[i].has_access;
                    assert(post_entries[i].wallet == id && post_entries[i].has_access);
                }
                if self.has_access_now(id) {
                    let i = choose|i: int|
                        0 <= i < post_entries.len() && (#[trigger] post_entries[i]).wallet == id
                            && post_entries[i].has_access;
                    assert(i < old(self).entries@.len());
                    assert(old(self).entries@[i].wallet == id
                        && old(self).entries@[i].has_access);
                }
            }
        }
        Ok(())
    }

    /// Withdraws `wallet`'s access by flipping its entry's `has_access` flag;
    /// the entry itself remains for audit.  Fails with `InvalidAdmin` unless
    /// `authority` is the bootstrap admin, and with `NoAccess` if `wallet`
    /// does not currently hold access.
    pub fn revoke_access(&mut self, authority: Identity, wallet: Identity) -> (r: Result<
        (),
        ErrorCode,
    >)
        requires
            old(self).wf(),
        ensures
            final(self).wf(),
            (old(self).revoke_decision(authority, wallet) matches Some(e) ==> r == Err::<
                (),
                ErrorCode,
            >(e) && *final(self) == *old(self)),
            old(self).revoke_decision(authority, wallet) is None ==> r == Ok::<(), ErrorCode>(())
                && final(self).admin == old(self).admin && (exists|i: int|
                0 <= i < old(self).entries@.len() && (#[trigger] old(self).entries@[i]).wallet
                    == wallet && old(self).entries@[i].has_access
                    && final(self).entries@ == old(self).entries@.update(
                    i,
                    old(self).entries@[i].revoked(),
                )),
            r is Ok ==> !final(self).has_access_now(wallet),
            forall|id: Identity|
                id != wallet ==> final(self).has_access_now(id) == old(self).has_access_now(id),
            forall|id: Identity| final(self).has_entry_for(id) == old(self).has_entry_for(id),
            AccessRegistry::extends(*old(self), *final(self)),
    {
        let admin_ok = match self.admin {
            Some(a) => a == authority,
            None => false,
        };
        if !admin_ok {
            return Err(ErrorCode::InvalidAdmin);
        }
        let position = self.entry_position(wallet);
        match position {
            None => Err(ErrorCode::NoAccess),
            Some(i) => {
                if !self.entries[i].has_access {
                    proof {
                        assert forall|j: int|
                            0 <= j < self.entries@.len() && (#[trigger] self.entries@[j]).wallet
                                == wallet implies !self.entries@[j].has_access by {
                            assert(j == i as int);
                        }
                    }
                    Err(ErrorCode::NoAccess)
                } else {
                    let entry = &mut self.entries[i];
                    entry.has_access = false;
                    proof {
                        let pre = *old(self);
                        let post = *self;
                        assert(post.entries@ == pre.entries@.update(
                            i as int,
                            pre.entries@[i as int].revoked(),
                        ));
                        assert(pre.has_access_now(wallet));
                        assert forall|j: int|
                            0 <= j < post.entries@.len() && (#[trigger] post.entries@[j]).wallet
                                == wallet implies !post.entries@[j].has_access by {
                            assert(pre.entries@[j].wallet == wallet);
                            assert(j == i as int);
                        }
                        assert forall|id: Identity| id != wallet implies post.has_access_now(id)
                            == pre.has_access_now(id) by {
                            if pre.has_access_now(id) {
                                let k = choose|k: int|
                                    0 <= k < pre.entries@.len() && (#[trigger] pre.entries@[k]).wallet
                                        == id && pre.entries@[k].has_access;
                                assert(k != i as int);
                                assert(post.entries@[k].wallet == id
                                    && post.entries@[k].has_access);
                            }
                            if post.has_access_now(id) {
                                let k = choose|k: int|
                                    0 <= k < post.entries@.len() && (#[trigger] post.entries@[k]).wallet
                                        == id && post.entries@[k].has_access;
                                assert(k != i as int);
                                assert(pre.entries@[k].wallet == id
                                    && pre.entries@[k].has_access);
                            }
                        }
                        assert forall|id: Identity| true implies post.has_entry_for(id)
                            == pre.has_entry_for(id) by {
                            if pre.has_entry_for(id) {
                                let k = choose|k: int|
                                    0 <= k < pre.entries@.len() && (#[trigger] pre.entries@[k]).wallet
                                        == id;
                                assert(post.entries@[k].wallet == id);
                            }
                            if post.has_entry_for(id) {
                                let k = choose|k: int|
                                    0 <= k < post.entries@.len() && (#[trigger] post.entries@[k]).wallet
                                        == id;
                                assert(pre.entries@[k].wallet == id);
                            }
                        }
                        assert(post.has_entry_for(post.admin_id()));
                    }
                    Ok(())
                }
            },
        }
    }
}

} // verus!
