use vstd::prelude::*;

use crate::Timestamp;
use crate::addr::IpAddress;
use crate::store::Store;

verus! {

/// The kind of access being recorded.
#[derive(Clone, Copy, PartialEq, Eq, Structural, Debug)]
pub enum AuditLogAction {
    SecretRead,
    SecretWrite,
}

/// A single-host network: an exact address together with the full prefix
/// length for its version (/32 or /128).  This is the form in which client
/// addresses are stored in the audit log.
#[derive(Clone, Copy, PartialEq, Eq, Structural, Debug)]
pub struct IpNetwork {
    pub addr: IpAddress,
    pub prefix: u8,
}

impl IpNetwork {
    /// A well-formed audit-log network pins down one host exactly.
    pub open spec fn wf(self) -> bool {
        self.prefix == self.addr.spec_host_prefix()
    }
}

/// One immutable entry of the append-only audit log: who (token), did what
/// (action), to which secret, from which address, and when.
#[derive(Clone, Copy, PartialEq, Eq, Structural, Debug)]
pub struct AuditLogEntry {
    pub client_addr: IpNetwork,
    pub action: AuditLogAction,
    pub token: u128,
    pub secret: u128,
    pub timestamp: Timestamp,
}

impl AuditLogEntry {
    /// The entry that recording `action` by `token` on `secret` from
    /// `client_addr` at `now` must produce: the address is canonicalized
    /// and stored as a single-host network.
    pub open spec fn spec_new(
        client_addr: IpAddress,
        action: AuditLogAction,
        token: u128,
        secret: u128,
        now: Timestamp,
    ) -> AuditLogEntry {
        let canonical = client_addr.spec_canonical();
        AuditLogEntry {
            client_addr: IpNetwork { addr: canonical, prefix: canonical.spec_host_prefix() },
            action,
            token,
            secret,
            timestamp: now,
        }
    }

    /// Builds the audit entry for one access: canonicalizes the client
    /// address and stores it as an exact /32 or /128 host network.
    pub fn new(
        client_addr: IpAddress,
        action: AuditLogAction,
        token: u128,
        secret: u128,
        now: Timestamp,
    ) -> (entry: AuditLogEntry)
        ensures
            entry == Self::spec_new(client_addr, action, token, secret, now),
            entry.client_addr.wf(),
    {
        let canonical = client_addr.to_canonical();
        let prefix: u8 = match canonical {
            IpAddress::V4(_) => 32,
            IpAddress::V6(_) => 128,
        };
        AuditLogEntry {
            client_addr: IpNetwork { addr: canonical, prefix },
            action,
            token,
            secret,
            timestamp: now,
        }
    }

    /// Records one access in the store's append-only audit log,
    /// timestamped at `now`, the client address canonicalized and held as
    /// an exact host network.  Nothing else in the store changes.
    pub fn log_action(
        store: &mut Store,
        client_addr: IpAddress,
        action: AuditLogAction,
        token: u128,
        secret: u128,
        now: Timestamp,
    )
        ensures
            final(store).audit_log@ == old(store).audit_log@.push(
                Self::spec_new(client_addr, action, token, secret, now),
            ),
            final(store).tokens == old(store).tokens,
            final(store).permissions == old(store).permissions,
            final(store).secrets == old(store).secrets,
            old(store).wf() ==> final(store).wf(),
    {
        let entry = Self::new(client_addr, action, token, secret, now);
        store.audit_log.push(entry);
    }
}

} // verus!
