//! Stable identifiers of the rules.

use vstd::prelude::*;
use crate::text::text_order;

verus! {

/// The identifier of the authentication rule.
pub open spec fn auth_mode_id() -> RuleId {
    RuleId("auth.mode")
}

/// The identifier of the replica rule.
pub open spec fn availability_replica_posture_id() -> RuleId {
    RuleId("availability.replica_posture")
}

/// The identifier of the exposure rule.
pub open spec fn network_exposure_public_id() -> RuleId {
    RuleId("network.exposure.public")
}

/// The identifier of the emptyDir rule.
pub open spec fn persistence_emptydir_id() -> RuleId {
    RuleId("persistence.emptydir")
}

/// The identifier of the storage-mode rule.
pub open spec fn persistence_storage_mode_id() -> RuleId {
    RuleId("persistence.storage_mode")
}

/// The identifier of the run-as-non-root rule.
pub open spec fn security_run_as_non_root_id() -> RuleId {
    RuleId("security.run_as_non_root")
}

/// The identifier of the TLS rule.
pub open spec fn transport_tls_enabled_id() -> RuleId {
    RuleId("transport.tls_enabled")
}

/// The identifier of a rule, such as `transport.tls_enabled`.
#[derive(Debug, Clone, Copy, PartialEq, Eq, Hash, PartialOrd, Ord)]
pub struct RuleId(pub &'static str);

impl RuleId {
    /// The identifier `auth.mode`.
    #[allow(non_snake_case)]
    pub fn AUTH_MODE() -> (r: RuleId)
        ensures
            r == auth_mode_id(),
    {
        RuleId("auth.mode")
    }

    /// The identifier `availability.replica_posture`.
    #[allow(non_snake_case)]
    pub fn AVAILABILITY_REPLICA_POSTURE() -> (r: RuleId)
        ensures
            r == availability_replica_posture_id(),
    {
        RuleId("availability.replica_posture")
    }

    /// The identifier `network.exposure.public`.
    #[allow(non_snake_case)]
    pub fn NETWORK_EXPOSURE_PUBLIC() -> (r: RuleId)
        ensures
            r == network_exposure_public_id(),
    {
        RuleId("network.exposure.public")
    }

    /// The identifier `persistence.emptydir`.
    #[allow(non_snake_case)]
    pub fn PERSISTENCE_EMPTYDIR() -> (r: RuleId)
        ensures
            r == persistence_emptydir_id(),
    {
        RuleId("persistence.emptydir")
    }

    /// The identifier `persistence.storage_mode`.
    #[allow(non_snake_case)]
    pub fn PERSISTENCE_STORAGE_MODE() -> (r: RuleId)
        ensures
            r == persistence_storage_mode_id(),
    {
        RuleId("persistence.storage_mode")
    }

    /// The identifier `security.run_as_non_root`.
    #[allow(non_snake_case)]
    pub fn SECURITY_RUN_AS_NON_ROOT() -> (r: RuleId)
        ensures
            r == security_run_as_non_root_id(),
    {
        RuleId("security.run_as_non_root")
    }

    /// The identifier `transport.tls_enabled`.
    #[allow(non_snake_case)]
    pub fn TRANSPORT_TLS_ENABLED() -> (r: RuleId)
        ensures
            r == transport_tls_enabled_id(),
    {
        RuleId("transport.tls_enabled")
    }


    /// Whether two identifiers have the same text.
    pub fn same(&self, other: &RuleId) -> (r: bool)
        ensures
            r == (self.0@ == other.0@),
    {
        let o = text_order(self.0, other.0);
        proof {
            crate::text::lemma_seq_order_antisymmetric(self.0@, other.0@);
        }
        o == 0
    }
}

} // verus!
