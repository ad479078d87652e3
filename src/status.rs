use vstd::prelude::*;

use crate::metadata::Metadata;

verus! {

/// The metadata key under which a token carries its attestation status.
pub const STATUS_KEY: &'static str = "status";

/// The attestation status of a record. An absent `status` key reads as
/// `Unregistered`; any status may follow any other.
#[derive(Debug, Clone, Copy, PartialEq, Eq, Structural)]
pub enum Status {
    Unregistered,
    Revoked,
    Frozen,
    Active,
}

impl Status {
    /// The text stored in metadata for this status.
    pub open spec fn spec_name(self) -> Seq<char> {
        match self {
            Status::Unregistered => "Unregistered"@,
            Status::Revoked => "Revoked"@,
            Status::Frozen => "Frozen"@,
            Status::Active => "Active"@,
        }
    }

    pub fn name(&self) -> (r: &'static str)
        ensures
            r@ == self.spec_name(),
    {
        match self {
            Status::Unregistered => "Unregistered",
            Status::Revoked => "Revoked",
            Status::Frozen => "Frozen",
            Status::Active => "Active",
        }
    }
}

/// A record proves KYC exactly when its metadata maps `status` to the text
/// of `Active`; any other value, or no value, does not.
pub open spec fn meta_proves_kyc(meta: Map<Seq<char>, Seq<char>>) -> bool {
    meta.contains_key("status"@) && meta["status"@] == Status::Active.spec_name()
}

/// Whether this metadata attests an active verification.
pub fn status_is_active(meta: &Metadata) -> (r: bool)
    ensures
        r == meta_proves_kyc(meta@),
{
    proof {
        reveal_strlit("status");
    }
    match meta.get(STATUS_KEY) {
        Some(value) => {
            let active = Status::Active.name().to_owned();
            *value == active
        },
        None => false,
    }
}

} // verus!
