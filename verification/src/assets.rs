//! Asset identifiers and transfer legs.

use vstd::prelude::*;

verus! {

/// The host's standard token category. Callers of the predicate configure
/// only a sequence number per leg; the namespace half of each expected
/// asset identifier is fixed to this constant.
pub const STANDARD_NAMESPACE: u128 = 2;

/// Compound identifier of a fungible token class: a namespace (category)
/// together with a sequence number within it. Equality is structural:
/// both fields must match.
#[derive(PartialEq, Eq, Structural, Clone, Copy, Debug)]
pub struct AssetId {
    pub namespace: u128,
    pub sequence: u128,
}

/// One leg of value attached to an invocation: an asset class and a
/// non-negative quantity.
#[derive(PartialEq, Eq, Structural, Clone, Copy, Debug)]
pub struct Transfer {
    pub id: AssetId,
    pub amount: u128,
}

/// The full expected identifier for one leg: the configured sequence
/// number under the standard namespace.
pub open spec fn spec_standard_id(sequence: u128) -> AssetId {
    AssetId { namespace: STANDARD_NAMESPACE, sequence }
}

impl AssetId {
    /// Builds the expected identifier for a leg from its configured
    /// sequence number.
    pub fn standard(sequence: u128) -> (r: AssetId)
        ensures
            r == spec_standard_id(sequence),
    {
        AssetId { namespace: STANDARD_NAMESPACE, sequence }
    }
}

} // verus!
