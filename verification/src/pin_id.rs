//! Identifiers of pins.

use std::cmp::Ordering;
use vstd::prelude::*;

verus! {

/// Opaque identifier of a pinned window.
///
/// Identifiers are handed out by the registry and are never reused after a
/// pin is closed. The newtype keeps a raw `u64` of another kind from being
/// passed where a pin is meant.
#[derive(Debug, Clone, Copy, PartialEq, Eq, Ord, Hash, Structural)]
pub struct PinId(u64);

impl View for PinId {
    type V = u64;

    closed spec fn view(&self) -> u64 {
        self.0
    }
}

impl PinId {
    /// The identifier with the given number.
    #[must_use]
    pub fn new(raw: u64) -> (r: PinId)
        ensures
            r@ == raw,
    {
        PinId(raw)
    }

    /// The number of this identifier.
    #[must_use]
    pub fn get(self) -> (r: u64)
        ensures
            r == self@,
    {
        self.0
    }

    /// The number of this identifier in decimal.
    pub fn to_decimal(self) -> (r: String)
        ensures
            r@ == crate::text::decimal(self@ as nat),
    {
        crate::text::decimal_string(self.0)
    }

    /// The identifier with the given number, in specifications.
    pub closed spec fn of(raw: u64) -> PinId {
        PinId(raw)
    }
}

impl From<u64> for PinId {
    fn from(raw: u64) -> (r: PinId) {
        PinId(raw)
    }
}

impl vstd::std_specs::convert::FromSpecImpl<u64> for PinId {
    open spec fn obeys_from_spec() -> bool {
        true
    }

    open spec fn from_spec(raw: u64) -> PinId {
        PinId::of(raw)
    }
}

impl vstd::std_specs::cmp::PartialOrdSpecImpl for PinId {
    open spec fn obeys_partial_cmp_spec() -> bool {
        true
    }

    open spec fn partial_cmp_spec(&self, other: &PinId) -> Option<Ordering> {
        if self@ < other@ {
            Some(Ordering::Less)
        } else if self@ > other@ {
            Some(Ordering::Greater)
        } else {
            Some(Ordering::Equal)
        }
    }
}

impl PartialOrd for PinId {
    /// Identifiers are ordered by their numbers.
    fn partial_cmp(&self, other: &PinId) -> (r: Option<Ordering>) {
        if self.0 < other.0 {
            Some(Ordering::Less)
        } else if self.0 > other.0 {
            Some(Ordering::Greater)
        } else {
            Some(Ordering::Equal)
        }
    }
}

/// Identifiers are equal exactly when their numbers are, and ordered as their
/// numbers are.
pub proof fn pin_ids_compare_as_their_numbers(a: PinId, b: PinId)
    ensures
        a == b <==> a@ == b@,
        vstd::std_specs::cmp::PartialOrdSpec::partial_cmp_spec(&a, &b) == Some(Ordering::Less)
            <==> a@ < b@,
        vstd::std_specs::cmp::PartialOrdSpec::partial_cmp_spec(&a, &b) == Some(Ordering::Equal)
            <==> a@ == b@,
        vstd::std_specs::cmp::PartialOrdSpec::partial_cmp_spec(&a, &b) == Some(Ordering::Greater)
            <==> a@ > b@,
{
}

/// Every number is the number of an identifier.
pub proof fn pin_id_has_number(raw: u64)
    ensures
        PinId::of(raw)@ == raw,
{
}

/// Identifiers with the same number are the same.
pub proof fn pin_id_is_its_number(a: PinId)
    ensures
        PinId::of(a@) == a,
{
}

} // verus!
