use vstd::prelude::*;

verus! {

/// An account identity: a 160-bit address, held as three plain integers with
/// the most significant part first. Two identities are the same exactly when
/// all three parts are equal.
#[derive(Clone, Copy, PartialEq, Eq, Structural, Debug)]
pub struct Address {
    pub hi: u64,
    pub lo: u64,
    pub tail: u32,
}

impl Address {
    /// The zero identity: the default for a collaborator address that was
    /// never configured.
    pub open spec fn zero_spec() -> Address {
        Address { hi: 0, lo: 0, tail: 0 }
    }

    /// Builds the zero identity.
    pub fn zero() -> (r: Address)
        ensures
            r == Address::zero_spec(),
    {
        Address { hi: 0, lo: 0, tail: 0 }
    }
}

/// The checksummed hexadecimal text of the address whose big-endian parts are
/// the given integers: the textual form an address registers under by default.
pub uninterp spec fn text_of(hi: u64, lo: u64, tail: u32) -> Seq<char>;

/// Relies on `alloy_primitives::Address::to_string` (through its `Display`
/// impl): the checksummed, `"0x"`-prefixed hexadecimal form of the 20 address
/// bytes, 42 characters long and a function of those bytes alone.
#[verifier::external_body]
pub(crate) fn checksum_text(a: &Address) -> (r: String)
    ensures
        r@ == text_of(a.hi, a.lo, a.tail),
        r@.len() == 42,
{
    let mut bytes = [0u8; 20];
    bytes[0..8].copy_from_slice(&a.hi.to_be_bytes());
    bytes[8..16].copy_from_slice(&a.lo.to_be_bytes());
    bytes[16..20].copy_from_slice(&a.tail.to_be_bytes());
    alloy_primitives::Address::new(bytes).to_string()
}

} // verus!
