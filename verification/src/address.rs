use vstd::prelude::*;

use crate::hexcodec::{hex_decoded, strip_0x_any_case};

verus! {

/// A 20-byte EVM account address.
#[derive(Debug, Clone, Copy)]
pub struct Address {
    pub bytes: [u8; 20],
}

/// Whether two addresses hold the same bytes.
pub fn same_address(a: &Address, b: &Address) -> (r: bool)
    ensures
        r == (a.bytes@ == b.bytes@),
{
    let mut i: usize = 0;
    while i < 20
        invariant
            i <= 20,
            forall|k: int| 0 <= k < i ==> a.bytes@[k] == b.bytes@[k],
        decreases 20 - i,
    {
        if a.bytes[i] != b.bytes[i] {
            return false;
        }
        i = i + 1;
    }
    assert(a.bytes@ =~= b.bytes@);
    true
}

impl PartialEq for Address {
    fn eq(&self, other: &Self) -> (r: bool) {
        same_address(self, other)
    }
}

impl Eq for Address {
}

impl vstd::std_specs::cmp::PartialEqSpecImpl for Address {
    open spec fn obeys_eq_spec() -> bool {
        true
    }

    open spec fn eq_spec(&self, other: &Self) -> bool {
        self.bytes@ == other.bytes@
    }
}

/// The address spelled by `s`: an optional `0x`/`0X` prefix and exactly 40 hexadecimal digits.
pub open spec fn address_decoded(s: Seq<char>) -> Option<Seq<u8>> {
    let body = strip_0x_any_case(s);
    if body.len() == 40 {
        hex_decoded(body)
    } else {
        None
    }
}

/// `<alloy::primitives::Address as FromStr>::from_str` (hex decoding into 20 bytes): the
/// contract claims success exactly when `s` is an optional `0x`/`0X` prefix followed by 40
/// hexadecimal digits, with the bytes they spell.
#[verifier::external_body]
fn alloy_parse_address(s: &str) -> (r: Option<[u8; 20]>)
    ensures
        match r {
            Some(a) => address_decoded(s@) == Some(a@),
            None => address_decoded(s@) is None,
        },
{
    s.parse::<alloy::primitives::Address>().ok().map(|a| a.into_array())
}

impl Address {
    /// The all-zero address.
    pub fn zero() -> (a: Address)
        ensures
            forall|i: int| 0 <= i < 20 ==> a.bytes@[i] == 0,
    {
        Address { bytes: [0u8; 20] }
    }

    /// Whether every byte is zero.
    pub fn is_zero(&self) -> (b: bool)
        ensures
            b == forall|i: int| 0 <= i < 20 ==> self.bytes@[i] == 0,
    {
        let mut i: usize = 0;
        while i < 20
            invariant
                i <= 20,
                forall|k: int| 0 <= k < i ==> self.bytes@[k] == 0,
            decreases 20 - i,
        {
            if self.bytes[i] != 0 {
                return false;
            }
            i = i + 1;
        }
        true
    }

    /// Parses a hex address (`0x` prefix optional).
    pub fn parse(s: &str) -> (r: Option<Address>)
        ensures
            match r {
                Some(a) => address_decoded(s@) == Some(a.bytes@),
                None => address_decoded(s@) is None,
            },
    {
        match alloy_parse_address(s) {
            Some(b) => Some(Address { bytes: b }),
            None => None,
        }
    }
}

} // verus!
