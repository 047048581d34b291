use vstd::prelude::*;

use crate::address::Address;

verus! {

// ---------------------------------------------------------------------------------------------
// The ABI-encoded intent specifications.
// ---------------------------------------------------------------------------------------------

/// `TriggerSmartContractIntent { address to; uint256 callValueSun; bytes data; }`; 256-bit
/// words are kept as their 32 big-endian bytes.
#[derive(Debug, Clone)]
pub struct TriggerSmartContractIntent {
    pub to: Address,
    pub call_value_sun: [u8; 32],
    pub data: Vec<u8>,
}

/// `TRXTransferIntent { address to; uint256 amountSun; }`.
#[derive(Debug, Clone, Copy)]
pub struct TrxTransferIntent {
    pub to: Address,
    pub amount_sun: [u8; 32],
}

/// `USDTTransferIntent { address to; uint256 amount; }`.
#[derive(Debug, Clone, Copy)]
pub struct UsdtTransferIntent {
    pub to: Address,
    pub amount: [u8; 32],
}

/// `DelegateResourceIntent { address receiver; uint8 resource; uint256 balanceSun;
/// uint256 lockPeriod; }`.
#[derive(Debug, Clone, Copy)]
pub struct DelegateResourceIntent {
    pub receiver: Address,
    pub resource: u8,
    pub balance_sun: [u8; 32],
    pub lock_period: [u8; 32],
}

/// What ABI-decoding `(address, uint256, bytes)` from `data` yields (address bytes, value word,
/// bytes), or `None` when it fails.
pub uninterp spec fn abi_address_uint_bytes(data: Seq<u8>) -> Option<(Seq<u8>, Seq<u8>, Seq<u8>)>;

/// What ABI-decoding `(address, uint256)` from `data` yields, or `None` when it fails.
pub uninterp spec fn abi_address_uint(data: Seq<u8>) -> Option<(Seq<u8>, Seq<u8>)>;

/// What ABI-decoding `(address, uint8, uint256, uint256)` from `data` yields, or `None` when
/// it fails.
pub uninterp spec fn abi_address_u8_uint_uint(data: Seq<u8>) -> Option<(Seq<u8>, u8, Seq<u8>, Seq<u8>)>;

/// `<(sol_data::Address, sol_data::Uint<256>, sol_data::Bytes) as alloy::sol_types::SolType>::abi_decode`, the decoding of a
/// `TriggerSmartContractIntent` (a struct decodes as the tuple of its fields): the contract
/// claims only that the result is the one named by `abi_address_uint_bytes` for these bytes.
#[verifier::external_body]
fn abi_decode_address_uint_bytes(data: &[u8]) -> (r: Option<TriggerSmartContractIntent>)
    ensures
        match r {
            Some(t) => abi_address_uint_bytes(data@) == Some((t.to.bytes@, t.call_value_sun@, t.data@)),
            None => abi_address_uint_bytes(data@) is None,
        },
{
    match <(
        alloy::sol_types::sol_data::Address,
        alloy::sol_types::sol_data::Uint<256>,
        alloy::sol_types::sol_data::Bytes,
    ) as alloy::sol_types::SolType>::abi_decode(data) {
        Ok((to, v, d)) => Some(TriggerSmartContractIntent {
            to: Address { bytes: to.into_array() },
            call_value_sun: v.to_be_bytes::<32>(),
            data: d.to_vec(),
        }),
        Err(_) => None,
    }
}

/// `<(sol_data::Address, sol_data::Uint<256>) as alloy::sol_types::SolType>::abi_decode`, the decoding of a
/// `TRXTransferIntent` or a `USDTTransferIntent`: the contract claims only that the result is
/// the one named by `abi_address_uint` for these bytes.
#[verifier::external_body]
fn abi_decode_address_uint(data: &[u8]) -> (r: Option<(Address, [u8; 32])>)
    ensures
        match r {
            Some(t) => abi_address_uint(data@) == Some((t.0.bytes@, t.1@)),
            None => abi_address_uint(data@) is None,
        },
{
    match <(
        alloy::sol_types::sol_data::Address,
        alloy::sol_types::sol_data::Uint<256>,
    ) as alloy::sol_types::SolType>::abi_decode(data) {
        Ok((to, v)) => Some((Address { bytes: to.into_array() }, v.to_be_bytes::<32>())),
        Err(_) => None,
    }
}

/// `<(sol_data::Address, sol_data::Uint<8>, sol_data::Uint<256>, sol_data::Uint<256>) as
/// alloy::sol_types::SolType>::abi_decode`, the decoding of a
/// `DelegateResourceIntent`: the contract claims only that the result is the one named by
/// `abi_address_u8_uint_uint` for these bytes.
#[verifier::external_body]
fn abi_decode_address_u8_uint_uint(data: &[u8]) -> (r: Option<DelegateResourceIntent>)
    ensures
        match r {
            Some(t) => abi_address_u8_uint_uint(data@) == Some(
                (t.receiver.bytes@, t.resource, t.balance_sun@, t.lock_period@),
            ),
            None => abi_address_u8_uint_uint(data@) is None,
        },
{
    match <(
        alloy::sol_types::sol_data::Address,
        alloy::sol_types::sol_data::Uint<8>,
        alloy::sol_types::sol_data::Uint<256>,
        alloy::sol_types::sol_data::Uint<256>,
    ) as alloy::sol_types::SolType>::abi_decode(data) {
        Ok((to, res, b, l)) => Some(DelegateResourceIntent {
            receiver: Address { bytes: to.into_array() },
            resource: res,
            balance_sun: b.to_be_bytes::<32>(),
            lock_period: l.to_be_bytes::<32>(),
        }),
        Err(_) => None,
    }
}

impl TriggerSmartContractIntent {
    /// The intent's view: address bytes, call value word, call data.
    pub open spec fn view_tuple(self) -> (Seq<u8>, Seq<u8>, Seq<u8>) {
        (self.to.bytes@, self.call_value_sun@, self.data@)
    }

    /// Decodes an ABI-encoded trigger intent.
    pub fn abi_decode(data: &[u8]) -> (r: Option<TriggerSmartContractIntent>)
        ensures
            match r {
                Some(t) => abi_address_uint_bytes(data@) == Some(t.view_tuple()),
                None => abi_address_uint_bytes(data@) is None,
            },
    {
        abi_decode_address_uint_bytes(data)
    }
}

impl TrxTransferIntent {
    /// Decodes an ABI-encoded TRX transfer intent.
    pub fn abi_decode(data: &[u8]) -> (r: Option<TrxTransferIntent>)
        ensures
            match r {
                Some(t) => abi_address_uint(data@) == Some((t.to.bytes@, t.amount_sun@)),
                None => abi_address_uint(data@) is None,
            },
    {
        match abi_decode_address_uint(data) {
            Some((to, amount_sun)) => Some(TrxTransferIntent { to, amount_sun }),
            None => None,
        }
    }
}

impl UsdtTransferIntent {
    /// Decodes an ABI-encoded USDT transfer intent.
    pub fn abi_decode(data: &[u8]) -> (r: Option<UsdtTransferIntent>)
        ensures
            match r {
                Some(t) => abi_address_uint(data@) == Some((t.to.bytes@, t.amount@)),
                None => abi_address_uint(data@) is None,
            },
    {
        match abi_decode_address_uint(data) {
            Some((to, amount)) => Some(UsdtTransferIntent { to, amount }),
            None => None,
        }
    }
}

impl DelegateResourceIntent {
    /// Decodes an ABI-encoded delegate-resource intent.
    pub fn abi_decode(data: &[u8]) -> (r: Option<DelegateResourceIntent>)
        ensures
            match r {
                Some(t) => abi_address_u8_uint_uint(data@) == Some(
                    (t.receiver.bytes@, t.resource, t.balance_sun@, t.lock_period@),
                ),
                None => abi_address_u8_uint_uint(data@) is None,
            },
    {
        abi_decode_address_u8_uint_uint(data)
    }
}

// ---------------------------------------------------------------------------------------------
// 256-bit words.
// ---------------------------------------------------------------------------------------------

/// `256^n`.
pub open spec fn pow256(n: nat) -> nat
    decreases n,
{
    if n == 0 {
        1
    } else {
        256 * pow256((n - 1) as nat)
    }
}

/// The number written by big-endian bytes.
pub open spec fn be_value(s: Seq<u8>) -> nat
    decreases s.len(),
{
    if s.len() == 0 {
        0
    } else {
        (be_value(s.drop_last()) * 256 + s.last()) as nat
    }
}

pub(crate) proof fn lemma_be_value_bound(s: Seq<u8>)
    ensures
        be_value(s) < pow256(s.len()),
    decreases s.len(),
{
    if s.len() > 0 {
        let t = s.drop_last();
        lemma_be_value_bound(t);
        let a = be_value(t);
        let p = pow256(t.len());
        let l = s.last();
        assert(a * 256 + l < 256 * p) by (nonlinear_arith)
            requires
                a < p,
                l < 256,
        ;
    }
}

pub(crate) proof fn lemma_be_value_append(a: Seq<u8>, b: Seq<u8>)
    ensures
        be_value(a + b) == be_value(a) * pow256(b.len()) + be_value(b),
    decreases b.len(),
{
    if b.len() == 0 {
        assert(a + b =~= a);
        assert(pow256(0) == 1);
        assert(be_value(b) == 0);
        assert(be_value(a) * 1 == be_value(a));
    } else {
        let b2 = b.drop_last();
        assert((a + b).drop_last() =~= a + b2);
        assert((a + b).last() == b.last());
        lemma_be_value_append(a, b2);
        let x = be_value(a);
        let p = pow256(b2.len());
        let y = be_value(b2);
        let l = b.last() as int;
        assert(be_value(a + b) == be_value(a + b2) * 256 + l);
        assert(be_value(b) == y * 256 + l);
        assert(pow256(b.len()) == 256 * p);
        assert((x * p + y) * 256 + l == x * (256 * p) + (y * 256 + l)) by (nonlinear_arith);
    }
}

proof fn lemma_be_value_zero(s: Seq<u8>)
    ensures
        be_value(s) == 0 <==> forall|k: int| 0 <= k < s.len() ==> s[k] == 0,
    decreases s.len(),
{
    if s.len() > 0 {
        let t = s.drop_last();
        lemma_be_value_zero(t);
        if be_value(s) == 0 {
            assert(be_value(t) == 0 && s.last() == 0) by (nonlinear_arith)
                requires
                    be_value(t) * 256 + s.last() == 0,
                    be_value(t) >= 0,
                    s.last() >= 0,
            ;
            assert forall|k: int| 0 <= k < s.len() implies s[k] == 0 by {
                if k < t.len() {
                    assert(s[k] == t[k]);
                }
            }
        } else {
            if forall|k: int| 0 <= k < s.len() ==> s[k] == 0 {
                assert forall|k: int| 0 <= k < t.len() implies t[k] == 0 by {
                    assert(t[k] == s[k]);
                }
                assert(s.last() == s[s.len() - 1]);
            }
        }
    }
}

/// The number a 256-bit word holds, if it fits in `u64` (`u64::try_from(U256)`).
pub open spec fn word_u64(w: Seq<u8>) -> Option<u64> {
    if be_value(w) <= u64::MAX {
        Some(be_value(w) as u64)
    } else {
        None
    }
}

/// Reads a big-endian 256-bit word as a `u64`, or `None` when its value is larger.
pub fn word_to_u64(w: &[u8; 32]) -> (r: Option<u64>)
    ensures
        r == word_u64(w@),
{
    let ghost s = w@;
    let ghost hi = s.subrange(0, 24);
    let ghost lo = s.subrange(24, 32);
    proof {
        reveal_with_fuel(pow256, 9);
        assert(pow256(8) == 0x1_0000_0000_0000_0000);
    }
    let mut i: usize = 0;
    while i < 24
        invariant
            i <= 24,
            s == w@,
            hi == s.subrange(0, 24),
            lo == s.subrange(24, 32),
            forall|k: int| 0 <= k < i ==> hi[k] == 0,
        decreases 24 - i,
    {
        if w[i] != 0 {
            proof {
                assert(s =~= hi + lo);
                lemma_be_value_append(hi, lo);
                lemma_be_value_bound(lo);
                lemma_be_value_zero(hi);
                reveal_with_fuel(pow256, 9);
                assert(hi[i as int] != 0);
                assert(be_value(hi) >= 1);
                assert(be_value(hi) * pow256(8) >= pow256(8)) by (nonlinear_arith)
                    requires
                        be_value(hi) >= 1,
                ;
            }
            return None;
        }
        i = i + 1;
    }
    let mut v: u64 = 0;
    let mut j: usize = 24;
    while j < 32
        invariant
            24 <= j <= 32,
            s == w@,
            lo == s.subrange(24, 32),
            v as nat == be_value(s.subrange(24, j as int)),
            be_value(s.subrange(24, j as int)) < pow256((j - 24) as nat),
            pow256(8) == 0x1_0000_0000_0000_0000,
        decreases 32 - j,
    {
        proof {
            let t = s.subrange(24, j as int + 1);
            assert(t.drop_last() =~= s.subrange(24, j as int));
            assert(t.last() == w@[j as int]);
            lemma_be_value_bound(t);
            reveal_with_fuel(pow256, 9);
            assert(pow256((j + 1 - 24) as nat) <= pow256(8)) by {
                if j + 1 - 24 < 8 {
                    assert(pow256(7) == 0x100_0000_0000_0000);
                    assert(pow256(6) == 0x1_0000_0000_0000);
                    assert(pow256(5) == 0x100_0000_0000);
                    assert(pow256(4) == 0x1_0000_0000);
                    assert(pow256(3) == 0x100_0000);
                    assert(pow256(2) == 0x1_0000);
                    assert(pow256(1) == 0x100);
                }
            }
        }
        v = v * 256 + w[j] as u64;
        j = j + 1;
    }
    proof {
        assert(s.subrange(24, 32) =~= lo);
        assert(s =~= hi + lo);
        lemma_be_value_append(hi, lo);
        lemma_be_value_bound(lo);
        lemma_be_value_zero(hi);
        assert(be_value(hi) == 0);
    }
    Some(v)
}

pub(crate) proof fn lemma_be_prepend(b: u8, t: Seq<u8>)
    ensures
        be_value(seq![b] + t) == b as nat * pow256(t.len()) + be_value(t),
    decreases t.len(),
{
    if t.len() == 0 {
        assert(seq![b] + t =~= seq![b]);
        assert(seq![b].drop_last() =~= Seq::<u8>::empty());
        assert(be_value(Seq::<u8>::empty()) == 0);
        assert(seq![b].last() == b);
        assert(be_value(seq![b]) == b as nat);
        assert(pow256(0) == 1);
        assert(be_value(t) == 0);
        assert(b as nat * 1 == b as nat);
    } else {
        let t2 = t.drop_last();
        assert((seq![b] + t).drop_last() =~= seq![b] + t2);
        assert((seq![b] + t).last() == t.last());
        lemma_be_prepend(b, t2);
        let p = pow256(t2.len());
        assert(be_value(seq![b] + t) == be_value(seq![b] + t2) * 256 + t.last());
        assert(be_value(t) == be_value(t2) * 256 + t.last());
        assert(pow256(t.len()) == 256 * p);
        assert((b as nat * p + be_value(t2)) * 256 + t.last() == b as nat * (256 * p) + (be_value(t2)
            * 256 + t.last())) by (nonlinear_arith);
    }
}

pub(crate) proof fn lemma_be_append_zero(hi: Seq<u8>, lo: Seq<u8>)
    requires
        forall|k: int| 0 <= k < hi.len() ==> hi[k] == 0,
    ensures
        be_value(hi + lo) == be_value(lo),
    decreases lo.len(),
{
    if lo.len() == 0 {
        assert(hi + lo =~= hi);
        lemma_be_zero(hi);
    } else {
        assert((hi + lo).drop_last() =~= hi + lo.drop_last());
        lemma_be_append_zero(hi, lo.drop_last());
    }
}

pub(crate) proof fn lemma_be_zero(s: Seq<u8>)
    requires
        forall|k: int| 0 <= k < s.len() ==> s[k] == 0,
    ensures
        be_value(s) == 0,
    decreases s.len(),
{
    if s.len() > 0 {
        lemma_be_zero(s.drop_last());
    }
}

} // verus!
