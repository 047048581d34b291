use vstd::prelude::*;

use crate::address::Address;
use crate::intents::{be_value, lemma_be_append_zero, lemma_be_prepend, pow256};
use vstd::string::StringSliceAdditionalSpecFns;

verus! {

/// The Keccak-256 digest of `data`.
pub uninterp spec fn keccak256_of(data: Seq<u8>) -> Seq<u8>;

/// `alloy::primitives::keccak256`: the contract claims only that the digest is the one named
/// by `keccak256_of` for these bytes.
#[verifier::external_body]
pub(crate) fn keccak256(data: &[u8]) -> (h: [u8; 32])
    ensures
        h@ == keccak256_of(data@),
{
    alloy::primitives::keccak256(data).0
}

/// The selector of a function signature: the first four bytes of the Keccak-256 digest of
/// its UTF-8 text.
pub open spec fn signature_selector(sig: &str) -> Seq<u8> {
    keccak256_of(sig.spec_bytes()).take(4)
}

/// The selector of a function signature such as `transfer(address,uint256)`.
pub fn selector(sig: &str) -> (s: [u8; 4])
    ensures
        s@ == signature_selector(sig),
{
    let hash = keccak256(sig.as_bytes());
    let out: [u8; 4] = [hash[0], hash[1], hash[2], hash[3]];
    assert(out@ =~= keccak256_of(sig.spec_bytes()).take(4));
    out
}

/// The ABI word of an address: twelve zero bytes, then the address.
pub open spec fn address_word(a: Seq<u8>) -> Seq<u8> {
    Seq::new(12, |_i: int| 0u8) + a
}

/// ABI-encodes an address as a 32-byte word (right-aligned).
pub fn encode_address(addr: &Address) -> (out: [u8; 32])
    ensures
        out@ == address_word(addr.bytes@),
{
    let mut out = [0u8; 32];
    let mut i: usize = 0;
    while i < 20
        invariant
            i <= 20,
            forall|k: int| 0 <= k < 12 ==> out@[k] == 0,
            forall|k: int| 12 <= k < 12 + i ==> out@[k] == addr.bytes@[k - 12],
            forall|k: int| 12 + i <= k < 32 ==> out@[k] == 0,
        decreases 20 - i,
    {
        out[12 + i] = addr.bytes[i];
        i = i + 1;
    }
    assert(out@ =~= address_word(addr.bytes@));
    out
}

/// ABI-encodes a 256-bit value, held as its big-endian bytes: the word is those bytes.
pub fn encode_u256(v: &[u8; 32]) -> (out: [u8; 32])
    ensures
        out@ == v@,
{
    *v
}

/// The big-endian 256-bit word of a `u64`.
pub fn word_from_u64(v: u64) -> (w: [u8; 32])
    ensures
        be_value(w@) == v,
        forall|k: int| 0 <= k < 24 ==> w@[k] == 0,
{
    let mut w = [0u8; 32];
    let mut x: u64 = v;
    let mut k: usize = 32;
    proof {
        assert(pow256(0) == 1);
        assert(w@.subrange(32, 32) =~= Seq::<u8>::empty());
        assert(be_value(Seq::<u8>::empty()) == 0);
        assert(x as nat * 1 == x as nat);
    }
    while k > 24
        invariant
            24 <= k <= 32,
            forall|j: int| 0 <= j < k ==> w@[j] == 0,
            v as nat == x as nat * pow256((32 - k) as nat) + be_value(w@.subrange(k as int, 32)),
            x as nat * pow256((32 - k) as nat) <= v,
        decreases k,
    {
        let b: u8 = (x % 256) as u8;
        let ghost old_w = w@;
        let ghost old_x = x;
        w[k - 1] = b;
        x = x / 256;
        proof {
            let t = w@.subrange(k - 1, 32);
            let t_old = old_w.subrange(k as int, 32);
            assert(t.subrange(1, t.len() as int) =~= t_old);
            assert(t =~= seq![b] + t_old);
            lemma_be_prepend(b, t_old);
            let p = pow256((32 - k) as nat);
            assert(pow256((32 - (k - 1)) as nat) == 256 * p);
            assert(old_x as nat == x as nat * 256 + b as nat);
            assert(old_x as nat * p == x as nat * (256 * p) + b as nat * p) by (nonlinear_arith)
                requires
                    old_x as nat == x as nat * 256 + b as nat,
            ;
            assert(x as nat * (256 * p) <= old_x as nat * p) by (nonlinear_arith)
                requires
                    old_x as nat == x as nat * 256 + b as nat,
                    p >= 0,
            ;
            assert forall|j: int| 0 <= j < k - 1 implies w@[j] == 0 by {
                assert(w@[j] == old_w[j]);
            }
        }
        k = k - 1;
    }
    proof {
        reveal_with_fuel(pow256, 9);
        assert(pow256(8) == 0x1_0000_0000_0000_0000);
        assert(x as nat * pow256(8) <= v);
        assert(x == 0) by (nonlinear_arith)
            requires
                x as nat * 0x1_0000_0000_0000_0000 <= v,
                v <= 0xffff_ffff_ffff_ffff,
        ;
        let hi = w@.subrange(0, 24);
        let lo = w@.subrange(24, 32);
        assert(w@ =~= hi + lo);
        lemma_be_append_zero(hi, lo);
    }
    w
}

/// `transfer(address,uint256)` call data: selector, recipient word, amount word.
pub open spec fn trc20_transfer_data(to: Seq<u8>, amount: Seq<u8>) -> Seq<u8> {
    signature_selector("transfer(address,uint256)") + address_word(to) + amount
}

/// `balanceOf(address)` call data: selector, owner word.
pub open spec fn trc20_balance_of_data(owner: Seq<u8>) -> Seq<u8> {
    signature_selector("balanceOf(address)") + address_word(owner)
}

fn push_all(out: &mut Vec<u8>, bytes: &[u8])
    ensures
        final(out)@ == old(out)@ + bytes@,
{
    let mut i: usize = 0;
    while i < bytes.len()
        invariant
            i <= bytes@.len(),
            out@ == old(out)@ + bytes@.take(i as int),
        decreases bytes@.len() - i,
    {
        out.push(bytes[i]);
        i = i + 1;
        assert(bytes@.take(i as int) =~= bytes@.take(i - 1).push(bytes@[i - 1]));
    }
    assert(bytes@.take(bytes@.len() as int) =~= bytes@);
}

/// Call data of a TRC-20 `transfer(to, amount)`.
pub fn encode_trc20_transfer(to: &Address, amount: &[u8; 32]) -> (out: Vec<u8>)
    ensures
        out@ == trc20_transfer_data(to.bytes@, amount@),
{
    let mut out: Vec<u8> = Vec::new();
    let sel = selector("transfer(address,uint256)");
    push_all(&mut out, &sel);
    let a = encode_address(to);
    push_all(&mut out, &a);
    let v = encode_u256(amount);
    push_all(&mut out, &v);
    assert(out@ =~= trc20_transfer_data(to.bytes@, amount@));
    out
}

/// Call data of a TRC-20 `balanceOf(owner)`.
pub fn encode_trc20_balance_of(owner: &Address) -> (out: Vec<u8>)
    ensures
        out@ == trc20_balance_of_data(owner.bytes@),
{
    let mut out: Vec<u8> = Vec::new();
    let sel = selector("balanceOf(address)");
    push_all(&mut out, &sel);
    let a = encode_address(owner);
    push_all(&mut out, &a);
    assert(out@ =~= trc20_balance_of_data(owner.bytes@));
    out
}

/// The Tron form of an EVM address: `0x41` followed by the 20 address bytes.
pub fn evm_to_tron_raw21(a: &Address) -> (out: [u8; 21])
    ensures
        out@ == seq![0x41u8] + a.bytes@,
{
    let mut out = [0u8; 21];
    out[0] = 0x41;
    let mut i: usize = 0;
    while i < 20
        invariant
            i <= 20,
            out@[0] == 0x41,
            forall|k: int| 1 <= k < 1 + i ==> out@[k] == a.bytes@[k - 1],
        decreases 20 - i,
    {
        out[1 + i] = a.bytes[i];
        i = i + 1;
    }
    assert(out@ =~= seq![0x41u8] + a.bytes@);
    out
}

/// The `i`-th 32-byte word of ABI data, if the data is long enough.
pub open spec fn word_at(data: Seq<u8>, i: int) -> Option<Seq<u8>> {
    if 32 * i + 32 <= data.len() {
        Some(data.subrange(32 * i, 32 * i + 32))
    } else {
        None
    }
}

/// The `word_index`-th 256-bit word of ABI data (as its big-endian bytes), if present.
pub fn abi_word_u256(data: &[u8], word_index: usize) -> (r: Option<[u8; 32]>)
    ensures
        match r {
            Some(w) => word_at(data@, word_index as int) == Some(w@),
            None => word_at(data@, word_index as int) is None,
        },
{
    let n = data.len();
    let start = match word_index.checked_mul(32) {
        Some(v) => v,
        None => {
            return None;
        },
    };
    let end = match start.checked_add(32) {
        Some(v) => v,
        None => {
            return None;
        },
    };
    if data.len() < end {
        return None;
    }
    let mut w = [0u8; 32];
    let mut k: usize = 0;
    while k < 32
        invariant
            k <= 32,
            start + 32 == end,
            end <= data@.len(),
            forall|j: int| 0 <= j < k ==> w@[j] == data@[start + j],
        decreases 32 - k,
    {
        w[k] = data[start + k];
        k = k + 1;
    }
    assert(w@ =~= data@.subrange(start as int, end as int));
    Some(w)
}

/// The `i`-th word of ABI data read as a `bool` (its last byte is 1), if present.
pub open spec fn bool_word_at(data: Seq<u8>, i: int) -> Option<bool> {
    if 32 * i + 32 <= data.len() {
        Some(data[32 * i + 31] == 1)
    } else {
        None
    }
}

/// The `word_index`-th word of ABI data as a `bool` (its last byte equals 1), if present.
pub fn abi_word_bool(data: &[u8], word_index: usize) -> (r: Option<bool>)
    ensures
        r == bool_word_at(data@, word_index as int),
{
    let n = data.len();
    let start = match word_index.checked_mul(32) {
        Some(v) => v,
        None => {
            return None;
        },
    };
    let end = match start.checked_add(32) {
        Some(v) => v,
        None => {
            return None;
        },
    };
    if data.len() < end {
        return None;
    }
    Some(data[end - 1] == 1)
}

/// The non-indexed fields of an EntryPoint `UserOperationEvent` log.
#[derive(Debug, Clone, Copy)]
pub struct UserOpEventFields {
    pub nonce: Option<[u8; 32]>,
    pub success: Option<bool>,
    pub actual_gas_cost_wei: Option<[u8; 32]>,
    pub actual_gas_used: Option<[u8; 32]>,
}

/// The word view of an optional word.
pub open spec fn opt_word(w: Option<[u8; 32]>) -> Option<Seq<u8>> {
    match w {
        Some(v) => Some(v@),
        None => None,
    }
}

/// Reads `(nonce, success, actualGasCost, actualGasUsed)` from the data of a
/// `UserOperationEvent` log, each field only if its word is present.
pub fn decode_userop_event_data(data: &[u8]) -> (f: UserOpEventFields)
    ensures
        opt_word(f.nonce) == word_at(data@, 0),
        f.success == bool_word_at(data@, 1),
        opt_word(f.actual_gas_cost_wei) == word_at(data@, 2),
        opt_word(f.actual_gas_used) == word_at(data@, 3),
{
    UserOpEventFields {
        nonce: abi_word_u256(data, 0),
        success: abi_word_bool(data, 1),
        actual_gas_cost_wei: abi_word_u256(data, 2),
        actual_gas_used: abi_word_u256(data, 3),
    }
}

} // verus!
