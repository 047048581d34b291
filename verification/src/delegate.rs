use vstd::prelude::*;

use crate::flow::clamp_i64;
use crate::intents::{word_to_u64, word_u64, DelegateResourceIntent};
use crate::planner::{delegate_choice, effective_capacity, select_delegate_executor_index};
use crate::text::{concat_str, dec, u64_to_dec};
use crate::types::TronMode;

verus! {

/// The Tron resources that can be staked and delegated.
#[derive(Debug, Clone, Copy, PartialEq, Eq, Structural)]
pub enum ResourceCode {
    Bandwidth,
    Energy,
    TronPower,
}

/// The resource with the given protocol code (0, 1 or 2).
pub open spec fn resource_of_code(v: int) -> Option<ResourceCode> {
    if v == 0 {
        Some(ResourceCode::Bandwidth)
    } else if v == 1 {
        Some(ResourceCode::Energy)
    } else if v == 2 {
        Some(ResourceCode::TronPower)
    } else {
        None
    }
}

/// Reads a protocol resource code.
pub fn resource_code_from_i32(v: i32) -> (r: Option<ResourceCode>)
    ensures
        r == resource_of_code(v as int),
{
    if v == 0 {
        Some(ResourceCode::Bandwidth)
    } else if v == 1 {
        Some(ResourceCode::Energy)
    } else if v == 2 {
        Some(ResourceCode::TronPower)
    } else {
        None
    }
}

/// One stake of an account (stake 2.0): its resource code and amount in SUN.
#[derive(Debug, Clone, Copy)]
pub struct FrozenV2 {
    pub resource_type: i32,
    pub amount: i64,
}

/// What the capacity check reads of a Tron account.
#[derive(Debug, Clone)]
pub struct TronAccount {
    pub frozen_v2: Vec<FrozenV2>,
    /// `account_resource.delegated_frozenV2_balance_for_energy`, when the account reports
    /// its resources.
    pub delegated_for_energy: Option<i64>,
    pub delegated_for_bandwidth: i64,
}

/// The SUN staked for `r` among the stakes, added up in order with `i64` saturation.
pub open spec fn staked_for(fs: Seq<FrozenV2>, r: ResourceCode) -> int
    decreases fs.len(),
{
    if fs.len() == 0 {
        0
    } else {
        let s = staked_for(fs.drop_last(), r);
        if resource_of_code(fs.last().resource_type as int) == Some(r) {
            clamp_i64(s + fs.last().amount)
        } else {
            s
        }
    }
}

/// The SUN already delegated to others for `r`.
pub open spec fn delegated_for(a: TronAccount, r: ResourceCode) -> int {
    match r {
        ResourceCode::Energy => match a.delegated_for_energy {
            Some(v) => v as int,
            None => 0,
        },
        ResourceCode::Bandwidth => a.delegated_for_bandwidth as int,
        ResourceCode::TronPower => 0,
    }
}

/// Staked-but-not-yet-delegated TRX (SUN) available to delegate for `resource`: the stake
/// for that resource minus what is already delegated (saturating), at least 0.
pub fn delegated_resource_available_sun(account: &TronAccount, resource: ResourceCode) -> (r: i64)
    ensures
        r == effective_capacity(
            staked_for(account.frozen_v2@, resource),
            delegated_for(*account, resource),
        ),
{
    let mut staked: i64 = 0;
    let mut i: usize = 0;
    while i < account.frozen_v2.len()
        invariant
            i <= account.frozen_v2@.len(),
            staked == staked_for(account.frozen_v2@.take(i as int), resource),
        decreases account.frozen_v2@.len() - i,
    {
        let f = account.frozen_v2[i];
        proof {
            assert(account.frozen_v2@.take(i + 1).drop_last() =~= account.frozen_v2@.take(i as int));
        }
        if resource_code_from_i32(f.resource_type) == Some(resource) {
            staked = if f.amount > 0 && staked > i64::MAX - f.amount {
                i64::MAX
            } else if f.amount < 0 && staked < i64::MIN - f.amount {
                i64::MIN
            } else {
                staked + f.amount
            };
        }
        i = i + 1;
    }
    proof {
        assert(account.frozen_v2@.take(account.frozen_v2@.len() as int) =~= account.frozen_v2@);
    }
    let delegated: i64 = match resource {
        ResourceCode::Energy => match account.delegated_for_energy {
            Some(v) => v,
            None => 0,
        },
        ResourceCode::Bandwidth => account.delegated_for_bandwidth,
        ResourceCode::TronPower => 0,
    };
    let d: i64 = if delegated < 0 && staked > i64::MAX + delegated {
        i64::MAX
    } else if delegated > 0 && staked < i64::MIN + delegated {
        i64::MIN
    } else {
        staked - delegated
    };
    if d < 0 {
        0
    } else {
        d
    }
}

/// Why a delegate intent cannot be reserved for.
#[derive(Debug, Clone, Copy, PartialEq, Eq, Structural)]
pub enum DelegateError {
    /// The intent names a resource code other than 0, 1 or 2.
    UnsupportedResource { code: u8 },
    /// No key has enough spare capacity.
    CapacityInsufficient,
}

impl DelegateError {
    /// The error's text.
    pub fn message(&self) -> (s: String)
        ensures
            s@ == (match self {
                DelegateError::UnsupportedResource { code } =>
                    "unsupported DelegateResourceIntent.resource: "@ + dec(*code as nat),
                DelegateError::CapacityInsufficient => "delegate_capacity_insufficient"@,
            }),
    {
        match self {
            DelegateError::UnsupportedResource { code } => {
                let n = u64_to_dec(*code as u64);
                concat_str("unsupported DelegateResourceIntent.resource: ", n.as_str())
            },
            DelegateError::CapacityInsufficient => "delegate_capacity_insufficient".to_owned(),
        }
    }
}

/// The SUN a delegate intent needs, as an `i64` (`i64::MAX` when larger).
pub open spec fn delegate_need(balance_word: Seq<u8>) -> int {
    match word_u64(balance_word) {
        Some(v) => if v <= i64::MAX {
            v as int
        } else {
            i64::MAX as int
        },
        None => i64::MAX as int,
    }
}

/// What a delegate intent asks to reserve: the resource and the SUN needed.
pub fn delegate_request(intent: &DelegateResourceIntent) -> (r: Result<(ResourceCode, i64), DelegateError>)
    ensures
        match resource_of_code(intent.resource as int) {
            None => r == Err::<(ResourceCode, i64), _>(
                DelegateError::UnsupportedResource { code: intent.resource },
            ),
            Some(rc) => r matches Ok(p) && p.0 == rc && p.1 == delegate_need(intent.balance_sun@),
        },
{
    let needed: i64 = match word_to_u64(&intent.balance_sun) {
        Some(v) => if v <= 9223372036854775807u64 {
            v as i64
        } else {
            i64::MAX
        },
        None => i64::MAX,
    };
    match resource_code_from_i32(intent.resource as i32) {
        Some(rc) => Ok((rc, needed)),
        None => Err(DelegateError::UnsupportedResource { code: intent.resource }),
    }
}

/// The amount reserved for `owner`: the last entry for it, or 0 when there is none.
pub open spec fn reserved_of(reserved: Seq<(Seq<u8>, i64)>, owner: Seq<u8>) -> i64
    decreases reserved.len(),
{
    if reserved.len() == 0 {
        0
    } else if reserved.last().0 == owner {
        reserved.last().1
    } else {
        reserved_of(reserved.drop_last(), owner)
    }
}

/// The reservations, with owners as byte sequences.
pub open spec fn reservation_views(reserved: Seq<(Vec<u8>, i64)>) -> Seq<(Seq<u8>, i64)> {
    reserved.map_values(|p: (Vec<u8>, i64)| (p.0@, p.1))
}

fn bytes_eq(a: &Vec<u8>, b: &Vec<u8>) -> (r: bool)
    ensures
        r == (a@ == b@),
{
    if a.len() != b.len() {
        return false;
    }
    let mut i: usize = 0;
    while i < a.len()
        invariant
            i <= a@.len(),
            a@.len() == b@.len(),
            forall|k: int| 0 <= k < i ==> a@[k] == b@[k],
        decreases a@.len() - i,
    {
        if a[i] != b[i] {
            return false;
        }
        i = i + 1;
    }
    assert(a@ =~= b@);
    true
}

/// The amount reserved for each owner, in the order of `owners`.
pub fn reserved_by_owner(owners: &Vec<Vec<u8>>, reserved: &Vec<(Vec<u8>, i64)>) -> (r: Vec<i64>)
    ensures
        r@.len() == owners@.len(),
        forall|i: int|
            0 <= i < owners@.len() ==> #[trigger] r@[i] == reserved_of(
                reservation_views(reserved@),
                owners@[i]@,
            ),
{
    let ghost rv = reservation_views(reserved@);
    let mut out: Vec<i64> = Vec::new();
    let mut i: usize = 0;
    while i < owners.len()
        invariant
            i <= owners@.len(),
            rv == reservation_views(reserved@),
            out@.len() == i,
            forall|k: int| 0 <= k < i ==> #[trigger] out@[k] == reserved_of(rv, owners@[k]@),
        decreases owners@.len() - i,
    {
        let mut amount: i64 = 0;
        let mut found = false;
        let mut j: usize = reserved.len();
        proof {
            assert(rv.take(reserved@.len() as int) =~= rv);
        }
        while j > 0 && !found
            invariant
                j <= reserved@.len(),
                rv == reservation_views(reserved@),
                i < owners@.len(),
                found ==> amount == reserved_of(rv, owners@[i as int]@),
                !found ==> amount == 0,
                !found ==> reserved_of(rv, owners@[i as int]@) == reserved_of(
                    rv.take(j as int),
                    owners@[i as int]@,
                ),
            decreases j,
        {
            proof {
                assert(rv.take(j as int).drop_last() =~= rv.take(j - 1));
                assert(rv.take(j as int).last() == rv[j - 1]);
                assert(rv[j - 1] == (reserved@[j - 1].0@, reserved@[j - 1].1));
            }
            if bytes_eq(&reserved[j - 1].0, &owners[i]) {
                amount = reserved[j - 1].1;
                found = true;
            }
            j = j - 1;
        }
        proof {
            if !found {
                assert(rv.take(0) =~= Seq::<(Seq<u8>, i64)>::empty());
            }
        }
        out.push(amount);
        i = i + 1;
    }
    out
}

/// Picks the key to delegate from: the owner with the most spare capacity (available minus
/// reserved) among those that can cover `needed`, the first on ties.
pub fn choose_delegate_owner(
    owners: &Vec<Vec<u8>>,
    available: &Vec<i64>,
    reserved: &Vec<(Vec<u8>, i64)>,
    needed: i64,
) -> (r: Result<usize, DelegateError>)
    ensures
        ({
            let rs = Seq::new(
                owners@.len(),
                |i: int| reserved_of(reservation_views(reserved@), owners@[i]@),
            );
            match delegate_choice(available@, rs, needed as int) {
                Some(i) => r == Ok::<usize, DelegateError>(i as usize),
                None => r == Err::<usize, _>(DelegateError::CapacityInsufficient),
            }
        }),
{
    let resv = reserved_by_owner(owners, reserved);
    proof {
        let rs = Seq::new(
            owners@.len(),
            |i: int| reserved_of(reservation_views(reserved@), owners@[i]@),
        );
        assert(resv@ =~= rs);
    }
    match select_delegate_executor_index(available.as_slice(), resv.as_slice(), needed) {
        Some(i) => Ok(i),
        None => Err(DelegateError::CapacityInsufficient),
    }
}

/// Whether `a` is the address `owner`.
pub open spec fn is_owner(a: Option<Vec<u8>>, owner: Seq<u8>) -> bool {
    a matches Some(x) && x@ == owner
}

/// The key that signs for the stake owner `owner`: the first configured key whose address is
/// `owner`, else the default key when its address is `owner`, else none. `addresses[i]` is the
/// address of `keys[i]`, and `default_address` that of the default key (`None` for a key that
/// is not a valid private key).
pub fn key_for_owner(
    keys: &Vec<[u8; 32]>,
    addresses: &Vec<Option<Vec<u8>>>,
    default_key: [u8; 32],
    default_address: &Option<Vec<u8>>,
    owner: &Vec<u8>,
) -> (r: Option<[u8; 32]>)
    requires
        addresses@.len() == keys@.len(),
    ensures
        match r {
            Some(k) => (exists|i: int|
                0 <= i < keys@.len() && is_owner(#[trigger] addresses@[i], owner@) && k == keys@[i]
                    && forall|j: int| 0 <= j < i ==> !is_owner(#[trigger] addresses@[j], owner@))
                || ((forall|j: int|
                0 <= j < keys@.len() ==> !is_owner(#[trigger] addresses@[j], owner@))
                && is_owner(*default_address, owner@) && k == default_key),
            None => (forall|j: int|
                0 <= j < keys@.len() ==> !is_owner(#[trigger] addresses@[j], owner@))
                && !is_owner(*default_address, owner@),
        },
{
    let mut i: usize = 0;
    while i < keys.len()
        invariant
            i <= keys@.len(),
            addresses@.len() == keys@.len(),
            forall|j: int| 0 <= j < i ==> !is_owner(#[trigger] addresses@[j], owner@),
        decreases keys@.len() - i,
    {
        let hit = match &addresses[i] {
            Some(a) => bytes_eq(a, owner),
            None => false,
        };
        if hit {
            assert(is_owner(addresses@[i as int], owner@));
            return Some(keys[i]);
        }
        i = i + 1;
    }
    let hit = match default_address {
        Some(a) => bytes_eq(a, owner),
        None => false,
    };
    if hit {
        Some(default_key)
    } else {
        None
    }
}

/// The stake each key can still delegate for `resource`, one entry per key account: none at
/// all with the mock backend, which holds no stake.
pub fn available_by_key(mode: TronMode, accounts: &Vec<TronAccount>, resource: ResourceCode) -> (r: Vec<i64>)
    ensures
        mode == TronMode::Mock ==> r@.len() == 0,
        mode == TronMode::Grpc ==> r@.len() == accounts@.len() && forall|i: int|
            0 <= i < accounts@.len() ==> #[trigger] r@[i] == effective_capacity(
                staked_for(accounts@[i].frozen_v2@, resource),
                delegated_for(accounts@[i], resource),
            ),
{
    let mut out: Vec<i64> = Vec::new();
    if mode == TronMode::Mock {
        return out;
    }
    let mut i: usize = 0;
    while i < accounts.len()
        invariant
            i <= accounts@.len(),
            out@.len() == i,
            forall|k: int|
                0 <= k < i ==> #[trigger] out@[k] == effective_capacity(
                    staked_for(accounts@[k].frozen_v2@, resource),
                    delegated_for(accounts@[k], resource),
                ),
        decreases accounts@.len() - i,
    {
        out.push(delegated_resource_available_sun(&accounts[i], resource));
        i = i + 1;
    }
    out
}

} // verus!
