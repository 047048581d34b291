use vstd::prelude::*;

use crate::address::{same_address, Address};
use crate::intents::be_value;
use crate::wordmath::{word_increment, word_max, word_max_value, word_order, word_values, WordOrder};

verus! {

/// A local floor under the account nonce: the bundler may already hold operations that the
/// chain does not show yet.
#[derive(Debug, Clone, Copy)]
pub struct NonceFloor {
    pub cached: Option<[u8; 32]>,
}

/// The floor's value, if set.
pub open spec fn floor_value(f: NonceFloor) -> Option<nat> {
    match f.cached {
        Some(c) => Some(be_value(c@)),
        None => None,
    }
}

impl NonceFloor {
    /// No floor.
    pub fn new() -> (f: NonceFloor)
        ensures
            f.cached is None,
    {
        NonceFloor { cached: None }
    }

    /// Raises the floor to `floor` (it never goes down).
    pub fn set_nonce_floor(&mut self, floor: [u8; 32])
        ensures
            floor_value(*final(self)) == Some(
                match floor_value(*old(self)) {
                    Some(v) => if v >= be_value(floor@) {
                        v
                    } else {
                        be_value(floor@)
                    },
                    None => be_value(floor@),
                },
            ),
    {
        self.cached = Some(
            match self.cached {
                Some(existing) => word_max(existing, floor),
                None => floor,
            },
        );
    }

    /// The nonce to use: the chain's, or the floor when it is above.
    pub fn current_nonce(&self, chain_nonce: [u8; 32]) -> (n: [u8; 32])
        ensures
            be_value(n@) == match floor_value(*self) {
                Some(v) => if v > be_value(chain_nonce@) {
                    v
                } else {
                    be_value(chain_nonce@)
                },
                None => be_value(chain_nonce@),
            },
    {
        match self.cached {
            Some(c) => match word_order(&c, &chain_nonce) {
                WordOrder::Above => c,
                _ => chain_nonce,
            },
            None => chain_nonce,
        }
    }
}

/// Raising the floor never lowers it, and leaves it at least at the value given.
pub proof fn lemma_nonce_floor_only_rises(before: NonceFloor, after: NonceFloor, floor: [u8; 32])
    requires
        floor_value(after) == Some(
            match floor_value(before) {
                Some(v) => if v >= be_value(floor@) {
                    v
                } else {
                    be_value(floor@)
                },
                None => be_value(floor@),
            },
        ),
    ensures
        floor_value(after) matches Some(a) && a >= be_value(floor@) && (floor_value(before) matches Some(
            b,
        ) ==> a >= b),
{
}

/// The floor after raising `before` to `floor`.
pub open spec fn raised(before: Option<nat>, floor: nat) -> Option<nat> {
    Some(
        match before {
            Some(v) => if v >= floor {
                v
            } else {
                floor
            },
            None => floor,
        },
    )
}

/// The nonce used with chain nonce `chain` under floor `f`: the larger of the two.
pub open spec fn nonce_with(f: Option<nat>, chain: nat) -> nat {
    match f {
        Some(v) => if v > chain {
            v
        } else {
            chain
        },
        None => chain,
    }
}

/// Over any sequence of raises from no floor, the floor is the largest value given, so the
/// nonce used is never below the chain's nonce nor below any floor that was set:
/// `states[i + 1]` is `states[i]` raised to `floors[i]`.
pub proof fn lemma_nonce_floor_sequence(states: Seq<NonceFloor>, floors: Seq<[u8; 32]>, chain: nat)
    requires
        states.len() == floors.len() + 1,
        states[0].cached is None,
        forall|i: int|
            0 <= i < floors.len() ==> floor_value(#[trigger] states[i + 1]) == raised(
                floor_value(states[i]),
                be_value(floors[i]@),
            ),
    ensures
        floor_value(states.last()) == max_of(word_values(floors)),
        nonce_with(floor_value(states.last()), chain) >= chain,
        forall|i: int|
            0 <= i < floors.len() ==> nonce_with(floor_value(states.last()), chain) >= be_value(
                #[trigger] floors[i]@,
            ),
    decreases floors.len(),
{
    if floors.len() > 0 {
        let n = floors.len() - 1;
        lemma_nonce_floor_sequence(states.drop_last(), floors.drop_last(), chain);
        assert(states.drop_last().last() == states[n]);
        assert(word_values(floors).drop_last() =~= word_values(floors.drop_last()));
        assert(floor_value(states[n + 1]) == raised(floor_value(states[n]), be_value(floors[n]@)));
        assert forall|i: int| 0 <= i < floors.len() implies nonce_with(
            floor_value(states.last()),
            chain,
        ) >= be_value(#[trigger] floors[i]@) by {
            if i < n {
                assert(floors.drop_last()[i] == floors[i]);
            }
        }
    }
}

/// The largest of some values.
pub open spec fn max_of(s: Seq<nat>) -> Option<nat>
    decreases s.len(),
{
    if s.len() == 0 {
        None
    } else {
        match max_of(s.drop_last()) {
            None => Some(s.last()),
            Some(m) => Some(if m >= s.last() {
                m
            } else {
                s.last()
            }),
        }
    }
}

/// The nonce floor after a restart: one past the largest nonce of the operations that were
/// submitted for the account and not yet seen on chain (staying at the largest value).
pub fn nonce_floor_of(nonces: &Vec<[u8; 32]>) -> (r: Option<[u8; 32]>)
    ensures
        match max_of(word_values(nonces@)) {
            None => r is None,
            Some(m) => r matches Some(w) && be_value(w@) == if m < word_max_value() {
                m + 1
            } else {
                word_max_value()
            },
        },
{
    let mut best: Option<[u8; 32]> = None;
    let mut i: usize = 0;
    assert(word_values(nonces@).take(0) =~= Seq::<nat>::empty());
    while i < nonces.len()
        invariant
            i <= nonces@.len(),
            match max_of(word_values(nonces@).take(i as int)) {
                None => best is None,
                Some(m) => best matches Some(w) && be_value(w@) == m,
            },
        decreases nonces@.len() - i,
    {
        let ghost vs = word_values(nonces@);
        assert(vs.take(i + 1).drop_last() =~= vs.take(i as int));
        assert(vs.take(i + 1).last() == be_value(nonces@[i as int]@));
        best = Some(
            match best {
                Some(b) => word_max(b, nonces[i]),
                None => nonces[i],
            },
        );
        i = i + 1;
    }
    assert(word_values(nonces@).take(i as int) =~= word_values(nonces@));
    match best {
        Some(b) => Some(word_increment(b)),
        None => None,
    }
}

/// The nonces (as values) of the operations sent by `sender`, in order.
pub open spec fn sender_nonces(ops: Seq<(Address, [u8; 32])>, sender: Address) -> Seq<nat>
    decreases ops.len(),
{
    if ops.len() == 0 {
        Seq::empty()
    } else {
        let rest = sender_nonces(ops.drop_last(), sender);
        if ops.last().0.bytes@ == sender.bytes@ {
            rest.push(be_value(ops.last().1@))
        } else {
            rest
        }
    }
}

/// The nonce floor of `sender` after a restart, from the operations submitted and not yet
/// seen on chain (sender and nonce of each): one past the largest nonce of the sender's.
pub fn nonce_floor_for_sender(ops: &Vec<(Address, [u8; 32])>, sender: &Address) -> (r: Option<
    [u8; 32],
>)
    ensures
        match max_of(sender_nonces(ops@, *sender)) {
            None => r is None,
            Some(m) => r matches Some(w) && be_value(w@) == if m < word_max_value() {
                m + 1
            } else {
                word_max_value()
            },
        },
{
    let mut mine: Vec<[u8; 32]> = Vec::new();
    let mut i: usize = 0;
    assert(ops@.take(0) =~= Seq::<(Address, [u8; 32])>::empty());
    assert(word_values(mine@) =~= Seq::<nat>::empty());
    while i < ops.len()
        invariant
            i <= ops@.len(),
            word_values(mine@) == sender_nonces(ops@.take(i as int), *sender),
        decreases ops@.len() - i,
    {
        assert(ops@.take(i + 1).drop_last() =~= ops@.take(i as int));
        assert(ops@.take(i + 1).last() == ops@[i as int]);
        let (who, nonce) = ops[i];
        if same_address(&who, sender) {
            let ghost before = word_values(mine@);
            mine.push(nonce);
            assert(word_values(mine@) =~= before.push(be_value(nonce@)));
        }
        i = i + 1;
    }
    assert(ops@.take(i as int) =~= ops@);
    nonce_floor_of(&mine)
}

} // verus!
