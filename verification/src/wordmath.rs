use vstd::prelude::*;

use crate::intents::{
    be_value, lemma_be_prepend, lemma_be_value_append, lemma_be_value_bound, lemma_be_zero, pow256,
};

verus! {

/// The largest 256-bit value.
pub open spec fn word_max_value() -> nat {
    (pow256(32) - 1) as nat
}

/// How two 256-bit words compare as numbers.
#[derive(Debug, Clone, Copy, PartialEq, Eq, Structural)]
pub enum WordOrder {
    Below,
    Same,
    Above,
}

proof fn lemma_prefix_step(s: Seq<u8>, i: int)
    requires
        0 <= i < s.len(),
    ensures
        be_value(s.take(i + 1)) == be_value(s.take(i)) * 256 + s[i],
{
    assert(s.take(i + 1).drop_last() =~= s.take(i));
}

proof fn lemma_below_persists(x: nat, y: nat, p: u8, q: u8)
    requires
        x < y,
    ensures
        x * 256 + p < y * 256 + q,
{
    assert(x * 256 + p < y * 256 + q) by (nonlinear_arith)
        requires
            x < y,
            p < 256,
            q >= 0,
    ;
}

/// Compares two big-endian 256-bit words as numbers.
pub fn word_order(a: &[u8; 32], b: &[u8; 32]) -> (o: WordOrder)
    ensures
        o == WordOrder::Below <==> be_value(a@) < be_value(b@),
        o == WordOrder::Same <==> be_value(a@) == be_value(b@),
        o == WordOrder::Above <==> be_value(a@) > be_value(b@),
{
    let mut o = WordOrder::Same;
    let mut i: usize = 0;
    assert(a@.take(0) =~= Seq::<u8>::empty());
    assert(b@.take(0) =~= Seq::<u8>::empty());
    while i < 32
        invariant
            i <= 32,
            o == WordOrder::Below ==> be_value(a@.take(i as int)) < be_value(b@.take(i as int)),
            o == WordOrder::Same ==> be_value(a@.take(i as int)) == be_value(b@.take(i as int)),
            o == WordOrder::Above ==> be_value(a@.take(i as int)) > be_value(b@.take(i as int)),
        decreases 32 - i,
    {
        proof {
            lemma_prefix_step(a@, i as int);
            lemma_prefix_step(b@, i as int);
        }
        let ghost x = be_value(a@.take(i as int));
        let ghost y = be_value(b@.take(i as int));
        if o == WordOrder::Below {
            proof {
                lemma_below_persists(x, y, a@[i as int], b@[i as int]);
            }
        } else if o == WordOrder::Above {
            proof {
                lemma_below_persists(y, x, b@[i as int], a@[i as int]);
            }
        } else {
            if a[i] < b[i] {
                o = WordOrder::Below;
            } else if a[i] > b[i] {
                o = WordOrder::Above;
            }
        }
        i = i + 1;
    }
    assert(a@.take(32) =~= a@);
    assert(b@.take(32) =~= b@);
    o
}

/// The larger of two 256-bit words.
pub fn word_max(a: [u8; 32], b: [u8; 32]) -> (m: [u8; 32])
    ensures
        be_value(m@) == if be_value(a@) >= be_value(b@) {
            be_value(a@)
        } else {
            be_value(b@)
        },
{
    match word_order(&a, &b) {
        WordOrder::Below => b,
        _ => a,
    }
}

proof fn lemma_be_all_ff(s: Seq<u8>)
    requires
        forall|k: int| 0 <= k < s.len() ==> s[k] == 0xffu8,
    ensures
        be_value(s) + 1 == pow256(s.len()),
    decreases s.len(),
{
    if s.len() > 0 {
        lemma_be_all_ff(s.drop_last());
    }
}

/// A 256-bit word plus one, staying at the largest value (`U256::saturating_add(1)`).
pub fn word_increment(a: [u8; 32]) -> (r: [u8; 32])
    ensures
        be_value(r@) == if be_value(a@) < word_max_value() {
            be_value(a@) + 1
        } else {
            word_max_value()
        },
{
    let mut j: usize = 32;
    while j > 0 && a[j - 1] == 0xff
        invariant
            j <= 32,
            forall|k: int| j <= k < 32 ==> a@[k] == 0xffu8,
        decreases j,
    {
        j = j - 1;
    }
    if j == 0 {
        proof {
            lemma_be_all_ff(a@);
        }
        return a;
    }
    let i: usize = j - 1;
    let mut r = a;
    r[i] = a[i] + 1;
    let mut k: usize = j;
    while k < 32
        invariant
            j <= k <= 32,
            i + 1 == j,
            r@.len() == 32,
            forall|m: int| 0 <= m < i ==> r@[m] == a@[m],
            r@[i as int] == a@[i as int] + 1,
            forall|m: int| j <= m < k ==> r@[m] == 0u8,
        decreases 32 - k,
    {
        r[k] = 0;
        k = k + 1;
    }
    proof {
        let p = a@.take(i as int);
        let ones = a@.skip(j as int);
        let zeros = r@.skip(j as int);
        let n = (32 - j) as nat;
        assert(a@ =~= (p + seq![a@[i as int]]) + ones);
        assert(r@ =~= (p + seq![r@[i as int]]) + zeros);
        lemma_be_value_append(p + seq![a@[i as int]], ones);
        lemma_be_value_append(p + seq![r@[i as int]], zeros);
        lemma_be_value_append(p, seq![a@[i as int]]);
        lemma_be_value_append(p, seq![r@[i as int]]);
        lemma_be_all_ff(ones);
        lemma_be_zero(zeros);
        assert(be_value(Seq::<u8>::empty()) == 0);
        assert(be_value(seq![a@[i as int]]) == a@[i as int]) by {
            assert(seq![a@[i as int]].drop_last() =~= Seq::<u8>::empty());
            assert(seq![a@[i as int]].last() == a@[i as int]);
        }
        assert(be_value(seq![r@[i as int]]) == r@[i as int]) by {
            assert(seq![r@[i as int]].drop_last() =~= Seq::<u8>::empty());
            assert(seq![r@[i as int]].last() == r@[i as int]);
        }
        assert(pow256(0) == 1);
        assert(pow256(1) == 256);
        let bp = be_value(p);
        let pw = pow256(n);
        let x = a@[i as int] as nat;
        assert(be_value(a@) == (bp * 256 + x) * pw + (pw - 1));
        assert(be_value(r@) == (bp * 256 + x + 1) * pw);
        assert((bp * 256 + x + 1) * pw == (bp * 256 + x) * pw + pw) by (nonlinear_arith);
        lemma_be_value_bound(r@);
    }
    r
}

proof fn lemma_suffix_step(s: Seq<u8>, i: int)
    requires
        0 <= i < s.len(),
    ensures
        be_value(s.skip(i)) == s[i] as nat * pow256((s.len() - i - 1) as nat) + be_value(s.skip(i + 1)),
{
    assert(s.skip(i) =~= seq![s[i]] + s.skip(i + 1));
    lemma_be_prepend(s[i], s.skip(i + 1));
}

proof fn lemma_add_step(
    x: nat,
    y: nat,
    z: nat,
    carry: nat,
    p: nat,
    ai: nat,
    bi: nat,
    ri: nat,
    c2: nat,
)
    requires
        x + y == z + carry * p,
        ai + bi + carry == ri + c2 * 256,
    ensures
        ai * p + x + (bi * p + y) == ri * p + z + c2 * (256 * p),
{
    assert(ai * p + x + (bi * p + y) == ri * p + z + c2 * (256 * p)) by (nonlinear_arith)
        requires
            x + y == z + carry * p,
            ai + bi + carry == ri + c2 * 256,
    ;
}

/// The sum of two 256-bit words, staying at the largest value (`U256::saturating_add`).
pub fn word_saturating_add(a: [u8; 32], b: [u8; 32]) -> (r: [u8; 32])
    ensures
        be_value(r@) == if be_value(a@) + be_value(b@) <= word_max_value() {
            be_value(a@) + be_value(b@)
        } else {
            word_max_value()
        },
{
    let mut r: [u8; 32] = [0u8; 32];
    let mut carry: u16 = 0;
    let mut i: usize = 32;
    assert(a@.skip(32) =~= Seq::<u8>::empty());
    assert(b@.skip(32) =~= Seq::<u8>::empty());
    assert(r@.skip(32) =~= Seq::<u8>::empty());
    assert(pow256(0) == 1);
    while i > 0
        invariant
            i <= 32,
            r@.len() == 32,
            carry <= 1,
            be_value(a@.skip(i as int)) + be_value(b@.skip(i as int)) == be_value(r@.skip(i as int))
                + carry as nat * pow256((32 - i) as nat),
        decreases i,
    {
        let k: usize = i - 1;
        let sum: u16 = a[k] as u16 + b[k] as u16 + carry;
        let digit: u8 = (sum % 256) as u8;
        let c2: u16 = sum / 256;
        let ghost x = be_value(a@.skip(i as int));
        let ghost y = be_value(b@.skip(i as int));
        let ghost z = be_value(r@.skip(i as int));
        let ghost p = pow256((32 - i) as nat);
        let ghost old_r = r@;
        r[k] = digit;
        proof {
            assert(r@.skip(i as int) =~= old_r.skip(i as int));
            lemma_suffix_step(a@, k as int);
            lemma_suffix_step(b@, k as int);
            lemma_suffix_step(r@, k as int);
            lemma_add_step(
                x,
                y,
                z,
                carry as nat,
                p,
                a@[k as int] as nat,
                b@[k as int] as nat,
                digit as nat,
                c2 as nat,
            );
            assert(pow256((32 - k) as nat) == 256 * p);
        }
        carry = c2;
        i = k;
    }
    assert(a@.skip(0) =~= a@);
    assert(b@.skip(0) =~= b@);
    assert(r@.skip(0) =~= r@);
    if carry == 1 {
        let full: [u8; 32] = [0xffu8; 32];
        proof {
            lemma_be_all_ff(full@);
        }
        full
    } else {
        proof {
            lemma_be_value_bound(r@);
        }
        r
    }
}

proof fn lemma_div_step(qv: nat, n: nat, rem: nat, ai: nat, qi: nat, rem2: nat)
    requires
        n > 0,
        rem * 256 + ai == qi * n + rem2,
    ensures
        (qv * n + rem) * 256 + ai == (qv * 256 + qi) * n + rem2,
{
    assert((qv * n + rem) * 256 + ai == (qv * 256 + qi) * n + rem2) by (nonlinear_arith)
        requires
            rem * 256 + ai == qi * n + rem2,
    ;
}

/// A 256-bit word divided by a non-zero `u64`, rounding down.
pub fn word_div(a: [u8; 32], n: u64) -> (q: [u8; 32])
    requires
        n > 0,
    ensures
        be_value(q@) == be_value(a@) / (n as nat),
{
    let mut q: [u8; 32] = [0u8; 32];
    let mut rem: u128 = 0;
    let mut i: usize = 0;
    assert(a@.take(0) =~= Seq::<u8>::empty());
    assert(q@.take(0) =~= Seq::<u8>::empty());
    assert(be_value(Seq::<u8>::empty()) == 0);
    assert(0 * (n as int) == 0) by (nonlinear_arith);
    while i < 32
        invariant
            i <= 32,
            n > 0,
            q@.len() == 32,
            rem < n,
            be_value(a@.take(i as int)) == be_value(q@.take(i as int)) * n + rem,
        decreases 32 - i,
    {
        let cur: u128 = rem * 256 + a[i] as u128;
        let digit: u128 = cur / (n as u128);
        let rem2: u128 = cur % (n as u128);
        assert(digit < 256) by (nonlinear_arith)
            requires
                cur == rem * 256 + a[i as int],
                rem < n,
                a[i as int] < 256,
                digit == cur / (n as u128),
                n > 0,
        ;
        assert(cur == digit * (n as u128) + rem2) by (nonlinear_arith)
            requires
                digit == cur / (n as u128),
                rem2 == cur % (n as u128),
                n > 0,
        ;
        assert(rem2 < n) by (nonlinear_arith)
            requires
                rem2 == cur % (n as u128),
                n > 0,
        ;
        let ghost qv = be_value(q@.take(i as int));
        let ghost old_q = q@;
        q[i] = digit as u8;
        proof {
            assert(q@.take(i as int) =~= old_q.take(i as int));
            lemma_prefix_step(a@, i as int);
            lemma_prefix_step(q@, i as int);
            lemma_div_step(qv, n as nat, rem as nat, a@[i as int] as nat, digit as nat, rem2 as nat);
        }
        rem = rem2;
        i = i + 1;
    }
    assert(a@.take(32) =~= a@);
    assert(q@.take(32) =~= q@);
    proof {
        let qn = be_value(q@);
        let av = be_value(a@);
        assert(av / (n as nat) == qn) by (nonlinear_arith)
            requires
                av == qn * n + rem,
                rem < n,
                n > 0,
        ;
    }
    q
}

/// The values of some words.
pub open spec fn word_values(v: Seq<[u8; 32]>) -> Seq<nat> {
    v.map_values(|w: [u8; 32]| be_value(w@))
}

/// The sum of some values, added in order and staying at the largest 256-bit value.
pub open spec fn saturating_sum(s: Seq<nat>) -> nat
    decreases s.len(),
{
    if s.len() == 0 {
        0
    } else {
        let t = saturating_sum(s.drop_last()) + s.last();
        if t <= word_max_value() {
            t
        } else {
            word_max_value()
        }
    }
}

/// The average of some 256-bit words: their saturating sum divided by their count, rounding
/// down; none for no words.
pub fn average_word(values: &Vec<[u8; 32]>) -> (r: Option<[u8; 32]>)
    ensures
        values@.len() == 0 ==> r is None,
        values@.len() > 0 ==> (r matches Some(w) && be_value(w@) == saturating_sum(
            word_values(values@),
        ) / (values@.len() as nat)),
{
    if values.len() == 0 {
        return None;
    }
    let mut sum: [u8; 32] = [0u8; 32];
    let mut i: usize = 0;
    assert(word_values(values@).take(0) =~= Seq::<nat>::empty());
    proof {
        lemma_be_zero(sum@);
    }
    while i < values.len()
        invariant
            i <= values@.len(),
            be_value(sum@) == saturating_sum(word_values(values@).take(i as int)),
        decreases values@.len() - i,
    {
        let ghost vs = word_values(values@);
        assert(vs.take(i + 1).drop_last() =~= vs.take(i as int));
        assert(vs.take(i + 1).last() == be_value(values@[i as int]@));
        sum = word_saturating_add(sum, values[i]);
        i = i + 1;
    }
    assert(word_values(values@).take(i as int) =~= word_values(values@));
    let n: u64 = values.len() as u64;
    Some(word_div(sum, n))
}

} // verus!
