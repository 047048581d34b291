use vstd::prelude::*;

use crate::intents::{
    be_value, lemma_be_append_zero, lemma_be_prepend, lemma_be_value_bound, lemma_be_zero, pow256,
};
use crate::text::{chars_of, string_from_chars};
use vstd::string::StringSliceAdditionalSpecFns;

verus! {

/// The SHA-256 digest of `data`.
pub uninterp spec fn sha256_of(data: Seq<u8>) -> Seq<u8>;

/// `<sha2::Sha256 as sha2::Digest>::digest`: the contract claims only that the digest is the
/// one named by `sha256_of` for these bytes.
#[verifier::external_body]
fn sha256(data: &[u8]) -> (h: [u8; 32])
    ensures
        h@ == sha256_of(data@),
{
    <sha2::Sha256 as sha2::Digest>::digest(data).into()
}

/// The value of a Base58 digit (alphabet `1-9 A-H J-N P-Z a-k m-z`), or `None`.
pub open spec fn base58_digit(b: u8) -> Option<u8> {
    if 0x31 <= b && b <= 0x39 {
        Some((b - 0x31) as u8)
    } else if 0x41 <= b && b <= 0x48 {
        Some((b - 0x41 + 9) as u8)
    } else if 0x4a <= b && b <= 0x4e {
        Some((b - 0x4a + 17) as u8)
    } else if 0x50 <= b && b <= 0x5a {
        Some((b - 0x50 + 22) as u8)
    } else if 0x61 <= b && b <= 0x6b {
        Some((b - 0x61 + 33) as u8)
    } else if 0x6d <= b && b <= 0x7a {
        Some((b - 0x6d + 44) as u8)
    } else {
        None
    }
}

fn base58_digit_exec(b: u8) -> (r: Option<u8>)
    ensures
        r == base58_digit(b),
{
    if 0x31 <= b && b <= 0x39 {
        Some(b - 0x31)
    } else if 0x41 <= b && b <= 0x48 {
        Some(b - 0x41 + 9)
    } else if 0x4a <= b && b <= 0x4e {
        Some(b - 0x4a + 17)
    } else if 0x50 <= b && b <= 0x5a {
        Some(b - 0x50 + 22)
    } else if 0x61 <= b && b <= 0x6b {
        Some(b - 0x61 + 33)
    } else if 0x6d <= b && b <= 0x7a {
        Some(b - 0x6d + 44)
    } else {
        None
    }
}

/// An ASCII letter.
pub open spec fn is_ascii_letter(b: u8) -> bool {
    (0x41 <= b && b <= 0x5a) || (0x61 <= b && b <= 0x7a)
}

/// The uppercase form of an ASCII byte.
pub open spec fn ascii_upper(b: u8) -> u8 {
    if 0x61 <= b && b <= 0x7a {
        (b - 0x20) as u8
    } else {
        b
    }
}

/// The lowercase form of an ASCII byte.
pub open spec fn ascii_lower(b: u8) -> u8 {
    if 0x41 <= b && b <= 0x5a {
        (b + 0x20) as u8
    } else {
        b
    }
}

/// The number of ASCII letters among the bytes.
pub open spec fn letter_count(bs: Seq<u8>) -> nat
    decreases bs.len(),
{
    if bs.len() == 0 {
        0
    } else {
        letter_count(bs.drop_last()) + if is_ascii_letter(bs.last()) {
            1nat
        } else {
            0nat
        }
    }
}

/// Bit `k` of the case mask is set.
pub open spec fn mask_bit(mask: usize, k: nat) -> bool {
    ((mask >> (k as usize)) & 1usize) == 1usize
}

/// The byte the `i`-th input byte stands for under the case mask: the `k`-th letter is made
/// uppercase when bit `k` of `mask` is set and lowercase otherwise; other bytes stay.
pub open spec fn cased(bs: Seq<u8>, mask: usize, i: int) -> u8 {
    if is_ascii_letter(bs[i]) {
        if mask_bit(mask, letter_count(bs.take(i))) {
            ascii_upper(bs[i])
        } else {
            ascii_lower(bs[i])
        }
    } else {
        bs[i]
    }
}

/// The number written in Base58 by the first `n` cased bytes, kept modulo `256^34` (the
/// width of the decoding buffer); `None` when one of them is not a Base58 digit.
pub open spec fn base58_value(bs: Seq<u8>, mask: usize, n: int) -> Option<nat>
    decreases n,
{
    if n <= 0 {
        Some(0)
    } else {
        match base58_value(bs, mask, n - 1) {
            None => None,
            Some(v) => match base58_digit(cased(bs, mask, n - 1)) {
                None => None,
                Some(d) => Some(((v * 58 + d) % (pow256(34) as int)) as nat),
            },
        }
    }
}

/// The `len` big-endian bytes of `n` (modulo `256^len`).
pub open spec fn be_bytes(n: nat, len: nat) -> Seq<u8>
    decreases len,
{
    if len == 0 {
        Seq::empty()
    } else {
        be_bytes(n / 256, (len - 1) as nat).push((n % 256) as u8)
    }
}

/// A decoded 34-byte buffer holds a Tron address: 9 leading zero bytes, the `0x41` prefix,
/// 20 address bytes, and 4 checksum bytes equal to the start of the double SHA-256 of the
/// prefix and the address.
pub open spec fn tron_payload_ok(buf: Seq<u8>) -> bool {
    &&& forall|k: int| 0 <= k < 9 ==> buf[k] == 0
    &&& buf[9] == 0x41
    &&& sha256_of(sha256_of(buf.subrange(9, 30))).take(4) == buf.subrange(30, 34)
}

/// The input, cased by `mask`, is the Base58 form of a valid Tron address.
pub open spec fn base58_valid(bs: Seq<u8>, mask: usize) -> bool {
    match base58_value(bs, mask, bs.len() as int) {
        None => false,
        Some(v) => tron_payload_ok(be_bytes(v, 34)),
    }
}

proof fn lemma_case_bits(b: u8)
    by (bit_vector)
    requires
        (0x41 <= b && b <= 0x5a) || (0x61 <= b && b <= 0x7a),
    ensures
        (b & !0x20u8) == (if 0x61 <= b && b <= 0x7a {
            (b - 0x20) as u8
        } else {
            b
        }),
        (b | 0x20u8) == (if 0x41 <= b && b <= 0x5a {
            (b + 0x20) as u8
        } else {
            b
        }),
{
}

proof fn lemma_be_bytes_of_value(s: Seq<u8>)
    ensures
        be_bytes(be_value(s), s.len()) == s,
    decreases s.len(),
{
    if s.len() > 0 {
        let t = s.drop_last();
        lemma_be_bytes_of_value(t);
        let v = be_value(s);
        assert(v == be_value(t) * 256 + s.last());
        assert(v / 256 == be_value(t) && v % 256 == s.last()) by (nonlinear_arith)
            requires
                v == be_value(t) * 256 + s.last(),
                s.last() < 256,
                be_value(t) >= 0,
        ;
        assert(be_bytes(v, s.len()) =~= s);
    }
}

proof fn lemma_prefix_zero_value(s: Seq<u8>, j: int)
    requires
        0 <= j <= s.len(),
        forall|k: int| 0 <= k < j ==> s[k] == 0,
    ensures
        be_value(s) == be_value(s.subrange(j, s.len() as int)),
{
    let hi = s.subrange(0, j);
    let lo = s.subrange(j, s.len() as int);
    assert(s =~= hi + lo);
    lemma_be_append_zero(hi, lo);
}

/// Whether `input`, with its ASCII letters cased by `mask` (bit `k` set: the `k`-th letter is
/// uppercase), is the Base58 form of a valid Tron address: it decodes into a 34-byte buffer
/// holding `0x41`, 20 bytes and their double-SHA-256 checksum after 9 zero bytes.
pub fn base58_decode_and_validate_with_mask(input: &str, mask: usize) -> (ok: bool)
    requires
        letter_count(input.spec_bytes()) <= usize::BITS,
    ensures
        ok == base58_valid(input.spec_bytes(), mask),
{
    let bytes = input.as_bytes();
    let ghost bs = bytes@;
    let ghost m = pow256(34);
    let mut num = [0u8; 34];
    let mut offset: usize = 33;
    let mut letter_idx: usize = 0;
    let mut i: usize = 0;
    proof {
        lemma_be_zero(num@);
        assert(bs.take(0) =~= Seq::<u8>::empty());
    }
    while i < bytes.len()
        invariant
            i <= bs.len(),
            bs == bytes@,
            bs == input.spec_bytes(),
            m == pow256(34),
            letter_idx == letter_count(bs.take(i as int)),
            letter_count(bs) <= usize::BITS,
            offset <= 33,
            forall|k: int| 0 <= k < offset ==> num@[k] == 0,
            base58_value(bs, mask, i as int) == Some(be_value(num@)),
        decreases bs.len() - i,
    {
        let byte = bytes[i];
        proof {
            assert(bs.take(i + 1).drop_last() =~= bs.take(i as int));
            assert(bs.take(i + 1).last() == byte);
            lemma_letter_count_prefix(bs, i as int + 1);
        }
        let is_letter = (0x41 <= byte && byte <= 0x5a) || (0x61 <= byte && byte <= 0x7a);
        let candidate: u8 = if is_letter {
            let bit = (mask >> letter_idx) & 1;
            letter_idx = letter_idx + 1;
            proof {
                lemma_case_bits(byte);
            }
            if bit == 1 {
                byte & !0x20
            } else {
                byte | 0x20
            }
        } else {
            byte
        };
        assert(candidate == cased(bs, mask, i as int));
        let digit = match base58_digit_exec(candidate) {
            None => {
                proof {
                    lemma_base58_value_none_stays(bs, mask, i as int + 1, bs.len() as int);
                }
                return false;
            },
            Some(d) => d,
        };
        let ghost old_num = num@;
        let mut carry: u64 = digit as u64;
        let mut j: usize = 34;
        proof {
            assert(forall|k: int| 0 <= k < offset ==> old_num[k] == 0);
            assert(old_num.subrange(34, 34) =~= Seq::<u8>::empty());
            assert(num@.subrange(34, 34) =~= Seq::<u8>::empty());
            assert(pow256(0) == 1);
            assert(be_value(Seq::<u8>::empty()) == 0);
            assert(carry * pow256(0) == carry) by (nonlinear_arith)
                requires
                    pow256(0) == 1,
            ;
            assert(be_value(num@.subrange(j as int, 34)) + carry * pow256((34 - j) as nat)
                == be_value(old_num.subrange(j as int, 34)) * 58 + digit);
        }
        while j > offset
            invariant
                offset <= j <= 34,
                offset <= 33,
                num@.len() == 34,
                old_num.len() == 34,
                carry <= 57,
                forall|k: int| 0 <= k < j ==> num@[k] == old_num[k],
                be_value(num@.subrange(j as int, 34)) + carry * pow256((34 - j) as nat) == be_value(
                    old_num.subrange(j as int, 34),
                ) * 58 + digit,
            decreases j,
        {
            let ghost before = num@;
            let ghost c0 = carry;
            let v: u64 = (num[j - 1] as u64) * 58 + carry;
            num[j - 1] = (v % 256) as u8;
            carry = v / 256;
            proof {
                let p = pow256((34 - j) as nat);
                let s_new = be_value(before.subrange(j as int, 34));
                let s_old = be_value(old_num.subrange(j as int, 34));
                let b_old = old_num[j - 1] as int;
                assert(num@.subrange(j as int, 34) =~= before.subrange(j as int, 34));
                assert(num@.subrange(j - 1, 34) =~= seq![(v % 256) as u8] + num@.subrange(j as int, 34));
                assert(old_num.subrange(j - 1, 34) =~= seq![old_num[j - 1]] + old_num.subrange(j as int, 34));
                lemma_be_prepend((v % 256) as u8, num@.subrange(j as int, 34));
                lemma_be_prepend(old_num[j - 1], old_num.subrange(j as int, 34));
                assert(num@.subrange(j as int, 34).len() == 34 - j);
                assert(pow256((34 - (j - 1)) as nat) == 256 * p);
                assert(v == b_old * 58 + c0);
                assert(v == (v % 256) + 256 * (v / 256));
                assert(((v % 256) as int) * p + s_new + (v / 256) * (256 * p) == s_old * 58 + b_old * 58 * p
                    + digit) by (nonlinear_arith)
                    requires
                        s_new + c0 * p == s_old * 58 + digit,
                        v == b_old * 58 + c0,
                        v == (v % 256) + 256 * (v / 256),
                ;
                assert(s_old * 58 + b_old * 58 * p + digit == (b_old * p + s_old) * 58 + digit)
                    by (nonlinear_arith);
            }
            j = j - 1;
        }
        proof {
            lemma_prefix_zero_value(old_num, offset as int);
            lemma_be_value_bound(num@);
            lemma_be_value_bound(num@.subrange(offset as int, 34));
        }
        let ghost x = be_value(old_num) * 58 + digit;
        if carry > 0 && offset > 0 {
            proof {
                assert forall|k: int| 0 <= k < offset implies num@[k] == 0 by {
                    assert(num@[k] == old_num[k]);
                }
            }
            let ghost mid = num@;
            offset = offset - 1;
            num[offset] = carry as u8;
            proof {
                assert(num@.subrange(offset as int, 34) =~= seq![carry as u8] + mid.subrange(
                    offset + 1,
                    34,
                ));
                lemma_be_prepend(carry as u8, mid.subrange(offset + 1, 34));
                assert(mid.subrange(offset + 1, 34).len() == 34 - (offset + 1));
                lemma_prefix_zero_value(num@, offset as int);
                lemma_be_value_bound(num@);
                assert(be_value(num@) == x);
                assert(x % (m as int) == x) by (nonlinear_arith)
                    requires
                        0 <= x < m,
                ;
            }
        } else {
            proof {
                assert forall|k: int| 0 <= k < offset implies num@[k] == 0 by {
                    assert(num@[k] == old_num[k]);
                }
                lemma_prefix_zero_value(num@, offset as int);
                if carry == 0 {
                    assert(be_value(num@) == x);
                    assert(x % (m as int) == x) by (nonlinear_arith)
                        requires
                            0 <= x < m,
                    ;
                } else {
                    assert(offset == 0);
                    assert(be_value(num@) + carry * m == x);
                    let y = be_value(num@) as int;
                    assert(x % (m as int) == y) by (nonlinear_arith)
                        requires
                            y + carry * m == x,
                            0 <= y < m,
                            m > 0,
                    ;
                }
            }
        }
        i = i + 1;
    }
    proof {
        assert(bs.take(bs.len() as int) =~= bs);
        lemma_be_bytes_of_value(num@);
    }
    while offset < 33 && num[offset] == 0
        invariant
            offset <= 33,
            forall|k: int| 0 <= k < offset ==> num@[k] == 0,
        decreases 33 - offset,
    {
        offset = offset + 1;
    }
    if 34 - offset != 25 {
        if offset < 9 {
            assert(num@[offset as int] != 0);
        } else {
            assert(num@[9] == 0);
        }
        return false;
    }
    if num[offset] != 0x41 {
        return false;
    }
    let mut head: Vec<u8> = Vec::new();
    let mut k: usize = 9;
    while k < 30
        invariant
            9 <= k <= 30,
            head@ == num@.subrange(9, k as int),
        decreases 30 - k,
    {
        head.push(num[k]);
        k = k + 1;
        assert(head@ =~= num@.subrange(9, k as int));
    }
    let h1 = sha256(head.as_slice());
    let h2 = sha256(&h1);
    let ok = h2[0] == num[30] && h2[1] == num[31] && h2[2] == num[32] && h2[3] == num[33];
    proof {
        let want = num@.subrange(30, 34);
        if ok {
            assert(h2@.take(4) =~= want);
        } else {
            assert(h2@.take(4)[0] != want[0] || h2@.take(4)[1] != want[1] || h2@.take(4)[2] != want[2]
                || h2@.take(4)[3] != want[3]);
        }
    }
    ok
}

proof fn lemma_letter_count_prefix(bs: Seq<u8>, n: int)
    requires
        0 <= n <= bs.len(),
    ensures
        letter_count(bs.take(n)) <= letter_count(bs),
    decreases bs.len() - n,
{
    if n < bs.len() {
        lemma_letter_count_prefix(bs, n + 1);
        assert(bs.take(n + 1).drop_last() =~= bs.take(n));
    } else {
        assert(bs.take(n) =~= bs);
    }
}

proof fn lemma_base58_value_none_stays(bs: Seq<u8>, mask: usize, n: int, total: int)
    requires
        base58_value(bs, mask, n) is None,
        n <= total,
    ensures
        base58_value(bs, mask, total) is None,
    decreases total - n,
{
    if n < total {
        assert(base58_value(bs, mask, n + 1) is None);
        lemma_base58_value_none_stays(bs, mask, n + 1, total);
    }
}

/// An ASCII letter character.
pub open spec fn is_ascii_letter_char(c: char) -> bool {
    ('A' <= c && c <= 'Z') || ('a' <= c && c <= 'z')
}

/// The number of ASCII letters among the characters.
pub open spec fn char_letter_count(cs: Seq<char>) -> nat
    decreases cs.len(),
{
    if cs.len() == 0 {
        0
    } else {
        char_letter_count(cs.drop_last()) + if is_ascii_letter_char(cs.last()) {
            1nat
        } else {
            0nat
        }
    }
}

/// The `i`-th character under the case mask: the `k`-th ASCII letter is made uppercase when
/// bit `k` of `mask` is set and lowercase otherwise; other characters stay.
pub open spec fn cased_char(cs: Seq<char>, mask: usize, i: int) -> char {
    let c = cs[i];
    if is_ascii_letter_char(c) {
        if mask_bit(mask, char_letter_count(cs.take(i))) {
            if 'a' <= c && c <= 'z' {
                ((c as u32) - 32) as char
            } else {
                c
            }
        } else if 'A' <= c && c <= 'Z' {
            ((c as u32) + 32) as char
        } else {
            c
        }
    } else {
        c
    }
}

/// The number of ASCII letters in `input` (the bits a case mask has to choose).
pub fn ascii_letter_count(input: &str) -> (n: usize)
    ensures
        n == char_letter_count(input@),
{
    let cs = chars_of(input);
    let mut n: usize = 0;
    let mut i: usize = 0;
    while i < cs.len()
        invariant
            i <= cs@.len(),
            n == char_letter_count(cs@.take(i as int)),
            n <= i,
        decreases cs@.len() - i,
    {
        proof {
            assert(cs@.take(i + 1).drop_last() =~= cs@.take(i as int));
        }
        let c = cs[i];
        if ('A' <= c && c <= 'Z') || ('a' <= c && c <= 'z') {
            n = n + 1;
        }
        i = i + 1;
    }
    assert(cs@.take(cs@.len() as int) =~= cs@);
    n
}

/// `input` with its ASCII letters cased by `mask`, as the found address is printed.
pub fn apply_case_mask(input: &str, mask: usize) -> (s: String)
    requires
        char_letter_count(input@) <= usize::BITS,
    ensures
        s@ == Seq::new(input@.len(), |i: int| cased_char(input@, mask, i)),
{
    let cs = chars_of(input);
    let mut out: Vec<char> = Vec::new();
    let mut letter_idx: usize = 0;
    let mut i: usize = 0;
    proof {
        assert(cs@.take(0) =~= Seq::<char>::empty());
    }
    while i < cs.len()
        invariant
            i <= cs@.len(),
            cs@ == input@,
            char_letter_count(cs@) <= usize::BITS,
            letter_idx == char_letter_count(cs@.take(i as int)),
            out@.len() == i,
            forall|k: int| 0 <= k < i ==> out@[k] == cased_char(cs@, mask, k),
        decreases cs@.len() - i,
    {
        proof {
            assert(cs@.take(i + 1).drop_last() =~= cs@.take(i as int));
            lemma_char_letter_count_prefix(cs@, i as int + 1);
        }
        let c = cs[i];
        let d = if ('A' <= c && c <= 'Z') || ('a' <= c && c <= 'z') {
            let bit = (mask >> letter_idx) & 1;
            letter_idx = letter_idx + 1;
            if bit == 1 {
                if 'a' <= c && c <= 'z' {
                    ((c as u8) - 32) as char
                } else {
                    c
                }
            } else if 'A' <= c && c <= 'Z' {
                ((c as u8) + 32) as char
            } else {
                c
            }
        } else {
            c
        };
        out.push(d);
        i = i + 1;
    }
    let s = string_from_chars(&out);
    assert(out@ =~= Seq::new(input@.len(), |i: int| cased_char(input@, mask, i)));
    s
}

proof fn lemma_char_letter_count_prefix(cs: Seq<char>, n: int)
    requires
        0 <= n <= cs.len(),
    ensures
        char_letter_count(cs.take(n)) <= char_letter_count(cs),
    decreases cs.len() - n,
{
    if n < cs.len() {
        lemma_char_letter_count_prefix(cs, n + 1);
        assert(cs.take(n + 1).drop_last() =~= cs.take(n));
    } else {
        assert(cs.take(n) =~= cs);
    }
}

} // verus!
