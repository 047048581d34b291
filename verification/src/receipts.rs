use vstd::prelude::*;

use crate::abi::word_from_u64;
use crate::hexcodec::{hex_decoded, strip_0x_any_case};
use crate::intents::{be_value, pow256};
use crate::json::{json_contents, json_pointer, json_pointer_value, JsonNumber, JsonNumberView, JsonScalar, JsonScalarView};
use crate::rental::{opt_view, value_at};
use crate::text::{chars_of, string_from_chars, trim, trim_str};

verus! {

/// The value of an ASCII digit or letter: `0`-`9`, then `a`-`z` (either case) from 10; -1 for
/// any other character.
pub open spec fn digit_val(c: char) -> int {
    if '0' <= c && c <= '9' {
        c as int - '0' as int
    } else if 'a' <= c && c <= 'z' {
        c as int - 'a' as int + 10
    } else if 'A' <= c && c <= 'Z' {
        c as int - 'A' as int + 10
    } else {
        -1
    }
}

/// The number written by `s` in `radix` as `ruint` reads it: underscores are skipped, and any
/// other character must be a digit of the radix (the empty text is 0).
pub open spec fn ruint_digits(s: Seq<char>, radix: nat) -> Option<nat>
    decreases s.len(),
{
    if s.len() == 0 {
        Some(0)
    } else {
        match ruint_digits(s.drop_last(), radix) {
            None => None,
            Some(v) => if s.last() == '_' {
                Some(v)
            } else if 0 <= digit_val(s.last()) < radix {
                Some(v * radix + digit_val(s.last()) as nat)
            } else {
                None
            },
        }
    }
}

/// A 256-bit value written in `radix`: the number, when it is below 2^256.
pub open spec fn u256_value_of(s: Seq<char>, radix: nat) -> Option<nat> {
    match ruint_digits(s, radix) {
        Some(v) => if v < pow256(32) {
            Some(v)
        } else {
            None
        },
        None => None,
    }
}

/// A 256-bit value as `U256::from_str` reads it: a `0x`, `0o` or `0b` prefix (either case)
/// selects hexadecimal, octal or binary; otherwise decimal.
pub open spec fn u256_text_value(s: Seq<char>) -> Option<nat> {
    if s.len() >= 2 && s[0] == '0' && (s[1] == 'x' || s[1] == 'X') {
        u256_value_of(s.skip(2), 16)
    } else if s.len() >= 2 && s[0] == '0' && (s[1] == 'o' || s[1] == 'O') {
        u256_value_of(s.skip(2), 8)
    } else if s.len() >= 2 && s[0] == '0' && (s[1] == 'b' || s[1] == 'B') {
        u256_value_of(s.skip(2), 2)
    } else {
        u256_value_of(s, 10)
    }
}

/// `U256::from_str_radix(s, radix)` for radix 10 or 16, the value as a big-endian word: the
/// contract claims the reading `u256_value_of` states (underscores skipped, digits of the
/// radix in either case, a value below 2^256).
#[verifier::external_body]
pub(crate) fn u256_from_str_radix(s: &str, radix: u64) -> (r: Option<[u8; 32]>)
    requires
        radix == 10 || radix == 16,
    ensures
        match u256_value_of(s@, radix as nat) {
            Some(v) => r matches Some(w) && be_value(w@) == v,
            None => r is None,
        },
{
    alloy::primitives::U256::from_str_radix(s, radix).ok().map(|u| u.to_be_bytes::<32>())
}

/// `U256::from_str`, the value as a big-endian word: the contract claims the reading
/// `u256_text_value` states.
#[verifier::external_body]
pub(crate) fn u256_from_text(s: &str) -> (r: Option<[u8; 32]>)
    ensures
        match u256_text_value(s@) {
            Some(v) => r matches Some(w) && be_value(w@) == v,
            None => r is None,
        },
{
    s.parse::<alloy::primitives::U256>().ok().map(|u| u.to_be_bytes::<32>())
}

/// A 32-byte hash as `B256::from_str` reads it: an optional `0x` or `0X`, then exactly 64
/// hexadecimal digits.
pub open spec fn b256_text_of(s: Seq<char>) -> Option<Seq<u8>> {
    match hex_decoded(strip_0x_any_case(s)) {
        Some(b) => if b.len() == 32 {
            Some(b)
        } else {
            None
        },
        None => None,
    }
}

/// `alloy::primitives::B256::from_str`: the contract claims the reading `b256_text_of`
/// states.
#[verifier::external_body]
fn b256_from_text(s: &str) -> (r: Option<[u8; 32]>)
    ensures
        match b256_text_of(s@) {
            Some(b) => r matches Some(a) && a@ == b,
            None => r is None,
        },
{
    s.parse::<alloy::primitives::B256>().ok().map(|b| b.0)
}

/// Hexadecimal digits as `u64::from_str_radix(s, 16)` reads them after its sign: at least one
/// digit, nothing else.
pub open spec fn hex_digits_value(s: Seq<char>) -> Option<nat>
    decreases s.len(),
{
    if s.len() == 0 {
        None
    } else if !(0 <= digit_val(s.last()) < 16) {
        None
    } else if s.len() == 1 {
        Some(digit_val(s.last()) as nat)
    } else {
        match hex_digits_value(s.drop_last()) {
            Some(v) => Some(v * 16 + digit_val(s.last()) as nat),
            None => None,
        }
    }
}

/// `u64::from_str_radix(s, 16)`: an optional `+`, then hexadecimal digits whose value fits.
pub open spec fn u64_hex_of(s: Seq<char>) -> Option<u64> {
    let body = if s.len() > 0 && s[0] == '+' {
        s.skip(1)
    } else {
        s
    };
    match hex_digits_value(body) {
        Some(v) => if v <= u64::MAX {
            Some(v as u64)
        } else {
            None
        },
        None => None,
    }
}

proof fn lemma_hex_digits_step(s: Seq<char>, i: int)
    requires
        0 <= i < s.len(),
    ensures
        s.take(i + 1).drop_last() == s.take(i),
        s.take(i + 1).last() == s[i],
{
    assert(s.take(i + 1).drop_last() =~= s.take(i));
}

fn hex_digit_value(c: char) -> (d: Option<u64>)
    ensures
        match d {
            Some(v) => 0 <= digit_val(c) < 16 && v == digit_val(c),
            None => !(0 <= digit_val(c) < 16),
        },
{
    if '0' <= c && c <= '9' {
        Some((c as u32 - '0' as u32) as u64)
    } else if 'a' <= c && c <= 'f' {
        Some((c as u32 - 'a' as u32 + 10) as u64)
    } else if 'A' <= c && c <= 'F' {
        Some((c as u32 - 'A' as u32 + 10) as u64)
    } else {
        None
    }
}

/// Reads hexadecimal digits into a `u64` (`u64::from_str_radix(s, 16)`).
pub fn u64_from_hex(s: &str) -> (r: Option<u64>)
    ensures
        r == u64_hex_of(s@),
{
    let c = chars_of(s);
    let start: usize = if c.len() > 0 && c[0] == '+' {
        1
    } else {
        0
    };
    let ghost body = if s@.len() > 0 && s@[0] == '+' {
        s@.skip(1)
    } else {
        s@
    };
    assert(body =~= c@.skip(start as int));
    if start >= c.len() {
        assert(body.len() == 0);
        return None;
    }
    let mut acc: u64 = 0;
    let mut i: usize = start;
    while i < c.len()
        invariant
            start < c@.len(),
            start <= i <= c@.len(),
            c@ == s@,
            body == (if s@.len() > 0 && s@[0] == '+' {
                s@.skip(1)
            } else {
                s@
            }),
            body == c@.skip(start as int),
            i > start ==> hex_digits_value(body.take(i - start)) == Some(acc as nat),
        decreases c@.len() - i,
    {
        let ghost k: int = (i - start) as int;
        proof {
            lemma_hex_digits_step(body, k);
        }
        assert(body[k] == c@[i as int]);
        let d = match hex_digit_value(c[i]) {
            Some(d) => d,
            None => {
                proof {
                    lemma_hex_digits_invalid_persists(body, k + 1);
                }
                return None;
            },
        };
        if i == start {
            acc = d;
        } else {
            if acc > 0x0fff_ffff_ffff_ffffu64 {
                proof {
                    assert(hex_digits_value(body.take(k + 1)) == Some((acc * 16 + d) as nat));
                    lemma_hex_digits_overflow_persists(body, k + 1);
                }
                return None;
            }
            acc = acc * 16 + d;
        }
        i = i + 1;
    }
    assert(body.take(body.len() as int) =~= body);
    Some(acc)
}

proof fn lemma_hex_digits_monotone(s: Seq<char>, j: int)
    requires
        1 <= j <= s.len(),
        hex_digits_value(s) is Some,
    ensures
        hex_digits_value(s.take(j)) is Some,
        hex_digits_value(s.take(j))->0 <= hex_digits_value(s)->0,
    decreases s.len() - j,
{
    if j < s.len() {
        assert(s.drop_last().take(j) =~= s.take(j));
        assert(hex_digits_value(s.drop_last()) is Some);
        lemma_hex_digits_monotone(s.drop_last(), j);
    } else {
        assert(s.take(j) =~= s);
    }
}

proof fn lemma_hex_digits_invalid_persists(s: Seq<char>, j: int)
    requires
        1 <= j <= s.len(),
        !(0 <= digit_val(s[j - 1]) < 16),
    ensures
        hex_digits_value(s) is None,
{
    if hex_digits_value(s) is Some {
        lemma_hex_digits_monotone(s, j);
        assert(s.take(j).last() == s[j - 1]);
    }
}

proof fn lemma_hex_digits_overflow_persists(s: Seq<char>, j: int)
    requires
        1 <= j <= s.len(),
        hex_digits_value(s.take(j)) is Some,
        hex_digits_value(s.take(j))->0 > u64::MAX,
    ensures
        u64_hex_of_body_overflows(s),
{
    if hex_digits_value(s) is Some {
        lemma_hex_digits_monotone(s, j);
    }
}

spec fn u64_hex_of_body_overflows(s: Seq<char>) -> bool {
    match hex_digits_value(s) {
        Some(v) => v > u64::MAX,
        None => true,
    }
}

/// The string at pointer `p`, if a string is there.
pub open spec fn str_at(d: Map<Seq<char>, JsonScalarView>, p: Seq<char>) -> Option<Seq<char>> {
    match value_at(d, p) {
        Some(JsonScalarView::Str(s)) => Some(s),
        _ => None,
    }
}

/// The transaction hash text of a user-operation receipt: at the top, else inside `receipt`.
pub open spec fn receipt_tx_hash_text(d: Map<Seq<char>, JsonScalarView>) -> Option<Seq<char>> {
    match str_at(d, "/transactionHash"@) {
        Some(s) => Some(s),
        None => str_at(d, "/receipt/transactionHash"@),
    }
}

/// The block number of a user-operation receipt: a `0x`-prefixed hexadecimal string that
/// reads as a `u64`, else a non-negative integer.
pub open spec fn receipt_block_number(d: Map<Seq<char>, JsonScalarView>) -> Option<u64> {
    let hexed = match str_at(d, "/receipt/blockNumber"@) {
        Some(s) => if s.len() >= 2 && s[0] == '0' && s[1] == 'x' {
            u64_hex_of(s.skip(2))
        } else {
            None
        },
        None => None,
    };
    match hexed {
        Some(n) => Some(n),
        None => match value_at(d, "/receipt/blockNumber"@) {
            Some(JsonScalarView::Number(JsonNumberView::PosInt(u))) => Some(u),
            _ => None,
        },
    }
}

/// A 256-bit amount written in JSON: a string (blanks ignored; `0x` then hexadecimal,
/// else as `U256::from_str` reads it) or a non-negative integer.
pub open spec fn u256_json(v: JsonScalarView) -> Option<nat> {
    match v {
        JsonScalarView::Str(s) => {
            let t = trim(s);
            if t.len() >= 2 && t[0] == '0' && t[1] == 'x' {
                u256_value_of(t.skip(2), 16)
            } else {
                u256_text_value(t)
            }
        },
        JsonScalarView::Number(JsonNumberView::PosInt(u)) => Some(u as nat),
        _ => None,
    }
}

/// The amount at pointer `p`.
pub open spec fn u256_at(d: Map<Seq<char>, JsonScalarView>, p: Seq<char>) -> Option<nat> {
    match value_at(d, p) {
        Some(v) => u256_json(v),
        None => None,
    }
}

/// The first of four places that holds a readable amount.
pub open spec fn first_u256(
    d: Map<Seq<char>, JsonScalarView>,
    a: Seq<char>,
    b: Seq<char>,
    c: Seq<char>,
    e: Seq<char>,
) -> Option<nat> {
    match u256_at(d, a) {
        Some(v) => Some(v),
        None => match u256_at(d, b) {
            Some(v) => Some(v),
            None => match u256_at(d, c) {
                Some(v) => Some(v),
                None => u256_at(d, e),
            },
        },
    }
}

/// The fields read from a user-operation receipt (amounts as big-endian 256-bit words).
#[derive(Debug)]
pub struct UserOpReceiptFields {
    pub tx_hash: Option<[u8; 32]>,
    pub block_number: Option<u64>,
    pub success: Option<bool>,
    pub actual_gas_cost_wei: Option<[u8; 32]>,
    pub actual_gas_used: Option<[u8; 32]>,
    pub reason: Option<serde_json::Value>,
}

/// Why a receipt cannot be read: its transaction hash is not a 32-byte hash.
#[derive(Debug, Clone, Copy, PartialEq, Eq, Structural)]
pub enum ReceiptError {
    BadTransactionHash,
}

impl ReceiptError {
    /// The error's text.
    pub fn message(self) -> (s: &'static str)
        ensures
            s@ == "parse transactionHash"@,
    {
        "parse transactionHash"
    }
}

/// An optional word matches an optional amount.
pub open spec fn word_matches(w: Option<[u8; 32]>, v: Option<nat>) -> bool {
    match v {
        Some(n) => w matches Some(x) && be_value(x@) == n,
        None => w is None,
    }
}

/// `f` holds what the receipt document `d` says.
pub open spec fn receipt_fields_of(d: Map<Seq<char>, JsonScalarView>, f: UserOpReceiptFields) -> bool {
    &&& match receipt_tx_hash_text(d) {
        Some(t) => f.tx_hash matches Some(h) && b256_text_of(t) == Some(h@),
        None => f.tx_hash is None,
    }
    &&& f.block_number == receipt_block_number(d)
    &&& f.success == match value_at(d, "/success"@) {
        Some(JsonScalarView::Bool(b)) => Some(b),
        _ => None,
    }
    &&& word_matches(
        f.actual_gas_cost_wei,
        first_u256(
            d,
            "/actualGasCost"@,
            "/actual_gas_cost"@,
            "/receipt/actualGasCost"@,
            "/receipt/actual_gas_cost"@,
        ),
    )
    &&& word_matches(
        f.actual_gas_used,
        first_u256(
            d,
            "/actualGasUsed"@,
            "/actual_gas_used"@,
            "/receipt/actualGasUsed"@,
            "/receipt/actual_gas_used"@,
        ),
    )
    &&& match f.reason {
        Some(r) => d.contains_key("/reason"@) && json_contents(r).contains_key(Seq::<char>::empty())
            && json_contents(r)[Seq::<char>::empty()] == d["/reason"@],
        None => !d.contains_key("/reason"@),
    }
}

fn str_at_exec(json: &serde_json::Value, p: &str) -> (r: Option<String>)
    ensures
        opt_view(r) == str_at(json_contents(*json), p@),
{
    match json_pointer(json, p) {
        Some(JsonScalar::Str(s)) => Some(s),
        _ => None,
    }
}

fn parse_u256_json(v: &JsonScalar) -> (r: Option<[u8; 32]>)
    ensures
        word_matches(r, u256_json(v@)),
{
    match v {
        JsonScalar::Str(s) => {
            let t = trim_str(s.as_str());
            let tc = chars_of(t.as_str());
            if tc.len() >= 2 && tc[0] == '0' && tc[1] == 'x' {
                let mut rest: Vec<char> = Vec::new();
                let mut i: usize = 2;
                while i < tc.len()
                    invariant
                        2 <= i <= tc@.len(),
                        rest@ == tc@.subrange(2, i as int),
                    decreases tc@.len() - i,
                {
                    rest.push(tc[i]);
                    i = i + 1;
                    assert(rest@ =~= tc@.subrange(2, i as int));
                }
                assert(rest@ =~= tc@.skip(2));
                let rs = string_from_chars(&rest);
                u256_from_str_radix(rs.as_str(), 16)
            } else {
                u256_from_text(t.as_str())
            }
        },
        JsonScalar::Number(JsonNumber::PosInt(u)) => Some(word_from_u64(*u)),
        _ => None,
    }
}

fn u256_at_exec(json: &serde_json::Value, p: &str) -> (r: Option<[u8; 32]>)
    ensures
        word_matches(r, u256_at(json_contents(*json), p@)),
{
    match json_pointer(json, p) {
        Some(v) => parse_u256_json(&v),
        None => None,
    }
}

fn extract_u256_field(json: &serde_json::Value, a: &str, b: &str, c: &str, e: &str) -> (r: Option<
    [u8; 32],
>)
    ensures
        word_matches(r, first_u256(json_contents(*json), a@, b@, c@, e@)),
{
    match u256_at_exec(json, a) {
        Some(w) => Some(w),
        None => match u256_at_exec(json, b) {
            Some(w) => Some(w),
            None => match u256_at_exec(json, c) {
                Some(w) => Some(w),
                None => u256_at_exec(json, e),
            },
        },
    }
}

fn block_number_exec(json: &serde_json::Value) -> (r: Option<u64>)
    ensures
        r == receipt_block_number(json_contents(*json)),
{
    let hexed = match str_at_exec(json, "/receipt/blockNumber") {
        Some(s) => {
            let c = chars_of(s.as_str());
            if c.len() >= 2 && c[0] == '0' && c[1] == 'x' {
                let mut rest: Vec<char> = Vec::new();
                let mut i: usize = 2;
                while i < c.len()
                    invariant
                        2 <= i <= c@.len(),
                        rest@ == c@.subrange(2, i as int),
                    decreases c@.len() - i,
                {
                    rest.push(c[i]);
                    i = i + 1;
                    assert(rest@ =~= c@.subrange(2, i as int));
                }
                assert(rest@ =~= c@.skip(2));
                let rs = string_from_chars(&rest);
                u64_from_hex(rs.as_str())
            } else {
                None
            }
        },
        None => None,
    };
    match hexed {
        Some(n) => Some(n),
        None => match json_pointer(json, "/receipt/blockNumber") {
            Some(JsonScalar::Number(JsonNumber::PosInt(u))) => Some(u),
            _ => None,
        },
    }
}

/// Reads the fields of a user-operation receipt, looking where bundlers differ: the
/// transaction hash at the top or inside `receipt`; the block number inside `receipt`; the
/// gas cost and gas used under either spelling, at the top or inside `receipt`; the success
/// flag and failure reason at the top. A transaction hash that is there but no 32-byte hash
/// makes the receipt unreadable.
pub fn extract_userop_receipt_fields(raw: &serde_json::Value) -> (r: Result<
    UserOpReceiptFields,
    ReceiptError,
>)
    ensures
        match r {
            Ok(f) => receipt_fields_of(json_contents(*raw), f),
            Err(_) => receipt_tx_hash_text(json_contents(*raw)) matches Some(t) && b256_text_of(t)
                is None,
        },
{
    let tx_text = match str_at_exec(raw, "/transactionHash") {
        Some(s) => Some(s),
        None => str_at_exec(raw, "/receipt/transactionHash"),
    };
    let tx_hash = match tx_text {
        Some(t) => match b256_from_text(t.as_str()) {
            Some(h) => Some(h),
            None => return Err(ReceiptError::BadTransactionHash),
        },
        None => None,
    };
    let block_number = block_number_exec(raw);
    let success = match json_pointer(raw, "/success") {
        Some(JsonScalar::Bool(b)) => Some(b),
        _ => None,
    };
    let actual_gas_cost_wei = extract_u256_field(
        raw,
        "/actualGasCost",
        "/actual_gas_cost",
        "/receipt/actualGasCost",
        "/receipt/actual_gas_cost",
    );
    let actual_gas_used = extract_u256_field(
        raw,
        "/actualGasUsed",
        "/actual_gas_used",
        "/receipt/actualGasUsed",
        "/receipt/actual_gas_used",
    );
    let reason = json_pointer_value(raw, "/reason");
    Ok(UserOpReceiptFields {
        tx_hash,
        block_number,
        success,
        actual_gas_cost_wei,
        actual_gas_used,
        reason,
    })
}

} // verus!
