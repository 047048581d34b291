use vstd::prelude::*;

verus! {

/// Value of a hexadecimal digit (either case), or -1.
pub open spec fn hex_val(c: char) -> int {
    if '0' <= c && c <= '9' {
        c as int - 48
    } else if 'a' <= c && c <= 'f' {
        c as int - 87
    } else if 'A' <= c && c <= 'F' {
        c as int - 55
    } else {
        -1
    }
}

pub open spec fn is_hex_digit(c: char) -> bool {
    hex_val(c) >= 0
}

/// The bytes spelled by an even number of hexadecimal digits, two per byte, high nibble first;
/// `None` for odd lengths or any other character.
pub open spec fn hex_decoded(cs: Seq<char>) -> Option<Seq<u8>> {
    if cs.len() % 2 == 0 && forall|i: int| 0 <= i < cs.len() ==> is_hex_digit(#[trigger] cs[i]) {
        Some(Seq::new((cs.len() / 2) as nat, |i: int| (hex_val(cs[2 * i]) * 16 + hex_val(cs[2 * i + 1])) as u8))
    } else {
        None
    }
}

/// `hex::decode`: the contract claims that decoding succeeds exactly on an even number of
/// hexadecimal digits (either case) and yields the bytes they spell, as `hex_decoded` states.
#[verifier::external_body]
pub(crate) fn hex_decode(s: &str) -> (r: Option<Vec<u8>>)
    ensures
        match r {
            Some(v) => hex_decoded(s@) == Some(v@),
            None => hex_decoded(s@) is None,
        },
{
    hex::decode(s).ok()
}

/// `s` with a leading `0x` removed, if present.
pub open spec fn strip_0x(s: Seq<char>) -> Seq<char> {
    if s.len() >= 2 && s[0] == '0' && s[1] == 'x' {
        s.skip(2)
    } else {
        s
    }
}

/// `s` with a leading `0x` or `0X` removed, if present.
pub open spec fn strip_0x_any_case(s: Seq<char>) -> Seq<char> {
    if s.len() >= 2 && s[0] == '0' && (s[1] == 'x' || s[1] == 'X') {
        s.skip(2)
    } else {
        s
    }
}

/// Removes a leading `0x` (`str::strip_prefix("0x").unwrap_or(s)`).
pub fn strip_0x_chars(s: &Vec<char>) -> (out: Vec<char>)
    ensures
        out@ == strip_0x(s@),
{
    let start: usize = if s.len() >= 2 && s[0] == '0' && s[1] == 'x' {
        2
    } else {
        0
    };
    let mut out: Vec<char> = Vec::new();
    let mut i: usize = start;
    while i < s.len()
        invariant
            start <= i <= s.len(),
            start == 0 || start == 2,
            start == 2 <==> (s@.len() >= 2 && s@[0] == '0' && s@[1] == 'x'),
            out@ == s@.subrange(start as int, i as int),
        decreases s.len() - i,
    {
        out.push(s[i]);
        i = i + 1;
        assert(out@ =~= s@.subrange(start as int, i as int));
    }
    assert(s@.subrange(start as int, s.len() as int) =~= strip_0x(s@));
    out
}

/// Copies exactly 32 bytes into an array.
pub fn to_array32(v: &Vec<u8>) -> (a: [u8; 32])
    requires
        v@.len() == 32,
    ensures
        a@ == v@,
{
    let mut a = [0u8; 32];
    let mut i: usize = 0;
    while i < 32
        invariant
            i <= 32,
            v@.len() == 32,
            forall|k: int| 0 <= k < i ==> a@[k] == v@[k],
        decreases 32 - i,
    {
        a[i] = v[i];
        i = i + 1;
    }
    assert(a@ =~= v@);
    a
}

} // verus!
