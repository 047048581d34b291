use vstd::prelude::*;

use crate::address::{address_decoded, Address};
use crate::error::{ParseError, ParseErrorView};
use crate::hexcodec::{hex_decode, hex_decoded, strip_0x, strip_0x_chars, to_array32};
use crate::text::{
    chars_eq_str, chars_of, lower, lower_chars, split_on, split_trimmed, string_from_chars, trim,
    trim_chars,
};
use crate::types::{HubTxMode, IntentType, TronMode};

verus! {

/// The pieces of `s` between commas, each trimmed.
pub open spec fn trimmed_pieces(s: Seq<char>) -> Seq<Seq<char>> {
    split_on(s, ',').map_values(|p: Seq<char>| trim(p))
}

/// The non-empty entries of `ps`, in order.
pub open spec fn nonempty(ps: Seq<Seq<char>>) -> Seq<Seq<char>>
    decreases ps.len(),
{
    if ps.len() == 0 {
        Seq::empty()
    } else if ps.last().len() > 0 {
        nonempty(ps.drop_last()).push(ps.last())
    } else {
        nonempty(ps.drop_last())
    }
}

/// The items of a comma-separated list: trimmed, empty ones dropped.
pub open spec fn csv_items(s: Seq<char>) -> Seq<Seq<char>> {
    nonempty(trimmed_pieces(s))
}

/// The character contents of a list of strings.
pub open spec fn string_views(v: Seq<String>) -> Seq<Seq<char>> {
    v.map_values(|x: String| x@)
}

/// Character contents of a list of character vectors.
pub open spec fn chars_views(v: Seq<Vec<char>>) -> Seq<Seq<char>> {
    v.map_values(|x: Vec<char>| x@)
}

fn pieces_of(s: &str) -> (out: Vec<Vec<char>>)
    ensures
        chars_views(out@) == trimmed_pieces(s@),
{
    let out = split_trimmed(s, ',');
    assert(chars_views(out@) =~= trimmed_pieces(s@));
    out
}

proof fn lemma_take_step<A>(s: Seq<A>, i: int)
    requires
        0 <= i < s.len(),
    ensures
        s.take(i + 1).drop_last() == s.take(i),
        s.take(i + 1).last() == s[i],
{
    assert(s.take(i + 1).drop_last() =~= s.take(i));
}

/// Splits a comma-separated list into trimmed, non-empty items; an empty list is refused.
pub fn parse_csv(label: &str, s: &str) -> (r: Result<Vec<String>, ParseError>)
    ensures
        r is Ok <==> csv_items(s@).len() > 0,
        r matches Ok(v) ==> string_views(v@) == csv_items(s@),
        r matches Err(e) ==> e@ == (ParseErrorView::MustBeNonEmpty { label: label@ }),
{
    let pieces = pieces_of(s);
    let ghost ps = trimmed_pieces(s@);
    let mut out: Vec<String> = Vec::new();
    let mut i: usize = 0;
    assert(ps.take(0) =~= Seq::<Seq<char>>::empty());
    while i < pieces.len()
        invariant
            i <= pieces@.len(),
            chars_views(pieces@) == ps,
            string_views(out@) == nonempty(ps.take(i as int)),
        decreases pieces@.len() - i,
    {
        proof {
            lemma_take_step(ps, i as int);
            assert(ps[i as int] == pieces@[i as int]@);
        }
        if pieces[i].len() > 0 {
            let item = string_from_chars(&pieces[i]);
            out.push(item);
            assert(string_views(out@) =~= nonempty(ps.take(i as int)).push(ps[i as int]));
        }
        i = i + 1;
    }
    assert(ps.take(pieces@.len() as int) =~= ps);
    if out.len() == 0 {
        return Err(ParseError::MustBeNonEmpty { label: label.to_owned() });
    }
    Ok(out)
}

/// The intent type an entry of `SOLVER_ENABLED_INTENT_TYPES` names.
pub open spec fn intent_type_of_name(p: Seq<char>) -> Option<IntentType> {
    if p == "trigger_smart_contract"@ {
        Some(IntentType::TriggerSmartContract)
    } else if p == "usdt_transfer"@ {
        Some(IntentType::UsdtTransfer)
    } else if p == "trx_transfer"@ {
        Some(IntentType::TrxTransfer)
    } else if p == "delegate_resource"@ {
        Some(IntentType::DelegateResource)
    } else {
        None
    }
}

/// Intent types named by trimmed pieces, each kept once at its first mention; the first
/// unknown non-empty piece stops the scan.
pub open spec fn intent_types_of(ps: Seq<Seq<char>>) -> Result<Seq<IntentType>, Seq<char>>
    decreases ps.len(),
{
    if ps.len() == 0 {
        Ok(Seq::empty())
    } else {
        match intent_types_of(ps.drop_last()) {
            Err(p) => Err(p),
            Ok(acc) => {
                let p = ps.last();
                if p.len() == 0 {
                    Ok(acc)
                } else {
                    match intent_type_of_name(p) {
                        None => Err(p),
                        Some(t) => Ok(
                            if acc.contains(t) {
                                acc
                            } else {
                                acc.push(t)
                            },
                        ),
                    }
                }
            },
        }
    }
}

/// The enabled intent types configured by `s`: `trx_transfer` and `delegate_resource` when it
/// is blank.
pub open spec fn enabled_intent_types(s: Seq<char>) -> Result<Seq<IntentType>, ParseErrorView> {
    if trim(s).len() == 0 {
        Ok(seq![IntentType::TrxTransfer, IntentType::DelegateResource])
    } else {
        match intent_types_of(trimmed_pieces(s)) {
            Err(p) => Err(ParseErrorView::UnknownIntentTypeName { value: p }),
            Ok(v) => if v.len() == 0 {
                Err(ParseErrorView::NoIntentTypes)
            } else {
                Ok(v)
            },
        }
    }
}

fn intent_type_named(p: &Vec<char>) -> (r: Option<IntentType>)
    ensures
        r == intent_type_of_name(p@),
{
    if chars_eq_str(p, "trigger_smart_contract") {
        Some(IntentType::TriggerSmartContract)
    } else if chars_eq_str(p, "usdt_transfer") {
        Some(IntentType::UsdtTransfer)
    } else if chars_eq_str(p, "trx_transfer") {
        Some(IntentType::TrxTransfer)
    } else if chars_eq_str(p, "delegate_resource") {
        Some(IntentType::DelegateResource)
    } else {
        None
    }
}

fn contains_intent_type(v: &Vec<IntentType>, t: IntentType) -> (r: bool)
    ensures
        r == v@.contains(t),
{
    let mut i: usize = 0;
    while i < v.len()
        invariant
            i <= v@.len(),
            forall|k: int| 0 <= k < i ==> v@[k] != t,
        decreases v@.len() - i,
    {
        if v[i] == t {
            assert(v@[i as int] == t);
            return true;
        }
        i = i + 1;
    }
    false
}

/// Reads the enabled intent types: comma-separated names, each kept once in order of first
/// mention; a blank value enables `trx_transfer` and `delegate_resource`.
pub fn parse_intent_types(s: &str) -> (r: Result<Vec<IntentType>, ParseError>)
    ensures
        match r {
            Ok(v) => enabled_intent_types(s@) == Ok::<Seq<IntentType>, ParseErrorView>(v@),
            Err(e) => enabled_intent_types(s@) == Err::<Seq<IntentType>, ParseErrorView>(e@),
        },
{
    let all = chars_of(s);
    let t = trim_chars(&all);
    if t.len() == 0 {
        let v = vec![IntentType::TrxTransfer, IntentType::DelegateResource];
        assert(v@ =~= seq![IntentType::TrxTransfer, IntentType::DelegateResource]);
        return Ok(v);
    }
    let pieces = pieces_of(s);
    let ghost ps = trimmed_pieces(s@);
    let mut out: Vec<IntentType> = Vec::new();
    let mut i: usize = 0;
    assert(ps.take(0) =~= Seq::<Seq<char>>::empty());
    while i < pieces.len()
        invariant
            i <= pieces@.len(),
            chars_views(pieces@) == ps,
            ps == trimmed_pieces(s@),
            trim(s@).len() > 0,
            intent_types_of(ps.take(i as int)) == Ok::<Seq<IntentType>, Seq<char>>(out@),
        decreases pieces@.len() - i,
    {
        proof {
            lemma_take_step(ps, i as int);
            assert(ps[i as int] == pieces@[i as int]@);
        }
        if pieces[i].len() > 0 {
            match intent_type_named(&pieces[i]) {
                None => {
                    proof {
                        lemma_intent_types_err_persists(ps, i + 1, ps.len() as int);
                        assert(ps.take(ps.len() as int) =~= ps);
                    }
                    return Err(
                        ParseError::UnknownIntentTypeName { value: string_from_chars(&pieces[i]) },
                    );
                },
                Some(ty) => {
                    if !contains_intent_type(&out, ty) {
                        out.push(ty);
                    }
                },
            }
        }
        i = i + 1;
    }
    assert(ps.take(pieces@.len() as int) =~= ps);
    if out.len() == 0 {
        return Err(ParseError::NoIntentTypes);
    }
    Ok(out)
}

proof fn lemma_intent_types_no_dup(ps: Seq<Seq<char>>)
    ensures
        intent_types_of(ps) matches Ok(v) ==> v.no_duplicates(),
    decreases ps.len(),
{
    if ps.len() > 0 {
        lemma_intent_types_no_dup(ps.drop_last());
        if let Ok(acc) = intent_types_of(ps.drop_last()) {
            let p = ps.last();
            if p.len() > 0 {
                if let Some(t) = intent_type_of_name(p) {
                    if !acc.contains(t) {
                        let v = acc.push(t);
                        assert forall|a: int, b: int| 0 <= a < b < v.len() implies v[a] != v[b] by {
                            if b == acc.len() {
                                assert(acc[a] == v[a]);
                                assert(acc.contains(acc[a]));
                            }
                        }
                    }
                }
            }
        }
    }
}

/// The enabled intent types never repeat an entry.
pub proof fn lemma_enabled_intent_types_unique(s: Seq<char>)
    ensures
        enabled_intent_types(s) matches Ok(v) ==> v.no_duplicates(),
{
    lemma_intent_types_no_dup(trimmed_pieces(s));
}

/// `HUB_TX_MODE` after trimming and ASCII lower-casing.
pub open spec fn hub_tx_mode_of(s: Seq<char>) -> Result<HubTxMode, ParseErrorView> {
    let t = lower(trim(s));
    if t == ""@ || t == "eoa"@ {
        Ok(HubTxMode::Eoa)
    } else if t == "safe4337"@ || t == "safe_4337"@ || t == "aa"@ {
        Ok(HubTxMode::Safe4337)
    } else {
        Err(ParseErrorView::UnsupportedHubTxMode { value: t })
    }
}

/// Reads `HUB_TX_MODE` (case-insensitive, blank means `eoa`).
pub fn parse_hub_tx_mode(s: &str) -> (r: Result<HubTxMode, ParseError>)
    ensures
        match r {
            Ok(m) => hub_tx_mode_of(s@) == Ok::<HubTxMode, ParseErrorView>(m),
            Err(e) => hub_tx_mode_of(s@) == Err::<HubTxMode, ParseErrorView>(e@),
        },
{
    let c = chars_of(s);
    let t0 = trim_chars(&c);
    let t = lower_chars(&t0);
    if chars_eq_str(&t, "") || chars_eq_str(&t, "eoa") {
        Ok(HubTxMode::Eoa)
    } else if chars_eq_str(&t, "safe4337") || chars_eq_str(&t, "safe_4337") || chars_eq_str(
        &t,
        "aa",
    ) {
        Ok(HubTxMode::Safe4337)
    } else {
        Err(ParseError::UnsupportedHubTxMode { value: string_from_chars(&t) })
    }
}

/// `TRON_MODE` after trimming and ASCII lower-casing.
pub open spec fn tron_mode_of(s: Seq<char>) -> Result<TronMode, ParseErrorView> {
    let t = lower(trim(s));
    if t == ""@ || t == "grpc"@ {
        Ok(TronMode::Grpc)
    } else if t == "mock"@ {
        Ok(TronMode::Mock)
    } else {
        Err(ParseErrorView::UnsupportedTronMode { value: t })
    }
}

/// Reads `TRON_MODE` (case-insensitive, blank means `grpc`).
pub fn parse_tron_mode(s: &str) -> (r: Result<TronMode, ParseError>)
    ensures
        match r {
            Ok(m) => tron_mode_of(s@) == Ok::<TronMode, ParseErrorView>(m),
            Err(e) => tron_mode_of(s@) == Err::<TronMode, ParseErrorView>(e@),
        },
{
    let c = chars_of(s);
    let t0 = trim_chars(&c);
    let t = lower_chars(&t0);
    if chars_eq_str(&t, "") || chars_eq_str(&t, "grpc") {
        Ok(TronMode::Grpc)
    } else if chars_eq_str(&t, "mock") {
        Ok(TronMode::Mock)
    } else {
        Err(ParseError::UnsupportedTronMode { value: string_from_chars(&t) })
    }
}

/// Zero means "not set".
pub fn opt_u64(v: u64) -> (r: Option<u64>)
    ensures
        r == (if v == 0 {
            None
        } else {
            Some(v)
        }),
{
    if v == 0 {
        None
    } else {
        Some(v)
    }
}

/// The 32 bytes spelled by `s` (an optional `0x` and 64 hex digits), or why not.
pub open spec fn hex32_of(label: Seq<char>, s: Seq<char>) -> Result<Seq<u8>, ParseErrorView> {
    match hex_decoded(strip_0x(s)) {
        None => Err(ParseErrorView::InvalidHex { label }),
        Some(b) => if b.len() != 32 {
            Err(ParseErrorView::WrongHex32Length { label, got: b.len() as usize })
        } else {
            Ok(b)
        },
    }
}

/// Decodes a 32-byte value written in hex (`0x` optional, no surrounding blanks).
pub fn parse_hex_32(label: &str, s: &str) -> (r: Result<[u8; 32], ParseError>)
    ensures
        match r {
            Ok(a) => hex32_of(label@, s@) == Ok::<Seq<u8>, ParseErrorView>(a@),
            Err(e) => hex32_of(label@, s@) == Err::<Seq<u8>, ParseErrorView>(e@),
        },
{
    let c = chars_of(s);
    let body = strip_0x_chars(&c);
    let body_s = string_from_chars(&body);
    match hex_decode(body_s.as_str()) {
        None => Err(ParseError::InvalidHex { label: label.to_owned() }),
        Some(bytes) => {
            if bytes.len() != 32 {
                Err(ParseError::WrongHex32Length { label: label.to_owned(), got: bytes.len() })
            } else {
                Ok(to_array32(&bytes))
            }
        },
    }
}

/// The 32-byte values of a comma-separated list, or the first problem.
pub open spec fn hex32_list_of(label: Seq<char>, items: Seq<Seq<char>>) -> Result<
    Seq<Seq<u8>>,
    ParseErrorView,
>
    decreases items.len(),
{
    if items.len() == 0 {
        Ok(Seq::empty())
    } else {
        match hex32_list_of(label, items.drop_last()) {
            Err(e) => Err(e),
            Ok(acc) => match hex32_of(label, items.last()) {
                Err(e) => Err(e),
                Ok(b) => Ok(acc.push(b)),
            },
        }
    }
}

/// Decodes a non-empty comma-separated list of 32-byte hex values.
pub fn parse_hex_32_csv(label: &str, s: &str) -> (r: Result<Vec<[u8; 32]>, ParseError>)
    ensures
        csv_items(s@).len() == 0 ==> (r matches Err(e) && e@ == (ParseErrorView::MustBeNonEmpty {
            label: label@,
        })),
        csv_items(s@).len() > 0 ==> match r {
            Ok(v) => hex32_list_of(label@, csv_items(s@)) == Ok::<Seq<Seq<u8>>, ParseErrorView>(
                v@.map_values(|a: [u8; 32]| a@),
            ),
            Err(e) => hex32_list_of(label@, csv_items(s@)) == Err::<Seq<Seq<u8>>, ParseErrorView>(
                e@,
            ),
        },
{
    let items = parse_csv(label, s)?;
    let ghost its = csv_items(s@);
    let mut out: Vec<[u8; 32]> = Vec::new();
    let mut i: usize = 0;
    assert(its.take(0) =~= Seq::<Seq<char>>::empty());
    assert(out@.map_values(|a: [u8; 32]| a@) =~= Seq::<Seq<u8>>::empty());
    while i < items.len()
        invariant
            i <= items@.len(),
            string_views(items@) == its,
            its == csv_items(s@),
            its.len() > 0,
            hex32_list_of(label@, its.take(i as int)) == Ok::<Seq<Seq<u8>>, ParseErrorView>(
                out@.map_values(|a: [u8; 32]| a@),
            ),
        decreases items@.len() - i,
    {
        proof {
            lemma_take_step(its, i as int);
            assert(its[i as int] == items@[i as int]@);
        }
        let a = match parse_hex_32(label, items[i].as_str()) {
            Ok(a) => a,
            Err(e) => {
                proof {
                    lemma_hex32_list_err_persists(label@, its, i + 1, its.len() as int);
                    assert(its.take(its.len() as int) =~= its);
                }
                return Err(e);
            },
        };
        let ghost before = out@.map_values(|x: [u8; 32]| x@);
        out.push(a);
        assert(out@.map_values(|x: [u8; 32]| x@) =~= before.push(a@));
        i = i + 1;
    }
    assert(its.take(items@.len() as int) =~= its);
    Ok(out)
}

/// The 4-byte selectors of a comma-separated list (each `0x` optional), or the first problem.
pub open spec fn selectors_of(label: Seq<char>, ps: Seq<Seq<char>>) -> Result<Seq<Seq<u8>>, ParseErrorView>
    decreases ps.len(),
{
    if ps.len() == 0 {
        Ok(Seq::empty())
    } else {
        match selectors_of(label, ps.drop_last()) {
            Err(e) => Err(e),
            Ok(acc) => {
                let p = ps.last();
                if p.len() == 0 {
                    Ok(acc)
                } else {
                    let v = strip_0x(p);
                    match hex_decoded(v) {
                        None => Err(ParseErrorView::InvalidSelectorHex { label, value: v }),
                        Some(b) => if b.len() != 4 {
                            Err(ParseErrorView::WrongSelectorLength { label, got: b.len() as usize })
                        } else {
                            Ok(acc.push(b))
                        },
                    }
                }
            },
        }
    }
}

/// Decodes a comma-separated list of 4-byte function selectors; blank entries are skipped.
pub fn parse_selectors_csv(label: &str, s: &str) -> (r: Result<Vec<[u8; 4]>, ParseError>)
    ensures
        match r {
            Ok(v) => selectors_of(label@, trimmed_pieces(s@)) == Ok::<Seq<Seq<u8>>, ParseErrorView>(
                v@.map_values(|a: [u8; 4]| a@),
            ),
            Err(e) => selectors_of(label@, trimmed_pieces(s@)) == Err::<Seq<Seq<u8>>, ParseErrorView>(
                e@,
            ),
        },
{
    let pieces = pieces_of(s);
    let ghost ps = trimmed_pieces(s@);
    let mut out: Vec<[u8; 4]> = Vec::new();
    let mut i: usize = 0;
    assert(ps.take(0) =~= Seq::<Seq<char>>::empty());
    assert(out@.map_values(|a: [u8; 4]| a@) =~= Seq::<Seq<u8>>::empty());
    while i < pieces.len()
        invariant
            i <= pieces@.len(),
            chars_views(pieces@) == ps,
            ps == trimmed_pieces(s@),
            selectors_of(label@, ps.take(i as int)) == Ok::<Seq<Seq<u8>>, ParseErrorView>(
                out@.map_values(|a: [u8; 4]| a@),
            ),
        decreases pieces@.len() - i,
    {
        proof {
            lemma_take_step(ps, i as int);
            assert(ps[i as int] == pieces@[i as int]@);
        }
        if pieces[i].len() > 0 {
            let v = strip_0x_chars(&pieces[i]);
            let vs = string_from_chars(&v);
            match hex_decode(vs.as_str()) {
                None => {
                    proof {
                        lemma_selectors_err_persists(label@, ps, i + 1, ps.len() as int);
                        assert(ps.take(ps.len() as int) =~= ps);
                    }
                    return Err(
                        ParseError::InvalidSelectorHex { label: label.to_owned(), value: vs },
                    );
                },
                Some(bytes) => {
                    if bytes.len() != 4 {
                        proof {
                            lemma_selectors_err_persists(label@, ps, i + 1, ps.len() as int);
                            assert(ps.take(ps.len() as int) =~= ps);
                        }
                        return Err(
                            ParseError::WrongSelectorLength {
                                label: label.to_owned(),
                                got: bytes.len(),
                            },
                        );
                    }
                    let sel: [u8; 4] = [bytes[0], bytes[1], bytes[2], bytes[3]];
                    assert(sel@ =~= bytes@);
                    let ghost before = out@.map_values(|x: [u8; 4]| x@);
                    out.push(sel);
                    assert(out@.map_values(|x: [u8; 4]| x@) =~= before.push(sel@));
                },
            }
        }
        i = i + 1;
    }
    assert(ps.take(pieces@.len() as int) =~= ps);
    Ok(out)
}

/// Parses an EVM address.
pub fn parse_address(label: &str, s: &str) -> (r: Result<Address, ParseError>)
    ensures
        match r {
            Ok(a) => address_decoded(s@) == Some(a.bytes@),
            Err(e) => address_decoded(s@) is None && e@ == (ParseErrorView::InvalidAddress {
                label: label@,
                value: s@,
            }),
        },
{
    match Address::parse(s) {
        Some(a) => Ok(a),
        None => Err(ParseError::InvalidAddress { label: label.to_owned(), value: s.to_owned() }),
    }
}

/// Whether 20 bytes are all zero.
pub open spec fn all_zero(b: Seq<u8>) -> bool {
    forall|i: int| 0 <= i < b.len() ==> b[i] == 0
}

/// Parses an optional EVM address: blank or the zero address mean "not set".
pub fn parse_optional_address(label: &str, s: &str) -> (r: Result<Option<Address>, ParseError>)
    ensures
        trim(s@).len() == 0 ==> r matches Ok(None),
        trim(s@).len() > 0 ==> match address_decoded(trim(s@)) {
            None => (r matches Err(e) && e@ == (ParseErrorView::InvalidAddress {
                label: label@,
                value: trim(s@),
            })),
            Some(b) => if all_zero(b) {
                r matches Ok(None)
            } else {
                (r matches Ok(Some(a)) && a.bytes@ == b)
            },
        },
{
    let c = chars_of(s);
    let t = trim_chars(&c);
    if t.len() == 0 {
        return Ok(None);
    }
    let ts = string_from_chars(&t);
    let a = parse_address(label, ts.as_str())?;
    if a.is_zero() {
        Ok(None)
    } else {
        Ok(Some(a))
    }
}

/// The addresses of a comma-separated list (blank entries skipped), or the first bad entry.
pub open spec fn addresses_of(label: Seq<char>, ps: Seq<Seq<char>>) -> Result<Seq<Seq<u8>>, ParseErrorView>
    decreases ps.len(),
{
    if ps.len() == 0 {
        Ok(Seq::empty())
    } else {
        match addresses_of(label, ps.drop_last()) {
            Err(e) => Err(e),
            Ok(acc) => {
                let p = ps.last();
                if p.len() == 0 {
                    Ok(acc)
                } else {
                    match address_decoded(p) {
                        None => Err(ParseErrorView::InvalidAddress { label, value: p }),
                        Some(b) => Ok(acc.push(b)),
                    }
                }
            },
        }
    }
}

/// Parses a comma-separated list of EVM addresses; blank entries are skipped.
pub fn parse_addresses_csv(label: &str, s: &str) -> (r: Result<Vec<Address>, ParseError>)
    ensures
        match r {
            Ok(v) => addresses_of(label@, trimmed_pieces(s@)) == Ok::<Seq<Seq<u8>>, ParseErrorView>(
                v@.map_values(|a: Address| a.bytes@),
            ),
            Err(e) => addresses_of(label@, trimmed_pieces(s@)) == Err::<Seq<Seq<u8>>, ParseErrorView>(
                e@,
            ),
        },
{
    let pieces = pieces_of(s);
    let ghost ps = trimmed_pieces(s@);
    let mut out: Vec<Address> = Vec::new();
    let mut i: usize = 0;
    assert(ps.take(0) =~= Seq::<Seq<char>>::empty());
    assert(out@.map_values(|a: Address| a.bytes@) =~= Seq::<Seq<u8>>::empty());
    while i < pieces.len()
        invariant
            i <= pieces@.len(),
            chars_views(pieces@) == ps,
            ps == trimmed_pieces(s@),
            addresses_of(label@, ps.take(i as int)) == Ok::<Seq<Seq<u8>>, ParseErrorView>(
                out@.map_values(|a: Address| a.bytes@),
            ),
        decreases pieces@.len() - i,
    {
        proof {
            lemma_take_step(ps, i as int);
            assert(ps[i as int] == pieces@[i as int]@);
        }
        if pieces[i].len() > 0 {
            let vs = string_from_chars(&pieces[i]);
            let a = match parse_address(label, vs.as_str()) {
                Ok(a) => a,
                Err(e) => {
                    proof {
                        lemma_addresses_err_persists(label@, ps, i + 1, ps.len() as int);
                        assert(ps.take(ps.len() as int) =~= ps);
                    }
                    return Err(e);
                },
            };
            let ghost before = out@.map_values(|x: Address| x.bytes@);
            out.push(a);
            assert(out@.map_values(|x: Address| x.bytes@) =~= before.push(a.bytes@));
        }
        i = i + 1;
    }
    assert(ps.take(pieces@.len() as int) =~= ps);
    Ok(out)
}

proof fn lemma_intent_types_err_persists(ps: Seq<Seq<char>>, i: int, j: int)
    requires
        0 <= i <= j <= ps.len(),
        intent_types_of(ps.take(i)) is Err,
    ensures
        intent_types_of(ps.take(j)) == intent_types_of(ps.take(i)),
    decreases j - i,
{
    if j > i {
        lemma_intent_types_err_persists(ps, i, j - 1);
        assert(ps.take(j).drop_last() =~= ps.take(j - 1));
    }
}

proof fn lemma_hex32_list_err_persists(label: Seq<char>, ps: Seq<Seq<char>>, i: int, j: int)
    requires
        0 <= i <= j <= ps.len(),
        hex32_list_of(label, ps.take(i)) is Err,
    ensures
        hex32_list_of(label, ps.take(j)) == hex32_list_of(label, ps.take(i)),
    decreases j - i,
{
    if j > i {
        lemma_hex32_list_err_persists(label, ps, i, j - 1);
        assert(ps.take(j).drop_last() =~= ps.take(j - 1));
    }
}

proof fn lemma_selectors_err_persists(label: Seq<char>, ps: Seq<Seq<char>>, i: int, j: int)
    requires
        0 <= i <= j <= ps.len(),
        selectors_of(label, ps.take(i)) is Err,
    ensures
        selectors_of(label, ps.take(j)) == selectors_of(label, ps.take(i)),
    decreases j - i,
{
    if j > i {
        lemma_selectors_err_persists(label, ps, i, j - 1);
        assert(ps.take(j).drop_last() =~= ps.take(j - 1));
    }
}

proof fn lemma_addresses_err_persists(label: Seq<char>, ps: Seq<Seq<char>>, i: int, j: int)
    requires
        0 <= i <= j <= ps.len(),
        addresses_of(label, ps.take(i)) is Err,
    ensures
        addresses_of(label, ps.take(j)) == addresses_of(label, ps.take(i)),
    decreases j - i,
{
    if j > i {
        lemma_addresses_err_persists(label, ps, i, j - 1);
        assert(ps.take(j).drop_last() =~= ps.take(j - 1));
    }
}

} // verus!
