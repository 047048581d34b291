use vstd::prelude::*;

use crate::error::{ParseError, ParseErrorView};
use crate::hexcodec::{hex_decode, hex_decoded, strip_0x, strip_0x_chars, to_array32};
use crate::intents::be_value;
use crate::receipts::{u256_from_str_radix, u256_value_of};
use crate::text::{chars_eq_str, chars_of, string_from_chars, trim, trim_chars, trim_str};

verus! {

/// The kinds of intent the pool offers.
#[derive(Debug, Clone, Copy, PartialEq, Eq, Structural)]
pub enum IntentType {
    TriggerSmartContract,
    UsdtTransfer,
    TrxTransfer,
    DelegateResource,
}

/// The on-chain / database code of an intent type.
pub open spec fn intent_type_code(t: IntentType) -> i16 {
    match t {
        IntentType::TriggerSmartContract => 0,
        IntentType::UsdtTransfer => 1,
        IntentType::TrxTransfer => 2,
        IntentType::DelegateResource => 3,
    }
}

/// The intent type with the given code, if any.
pub open spec fn intent_type_of_code(v: i16) -> Option<IntentType> {
    if v == 0 {
        Some(IntentType::TriggerSmartContract)
    } else if v == 1 {
        Some(IntentType::UsdtTransfer)
    } else if v == 2 {
        Some(IntentType::TrxTransfer)
    } else if v == 3 {
        Some(IntentType::DelegateResource)
    } else {
        None
    }
}

impl IntentType {
    /// Decodes an intent type code; codes other than 0..=3 are rejected.
    pub fn from_i16(v: i16) -> (r: Result<IntentType, ParseError>)
        ensures
            r is Ok <==> intent_type_of_code(v) is Some,
            r matches Ok(t) ==> intent_type_of_code(v) == Some(t),
            r matches Err(e) ==> e@ == (ParseErrorView::UnknownIntentTypeCode { code: v }),
    {
        match v {
            0 => Ok(IntentType::TriggerSmartContract),
            1 => Ok(IntentType::UsdtTransfer),
            2 => Ok(IntentType::TrxTransfer),
            3 => Ok(IntentType::DelegateResource),
            _ => Err(ParseError::UnknownIntentTypeCode { code: v }),
        }
    }

    /// The code of this intent type (`intent_type as i16`).
    pub fn code(self) -> (c: i16)
        ensures
            c == intent_type_code(self),
    {
        match self {
            IntentType::TriggerSmartContract => 0,
            IntentType::UsdtTransfer => 1,
            IntentType::TrxTransfer => 2,
            IntentType::DelegateResource => 3,
        }
    }
}

/// Decoding the code of an intent type gives the intent type back, and every accepted code is
/// the code of the type it decodes to.
pub proof fn lemma_intent_type_code_roundtrip(t: IntentType, v: i16)
    ensures
        intent_type_of_code(intent_type_code(t)) == Some(t),
        intent_type_of_code(v) matches Some(u) ==> intent_type_code(u) == v,
{
}

/// The lifecycle states of a solver job.
#[derive(Debug, Clone, Copy, PartialEq, Eq, Structural)]
pub enum JobState {
    Ready,
    Claimed,
    TronPrepared,
    TronSent,
    ProofBuilt,
    Proved,
    ProvedWaitingFunding,
    ProvedWaitingSettlement,
    Done,
    FailedFatal,
}

/// The name under which a job state is stored.
pub open spec fn db_name(s: JobState) -> Seq<char> {
    match s {
        JobState::Ready => "ready"@,
        JobState::Claimed => "claimed"@,
        JobState::TronPrepared => "tron_prepared"@,
        JobState::TronSent => "tron_sent"@,
        JobState::ProofBuilt => "proof_built"@,
        JobState::Proved => "proved"@,
        JobState::ProvedWaitingFunding => "proved_waiting_funding"@,
        JobState::ProvedWaitingSettlement => "proved_waiting_settlement"@,
        JobState::Done => "done"@,
        JobState::FailedFatal => "failed_fatal"@,
    }
}

/// The job state stored under the given name, if any.
pub open spec fn state_of_name(v: Seq<char>) -> Option<JobState> {
    if v == "ready"@ {
        Some(JobState::Ready)
    } else if v == "claimed"@ {
        Some(JobState::Claimed)
    } else if v == "tron_prepared"@ {
        Some(JobState::TronPrepared)
    } else if v == "tron_sent"@ {
        Some(JobState::TronSent)
    } else if v == "proof_built"@ {
        Some(JobState::ProofBuilt)
    } else if v == "proved"@ {
        Some(JobState::Proved)
    } else if v == "proved_waiting_funding"@ {
        Some(JobState::ProvedWaitingFunding)
    } else if v == "proved_waiting_settlement"@ {
        Some(JobState::ProvedWaitingSettlement)
    } else if v == "done"@ {
        Some(JobState::Done)
    } else if v == "failed_fatal"@ {
        Some(JobState::FailedFatal)
    } else {
        None
    }
}

impl JobState {
    /// The stored name of this state.
    pub fn as_db_str(self) -> (s: &'static str)
        ensures
            s@ == db_name(self),
    {
        match self {
            JobState::Ready => "ready",
            JobState::Claimed => "claimed",
            JobState::TronPrepared => "tron_prepared",
            JobState::TronSent => "tron_sent",
            JobState::ProofBuilt => "proof_built",
            JobState::Proved => "proved",
            JobState::ProvedWaitingFunding => "proved_waiting_funding",
            JobState::ProvedWaitingSettlement => "proved_waiting_settlement",
            JobState::Done => "done",
            JobState::FailedFatal => "failed_fatal",
        }
    }

    /// Reads a stored state name; names are matched exactly.
    pub fn parse(v: &str) -> (r: Result<JobState, ParseError>)
        ensures
            r is Ok <==> state_of_name(v@) is Some,
            r matches Ok(s) ==> state_of_name(v@) == Some(s),
            r matches Err(e) ==> e@ == (ParseErrorView::UnknownJobState { value: v@ }),
    {
        let c = chars_of(v);
        if chars_eq_str(&c, "ready") {
            Ok(JobState::Ready)
        } else if chars_eq_str(&c, "claimed") {
            Ok(JobState::Claimed)
        } else if chars_eq_str(&c, "tron_prepared") {
            Ok(JobState::TronPrepared)
        } else if chars_eq_str(&c, "tron_sent") {
            Ok(JobState::TronSent)
        } else if chars_eq_str(&c, "proof_built") {
            Ok(JobState::ProofBuilt)
        } else if chars_eq_str(&c, "proved") {
            Ok(JobState::Proved)
        } else if chars_eq_str(&c, "proved_waiting_funding") {
            Ok(JobState::ProvedWaitingFunding)
        } else if chars_eq_str(&c, "proved_waiting_settlement") {
            Ok(JobState::ProvedWaitingSettlement)
        } else if chars_eq_str(&c, "done") {
            Ok(JobState::Done)
        } else if chars_eq_str(&c, "failed_fatal") {
            Ok(JobState::FailedFatal)
        } else {
            Err(ParseError::UnknownJobState { value: v.to_owned() })
        }
    }
}

/// Reading back the stored name of a state gives the state, and distinct states have distinct
/// stored names.
pub proof fn lemma_job_state_name_roundtrip(s: JobState, t: JobState)
    ensures
        state_of_name(db_name(s)) == Some(s),
        db_name(s) == db_name(t) ==> s == t,
{
    reveal_strlit("ready");
    reveal_strlit("claimed");
    reveal_strlit("tron_prepared");
    reveal_strlit("tron_sent");
    reveal_strlit("proof_built");
    reveal_strlit("proved");
    reveal_strlit("proved_waiting_funding");
    reveal_strlit("proved_waiting_settlement");
    reveal_strlit("done");
    reveal_strlit("failed_fatal");
    assert("ready"@.len() == 5);
    assert("claimed"@.len() == 7);
    assert("tron_prepared"@.len() == 13);
    assert("tron_sent"@.len() == 9);
    assert("proof_built"@.len() == 11);
    assert("proved"@.len() == 6);
    assert("proved_waiting_funding"@.len() == 22);
    assert("proved_waiting_settlement"@.len() == 25);
    assert("done"@.len() == 4);
    assert("failed_fatal"@.len() == 12);
}

/// The two kinds of hub user operation the solver submits.
#[derive(Debug, Clone, Copy, PartialEq, Eq, Structural)]
pub enum HubUserOpKind {
    Claim,
    Prove,
}

impl HubUserOpKind {
    /// The stored name of this kind.
    pub fn as_str(self) -> (s: &'static str)
        ensures
            s@ == (match self {
                HubUserOpKind::Claim => "claim"@,
                HubUserOpKind::Prove => "prove"@,
            }),
    {
        match self {
            HubUserOpKind::Claim => "claim",
            HubUserOpKind::Prove => "prove",
        }
    }
}

/// How hub-chain transactions are sent.
#[derive(Debug, Clone, Copy, PartialEq, Eq, Structural)]
pub enum HubTxMode {
    Eoa,
    Safe4337,
}

/// Which Tron backend is used.
#[derive(Debug, Clone, Copy, PartialEq, Eq, Structural)]
pub enum TronMode {
    Grpc,
    Mock,
}

/// The bytes written in `s`: blanks around it are ignored, a leading `0x` is optional, and an
/// empty body (or `0x` alone) stands for no bytes.
pub open spec fn hex_bytes_of(s: Seq<char>) -> Option<Seq<u8>> {
    hex_decoded(strip_0x(trim(s)))
}

/// Decodes a hex byte string (`0x` optional, surrounding blanks ignored).
pub fn parse_hex_bytes(s: &str) -> (r: Result<Vec<u8>, ParseError>)
    ensures
        match r {
            Ok(v) => hex_bytes_of(s@) == Some(v@),
            Err(e) => hex_bytes_of(s@) is None && e@ == ParseErrorView::BadHexBytes,
        },
{
    let c = chars_of(s);
    let t = trim_chars(&c);
    if t.len() == 0 || (t.len() == 2 && t[0] == '0' && t[1] == 'x') {
        assert(strip_0x(t@).len() == 0);
        assert(hex_decoded(strip_0x(t@)) == Some(Seq::<u8>::empty()));
        return Ok(Vec::new());
    }
    let body = strip_0x_chars(&t);
    let body_s = string_from_chars(&body);
    match hex_decode(body_s.as_str()) {
        None => Err(ParseError::BadHexBytes),
        Some(bytes) => Ok(bytes),
    }
}

/// The 32-byte value written in `s`, or why not.
pub open spec fn b256_of(s: Seq<char>) -> Result<Seq<u8>, ParseErrorView> {
    match hex_bytes_of(s) {
        None => Err(ParseErrorView::BadHexB256),
        Some(b) => if b.len() != 32 {
            Err(ParseErrorView::WrongB256Length { got: b.len() as usize })
        } else {
            Ok(b)
        },
    }
}

/// Decodes a 32-byte hex value (`0x` optional, surrounding blanks ignored).
pub fn parse_b256(s: &str) -> (r: Result<[u8; 32], ParseError>)
    ensures
        match r {
            Ok(a) => b256_of(s@) == Ok::<Seq<u8>, ParseErrorView>(a@),
            Err(e) => b256_of(s@) == Err::<Seq<u8>, ParseErrorView>(e@),
        },
{
    let c = chars_of(s);
    let t = trim_chars(&c);
    let body = strip_0x_chars(&t);
    let body_s = string_from_chars(&body);
    match hex_decode(body_s.as_str()) {
        None => Err(ParseError::BadHexB256),
        Some(bytes) => {
            if bytes.len() != 32 {
                Err(ParseError::WrongB256Length { got: bytes.len() })
            } else {
                Ok(to_array32(&bytes))
            }
        },
    }
}

/// Reads a decimal 256-bit value (surrounding blanks ignored, `_` separators skipped) as a
/// big-endian word.
pub fn parse_u256_dec(s: &str) -> (r: Result<[u8; 32], ParseError>)
    ensures
        match u256_value_of(trim(s@), 10) {
            Some(v) => r matches Ok(w) && be_value(w@) == v,
            None => r matches Err(e) && e@ == ParseErrorView::BadU256Decimal,
        },
{
    let t = trim_str(s);
    match u256_from_str_radix(t.as_str(), 10) {
        Some(w) => Ok(w),
        None => Err(ParseError::BadU256Decimal),
    }
}

} // verus!
