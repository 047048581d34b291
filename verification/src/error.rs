use vstd::prelude::*;

use crate::text::{concat_str, dec, dec_int, i64_to_dec, u64_to_dec};

verus! {

/// Why a piece of configuration or a stored value was rejected.
#[derive(Debug)]
pub enum ParseError {
    UnknownIntentTypeCode { code: i16 },
    UnknownJobState { value: String },
    UnsupportedTransitionTarget { value: String },
    MustBeNonEmpty { label: String },
    UnknownIntentTypeName { value: String },
    NoIntentTypes,
    UnsupportedHubTxMode { value: String },
    UnsupportedTronMode { value: String },
    InvalidHex { label: String },
    WrongHex32Length { label: String, got: usize },
    InvalidSelectorHex { label: String, value: String },
    WrongSelectorLength { label: String, got: usize },
    InvalidAddress { label: String, value: String },
    BadHexBytes,
    BadHexB256,
    WrongB256Length { got: usize },
    BadU256Decimal,
}

/// [`ParseError`] with its strings taken as character sequences.
pub enum ParseErrorView {
    UnknownIntentTypeCode { code: i16 },
    UnknownJobState { value: Seq<char> },
    UnsupportedTransitionTarget { value: Seq<char> },
    MustBeNonEmpty { label: Seq<char> },
    UnknownIntentTypeName { value: Seq<char> },
    NoIntentTypes,
    UnsupportedHubTxMode { value: Seq<char> },
    UnsupportedTronMode { value: Seq<char> },
    InvalidHex { label: Seq<char> },
    WrongHex32Length { label: Seq<char>, got: usize },
    InvalidSelectorHex { label: Seq<char>, value: Seq<char> },
    WrongSelectorLength { label: Seq<char>, got: usize },
    InvalidAddress { label: Seq<char>, value: Seq<char> },
    BadHexBytes,
    BadHexB256,
    WrongB256Length { got: usize },
    BadU256Decimal,
}

impl View for ParseError {
    type V = ParseErrorView;

    open spec fn view(&self) -> ParseErrorView {
        match self {
            ParseError::UnknownIntentTypeCode { code } => ParseErrorView::UnknownIntentTypeCode {
                code: *code,
            },
            ParseError::UnknownJobState { value } => ParseErrorView::UnknownJobState { value: value@ },
            ParseError::UnsupportedTransitionTarget { value } =>
                ParseErrorView::UnsupportedTransitionTarget { value: value@ },
            ParseError::MustBeNonEmpty { label } => ParseErrorView::MustBeNonEmpty { label: label@ },
            ParseError::UnknownIntentTypeName { value } => ParseErrorView::UnknownIntentTypeName {
                value: value@,
            },
            ParseError::NoIntentTypes => ParseErrorView::NoIntentTypes,
            ParseError::UnsupportedHubTxMode { value } => ParseErrorView::UnsupportedHubTxMode {
                value: value@,
            },
            ParseError::UnsupportedTronMode { value } => ParseErrorView::UnsupportedTronMode {
                value: value@,
            },
            ParseError::InvalidHex { label } => ParseErrorView::InvalidHex { label: label@ },
            ParseError::WrongHex32Length { label, got } => ParseErrorView::WrongHex32Length {
                label: label@,
                got: *got,
            },
            ParseError::InvalidSelectorHex { label, value } => ParseErrorView::InvalidSelectorHex {
                label: label@,
                value: value@,
            },
            ParseError::WrongSelectorLength { label, got } => ParseErrorView::WrongSelectorLength {
                label: label@,
                got: *got,
            },
            ParseError::InvalidAddress { label, value } => ParseErrorView::InvalidAddress {
                label: label@,
                value: value@,
            },
            ParseError::BadHexBytes => ParseErrorView::BadHexBytes,
            ParseError::BadHexB256 => ParseErrorView::BadHexB256,
            ParseError::WrongB256Length { got } => ParseErrorView::WrongB256Length { got: *got },
            ParseError::BadU256Decimal => ParseErrorView::BadU256Decimal,
        }
    }
}

/// The human-readable text of an error.
pub open spec fn error_message(e: ParseErrorView) -> Seq<char> {
    match e {
        ParseErrorView::UnknownIntentTypeCode { code } => "unknown intent_type="@ + dec_int(
            code as int,
        ),
        ParseErrorView::UnknownJobState { value } => "unknown job state: "@ + value,
        ParseErrorView::UnsupportedTransitionTarget { value } =>
            "unsupported record_job_state transition target: "@ + value,
        ParseErrorView::MustBeNonEmpty { label } => label + " must be non-empty"@,
        ParseErrorView::UnknownIntentTypeName { value } => "unknown intent type: "@ + value,
        ParseErrorView::NoIntentTypes => "SOLVER_ENABLED_INTENT_TYPES must not be empty"@,
        ParseErrorView::UnsupportedHubTxMode { value } => "unsupported HUB_TX_MODE: "@ + value
            + " (expected: eoa|safe4337)"@,
        ParseErrorView::UnsupportedTronMode { value } => "unsupported TRON_MODE: "@ + value
            + " (expected: grpc|mock)"@,
        ParseErrorView::InvalidHex { label } => "invalid hex for "@ + label,
        ParseErrorView::WrongHex32Length { label, got } => label + " must be 32 bytes (got "@
            + dec(got as nat) + ")"@,
        ParseErrorView::InvalidSelectorHex { label, value } => "invalid selector hex in "@ + label
            + ": "@ + value,
        ParseErrorView::WrongSelectorLength { label, got } => label
            + " entries must be 4 bytes (got "@ + dec(got as nat) + ")"@,
        ParseErrorView::InvalidAddress { label, value } => "invalid "@ + label + ": "@ + value,
        ParseErrorView::BadHexBytes => "decode hex bytes"@,
        ParseErrorView::BadHexB256 => "decode hex b256"@,
        ParseErrorView::WrongB256Length { got } => "expected 32-byte hex, got "@ + dec(got as nat),
        ParseErrorView::BadU256Decimal => "parse u256 decimal"@,
    }
}

fn concat3(a: &str, b: &str, c: &str) -> (s: String)
    ensures
        s@ == a@ + b@ + c@,
{
    let ab = concat_str(a, b);
    concat_str(ab.as_str(), c)
}

fn concat4(a: &str, b: &str, c: &str, d: &str) -> (s: String)
    ensures
        s@ == a@ + b@ + c@ + d@,
{
    let abc = concat3(a, b, c);
    concat_str(abc.as_str(), d)
}

impl ParseError {
    /// The error's text, as the solver reports it.
    pub fn message(&self) -> (s: String)
        ensures
            s@ == error_message(self@),
    {
        match self {
            ParseError::UnknownIntentTypeCode { code } => {
                let v: i64 = *code as i64;
                let n = i64_to_dec(v);
                assert(v as int == *code as int);
                concat_str("unknown intent_type=", n.as_str())
            },
            ParseError::UnknownJobState { value } => concat_str(
                "unknown job state: ",
                value.as_str(),
            ),
            ParseError::UnsupportedTransitionTarget { value } => concat_str(
                "unsupported record_job_state transition target: ",
                value.as_str(),
            ),
            ParseError::MustBeNonEmpty { label } => concat_str(label.as_str(), " must be non-empty"),
            ParseError::UnknownIntentTypeName { value } => concat_str(
                "unknown intent type: ",
                value.as_str(),
            ),
            ParseError::NoIntentTypes => "SOLVER_ENABLED_INTENT_TYPES must not be empty".to_owned(),
            ParseError::UnsupportedHubTxMode { value } => concat3(
                "unsupported HUB_TX_MODE: ",
                value.as_str(),
                " (expected: eoa|safe4337)",
            ),
            ParseError::UnsupportedTronMode { value } => concat3(
                "unsupported TRON_MODE: ",
                value.as_str(),
                " (expected: grpc|mock)",
            ),
            ParseError::InvalidHex { label } => concat_str("invalid hex for ", label.as_str()),
            ParseError::WrongHex32Length { label, got } => {
                let n = u64_to_dec(*got as u64);
                concat4(label.as_str(), " must be 32 bytes (got ", n.as_str(), ")")
            },
            ParseError::InvalidSelectorHex { label, value } => concat4(
                "invalid selector hex in ",
                label.as_str(),
                ": ",
                value.as_str(),
            ),
            ParseError::WrongSelectorLength { label, got } => {
                let n = u64_to_dec(*got as u64);
                concat4(label.as_str(), " entries must be 4 bytes (got ", n.as_str(), ")")
            },
            ParseError::InvalidAddress { label, value } => concat4(
                "invalid ",
                label.as_str(),
                ": ",
                value.as_str(),
            ),
            ParseError::BadHexBytes => "decode hex bytes".to_owned(),
            ParseError::BadHexB256 => "decode hex b256".to_owned(),
            ParseError::WrongB256Length { got } => {
                let n = u64_to_dec(*got as u64);
                concat_str("expected 32-byte hex, got ", n.as_str())
            },
            ParseError::BadU256Decimal => "parse u256 decimal".to_owned(),
        }
    }
}

} // verus!
