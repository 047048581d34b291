use vstd::prelude::*;

use crate::text::{chars_eq, chars_eq_str, chars_of, dec, dec_int, i64_to_dec, lower, lower_chars,
    trim, trim_chars, u64_to_dec,
};

verus! {

/// A JSON document as parsed by `serde_json`.
#[verifier::external_type_specification]
#[verifier::external_body]
pub struct ExJsonValue(serde_json::Value);

/// A JSON number, as `serde_json` stores it: a non-negative integer, a negative integer, or
/// a float (kept as the text `serde_json` prints for it).
#[derive(Debug, Clone)]
pub enum JsonNumber {
    PosInt(u64),
    NegInt(i64),
    Float(String),
}

/// A JSON value found at a pointer: a scalar, or an array or object kept as its compact text.
#[derive(Debug, Clone)]
pub enum JsonScalar {
    Null,
    Bool(bool),
    Number(JsonNumber),
    Str(String),
    Array(String),
    Object(String),
}

/// [`JsonNumber`] with its text as a character sequence.
pub enum JsonNumberView {
    PosInt(u64),
    NegInt(i64),
    Float(Seq<char>),
}

/// [`JsonScalar`] with its texts as character sequences.
pub enum JsonScalarView {
    Null,
    Bool(bool),
    Number(JsonNumberView),
    Str(Seq<char>),
    Array(Seq<char>),
    Object(Seq<char>),
}

impl View for JsonNumber {
    type V = JsonNumberView;

    open spec fn view(&self) -> JsonNumberView {
        match self {
            JsonNumber::PosInt(u) => JsonNumberView::PosInt(*u),
            JsonNumber::NegInt(i) => JsonNumberView::NegInt(*i),
            JsonNumber::Float(t) => JsonNumberView::Float(t@),
        }
    }
}

impl View for JsonScalar {
    type V = JsonScalarView;

    open spec fn view(&self) -> JsonScalarView {
        match self {
            JsonScalar::Null => JsonScalarView::Null,
            JsonScalar::Bool(b) => JsonScalarView::Bool(*b),
            JsonScalar::Number(n) => JsonScalarView::Number(n@),
            JsonScalar::Str(s) => JsonScalarView::Str(s@),
            JsonScalar::Array(t) => JsonScalarView::Array(t@),
            JsonScalar::Object(t) => JsonScalarView::Object(t@),
        }
    }
}

/// What a JSON document holds: for every JSON pointer that resolves in it, the value there.
pub uninterp spec fn json_contents(v: serde_json::Value) -> Map<Seq<char>, JsonScalarView>;

/// What `serde_json` parses a text into (its contents), or `None` when it is not JSON.
pub uninterp spec fn json_document_of(text: Seq<char>) -> Option<Map<Seq<char>, JsonScalarView>>;

/// `serde_json::from_str::<serde_json::Value>`: the contract claims only that the parsed
/// document's contents are the ones named by `json_document_of` for this text.
#[verifier::external_body]
pub(crate) fn parse_json(text: &str) -> (r: Option<serde_json::Value>)
    ensures
        match r {
            Some(v) => json_document_of(text@) == Some(json_contents(v)),
            None => json_document_of(text@) is None,
        },
{
    serde_json::from_str::<serde_json::Value>(text).ok()
}

/// `serde_json::Value::pointer`, with the value found converted (variant by variant; numbers
/// through `as_u64`, `as_i64` and their text, arrays and objects to their compact text): the
/// contract claims that the result is the entry for this pointer of `json_contents`, and that
/// the empty pointer always resolves (to the whole document).
#[verifier::external_body]
pub(crate) fn json_pointer(v: &serde_json::Value, pointer: &str) -> (r: Option<JsonScalar>)
    ensures
        match r {
            Some(s) => json_contents(*v).contains_key(pointer@) && json_contents(*v)[pointer@] == s@,
            None => !json_contents(*v).contains_key(pointer@),
        },
        pointer@.len() == 0 ==> r is Some,
{
    match v.pointer(pointer)? {
        serde_json::Value::Null => Some(JsonScalar::Null),
        serde_json::Value::Bool(b) => Some(JsonScalar::Bool(*b)),
        serde_json::Value::Number(n) => Some(JsonScalar::Number(match (n.as_u64(), n.as_i64()) {
            (Some(u), _) => JsonNumber::PosInt(u),
            (None, Some(i)) => JsonNumber::NegInt(i),
            (None, None) => JsonNumber::Float(n.to_string()),
        })),
        serde_json::Value::String(s) => Some(JsonScalar::Str(s.clone())),
        a @ serde_json::Value::Array(_) => Some(JsonScalar::Array(a.to_string())),
        o @ serde_json::Value::Object(_) => Some(JsonScalar::Object(o.to_string())),
    }
}

/// `serde_json::Value::pointer`, with the value found cloned: the contract claims that a
/// value comes back exactly when the pointer resolves, and that what the clone holds at its
/// root is the entry for this pointer of `json_contents`.
#[verifier::external_body]
pub(crate) fn json_pointer_value(v: &serde_json::Value, pointer: &str) -> (r: Option<serde_json::Value>)
    ensures
        r is Some <==> json_contents(*v).contains_key(pointer@),
        r matches Some(x) ==> json_contents(x).contains_key(Seq::<char>::empty()) && json_contents(
            x,
        )[Seq::<char>::empty()] == json_contents(*v)[pointer@],
{
    v.pointer(pointer).cloned()
}

/// The pointer to element `i` of the array at pointer `p`.
pub open spec fn element_pointer(p: Seq<char>, i: int) -> Seq<char> {
    p + "/"@ + dec(i as nat)
}

/// `serde_json::Value::pointer`, then `Value::as_array` and the array's length: the contract
/// claims that a length comes back exactly when the pointer leads to an array, and that the
/// array's elements are then found at the element pointers below that length, and none at
/// the length itself.
#[verifier::external_body]
pub(crate) fn json_array_len(v: &serde_json::Value, pointer: &str) -> (r: Option<usize>)
    ensures
        r is Some <==> (json_contents(*v).contains_key(pointer@) && json_contents(*v)[pointer@] is Array),
        r matches Some(n) ==> (forall|i: int|
            0 <= i < n ==> json_contents(*v).contains_key(#[trigger] element_pointer(pointer@, i)))
            && !json_contents(*v).contains_key(element_pointer(pointer@, n as int)),
{
    v.pointer(pointer).and_then(|x| x.as_array()).map(|a| a.len())
}

/// The text `serde_json` prints for a number.
pub open spec fn number_text(n: JsonNumberView) -> Seq<char> {
    match n {
        JsonNumberView::PosInt(u) => dec(u as nat),
        JsonNumberView::NegInt(i) => dec_int(i as int),
        JsonNumberView::Float(t) => t,
    }
}

/// `Number::as_i64`: the value when it is an integer that fits `i64`.
pub open spec fn number_as_i64(n: JsonNumberView) -> Option<i64> {
    match n {
        JsonNumberView::PosInt(u) => if u <= i64::MAX as u64 {
            Some(u as i64)
        } else {
            None
        },
        JsonNumberView::NegInt(i) => Some(i),
        JsonNumberView::Float(_) => None,
    }
}

/// The text of a float zero (`0.0` or `-0.0`).
pub open spec fn float_zero_text(t: Seq<char>) -> bool {
    t == "0.0"@ || t == "-0.0"@
}

/// A negative zero starts at `i` of compact JSON text: `-0.0` not followed by more of a number.
pub open spec fn neg_zero_at(t: Seq<char>, i: int) -> bool {
    &&& 0 <= i
    &&& i + 4 <= t.len()
    &&& t[i] == '-' && t[i + 1] == '0' && t[i + 2] == '.' && t[i + 3] == '0'
    &&& (i + 4 == t.len() || !(('0' <= t[i + 4] && t[i + 4] <= '9') || t[i + 4] == 'e' || t[i
        + 4] == 'E'))
}

/// Compact JSON text from position `i` on, with the sign of every negative zero outside
/// strings dropped; `in_str` and `esc` say whether `i` is inside a string and right after a
/// backslash there.
pub open spec fn zeros_unsigned_from(t: Seq<char>, i: int, in_str: bool, esc: bool) -> Seq<char>
    decreases t.len() - i,
{
    if i < 0 || i >= t.len() {
        Seq::empty()
    } else {
        let c = t[i];
        if in_str {
            if esc {
                seq![c] + zeros_unsigned_from(t, i + 1, true, false)
            } else if c == '\\' {
                seq![c] + zeros_unsigned_from(t, i + 1, true, true)
            } else if c == '"' {
                seq![c] + zeros_unsigned_from(t, i + 1, false, false)
            } else {
                seq![c] + zeros_unsigned_from(t, i + 1, true, false)
            }
        } else if c == '"' {
            seq![c] + zeros_unsigned_from(t, i + 1, true, false)
        } else if neg_zero_at(t, i) {
            zeros_unsigned_from(t, i + 1, false, false)
        } else {
            seq![c] + zeros_unsigned_from(t, i + 1, false, false)
        }
    }
}

/// Compact JSON text with every negative zero outside strings written as a zero.
pub open spec fn zeros_unsigned(t: Seq<char>) -> Seq<char> {
    zeros_unsigned_from(t, 0, false, false)
}

fn unsign_zeros(t: &Vec<char>) -> (out: Vec<char>)
    ensures
        out@ == zeros_unsigned(t@),
{
    let mut out: Vec<char> = Vec::new();
    let mut i: usize = 0;
    let mut in_str = false;
    let mut esc = false;
    while i < t.len()
        invariant
            i <= t@.len(),
            out@ + zeros_unsigned_from(t@, i as int, in_str, esc) == zeros_unsigned(t@),
            !in_str ==> !esc,
        decreases t@.len() - i,
    {
        let c = t[i];
        let ghost before = out@;
        let ghost (s0, e0) = (in_str, esc);
        if in_str {
            out.push(c);
            if esc {
                esc = false;
            } else if c == '\\' {
                esc = true;
            } else if c == '"' {
                in_str = false;
            }
        } else if c == '"' {
            out.push(c);
            in_str = true;
        } else {
            let neg = t.len() >= 4 && i <= t.len() - 4 && c == '-' && t[i + 1] == '0' && t[i + 2] == '.' && t[i + 3]
                == '0' && (i + 4 == t.len() || !(('0' <= t[i + 4] && t[i + 4] <= '9') || t[i + 4]
                == 'e' || t[i + 4] == 'E'));
            assert(neg == neg_zero_at(t@, i as int));
            if !neg {
                out.push(c);
            }
        }
        proof {
            assert(zeros_unsigned_from(t@, i as int, s0, e0) == (if s0 || c == '"' || !neg_zero_at(t@, i as int) {
                seq![c]
            } else {
                Seq::empty()
            }) + zeros_unsigned_from(t@, i + 1, in_str, esc));
            assert(out@ == before + (if s0 || c == '"' || !neg_zero_at(t@, i as int) {
                seq![c]
            } else {
                Seq::<char>::empty()
            }));
        }
        i = i + 1;
    }
    assert(zeros_unsigned_from(t@, i as int, in_str, esc) =~= Seq::<char>::empty());
    assert(out@ =~= zeros_unsigned(t@));
    out
}

/// Whether two compact JSON texts hold equal values: the same text once negative zeros are
/// written as zeros.
fn json_text_equal(x: &String, y: &String) -> (r: bool)
    ensures
        r == (zeros_unsigned(x@) == zeros_unsigned(y@)),
{
    let a = unsign_zeros(&chars_of(x.as_str()));
    let b = unsign_zeros(&chars_of(y.as_str()));
    chars_eq(&a, &b)
}

/// Equality of JSON values (`serde_json::Value == Value`): same kind and same value; floats
/// by their text, both zeros being equal; arrays and objects by their compact text, in which
/// a negative zero equals a zero too.
pub open spec fn json_eq(a: JsonScalarView, b: JsonScalarView) -> bool {
    match (a, b) {
        (JsonScalarView::Null, JsonScalarView::Null) => true,
        (JsonScalarView::Bool(x), JsonScalarView::Bool(y)) => x == y,
        (JsonScalarView::Number(x), JsonScalarView::Number(y)) => match (x, y) {
            (JsonNumberView::PosInt(p), JsonNumberView::PosInt(q)) => p == q,
            (JsonNumberView::NegInt(p), JsonNumberView::NegInt(q)) => p == q,
            (JsonNumberView::Float(p), JsonNumberView::Float(q)) => p == q || (float_zero_text(p)
                && float_zero_text(q)),
            _ => false,
        },
        (JsonScalarView::Str(x), JsonScalarView::Str(y)) => x == y,
        (JsonScalarView::Array(x), JsonScalarView::Array(y)) => zeros_unsigned(x) == zeros_unsigned(y),
        (JsonScalarView::Object(x), JsonScalarView::Object(y)) => zeros_unsigned(x)
            == zeros_unsigned(y),
        _ => false,
    }
}

/// The words that make a string flag true (after trimming and lower-casing).
pub open spec fn truthy_word(t: Seq<char>) -> bool {
    t == "true"@ || t == "1"@ || t == "ok"@ || t == "success"@ || t == "yes"@
}

/// A success flag is set: `true`, a non-zero integer, or one of the truthy words.
pub open spec fn truthy(v: JsonScalarView) -> bool {
    match v {
        JsonScalarView::Bool(b) => b,
        JsonScalarView::Number(n) => match number_as_i64(n) {
            Some(i) => i != 0,
            None => false,
        },
        JsonScalarView::Str(s) => truthy_word(lower(trim(s))),
        _ => false,
    }
}

/// The text of a boolean.
pub open spec fn bool_text(b: bool) -> Seq<char> {
    if b {
        "true"@
    } else {
        "false"@
    }
}

/// `actual` matches the expected success value: equal, or equal once a number or boolean is
/// compared with a string by its text (trimmed; booleans ignoring ASCII case).
pub open spec fn equalish(actual: JsonScalarView, expected: JsonScalarView) -> bool {
    json_eq(actual, expected) || match (actual, expected) {
        (JsonScalarView::Number(a), JsonScalarView::Str(e)) => trim(e) == number_text(a),
        (JsonScalarView::Str(a), JsonScalarView::Number(e)) => trim(a) == number_text(e),
        (JsonScalarView::Bool(a), JsonScalarView::Str(e)) => lower(trim(e)) == bool_text(a),
        (JsonScalarView::Str(a), JsonScalarView::Bool(e)) => lower(trim(a)) == bool_text(e),
        _ => false,
    }
}

/// The text of a string, number or boolean; `None` for other values.
pub open spec fn scalar_text(v: JsonScalarView) -> Option<Seq<char>> {
    match v {
        JsonScalarView::Str(s) => Some(s),
        JsonScalarView::Number(n) => Some(number_text(n)),
        JsonScalarView::Bool(b) => Some(bool_text(b)),
        _ => None,
    }
}

fn number_text_exec(n: &JsonNumber) -> (s: String)
    ensures
        s@ == number_text(n@),
{
    match n {
        JsonNumber::PosInt(u) => u64_to_dec(*u),
        JsonNumber::NegInt(i) => i64_to_dec(*i),
        JsonNumber::Float(t) => t.clone(),
    }
}

fn bool_text_exec(b: bool) -> (s: &'static str)
    ensures
        s@ == bool_text(b),
{
    if b {
        "true"
    } else {
        "false"
    }
}

fn is_float_zero_text(t: &String) -> (b: bool)
    ensures
        b == float_zero_text(t@),
{
    let c = chars_of(t.as_str());
    chars_eq_str(&c, "0.0") || chars_eq_str(&c, "-0.0")
}

fn str_eq(a: &String, b: &String) -> (r: bool)
    ensures
        r == (a@ == b@),
{
    chars_eq(&chars_of(a.as_str()), &chars_of(b.as_str()))
}

/// Whether two JSON values are equal.
pub fn json_equal(a: &JsonScalar, b: &JsonScalar) -> (r: bool)
    ensures
        r == json_eq(a@, b@),
{
    match (a, b) {
        (JsonScalar::Null, JsonScalar::Null) => true,
        (JsonScalar::Bool(x), JsonScalar::Bool(y)) => *x == *y,
        (JsonScalar::Number(x), JsonScalar::Number(y)) => match (x, y) {
            (JsonNumber::PosInt(p), JsonNumber::PosInt(q)) => *p == *q,
            (JsonNumber::NegInt(p), JsonNumber::NegInt(q)) => *p == *q,
            (JsonNumber::Float(p), JsonNumber::Float(q)) => str_eq(p, q) || (is_float_zero_text(p)
                && is_float_zero_text(q)),
            _ => false,
        },
        (JsonScalar::Str(x), JsonScalar::Str(y)) => str_eq(x, y),
        (JsonScalar::Array(x), JsonScalar::Array(y)) => json_text_equal(x, y),
        (JsonScalar::Object(x), JsonScalar::Object(y)) => json_text_equal(x, y),
        _ => false,
    }
}

/// Whether a success flag is set.
pub fn is_truthy(v: &JsonScalar) -> (b: bool)
    ensures
        b == truthy(v@),
{
    match v {
        JsonScalar::Bool(b) => *b,
        JsonScalar::Number(n) => match n {
            JsonNumber::PosInt(u) => *u != 0 && *u <= 9223372036854775807u64,
            JsonNumber::NegInt(i) => *i != 0,
            JsonNumber::Float(_) => false,
        },
        JsonScalar::Str(s) => {
            let c = chars_of(s.as_str());
            let t = lower_chars(&trim_chars(&c));
            chars_eq_str(&t, "true") || chars_eq_str(&t, "1") || chars_eq_str(&t, "ok")
                || chars_eq_str(&t, "success") || chars_eq_str(&t, "yes")
        },
        _ => false,
    }
}

/// Whether a found value matches the expected success value.
pub fn is_equalish(actual: &JsonScalar, expected: &JsonScalar) -> (b: bool)
    ensures
        b == equalish(actual@, expected@),
{
    if json_equal(actual, expected) {
        return true;
    }
    match (actual, expected) {
        (JsonScalar::Number(a), JsonScalar::Str(e)) => {
            let t = trim_chars(&chars_of(e.as_str()));
            let n = number_text_exec(a);
            chars_eq(&t, &chars_of(n.as_str()))
        },
        (JsonScalar::Str(a), JsonScalar::Number(e)) => {
            let t = trim_chars(&chars_of(a.as_str()));
            let n = number_text_exec(e);
            chars_eq(&t, &chars_of(n.as_str()))
        },
        (JsonScalar::Bool(a), JsonScalar::Str(e)) => {
            let t = lower_chars(&trim_chars(&chars_of(e.as_str())));
            chars_eq_str(&t, bool_text_exec(*a))
        },
        (JsonScalar::Str(a), JsonScalar::Bool(e)) => {
            let t = lower_chars(&trim_chars(&chars_of(a.as_str())));
            chars_eq_str(&t, bool_text_exec(*e))
        },
        _ => false,
    }
}

/// The text of a string, number or boolean value.
pub fn value_to_string(v: &JsonScalar) -> (r: Option<String>)
    ensures
        match r {
            Some(s) => scalar_text(v@) == Some(s@),
            None => scalar_text(v@) is None,
        },
{
    match v {
        JsonScalar::Str(s) => Some(s.clone()),
        JsonScalar::Number(n) => Some(number_text_exec(n)),
        JsonScalar::Bool(b) => Some(bool_text_exec(*b).to_owned()),
        _ => None,
    }
}


/// A success flag is set exactly when it is `true`, a non-zero integer that fits `i64`, or a
/// string that, trimmed and lower-cased, reads `true`, `1`, `ok`, `success` or `yes`.
pub proof fn lemma_success_flag_values(v: JsonScalarView)
    ensures
        v matches JsonScalarView::Bool(b) ==> truthy(v) == b,
        v matches JsonScalarView::Str(s) ==> (truthy(v) <==> (lower(trim(s)) == "true"@ || lower(
            trim(s),
        ) == "1"@ || lower(trim(s)) == "ok"@ || lower(trim(s)) == "success"@ || lower(trim(s))
            == "yes"@)),
        v matches JsonScalarView::Number(JsonNumberView::PosInt(u)) ==> (truthy(v) <==> (u != 0
            && u <= i64::MAX)),
        v matches JsonScalarView::Number(JsonNumberView::NegInt(i)) ==> (truthy(v) <==> i != 0),
        (v is Null || v is Array || v is Object) ==> !truthy(v),
{
}
} // verus!
