use vstd::prelude::*;

use crate::json::{
    element_pointer, equalish, is_equalish, is_truthy, json_array_len, json_contents,
    json_document_of, json_pointer, parse_json, scalar_text, truthy, value_to_string, JsonScalar,
    JsonScalarView,
};
use crate::text::{
    chars_eq_str, chars_of, concat_str, contains, dec, lemma_replace_absent, lower, lower_chars,
    occurs_at, replace_all, replace_str, trim, trim_chars, u64_to_dec,
};

verus! {

/// The resource a rental provider delegates.
#[derive(Debug, Clone, Copy, PartialEq, Eq, Structural)]
pub enum RentalResourceKind {
    Energy,
    Bandwidth,
    TronPower,
}

/// What a rental request is about; its fields fill the `{{placeholders}}` of provider
/// templates.
#[derive(Debug, Clone)]
pub struct RentalContext {
    pub resource: RentalResourceKind,
    /// Resource quantity in provider units (e.g. energy units / bandwidth units).
    pub amount: u64,
    /// Optional lock period (Tron blocks) for DelegateResource-like rentals.
    pub lock_period: Option<u64>,
    /// Optional rental duration (hours) for APIs that take durations in human time units.
    pub duration_hours: Option<u64>,
    /// Optional delegated TRX amount in sun (protocol-level `DelegateResourceContract.balance`).
    pub balance_sun: Option<u64>,
    /// Tron address in base58check (T...).
    pub address_base58check: String,
    /// Tron address bytes in hex ("41" + 20 bytes), 0x-prefixed.
    pub address_hex41: String,
    /// EVM address (20 bytes), 0x-prefixed.
    pub address_evm_hex: String,
    /// Optional txid for correlation (0x-prefixed 32-byte hex).
    pub txid: Option<String>,
}

/// Bucket selection for providers that return several price tiers in one quote.
#[derive(Debug, Clone)]
pub struct JsonApiQuoteBuckets {
    /// JSON pointer to an array of periods.
    pub periods_pointer: String,
    /// JSON pointer (within each period object) to the active flag.
    pub period_active_pointer: String,
    /// JSON pointer (within the selected period object) to the prices object.
    pub period_prices_pointer: String,
    pub lt_threshold: u64,
    pub lt_pointer: String,
    pub eq_value: u64,
    pub eq_pointer: String,
    pub gt_pointer: String,
}

/// The HTTP method of a provider request when the configuration names none.
pub fn default_method() -> (s: String)
    ensures
        s@ == "POST"@,
{
    "POST".to_owned()
}

/// The unit of a quoted cost when the configuration names none.
pub fn default_cost_unit() -> (s: String)
    ensures
        s@ == "trx"@,
{
    "trx".to_owned()
}

/// The template name of a resource kind.
pub open spec fn kind_name(k: RentalResourceKind) -> Seq<char> {
    match k {
        RentalResourceKind::Energy => "energy"@,
        RentalResourceKind::Bandwidth => "bandwidth"@,
        RentalResourceKind::TronPower => "tron_power"@,
    }
}

/// The decimal text of an optional number, empty when absent.
pub open spec fn opt_dec(v: Option<u64>) -> Seq<char> {
    match v {
        Some(n) => dec(n as nat),
        None => Seq::empty(),
    }
}

/// A template with each placeholder replaced, in this order: `{{resource_kind}}`,
/// `{{amount}}`, `{{balance_sun}}`, `{{lock_period}}`, `{{duration_hours}}`,
/// `{{address_base58check}}`, `{{address_hex41}}`, `{{address_evm_hex}}`, `{{txid}}`; absent
/// values become empty text.
pub open spec fn rendered(s: Seq<char>, ctx: RentalContext) -> Seq<char> {
    let s1 = replace_all(s, "{{resource_kind}}"@, kind_name(ctx.resource));
    let s2 = replace_all(s1, "{{amount}}"@, dec(ctx.amount as nat));
    let s3 = replace_all(s2, "{{balance_sun}}"@, opt_dec(ctx.balance_sun));
    let s4 = replace_all(s3, "{{lock_period}}"@, opt_dec(ctx.lock_period));
    let s5 = replace_all(s4, "{{duration_hours}}"@, opt_dec(ctx.duration_hours));
    let s6 = replace_all(s5, "{{address_base58check}}"@, ctx.address_base58check@);
    let s7 = replace_all(s6, "{{address_hex41}}"@, ctx.address_hex41@);
    let s8 = replace_all(s7, "{{address_evm_hex}}"@, ctx.address_evm_hex@);
    replace_all(
        s8,
        "{{txid}}"@,
        match ctx.txid {
            Some(t) => t@,
            None => Seq::empty(),
        },
    )
}

fn opt_dec_exec(v: Option<u64>) -> (s: String)
    ensures
        s@ == opt_dec(v),
{
    match v {
        Some(n) => u64_to_dec(n),
        None => String::new(),
    }
}

/// Fills the placeholders of a provider template from a rental context.
pub fn render_str(s: &str, ctx: &RentalContext) -> (out: String)
    ensures
        out@ == rendered(s@, *ctx),
{
    proof {
        reveal_strlit("{{resource_kind}}");
        reveal_strlit("{{amount}}");
        reveal_strlit("{{balance_sun}}");
        reveal_strlit("{{lock_period}}");
        reveal_strlit("{{duration_hours}}");
        reveal_strlit("{{address_base58check}}");
        reveal_strlit("{{address_hex41}}");
        reveal_strlit("{{address_evm_hex}}");
        reveal_strlit("{{txid}}");
    }
    let kind = match ctx.resource {
        RentalResourceKind::Energy => "energy",
        RentalResourceKind::Bandwidth => "bandwidth",
        RentalResourceKind::TronPower => "tron_power",
    };
    let out = replace_str(s, "{{resource_kind}}", kind);
    let amount = u64_to_dec(ctx.amount);
    let out = replace_str(out.as_str(), "{{amount}}", amount.as_str());
    let balance = opt_dec_exec(ctx.balance_sun);
    let out = replace_str(out.as_str(), "{{balance_sun}}", balance.as_str());
    let lock = opt_dec_exec(ctx.lock_period);
    let out = replace_str(out.as_str(), "{{lock_period}}", lock.as_str());
    let hours = opt_dec_exec(ctx.duration_hours);
    let out = replace_str(out.as_str(), "{{duration_hours}}", hours.as_str());
    let out = replace_str(
        out.as_str(),
        "{{address_base58check}}",
        ctx.address_base58check.as_str(),
    );
    let out = replace_str(out.as_str(), "{{address_hex41}}", ctx.address_hex41.as_str());
    let out = replace_str(out.as_str(), "{{address_evm_hex}}", ctx.address_evm_hex.as_str());
    let txid: &str = match &ctx.txid {
        Some(t) => t.as_str(),
        None => "",
    };
    proof {
        reveal_strlit("");
        assert(txid@ == match ctx.txid {
            Some(t) => t@,
            None => Seq::<char>::empty(),
        });
        assert(kind@ == kind_name(ctx.resource));
    }
    replace_str(out.as_str(), "{{txid}}", txid)
}

/// A JSON request body template, as the renderer reads it.
#[derive(Debug)]
pub enum JsonTemplate {
    Null,
    Bool(bool),
    /// A number, in its JSON text.
    Number(String),
    /// A string, whose placeholders are filled.
    Text(String),
    Array(Vec<JsonTemplate>),
    /// The members of an object, in order.
    Object(Vec<(String, JsonTemplate)>),
}

/// `b` is `a` with the placeholders of every string, at any depth, filled from `ctx`; object
/// keys and every other value stay as they are.
pub open spec fn renders_to(a: JsonTemplate, b: JsonTemplate, ctx: RentalContext) -> bool
    decreases a,
{
    match a {
        JsonTemplate::Text(s) => b matches JsonTemplate::Text(o) && o@ == rendered(s@, ctx),
        JsonTemplate::Array(xs) => b matches JsonTemplate::Array(ys) && ys.len() == xs.len()
            && forall|i: int| 0 <= i < xs.len() ==> renders_to(#[trigger] xs@[i], ys@[i], ctx),
        JsonTemplate::Object(ms) => b matches JsonTemplate::Object(ns) && ns.len() == ms.len()
            && forall|i: int|
            0 <= i < ms.len() ==> ns@[i].0@ == (#[trigger] ms@[i]).0@ && renders_to(
                ms@[i].1,
                ns@[i].1,
                ctx,
            ),
        _ => b == a,
    }
}

/// The template with the placeholders of every string filled.
pub fn render_template(t: &JsonTemplate, ctx: &RentalContext) -> (r: JsonTemplate)
    ensures
        renders_to(*t, r, *ctx),
    decreases t,
{
    match t {
        JsonTemplate::Null => JsonTemplate::Null,
        JsonTemplate::Bool(b) => JsonTemplate::Bool(*b),
        JsonTemplate::Number(n) => JsonTemplate::Number(n.clone()),
        JsonTemplate::Text(s) => JsonTemplate::Text(render_str(s.as_str(), ctx)),
        JsonTemplate::Array(xs) => {
            let mut ys: Vec<JsonTemplate> = Vec::new();
            let mut i: usize = 0;
            while i < xs.len()
                invariant
                    *t == JsonTemplate::Array(*xs),
                    i <= xs.len(),
                    ys.len() == i,
                    forall|j: int| 0 <= j < i ==> renders_to(#[trigger] xs@[j], ys@[j], *ctx),
                decreases xs.len() - i,
            {
                proof {
                    assert(decreases_to!(*t => (*t)->Array_0));
                    assert(decreases_to!(*xs => xs@));
                    assert(decreases_to!(xs@ => xs@[i as int]));
                }
                let y = render_template(&xs[i], ctx);
                ys.push(y);
                i = i + 1;
            }
            JsonTemplate::Array(ys)
        },
        JsonTemplate::Object(ms) => {
            let mut ns: Vec<(String, JsonTemplate)> = Vec::new();
            let mut i: usize = 0;
            while i < ms.len()
                invariant
                    *t == JsonTemplate::Object(*ms),
                    i <= ms.len(),
                    ns.len() == i,
                    forall|j: int|
                        0 <= j < i ==> ns@[j].0@ == (#[trigger] ms@[j]).0@ && renders_to(
                            ms@[j].1,
                            ns@[j].1,
                            *ctx,
                        ),
                decreases ms.len() - i,
            {
                proof {
                    assert(decreases_to!(*t => (*t)->Object_0));
                    assert(decreases_to!(*ms => ms@));
                    assert(decreases_to!(ms@ => ms@[i as int]));
                    assert(decreases_to!(ms@[i as int] => ms@[i as int].1));
                }
                let y = render_template(&ms[i].1, ctx);
                let k = ms[i].0.clone();
                ns.push((k, y));
                i = i + 1;
            }
            JsonTemplate::Object(ns)
        },
    }
}

/// Fills the placeholders of every string of a request body template, at any depth.
pub fn render_in_place(v: &mut JsonTemplate, ctx: &RentalContext)
    ensures
        renders_to(*old(v), *final(v), *ctx),
{
    let r = render_template(v, ctx);
    *v = r;
}

/// The pointer (within the active period's prices) of the price tier for `amount`: the
/// "equal" tier when it matches exactly, else "less than" below the threshold, else
/// "greater than".
pub fn bucket_price_pointer(b: &JsonApiQuoteBuckets, amount: u64) -> (p: &String)
    ensures
        *p == (if amount == b.eq_value {
            b.eq_pointer
        } else if amount < b.lt_threshold {
            b.lt_pointer
        } else {
            b.gt_pointer
        }),
{
    if amount == b.eq_value {
        &b.eq_pointer
    } else if amount < b.lt_threshold {
        &b.lt_pointer
    } else {
        &b.gt_pointer
    }
}

proof fn lemma_placeholder_absent(s: Seq<char>, pat: Seq<char>)
    requires
        pat.len() >= 2,
        pat[0] == '{',
        pat[1] == '{',
        !contains(s, "{{"@),
    ensures
        !contains(s, pat),
{
    reveal_strlit("{{");
    if contains(s, pat) {
        let i = choose|i: int| occurs_at(s, pat, i);
        assert(s.subrange(i, i + 2) =~= "{{"@) by {
            assert(s.subrange(i, i + pat.len())[0] == '{');
            assert(s.subrange(i, i + pat.len())[1] == '{');
        }
        assert(occurs_at(s, "{{"@, i));
    }
}

/// A template without any `{{` comes back unchanged from rendering.
pub proof fn lemma_render_without_placeholders(s: Seq<char>, ctx: RentalContext)
    requires
        !contains(s, "{{"@),
    ensures
        rendered(s, ctx) == s,
{
    reveal_strlit("{{resource_kind}}");
    reveal_strlit("{{amount}}");
    reveal_strlit("{{balance_sun}}");
    reveal_strlit("{{lock_period}}");
    reveal_strlit("{{duration_hours}}");
    reveal_strlit("{{address_base58check}}");
    reveal_strlit("{{address_hex41}}");
    reveal_strlit("{{address_evm_hex}}");
    reveal_strlit("{{txid}}");
    lemma_placeholder_absent(s, "{{resource_kind}}"@);
    lemma_replace_absent(s, "{{resource_kind}}"@, kind_name(ctx.resource));
    lemma_placeholder_absent(s, "{{amount}}"@);
    lemma_replace_absent(s, "{{amount}}"@, dec(ctx.amount as nat));
    lemma_placeholder_absent(s, "{{balance_sun}}"@);
    lemma_replace_absent(s, "{{balance_sun}}"@, opt_dec(ctx.balance_sun));
    lemma_placeholder_absent(s, "{{lock_period}}"@);
    lemma_replace_absent(s, "{{lock_period}}"@, opt_dec(ctx.lock_period));
    lemma_placeholder_absent(s, "{{duration_hours}}"@);
    lemma_replace_absent(s, "{{duration_hours}}"@, opt_dec(ctx.duration_hours));
    lemma_placeholder_absent(s, "{{address_base58check}}"@);
    lemma_replace_absent(s, "{{address_base58check}}"@, ctx.address_base58check@);
    lemma_placeholder_absent(s, "{{address_hex41}}"@);
    lemma_replace_absent(s, "{{address_hex41}}"@, ctx.address_hex41@);
    lemma_placeholder_absent(s, "{{address_evm_hex}}"@);
    lemma_replace_absent(s, "{{address_evm_hex}}"@, ctx.address_evm_hex@);
    lemma_placeholder_absent(s, "{{txid}}"@);
    lemma_replace_absent(
        s,
        "{{txid}}"@,
        match ctx.txid {
            Some(t) => t@,
            None => Seq::empty(),
        },
    );
}

/// How a provider's order response is read.
#[derive(Debug)]
pub struct JsonApiResponseMapping {
    /// JSON pointer to a truthy success flag (bool/number/string).
    pub success_pointer: String,
    /// Optional exact-match requirement for `success_pointer`.
    pub success_equals: Option<serde_json::Value>,
    /// Optional JSON pointer to an order id / request id.
    pub order_id_pointer: Option<String>,
    /// Optional JSON pointer to a Tron transaction id / hash.
    pub txid_pointer: Option<String>,
    /// Optional JSON pointer to an error message.
    pub error_pointer: Option<String>,
}

/// How a provider's quote response is read.
#[derive(Debug)]
pub struct JsonApiQuoteResponseMapping {
    /// JSON pointer to a truthy success flag (bool/number/string).
    pub success_pointer: String,
    /// Optional exact-match requirement for `success_pointer`.
    pub success_equals: Option<serde_json::Value>,
    /// JSON pointer to the total cost (TRX or SUN) of the quote; may hold placeholders.
    pub cost_pointer: Option<String>,
    /// Cost unit: "trx" or "sun".
    pub cost_unit: String,
    /// Optional JSON pointer to an error message.
    pub error_pointer: Option<String>,
    /// Optional bucket selection for providers that return several price tiers.
    pub buckets: Option<JsonApiQuoteBuckets>,
}

/// A provider's quote endpoint, for profitability gating and provider selection.
#[derive(Debug)]
pub struct JsonApiQuoteConfig {
    pub url: String,
    /// "POST" or "GET".
    pub method: String,
    pub headers: std::collections::BTreeMap<String, String>,
    /// JSON body template; any string leaf may contain `{{placeholders}}`.
    pub body: serde_json::Value,
    pub response: JsonApiQuoteResponseMapping,
}

/// An energy rental provider reached through a JSON API.
#[derive(Debug)]
pub struct JsonApiRentalProviderConfig {
    pub name: String,
    pub url: String,
    /// "POST" or "GET".
    pub method: String,
    pub headers: std::collections::BTreeMap<String, String>,
    /// JSON body template; any string leaf may contain `{{placeholders}}`.
    pub body: serde_json::Value,
    pub response: JsonApiResponseMapping,
    /// Optional quote endpoint.
    pub quote: Option<JsonApiQuoteConfig>,
}

/// The outcome of one rental order.
#[derive(Debug)]
pub struct RentalAttempt {
    pub provider: String,
    pub ok: bool,
    pub order_id: Option<String>,
    pub txid: Option<String>,
    pub response_json: Option<serde_json::Value>,
    pub error: Option<String>,
}

/// An optional string as an optional character sequence.
pub open spec fn opt_view(o: Option<String>) -> Option<Seq<char>> {
    match o {
        Some(s) => Some(s@),
        None => None,
    }
}

/// The value at pointer `p` of a document's contents, if it resolves.
pub open spec fn value_at(d: Map<Seq<char>, JsonScalarView>, p: Seq<char>) -> Option<JsonScalarView> {
    if d.contains_key(p) {
        Some(d[p])
    } else {
        None
    }
}

/// The text of the string, number or boolean an optional pointer leads to.
pub open spec fn text_at(d: Map<Seq<char>, JsonScalarView>, p: Option<String>) -> Option<Seq<char>> {
    match p {
        None => None,
        Some(p) => match value_at(d, p@) {
            None => None,
            Some(v) => scalar_text(v),
        },
    }
}

/// Whether a response document reports success: the value at the success pointer (`null`
/// when absent) equals the expected value if one is configured, else it is truthy.
pub open spec fn response_ok(d: Map<Seq<char>, JsonScalarView>, m: JsonApiResponseMapping) -> bool {
    let found = match value_at(d, m.success_pointer@) {
        Some(v) => v,
        None => JsonScalarView::Null,
    };
    match m.success_equals {
        Some(e) => equalish(found, json_contents(e)[Seq::<char>::empty()]),
        None => truthy(found),
    }
}

/// `a` is what a response with this status and body means for provider `name`: a status
/// outside 200..=299 fails with `http status N`; a body that is not JSON fails; otherwise the
/// success flag decides, the order id and txid are read where their pointers lead, and the
/// error text is read only when the order failed.
pub open spec fn attempt_reads(
    a: RentalAttempt,
    name: Seq<char>,
    m: JsonApiResponseMapping,
    status: u16,
    body: Seq<char>,
) -> bool {
    &&& a.provider@ == name
    &&& if !(200 <= status && status <= 299) {
        &&& !a.ok
        &&& a.order_id is None
        &&& a.txid is None
        &&& opt_view(a.error) == Some("http status "@ + dec(status as nat))
        &&& match a.response_json {
            Some(v) => json_document_of(body) == Some(json_contents(v)),
            None => json_document_of(body) is None,
        }
    } else {
        match json_document_of(body) {
            None => {
                &&& !a.ok
                &&& a.order_id is None
                &&& a.txid is None
                &&& a.response_json is None
                &&& opt_view(a.error) == Some("response was not valid JSON"@)
            },
            Some(d) => {
                &&& a.ok == response_ok(d, m)
                &&& opt_view(a.order_id) == text_at(d, m.order_id_pointer)
                &&& opt_view(a.txid) == text_at(d, m.txid_pointer)
                &&& (a.response_json matches Some(v) && json_contents(v) == d)
                &&& opt_view(a.error) == (if a.ok {
                    None
                } else {
                    text_at(d, m.error_pointer)
                })
            },
        }
    }
}

fn text_at_exec(json: &serde_json::Value, p: &Option<String>) -> (r: Option<String>)
    ensures
        opt_view(r) == text_at(json_contents(*json), *p),
{
    match p {
        None => None,
        Some(p) => match json_pointer(json, p.as_str()) {
            None => None,
            Some(v) => value_to_string(&v),
        },
    }
}

/// Reads a provider's response to a rental order.
pub fn interpret_json_response(
    provider_name: &str,
    response: &JsonApiResponseMapping,
    status_code: u16,
    body: &str,
) -> (a: RentalAttempt)
    ensures
        attempt_reads(a, provider_name@, *response, status_code, body@),
{
    let parsed = parse_json(body);
    if !(200 <= status_code && status_code <= 299) {
        let code = u64_to_dec(status_code as u64);
        return RentalAttempt {
            provider: provider_name.to_owned(),
            ok: false,
            order_id: None,
            txid: None,
            response_json: parsed,
            error: Some(concat_str("http status ", code.as_str())),
        };
    }
    let json = match parsed {
        None => {
            return RentalAttempt {
                provider: provider_name.to_owned(),
                ok: false,
                order_id: None,
                txid: None,
                response_json: None,
                error: Some("response was not valid JSON".to_owned()),
            };
        },
        Some(v) => v,
    };
    let found = match json_pointer(&json, response.success_pointer.as_str()) {
        Some(v) => v,
        None => JsonScalar::Null,
    };
    let ok = match &response.success_equals {
        Some(expected) => match json_pointer(expected, "") {
            Some(e) => is_equalish(&found, &e),
            None => {
                proof {
                    reveal_strlit("");
                }
                false
            },
        },
        None => is_truthy(&found),
    };
    proof {
        reveal_strlit("");
        assert(""@ =~= Seq::<char>::empty());
    }
    let order_id = text_at_exec(&json, &response.order_id_pointer);
    let txid = text_at_exec(&json, &response.txid_pointer);
    let error = if ok {
        None
    } else {
        text_at_exec(&json, &response.error_pointer)
    };
    RentalAttempt {
        provider: provider_name.to_owned(),
        ok,
        order_id,
        txid,
        response_json: Some(json),
        error,
    }
}

/// A pointer that `serde_json` follows from a value it found: empty, or starting with `/`
/// (any other pointer finds nothing).
pub open spec fn follows(p: Seq<char>) -> bool {
    p.len() == 0 || p[0] == '/'
}

fn follows_exec(p: &str) -> (b: bool)
    ensures
        b == follows(p@),
{
    let c = chars_of(p);
    c.len() == 0 || c[0] == '/'
}

/// The length of the array at pointer `a`: its elements are the element pointers below it.
pub open spec fn array_len_of(d: Map<Seq<char>, JsonScalarView>, a: Seq<char>) -> nat {
    choose|n: nat|
        (forall|i: int| 0 <= i < n ==> d.contains_key(#[trigger] element_pointer(a, i)))
            && !d.contains_key(element_pointer(a, n as int))
}

proof fn lemma_array_len_unique(d: Map<Seq<char>, JsonScalarView>, a: Seq<char>, n: nat)
    requires
        forall|i: int| 0 <= i < n ==> d.contains_key(#[trigger] element_pointer(a, i)),
        !d.contains_key(element_pointer(a, n as int)),
    ensures
        array_len_of(d, a) == n,
{
    let m = array_len_of(d, a);
    assert((forall|i: int| 0 <= i < m ==> d.contains_key(#[trigger] element_pointer(a, i)))
        && !d.contains_key(element_pointer(a, m as int)));
    if m < n {
        assert(d.contains_key(element_pointer(a, m as int)));
    }
    if m > n {
        assert(d.contains_key(element_pointer(a, n as int)));
    }
}

/// Period `i` of the periods at `a` is active: its active flag is found and truthy.
pub open spec fn period_active(
    d: Map<Seq<char>, JsonScalarView>,
    a: Seq<char>,
    active: Seq<char>,
    i: int,
) -> bool {
    &&& follows(active)
    &&& d.contains_key(element_pointer(a, i) + active)
    &&& truthy(d[element_pointer(a, i) + active])
}

/// The first active period among the first `n`.
pub open spec fn first_active_below(
    d: Map<Seq<char>, JsonScalarView>,
    a: Seq<char>,
    active: Seq<char>,
    n: nat,
) -> Option<nat>
    decreases n,
{
    if n == 0 {
        None
    } else {
        match first_active_below(d, a, active, (n - 1) as nat) {
            Some(i) => Some(i),
            None => if period_active(d, a, active, n - 1) {
                Some((n - 1) as nat)
            } else {
                None
            },
        }
    }
}

/// The quoted price of a provider that answers with price tiers: the periods pointer must
/// lead to an array; in its first active period the prices are found, and in them the tier
/// for `amount`.
pub open spec fn bucketed_cost(
    d: Map<Seq<char>, JsonScalarView>,
    amount: u64,
    b: JsonApiQuoteBuckets,
) -> Option<JsonScalarView> {
    let a = b.periods_pointer@;
    if !(d.contains_key(a) && d[a] is Array) {
        None
    } else {
        match first_active_below(d, a, b.period_active_pointer@, array_len_of(d, a)) {
            None => None,
            Some(i) => {
                let prices = element_pointer(a, i as int) + b.period_prices_pointer@;
                let tier = if amount == b.eq_value {
                    b.eq_pointer@
                } else if amount < b.lt_threshold {
                    b.lt_pointer@
                } else {
                    b.gt_pointer@
                };
                if !follows(b.period_prices_pointer@) || !d.contains_key(prices) || !follows(tier) {
                    None
                } else {
                    value_at(d, prices + tier)
                }
            },
        }
    }
}

proof fn lemma_first_active_persists(
    d: Map<Seq<char>, JsonScalarView>,
    a: Seq<char>,
    active: Seq<char>,
    k: nat,
    m: nat,
)
    requires
        k <= m,
        first_active_below(d, a, active, k) is Some,
    ensures
        first_active_below(d, a, active, m) == first_active_below(d, a, active, k),
    decreases m - k,
{
    if k < m {
        lemma_first_active_persists(d, a, active, k, (m - 1) as nat);
    }
}

fn element_pointer_exec(a: &str, i: usize) -> (p: String)
    ensures
        p@ == element_pointer(a@, i as int),
{
    let head = concat_str(a, "/");
    let n = u64_to_dec(i as u64);
    concat_str(head.as_str(), n.as_str())
}

fn first_active_period(json: &serde_json::Value, a: &str, active: &str, n: usize) -> (r: Option<usize>)
    ensures
        match r {
            Some(i) => first_active_below(json_contents(*json), a@, active@, n as nat) == Some(
                i as nat,
            ),
            None => first_active_below(json_contents(*json), a@, active@, n as nat) is None,
        },
{
    let ghost d = json_contents(*json);
    if !follows_exec(active) {
        let mut k: usize = 0;
        while k < n
            invariant
                k <= n,
                !follows(active@),
                first_active_below(d, a@, active@, k as nat) is None,
            decreases n - k,
        {
            k = k + 1;
        }
        return None;
    }
    let mut i: usize = 0;
    while i < n
        invariant
            i <= n,
            follows(active@),
            d == json_contents(*json),
            first_active_below(d, a@, active@, i as nat) is None,
        decreases n - i,
    {
        let e = element_pointer_exec(a, i);
        let p = concat_str(e.as_str(), active);
        let on = match json_pointer(json, p.as_str()) {
            Some(v) => is_truthy(&v),
            None => false,
        };
        if on {
            assert(period_active(d, a@, active@, i as int));
            proof {
                lemma_first_active_persists(d, a@, active@, (i + 1) as nat, n as nat);
            }
            return Some(i);
        }
        i = i + 1;
    }
    None
}

fn extract_bucketed_cost_value(json: &serde_json::Value, amount: u64, b: &JsonApiQuoteBuckets) -> (r: Option<
    JsonScalar,
>)
    ensures
        match r {
            Some(v) => bucketed_cost(json_contents(*json), amount, *b) == Some(v@),
            None => bucketed_cost(json_contents(*json), amount, *b) is None,
        },
{
    let ghost d = json_contents(*json);
    let n = match json_array_len(json, b.periods_pointer.as_str()) {
        None => return None,
        Some(n) => n,
    };
    proof {
        lemma_array_len_unique(d, b.periods_pointer@, n as nat);
    }
    let i = match first_active_period(
        json,
        b.periods_pointer.as_str(),
        b.period_active_pointer.as_str(),
        n,
    ) {
        None => return None,
        Some(i) => i,
    };
    let e = element_pointer_exec(b.periods_pointer.as_str(), i);
    let prices = concat_str(e.as_str(), b.period_prices_pointer.as_str());
    let tier = bucket_price_pointer(b, amount);
    if !follows_exec(b.period_prices_pointer.as_str()) || !follows_exec(tier.as_str()) {
        return None;
    }
    if json_pointer(json, prices.as_str()).is_none() {
        return None;
    }
    let full = concat_str(prices.as_str(), tier.as_str());
    json_pointer(json, full.as_str())
}

/// Whether a response document reports success at `pointer`: the value there (`null` when
/// absent) equals `expected` if given, else it is truthy.
pub open spec fn success_reported(
    d: Map<Seq<char>, JsonScalarView>,
    pointer: Seq<char>,
    expected: Option<serde_json::Value>,
) -> bool {
    let found = match value_at(d, pointer) {
        Some(v) => v,
        None => JsonScalarView::Null,
    };
    match expected {
        Some(e) => equalish(found, json_contents(e)[Seq::<char>::empty()]),
        None => truthy(found),
    }
}

fn success_flag(json: &serde_json::Value, pointer: &String, expected: &Option<serde_json::Value>) -> (b:
    bool)
    ensures
        b == success_reported(json_contents(*json), pointer@, *expected),
{
    let found = match json_pointer(json, pointer.as_str()) {
        Some(v) => v,
        None => JsonScalar::Null,
    };
    proof {
        reveal_strlit("");
        assert(""@ =~= Seq::<char>::empty());
    }
    match expected {
        Some(e) => match json_pointer(e, "") {
            Some(x) => is_equalish(&found, &x),
            None => false,
        },
        None => is_truthy(&found),
    }
}

/// The value a quote's cost is read from: the tiered price when buckets are configured,
/// else the value at the cost pointer with its placeholders filled.
pub open spec fn quote_cost_value(
    d: Map<Seq<char>, JsonScalarView>,
    m: JsonApiQuoteResponseMapping,
    ctx: RentalContext,
) -> Option<JsonScalarView> {
    match m.buckets {
        Some(b) => bucketed_cost(d, ctx.amount, b),
        None => match m.cost_pointer {
            Some(p) => value_at(d, rendered(p@, ctx)),
            None => None,
        },
    }
}

/// What a quote response says, but for the conversion of the cost to a number.
#[derive(Debug)]
pub struct QuoteReading {
    pub provider: String,
    pub ok: bool,
    /// The text of the quoted cost, read only from a successful quote.
    pub cost_text: Option<String>,
    /// The cost is in SUN (a million to the TRX); otherwise in TRX.
    pub cost_in_sun: bool,
    pub response_json: Option<serde_json::Value>,
    pub error: Option<String>,
}

/// The cost unit names SUN (ignoring blanks and ASCII case).
pub open spec fn unit_is_sun(unit: Seq<char>) -> bool {
    lower(trim(unit)) == "sun"@
}

/// `q` is what a quote response with this status and body means for provider `name`: a
/// status outside 200..=299 fails with `http status N`; a body that is not JSON fails;
/// otherwise the success flag decides, the error text is read only from a failed quote, and
/// the cost text only from a successful one.
pub open spec fn quote_reads(
    q: QuoteReading,
    name: Seq<char>,
    cfg: JsonApiQuoteConfig,
    ctx: RentalContext,
    status: u16,
    body: Seq<char>,
) -> bool {
    &&& q.provider@ == name
    &&& q.cost_in_sun == unit_is_sun(cfg.response.cost_unit@)
    &&& if !(200 <= status && status <= 299) {
        &&& !q.ok
        &&& q.cost_text is None
        &&& opt_view(q.error) == Some("http status "@ + dec(status as nat))
        &&& match q.response_json {
            Some(v) => json_document_of(body) == Some(json_contents(v)),
            None => json_document_of(body) is None,
        }
    } else {
        match json_document_of(body) {
            None => {
                &&& !q.ok
                &&& q.cost_text is None
                &&& q.response_json is None
                &&& opt_view(q.error) == Some("response was not valid JSON"@)
            },
            Some(d) => {
                &&& q.ok == success_reported(
                    d,
                    cfg.response.success_pointer@,
                    cfg.response.success_equals,
                )
                &&& (q.response_json matches Some(v) && json_contents(v) == d)
                &&& opt_view(q.error) == (if q.ok {
                    None
                } else {
                    text_at(d, cfg.response.error_pointer)
                })
                &&& opt_view(q.cost_text) == (if q.ok {
                    match quote_cost_value(d, cfg.response, ctx) {
                        Some(v) => scalar_text(v),
                        None => None,
                    }
                } else {
                    None
                })
            },
        }
    }
}

fn is_sun_unit(unit: &String) -> (b: bool)
    ensures
        b == unit_is_sun(unit@),
{
    let c = chars_of(unit.as_str());
    let t = lower_chars(&trim_chars(&c));
    chars_eq_str(&t, "sun")
}

/// Reads a provider's response to a quote request. The cost comes back as the text found
/// (the caller turns it into an amount of TRX, dividing by a million when in SUN).
pub fn interpret_quote_response(
    provider_name: &str,
    cfg: &JsonApiQuoteConfig,
    ctx: &RentalContext,
    status_code: u16,
    body: &str,
) -> (q: QuoteReading)
    ensures
        quote_reads(q, provider_name@, *cfg, *ctx, status_code, body@),
{
    let parsed = parse_json(body);
    let in_sun = is_sun_unit(&cfg.response.cost_unit);
    if !(200 <= status_code && status_code <= 299) {
        let code = u64_to_dec(status_code as u64);
        return QuoteReading {
            provider: provider_name.to_owned(),
            ok: false,
            cost_text: None,
            cost_in_sun: in_sun,
            response_json: parsed,
            error: Some(concat_str("http status ", code.as_str())),
        };
    }
    let json = match parsed {
        None => {
            return QuoteReading {
                provider: provider_name.to_owned(),
                ok: false,
                cost_text: None,
                cost_in_sun: in_sun,
                response_json: None,
                error: Some("response was not valid JSON".to_owned()),
            };
        },
        Some(v) => v,
    };
    let ok = success_flag(&json, &cfg.response.success_pointer, &cfg.response.success_equals);
    let error = if ok {
        None
    } else {
        text_at_exec(&json, &cfg.response.error_pointer)
    };
    let cost_text = if ok {
        let value = match &cfg.response.buckets {
            Some(b) => extract_bucketed_cost_value(&json, ctx.amount, b),
            None => match &cfg.response.cost_pointer {
                Some(p) => {
                    let rp = render_str(p.as_str(), ctx);
                    json_pointer(&json, rp.as_str())
                },
                None => None,
            },
        };
        match value {
            Some(v) => value_to_string(&v),
            None => None,
        }
    } else {
        None
    };
    QuoteReading {
        provider: provider_name.to_owned(),
        ok,
        cost_text,
        cost_in_sun: in_sun,
        response_json: Some(json),
        error,
    }
}


/// A 2xx JSON answer whose success pointer holds a string, with no expected value
/// configured, is read as a success exactly when that string, trimmed and lower-cased, is
/// `true`, `1`, `ok`, `success` or `yes`; a successful answer carries no error.
pub proof fn lemma_string_success_flag(
    a: RentalAttempt,
    name: Seq<char>,
    m: JsonApiResponseMapping,
    status: u16,
    body: Seq<char>,
    s: Seq<char>,
)
    requires
        attempt_reads(a, name, m, status, body),
        200 <= status <= 299,
        m.success_equals is None,
        json_document_of(body) matches Some(d) && value_at(d, m.success_pointer@) == Some(
            JsonScalarView::Str(s),
        ),
    ensures
        a.ok <==> (lower(trim(s)) == "true"@ || lower(trim(s)) == "1"@ || lower(trim(s)) == "ok"@
            || lower(trim(s)) == "success"@ || lower(trim(s)) == "yes"@),
        a.ok ==> a.error is None,
{
}
} // verus!
