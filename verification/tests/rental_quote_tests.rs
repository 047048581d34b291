use std::collections::BTreeMap;

use untron_solver::rental::{
    interpret_quote_response, JsonApiQuoteBuckets, JsonApiQuoteConfig, JsonApiQuoteResponseMapping,
    QuoteReading, RentalContext, RentalResourceKind,
};

fn quote_config(
    success_pointer: &str,
    success_equals: Option<serde_json::Value>,
    cost_pointer: Option<&str>,
    cost_unit: &str,
    buckets: Option<JsonApiQuoteBuckets>,
) -> JsonApiQuoteConfig {
    JsonApiQuoteConfig {
        url: "http://example".to_string(),
        method: "GET".to_string(),
        headers: BTreeMap::new(),
        body: serde_json::Value::Object(serde_json::Map::new()),
        response: JsonApiQuoteResponseMapping {
            success_pointer: success_pointer.to_string(),
            success_equals,
            cost_pointer: cost_pointer.map(|s| s.to_string()),
            cost_unit: cost_unit.to_string(),
            error_pointer: Some(if buckets.is_some() { "/message" } else { "/error" }.to_string()),
            buckets,
        },
    }
}

fn context() -> RentalContext {
    RentalContext {
        resource: RentalResourceKind::Energy,
        amount: 131000,
        lock_period: Some(10),
        duration_hours: Some(1),
        balance_sun: Some(1_000_000),
        address_base58check: "T...".to_string(),
        address_hex41: "0x41abcd".to_string(),
        address_evm_hex: "0xabcd".to_string(),
        txid: None,
    }
}

fn buckets() -> JsonApiQuoteBuckets {
    JsonApiQuoteBuckets {
        periods_pointer: "/periods".to_string(),
        period_active_pointer: "/is_active".to_string(),
        period_prices_pointer: "/prices".to_string(),
        lt_threshold: 200000,
        lt_pointer: "/less_than_200k/price_sun".to_string(),
        eq_value: 131000,
        eq_pointer: "/equal_131k/price_sun".to_string(),
        gt_pointer: "/more_than_200k/price_sun".to_string(),
    }
}

/// The quoted cost in TRX, as the solver computes it from the reading.
fn cost_trx(q: &QuoteReading) -> Option<f64> {
    q.cost_text
        .as_ref()
        .and_then(|s| s.parse::<f64>().ok())
        .map(|v| if q.cost_in_sun { v / 1e6 } else { v })
}

const BUCKETED_BODY: &str = r#"{
  "status": "OK",
  "periods": [
    {
      "label": "off",
      "is_active": false,
      "prices": { "equal_131k": { "price_sun": 1000000 } }
    },
    {
      "label": "on",
      "is_active": true,
      "prices": {
        "less_than_200k": { "price_sun": 2500000 },
        "equal_131k": { "price_sun": 2250000 },
        "more_than_200k": { "price_sun": 4000000 }
      }
    }
  ]
}"#;

#[test]
fn interpret_quote_response_pointer_cost_trx() {
    let cfg = quote_config("/ok", None, Some("/data/{{duration_hours}}"), "trx", None);
    let attempt = interpret_quote_response(
        "apitrx",
        &cfg,
        &context(),
        200,
        r#"{"ok":true,"data":{"1":2.25}}"#,
    );
    assert!(attempt.ok);
    assert_eq!(cost_trx(&attempt), Some(2.25));
}

#[test]
fn interpret_quote_response_bucketed_cost_sun() {
    let cfg = quote_config(
        "/status",
        Some(serde_json::Value::String("OK".to_string())),
        None,
        "sun",
        Some(buckets()),
    );
    let attempt = interpret_quote_response("netts", &cfg, &context(), 200, BUCKETED_BODY);
    assert!(attempt.ok);
    // 2.25 TRX in sun.
    assert!((cost_trx(&attempt).unwrap_or(0.0) - 2.25).abs() < 1e-9);
}

#[test]
fn bucketed_quote_picks_tier_by_amount() {
    let cfg = quote_config(
        "/status",
        Some(serde_json::Value::String("OK".to_string())),
        None,
        " SUN ",
        Some(buckets()),
    );
    let mut ctx = context();
    ctx.amount = 150000;
    let q = interpret_quote_response("netts", &cfg, &ctx, 200, BUCKETED_BODY);
    assert_eq!(q.cost_text.as_deref(), Some("2500000"));
    assert!(q.cost_in_sun);
    ctx.amount = 250000;
    let q = interpret_quote_response("netts", &cfg, &ctx, 200, BUCKETED_BODY);
    assert_eq!(q.cost_text.as_deref(), Some("4000000"));
}

#[test]
fn bucketed_quote_needs_an_active_period_array() {
    let cfg = quote_config("/ok", None, None, "sun", Some(buckets()));
    let body = r#"{"ok":true,"periods":{"0":{"is_active":true,"prices":{"equal_131k":{"price_sun":1}}}}}"#;
    let q = interpret_quote_response("p", &cfg, &context(), 200, body);
    assert!(q.ok);
    assert_eq!(q.cost_text, None);
    let body = r#"{"ok":true,"periods":[{"is_active":false,"prices":{}}]}"#;
    let q = interpret_quote_response("p", &cfg, &context(), 200, body);
    assert_eq!(q.cost_text, None);
}

#[test]
fn failed_quotes_carry_the_error_and_no_cost() {
    let cfg = quote_config("/ok", None, Some("/cost"), "trx", None);
    let q = interpret_quote_response("p", &cfg, &context(), 200, r#"{"ok":false,"cost":5,"error":"busy"}"#);
    assert!(!q.ok);
    assert_eq!(q.cost_text, None);
    assert_eq!(q.error.as_deref(), Some("busy"));
    let q = interpret_quote_response("p", &cfg, &context(), 503, "oops");
    assert_eq!(q.error.as_deref(), Some("http status 503"));
    assert!(q.response_json.is_none());
    let q = interpret_quote_response("p", &cfg, &context(), 200, "oops");
    assert_eq!(q.error.as_deref(), Some("response was not valid JSON"));
}
