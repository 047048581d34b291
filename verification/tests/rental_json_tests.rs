use untron_solver::json::{is_equalish, is_truthy, value_to_string, JsonNumber, JsonScalar};
use untron_solver::rental::{interpret_json_response, JsonApiResponseMapping};

fn mapping(
    success_pointer: &str,
    success_equals: Option<serde_json::Value>,
    order_id_pointer: Option<&str>,
    txid_pointer: Option<&str>,
    error_pointer: Option<&str>,
) -> JsonApiResponseMapping {
    JsonApiResponseMapping {
        success_pointer: success_pointer.to_string(),
        success_equals,
        order_id_pointer: order_id_pointer.map(|s| s.to_string()),
        txid_pointer: txid_pointer.map(|s| s.to_string()),
        error_pointer: error_pointer.map(|s| s.to_string()),
    }
}

#[test]
fn interpret_json_response_success_pointer_controls_ok() {
    let cfg = mapping("/success", None, Some("/data/orderId"), Some("/data/txid"), Some("/error"));

    let res = interpret_json_response(
        "p1",
        &cfg,
        200,
        r#"{"success":true,"data":{"orderId":"abc","txid":"0x11"}}"#,
    );
    assert!(res.ok);
    assert_eq!(res.order_id.as_deref(), Some("abc"));
    assert_eq!(res.txid.as_deref(), Some("0x11"));
}

#[test]
fn interpret_json_response_success_equals_controls_ok() {
    let cfg = mapping("/code", Some(serde_json::Value::from(200)), None, None, Some("/message"));

    let res = interpret_json_response("p1", &cfg, 200, r#"{"code":200,"message":"ok"}"#);
    assert!(res.ok);

    let res = interpret_json_response("p1", &cfg, 200, r#"{"code":500,"message":"nope"}"#);
    assert!(!res.ok);
    assert_eq!(res.error.as_deref(), Some("nope"));
}

#[test]
fn interpret_json_response_false_success_extracts_error() {
    let cfg = mapping("/ok", None, None, None, Some("/error/message"));

    let res =
        interpret_json_response("p1", &cfg, 200, r#"{"ok":0,"error":{"message":"no liquidity"}}"#);
    assert!(!res.ok);
    assert_eq!(res.error.as_deref(), Some("no liquidity"));
}

#[test]
fn interpret_json_response_non_json_is_failure() {
    let cfg = mapping("/success", None, None, None, None);

    let res = interpret_json_response("p1", &cfg, 200, "not json");
    assert!(!res.ok);
    assert_eq!(res.error.as_deref(), Some("response was not valid JSON"));
}

#[test]
fn interpret_json_response_non_2xx_is_failure() {
    let cfg = mapping("/success", None, None, None, None);

    let res = interpret_json_response("p1", &cfg, 503, r#"{"success":true}"#);
    assert!(!res.ok);
    assert_eq!(res.error.as_deref(), Some("http status 503"));
    assert!(res.response_json.is_some());
    assert_eq!(res.provider, "p1");
}

#[test]
fn success_flags_and_loose_equality() {
    assert!(is_truthy(&JsonScalar::Str(" Success ".to_string())));
    assert!(is_truthy(&JsonScalar::Number(JsonNumber::NegInt(-1))));
    assert!(!is_truthy(&JsonScalar::Number(JsonNumber::PosInt(u64::MAX))));
    assert!(!is_truthy(&JsonScalar::Number(JsonNumber::Float("1.5".to_string()))));
    assert!(!is_truthy(&JsonScalar::Null));
    assert!(is_equalish(
        &JsonScalar::Number(JsonNumber::PosInt(200)),
        &JsonScalar::Str(" 200 ".to_string())
    ));
    assert!(is_equalish(&JsonScalar::Str("TRUE".to_string()), &JsonScalar::Bool(true)));
    assert!(is_equalish(
        &JsonScalar::Number(JsonNumber::Float("-0.0".to_string())),
        &JsonScalar::Number(JsonNumber::Float("0.0".to_string()))
    ));
    assert!(!is_equalish(
        &JsonScalar::Number(JsonNumber::PosInt(1)),
        &JsonScalar::Number(JsonNumber::Float("1.0".to_string()))
    ));
    assert_eq!(value_to_string(&JsonScalar::Bool(false)).as_deref(), Some("false"));
    assert_eq!(
        value_to_string(&JsonScalar::Number(JsonNumber::NegInt(-42))).as_deref(),
        Some("-42")
    );
    assert_eq!(value_to_string(&JsonScalar::Array("[1]".to_string())), None);
}

#[test]
fn success_equals_with_string_expectation() {
    let cfg = mapping("/status", Some(serde_json::Value::from("OK")), Some("/id"), None, Some("/msg"));
    let res = interpret_json_response("p2", &cfg, 201, r#"{"status":"OK","id":17}"#);
    assert!(res.ok);
    assert_eq!(res.order_id.as_deref(), Some("17"));
    assert!(res.error.is_none());
    let res = interpret_json_response("p2", &cfg, 200, r#"{"status":"ok","msg":false}"#);
    assert!(!res.ok);
    assert_eq!(res.error.as_deref(), Some("false"));
}

#[test]
fn nested_negative_zero_equals_zero() {
    let a = JsonScalar::Array("[0.0,{\"k\":-0.0}]".to_string());
    let b = JsonScalar::Array("[-0.0,{\"k\":0.0}]".to_string());
    assert!(is_equalish(&a, &b));
    let s1 = JsonScalar::Array("[\"-0.0\"]".to_string());
    let s2 = JsonScalar::Array("[\"0.0\"]".to_string());
    assert!(!is_equalish(&s1, &s2));
    let f1 = JsonScalar::Array("[-0.05]".to_string());
    let f2 = JsonScalar::Array("[0.05]".to_string());
    assert!(!is_equalish(&f1, &f2));
}
