use untron_solver::rental::{
    bucket_price_pointer, default_cost_unit, default_method, render_in_place, render_str,
    JsonApiQuoteBuckets, JsonTemplate, RentalContext, RentalResourceKind,
};
use untron_solver::text::replace_str;

fn ctx() -> RentalContext {
    RentalContext {
        resource: RentalResourceKind::Energy,
        amount: 123,
        lock_period: Some(10),
        duration_hours: Some(1),
        balance_sun: Some(456),
        address_base58check: "T...".to_string(),
        address_hex41: "0x41abcd".to_string(),
        address_evm_hex: "0xabcd".to_string(),
        txid: Some("0x11".to_string()),
    }
}

#[test]
fn template_placeholders_are_filled() {
    let c = ctx();
    assert_eq!(render_str("{{resource_kind}}", &c), "energy");
    assert_eq!(render_str("{{amount}}", &c), "123");
    assert_eq!(render_str("{{balance_sun}}", &c), "456");
    assert_eq!(render_str("{{lock_period}}", &c), "10");
    assert_eq!(render_str("{{duration_hours}}", &c), "1");
    assert_eq!(render_str("{{address_base58check}}", &c), "T...");
    assert_eq!(render_str("{{txid}}", &c), "0x11");
    assert_eq!(
        render_str("/data/{{duration_hours}}?to={{address_evm_hex}}&k={{resource_kind}}", &c),
        "/data/1?to=0xabcd&k=energy"
    );
}

#[test]
fn absent_values_render_empty() {
    let mut c = ctx();
    c.resource = RentalResourceKind::TronPower;
    c.txid = None;
    c.balance_sun = None;
    assert_eq!(render_str("[{{txid}}][{{balance_sun}}][{{resource_kind}}]", &c), "[][][tron_power]");
}

#[test]
fn replace_takes_matches_left_to_right() {
    assert_eq!(replace_str("aaa", "aa", "b"), "ba");
    assert_eq!(replace_str("xyz", "q", "r"), "xyz");
    assert_eq!(replace_str("{{a}}{{a}}", "{{a}}", "1"), "11");
}

#[test]
fn provider_defaults() {
    assert_eq!(default_method(), "POST");
    assert_eq!(default_cost_unit(), "trx");
}

#[test]
fn bucket_pointer_selects_tier() {
    let b = JsonApiQuoteBuckets {
        periods_pointer: "/periods".to_string(),
        period_active_pointer: "/is_active".to_string(),
        period_prices_pointer: "/prices".to_string(),
        lt_threshold: 200000,
        lt_pointer: "/less_than_200k/price_sun".to_string(),
        eq_value: 131000,
        eq_pointer: "/equal_131k/price_sun".to_string(),
        gt_pointer: "/more_than_200k/price_sun".to_string(),
    };
    assert_eq!(bucket_price_pointer(&b, 131000), "/equal_131k/price_sun");
    assert_eq!(bucket_price_pointer(&b, 100), "/less_than_200k/price_sun");
    assert_eq!(bucket_price_pointer(&b, 200000), "/more_than_200k/price_sun");
}

fn text(s: &str) -> JsonTemplate {
    JsonTemplate::Text(s.to_string())
}

fn member<'a>(t: &'a JsonTemplate, key: &str) -> &'a JsonTemplate {
    match t {
        JsonTemplate::Object(ms) => &ms.iter().find(|(k, _)| k == key).unwrap().1,
        _ => panic!("not an object"),
    }
}

fn element(t: &JsonTemplate, i: usize) -> &JsonTemplate {
    match t {
        JsonTemplate::Array(xs) => &xs[i],
        _ => panic!("not an array"),
    }
}

fn text_of(t: &JsonTemplate) -> &str {
    match t {
        JsonTemplate::Text(s) => s.as_str(),
        _ => panic!("not a string"),
    }
}

#[test]
fn template_substitution_works_recursively() {
    let ctx = ctx();
    let mut v = JsonTemplate::Object(vec![
        ("kind".to_string(), text("{{resource_kind}}")),
        ("amount".to_string(), text("{{amount}}")),
        ("balance".to_string(), text("{{balance_sun}}")),
        ("lock".to_string(), text("{{lock_period}}")),
        ("hours".to_string(), text("{{duration_hours}}")),
        (
            "nested".to_string(),
            JsonTemplate::Array(vec![
                text("{{address_base58check}}"),
                JsonTemplate::Object(vec![("tx".to_string(), text("{{txid}}"))]),
            ]),
        ),
    ]);

    render_in_place(&mut v, &ctx);
    assert_eq!(text_of(member(&v, "kind")), "energy");
    assert_eq!(text_of(member(&v, "amount")), "123");
    assert_eq!(text_of(member(&v, "balance")), "456");
    assert_eq!(text_of(member(&v, "lock")), "10");
    assert_eq!(text_of(member(&v, "hours")), "1");
    assert_eq!(text_of(element(member(&v, "nested"), 0)), "T...");
    assert_eq!(text_of(member(element(member(&v, "nested"), 1), "tx")), "0x11");
}

#[test]
fn template_rendering_keeps_other_values() {
    let ctx = ctx();
    let mut v = JsonTemplate::Array(vec![
        JsonTemplate::Null,
        JsonTemplate::Bool(true),
        JsonTemplate::Number("42".to_string()),
        text("{{amount}}-{{unknown}}"),
    ]);
    render_in_place(&mut v, &ctx);
    assert!(matches!(element(&v, 0), JsonTemplate::Null));
    assert!(matches!(element(&v, 1), JsonTemplate::Bool(true)));
    match element(&v, 2) {
        JsonTemplate::Number(n) => assert_eq!(n, "42"),
        _ => panic!("not a number"),
    }
    assert_eq!(text_of(element(&v, 3)), "123-{{unknown}}");
}
