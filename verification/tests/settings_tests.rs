use std::collections::BTreeMap;
use std::time::Duration;

use untron_solver::address::Address;
use untron_solver::rental::{JsonApiRentalProviderConfig, JsonApiResponseMapping};
use untron_solver::settings::{
    dedup_keys, load_config, normalize_paymasters, normalize_rental_providers, safe_choice,
    ConfigError, MissingSetting, PaymasterServiceConfig, SafeChoice, SafeDeterministicDeploymentConfig,
    SolverEnv,
};
use untron_solver::types::{HubTxMode, IntentType, TronMode};

fn key(b: u8) -> String {
    format!("0x{}", format!("{:02x}", b).repeat(32))
}

fn addr(last: u8) -> String {
    format!("0x{}{:02x}", "00".repeat(19), last)
}

fn base_env() -> SolverEnv {
    let mut env = SolverEnv::default();
    env.solver_db_url = "postgres://db".to_string();
    env.indexer_api_base_url = "http://indexer".to_string();
    env.hub_rpc_url = "http://hub".to_string();
    env.hub_pool_address = addr(1);
    env.hub_signer_private_key_hex = key(0x11);
    env.tron_grpc_url = "http://tron".to_string();
    env.tron_private_key_hex = key(0x22);
    env.tron_controller_address = "TController".to_string();
    env
}

fn no_json<T>() -> Result<Vec<T>, String> {
    Err("not read".to_string())
}

fn load(env: &SolverEnv) -> Result<untron_solver::settings::SolverConfig, ConfigError> {
    load_config(env, no_json(), no_json(), 4242)
}

fn paymaster_from_json(v: &serde_json::Value) -> PaymasterServiceConfig {
    PaymasterServiceConfig {
        url: v["url"].as_str().unwrap().to_string(),
        context: v.get("context").cloned().unwrap_or(serde_json::Value::Null),
    }
}

fn paymasters_from_text(text: &str) -> Vec<PaymasterServiceConfig> {
    let v: serde_json::Value = serde_json::from_str(text).unwrap();
    v.as_array().unwrap().iter().map(paymaster_from_json).collect()
}

fn provider(name: &str, url: &str, method: &str) -> JsonApiRentalProviderConfig {
    JsonApiRentalProviderConfig {
        name: name.to_string(),
        url: url.to_string(),
        method: method.to_string(),
        headers: BTreeMap::new(),
        body: serde_json::Value::Object(serde_json::Map::new()),
        response: JsonApiResponseMapping {
            success_pointer: "/ok".to_string(),
            success_equals: None,
            order_id_pointer: None,
            txid_pointer: None,
            error_pointer: None,
        },
        quote: None,
    }
}

#[test]
fn defaults_match_documented_values() {
    let env = SolverEnv::default();
    assert_eq!(env.hub_tx_mode, "eoa");
    assert_eq!(env.tron_mode, "grpc");
    assert_eq!(env.indexer_timeout_secs, 10);
    assert_eq!(env.tron_fee_limit_cap_sun, 200_000_000);
    assert_eq!(env.solver_enabled_intent_types, "trx_transfer,delegate_resource");
    assert_eq!(env.solver_trigger_selector_denylist_csv, "0x095ea7b3,0x39509351");
    assert_eq!(env.solver_breaker_mismatch_penalty, 2);
    assert_eq!(env.pull_liquidity_ppm, 500_000);
}

#[test]
fn minimal_grpc_config_loads_with_defaults() {
    let env = base_env();
    let cfg = load(&env).unwrap();
    assert_eq!(cfg.db_url, "postgres://db");
    assert_eq!(cfg.instance_id, "solver:4242");
    assert_eq!(cfg.indexer.timeout, Duration::from_secs(10));
    assert_eq!(cfg.hub.tx_mode, HubTxMode::Eoa);
    assert_eq!(cfg.hub.pool.bytes[19], 1);
    assert_eq!(cfg.hub.signer_private_key, [0x11u8; 32]);
    assert!(cfg.hub.entrypoint.is_none());
    assert!(cfg.hub.paymasters.is_empty());
    assert_eq!(cfg.tron.mode, TronMode::Grpc);
    assert_eq!(cfg.tron.private_key, [0x22u8; 32]);
    assert_eq!(cfg.tron.private_keys, vec![[0x22u8; 32]]);
    assert_eq!(cfg.tron.fee_limit_cap_sun, 200_000_000);
    assert!(!cfg.tron.delegate_resource_resell_enabled);
    assert_eq!(
        cfg.policy.rules.enabled_intent_types,
        vec![IntentType::TrxTransfer, IntentType::DelegateResource]
    );
    assert_eq!(
        cfg.policy.rules.trigger_selector_denylist,
        vec![[0x09, 0x5e, 0xa7, 0xb3], [0x39, 0x50, 0x93, 0x51]]
    );
    assert_eq!(cfg.policy.rules.max_trx_transfer_sun, None);
    assert_eq!(cfg.jobs.max_in_flight_jobs, 50);
    assert_eq!(cfg.jobs.breaker_mismatch_penalty, 2);
    assert_eq!(cfg.pricing.trx_usd_ttl, Duration::from_secs(60));
}

#[test]
fn required_settings_are_reported_in_order() {
    let mut env = base_env();
    env.solver_db_url = "  ".to_string();
    env.hub_rpc_url = String::new();
    let err = load(&env).unwrap_err();
    assert_eq!(err.message(), "SOLVER_DB_URL must be set");

    let mut env = base_env();
    env.hub_rpc_url = String::new();
    assert_eq!(load(&env).unwrap_err().message(), "HUB_RPC_URL must be set");

    let mut env = base_env();
    env.hub_pool_address = String::new();
    assert_eq!(load(&env).unwrap_err().message(), "HUB_POOL_ADDRESS must be set");

    let mut env = base_env();
    env.hub_signer_private_key_hex = " ".to_string();
    assert_eq!(
        load(&env).unwrap_err().message(),
        "HUB_SIGNER_PRIVATE_KEY_HEX must be set"
    );
}

#[test]
fn pool_falls_back_to_older_setting() {
    let mut env = base_env();
    env.hub_pool_address = String::new();
    env.hub_untron_v3_address = addr(7);
    let cfg = load(&env).unwrap();
    assert_eq!(cfg.hub.pool.bytes[19], 7);

    env.hub_untron_v3_address = "nope".to_string();
    let err = load(&env).unwrap_err();
    assert_eq!(err.message(), "invalid HUB_UNTRON_V3_ADDRESS: nope");
}

#[test]
fn trigger_intents_need_an_allowlist() {
    let mut env = base_env();
    env.solver_enabled_intent_types = "trigger_smart_contract".to_string();
    let err = load(&env).unwrap_err();
    assert!(matches!(
        err,
        ConfigError::Missing(MissingSetting::TriggerContractAllowlist)
    ));
    env.solver_trigger_contract_allowlist_csv = addr(9);
    let cfg = load(&env).unwrap();
    assert_eq!(cfg.policy.rules.trigger_contract_allowlist.len(), 1);
}

#[test]
fn safe4337_requires_its_settings() {
    let mut env = base_env();
    env.hub_tx_mode = "safe4337".to_string();
    assert_eq!(
        load(&env).unwrap_err().message(),
        "HUB_ENTRYPOINT_ADDRESS must be set in HUB_TX_MODE=safe4337"
    );
    env.hub_entrypoint_address = addr(2);
    assert_eq!(
        load(&env).unwrap_err().message(),
        "HUB_SAFE_4337_MODULE_ADDRESS must be set in HUB_TX_MODE=safe4337"
    );
    env.hub_safe_4337_module_address = addr(3);
    assert_eq!(
        load(&env).unwrap_err().message(),
        "HUB_BUNDLER_URLS must be set in HUB_TX_MODE=safe4337"
    );
    env.hub_bundler_urls = " https://b1 , https://b2 ".to_string();
    // No Safe: the deployment addresses are needed.
    assert_eq!(
        load(&env).unwrap_err().message(),
        "invalid HUB_SAFE_PROXY_FACTORY_ADDRESS: "
    );
    env.hub_safe_address = addr(4);
    let cfg = load(&env).unwrap();
    assert_eq!(cfg.hub.tx_mode, HubTxMode::Safe4337);
    assert_eq!(cfg.hub.entrypoint.unwrap().bytes[19], 2);
    assert_eq!(cfg.hub.safe.unwrap().bytes[19], 4);
    assert!(cfg.hub.safe_deployment.is_none());
    assert_eq!(
        cfg.hub.bundler_urls,
        vec!["https://b1".to_string(), "https://b2".to_string()]
    );
}

#[test]
fn safe4337_without_safe_uses_deployment_addresses() {
    let mut env = base_env();
    env.hub_tx_mode = "aa".to_string();
    env.hub_entrypoint_address = addr(2);
    env.hub_safe_4337_module_address = addr(3);
    env.hub_bundler_urls = "https://b".to_string();
    env.hub_safe_address = addr(0);
    env.hub_safe_proxy_factory_address = addr(5);
    env.hub_safe_singleton_address = addr(6);
    env.hub_safe_module_setup_address = addr(8);
    let cfg = load(&env).unwrap();
    assert!(cfg.hub.safe.is_none());
    let d = cfg.hub.safe_deployment.unwrap();
    assert_eq!(d.proxy_factory.bytes[19], 5);
    assert_eq!(d.singleton.bytes[19], 6);
    assert_eq!(d.module_setup.bytes[19], 8);
    assert_eq!(d.salt_nonce, [0u8; 32]);
}

#[test]
fn parse_paymasters_json_empty_ok() {
    let mut env = base_env();
    env.hub_tx_mode = "safe4337".to_string();
    env.hub_entrypoint_address = addr(2);
    env.hub_safe_4337_module_address = addr(3);
    env.hub_bundler_urls = "https://b".to_string();
    env.hub_safe_address = addr(4);
    env.hub_paymasters_json = "   ".to_string();
    let cfg = load_config(&env, Err("unreadable".to_string()), no_json(), 1).unwrap();
    assert!(cfg.hub.paymasters.is_empty());

    env.hub_paymasters_json = "[".to_string();
    let err = load_config(&env, Err("EOF".to_string()), no_json(), 1).unwrap_err();
    assert_eq!(err.message(), "parse HUB_PAYMASTERS_JSON");
}

#[test]
fn parse_paymasters_json_validates_url_and_context_object() {
    let ok = r#"[{"url":" https://pm.example ","context":{}}]"#;
    let v = normalize_paymasters(paymasters_from_text(ok)).unwrap();
    assert_eq!(v.len(), 1);
    assert_eq!(v[0].url, "https://pm.example");
    assert!(v[0].context.is_object());

    let err = normalize_paymasters(paymasters_from_text(r#"[{"url":" ","context":{}}]"#))
        .unwrap_err()
        .message();
    assert!(err.contains("empty url"));

    let err = normalize_paymasters(paymasters_from_text(r#"[{"url":"x","context":123}]"#))
        .unwrap_err()
        .message();
    assert!(err.contains("must be a JSON object"));

    let err = normalize_paymasters(paymasters_from_text(r#"[{"url":"x"}]"#))
        .unwrap_err()
        .message();
    assert!(err.contains("must be a JSON object"));
}

#[test]
fn parse_tron_energy_rental_apis_json_empty_ok() {
    let mut env = base_env();
    env.tron_energy_rental_apis_json = "   ".to_string();
    env.tron_delegate_resource_resell_enabled = true;
    let cfg = load_config(&env, no_json(), Err("unreadable".to_string()), 1).unwrap();
    assert!(cfg.tron.energy_rental_providers.is_empty());
    assert!(!cfg.tron.delegate_resource_resell_enabled);
}

#[test]
fn parse_tron_energy_rental_apis_json_validates_name_and_url() {
    let v = normalize_rental_providers(vec![provider(" p1 ", " https://r.example ", "POST")]).unwrap();
    assert_eq!(v.len(), 1);
    assert_eq!(v[0].name, "p1");
    assert_eq!(v[0].url, "https://r.example");
    assert_eq!(v[0].method, "POST");

    let err = normalize_rental_providers(vec![provider(" ", "x", "POST")])
        .unwrap_err()
        .message();
    assert!(err.contains("empty provider name"));

    let err = normalize_rental_providers(vec![provider("x", " ", "POST")])
        .unwrap_err()
        .message();
    assert!(err.contains("empty provider url"));
}

#[test]
fn blank_rental_method_defaults_to_post() {
    let v = normalize_rental_providers(vec![provider("a", "u", "  "), provider("b", "u", "GET")])
        .unwrap();
    assert_eq!(v[0].method, "POST");
    assert_eq!(v[1].method, "GET");
}

#[test]
fn rental_providers_enable_reselling() {
    let mut env = base_env();
    env.tron_energy_rental_apis_json = "[...]".to_string();
    env.tron_delegate_resource_resell_enabled = true;
    let cfg = load_config(&env, no_json(), Ok(vec![provider("a", "u", "")]), 1).unwrap();
    assert!(cfg.tron.delegate_resource_resell_enabled);
    assert_eq!(cfg.tron.energy_rental_providers[0].method, "POST");

    let err = load_config(&env, no_json(), Err("EOF".to_string()), 1).unwrap_err();
    assert_eq!(err.message(), "parse TRON_ENERGY_RENTAL_APIS_JSON");
}

#[test]
fn tron_keys_are_merged_without_duplicates() {
    let mut env = base_env();
    env.tron_private_keys_hex_csv = format!("{}, {} ,{}", key(0x33), key(0x22), key(0x33));
    let cfg = load(&env).unwrap();
    assert_eq!(cfg.tron.private_keys, vec![[0x22u8; 32], [0x33u8; 32]]);
    assert_eq!(cfg.tron.private_key, [0x22u8; 32]);

    let keys = vec![[1u8; 32], [2u8; 32], [1u8; 32], [3u8; 32], [2u8; 32]];
    assert_eq!(dedup_keys(&keys), vec![[1u8; 32], [2u8; 32], [3u8; 32]]);
}

#[test]
fn grpc_mode_requires_endpoint_keys_and_controller() {
    let mut env = base_env();
    env.tron_grpc_url = String::new();
    assert_eq!(
        load(&env).unwrap_err().message(),
        "TRON_GRPC_URL must be set in TRON_MODE=grpc"
    );
    let mut env = base_env();
    env.tron_private_key_hex = String::new();
    assert_eq!(
        load(&env).unwrap_err().message(),
        "TRON_PRIVATE_KEY_HEX or TRON_PRIVATE_KEYS_HEX_CSV must be set in TRON_MODE=grpc"
    );
    let mut env = base_env();
    env.tron_controller_address = String::new();
    assert_eq!(
        load(&env).unwrap_err().message(),
        "TRON_CONTROLLER_ADDRESS must be set in TRON_MODE=grpc"
    );
    let mut env = base_env();
    env.tron_private_key_hex = "0x11".to_string();
    assert_eq!(
        load(&env).unwrap_err().message(),
        "TRON_PRIVATE_KEY_HEX must be 32 bytes (got 1)"
    );
}

#[test]
fn mock_mode_needs_reader_and_has_no_keys() {
    let mut env = base_env();
    env.tron_mode = "mock".to_string();
    assert_eq!(
        load(&env).unwrap_err().message(),
        "TRON_MOCK_READER_ADDRESS must be set in TRON_MODE=mock"
    );
    env.tron_mock_reader_address = addr(12);
    let cfg = load(&env).unwrap();
    assert_eq!(cfg.tron.mode, TronMode::Mock);
    assert!(cfg.tron.private_keys.is_empty());
    assert_eq!(cfg.tron.private_key, [0u8; 32]);
    assert_eq!(cfg.tron.mock_reader_address.unwrap().bytes[19], 12);
}

#[test]
fn settings_are_clamped() {
    let mut env = base_env();
    env.indexer_timeout_secs = 0;
    env.tron_fee_limit_cap_sun = 5;
    env.tron_fee_limit_headroom_ppm = 2_000_000;
    env.solver_max_in_flight_jobs = 500;
    env.fill_max_claims = 7;
    env.solver_breaker_mismatch_penalty = 0;
    env.solver_delegate_reservation_ttl_secs = 3;
    env.tron_rental_provider_freeze_secs = -5;
    env.tron_rental_provider_fail_threshold = -1;
    env.solver_max_trx_transfer_sun = 9;
    env.tron_api_key = Some("  ".to_string());
    let cfg = load(&env).unwrap();
    assert_eq!(cfg.indexer.timeout, Duration::from_secs(1));
    assert_eq!(cfg.tron.fee_limit_cap_sun, 1_000_000);
    assert_eq!(cfg.tron.fee_limit_headroom_ppm, 1_000_000);
    assert_eq!(cfg.jobs.max_in_flight_jobs, 7);
    assert_eq!(cfg.jobs.breaker_mismatch_penalty, 1);
    assert_eq!(cfg.jobs.delegate_reservation_ttl_secs, 30);
    assert_eq!(cfg.tron.rental_provider_freeze_secs, 0);
    assert_eq!(cfg.tron.rental_provider_fail_threshold, 1);
    assert_eq!(cfg.policy.rules.max_trx_transfer_sun, Some(9));
    assert!(cfg.tron.api_key.is_none());

    env.solver_breaker_mismatch_penalty = 500;
    env.solver_instance_id = "me".to_string();
    env.tron_api_key = Some("k".to_string());
    let cfg = load(&env).unwrap();
    assert_eq!(cfg.jobs.breaker_mismatch_penalty, 100);
    assert_eq!(cfg.instance_id, "me");
    assert_eq!(cfg.tron.api_key.as_deref(), Some("k"));
}

#[test]
fn bad_lists_are_reported_after_the_tron_settings() {
    let mut env = base_env();
    env.solver_trigger_selector_denylist_csv = "0x1234".to_string();
    env.tron_mode = "bogus".to_string();
    assert_eq!(
        load(&env).unwrap_err().message(),
        "unsupported TRON_MODE: bogus (expected: grpc|mock)"
    );
    env.tron_mode = "grpc".to_string();
    assert_eq!(
        load(&env).unwrap_err().message(),
        "SOLVER_TRIGGER_SELECTOR_DENYLIST_CSV entries must be 4 bytes (got 2)"
    );
}

#[test]
fn safe_is_configured_or_deployed() {
    let safe = Address { bytes: [5u8; 20] };
    let deploy = SafeDeterministicDeploymentConfig {
        proxy_factory: Address { bytes: [1u8; 20] },
        singleton: Address { bytes: [2u8; 20] },
        module_setup: Address { bytes: [3u8; 20] },
        salt_nonce: [0u8; 32],
    };
    assert!(matches!(safe_choice(Some(safe), Some(deploy)), Ok(SafeChoice::Existing(a)) if a.bytes == [5u8; 20]));
    assert!(matches!(safe_choice(Some(Address::zero()), Some(deploy)), Ok(SafeChoice::Deploy(_))));
    assert!(matches!(safe_choice(None, Some(deploy)), Ok(SafeChoice::Deploy(_))));
    let err = safe_choice(None, None).unwrap_err();
    assert!(err.starts_with("HUB_SAFE_ADDRESS is not set"));
}
