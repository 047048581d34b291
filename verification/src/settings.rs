use vstd::prelude::*;

use crate::address::{address_decoded, Address};
use crate::backoff::{duration_from_secs, duration_of_secs};
use crate::config::{
    addresses_of, all_zero, csv_items, enabled_intent_types, hex32_list_of, hex32_of,
    hub_tx_mode_of, parse_address, parse_addresses_csv, parse_csv, parse_hex_32, parse_hex_32_csv,
    parse_hub_tx_mode, parse_intent_types, parse_optional_address, parse_selectors_csv,
    parse_tron_mode, selectors_of, string_views, trimmed_pieces, tron_mode_of,
};
use crate::error::{ParseError, ParseErrorView};
use crate::json::{json_contents, json_pointer, JsonScalar};
use crate::policy::PolicyRules;
use crate::rental::JsonApiRentalProviderConfig;
use crate::rows::{IndexerConfig, JobConfig};
use crate::text::{concat_str, dec, is_blank, trim, trim_str, u64_to_dec};
use crate::types::{HubTxMode, IntentType, TronMode};

verus! {

/// The solver's settings as read from its environment (one field per variable, named after
/// it in lower case), except the prices and USD amounts, which the application reads itself.
#[derive(Debug)]
pub struct SolverEnv {
    pub solver_db_url: String,
    pub indexer_api_base_url: String,
    pub indexer_timeout_secs: u64,
    pub indexer_max_head_lag_blocks: u64,
    pub hub_rpc_url: String,
    pub hub_chain_id: Option<u64>,
    pub hub_pool_address: String,
    pub hub_untron_v3_address: String,
    pub hub_tx_mode: String,
    pub hub_entrypoint_address: String,
    pub hub_safe_address: String,
    pub hub_safe_4337_module_address: String,
    pub hub_safe_proxy_factory_address: String,
    pub hub_safe_singleton_address: String,
    pub hub_safe_module_setup_address: String,
    pub hub_signer_private_key_hex: String,
    pub hub_bundler_urls: String,
    pub hub_paymasters_json: String,
    pub tron_mode: String,
    pub tron_grpc_url: String,
    pub tron_api_key: Option<String>,
    pub tron_private_key_hex: String,
    pub tron_private_keys_hex_csv: String,
    pub tron_controller_address: String,
    pub tron_mock_reader_address: String,
    pub tron_block_lag: u64,
    pub tron_fee_limit_cap_sun: u64,
    pub tron_fee_limit_headroom_ppm: u64,
    pub tron_stake_totals_cache_ttl_secs: u64,
    pub tron_energy_rental_apis_json: String,
    pub tron_delegate_resource_resell_enabled: bool,
    pub tron_rental_provider_fail_threshold: i32,
    pub tron_rental_provider_fail_window_secs: i64,
    pub tron_rental_provider_freeze_secs: i64,
    pub tron_resell_energy_headroom_ppm: u64,
    pub solver_tron_emulation_enabled: bool,
    pub solver_tick_interval_secs: u64,
    pub tron_finality_blocks: u64,
    pub tron_tip_proof_resend_blocks: u64,
    pub process_controller_max_events: u64,
    pub fill_max_claims: u64,
    pub solver_max_in_flight_jobs: u64,
    pub solver_safe4337_max_claimed_unproved_jobs: u64,
    pub solver_concurrency_trx_transfer: u64,
    pub solver_concurrency_usdt_transfer: u64,
    pub solver_concurrency_delegate_resource: u64,
    pub solver_concurrency_trigger_smart_contract: u64,
    pub solver_concurrency_tron_broadcast: u64,
    pub solver_consolidation_enabled: bool,
    pub solver_consolidation_max_pre_txs: u64,
    pub solver_consolidation_max_total_trx_pull_sun: u64,
    pub solver_consolidation_max_per_tx_trx_pull_sun: u64,
    pub solver_consolidation_max_total_usdt_pull_amount: u64,
    pub solver_consolidation_max_per_tx_usdt_pull_amount: u64,
    pub solver_rate_limit_claims_per_minute_global: u64,
    pub solver_rate_limit_claims_per_minute_trx_transfer: u64,
    pub solver_rate_limit_claims_per_minute_usdt_transfer: u64,
    pub solver_rate_limit_claims_per_minute_delegate_resource: u64,
    pub solver_rate_limit_claims_per_minute_trigger_smart_contract: u64,
    pub solver_global_pause_fatal_threshold: u64,
    pub solver_global_pause_window_secs: u64,
    pub solver_global_pause_duration_secs: u64,
    pub solver_breaker_mismatch_penalty: u64,
    pub solver_delegate_reservation_ttl_secs: u64,
    pub controller_rebalance_threshold_usdt: String,
    pub controller_rebalance_keep_usdt: String,
    pub pull_liquidity_ppm: u64,
    pub solver_enabled_intent_types: String,
    pub solver_min_deadline_slack_secs: u64,
    pub solver_hub_cost_history_lookback: u64,
    pub solver_hub_cost_headroom_ppm: u64,
    pub solver_tron_fee_history_lookback: u64,
    pub solver_tron_fee_headroom_ppm: u64,
    pub solver_capital_lock_ppm_per_day: u64,
    pub solver_require_priced_escrow: bool,
    pub solver_allowed_escrow_tokens_csv: String,
    pub solver_trigger_contract_allowlist_csv: String,
    pub solver_trigger_contract_denylist_csv: String,
    pub solver_trigger_selector_denylist_csv: String,
    pub solver_trigger_allow_fallback_calls: bool,
    pub solver_max_trx_transfer_sun: u64,
    pub solver_max_usdt_transfer_amount: u64,
    pub solver_max_delegate_balance_sun: u64,
    pub solver_max_delegate_lock_period_secs: u64,
    pub solver_max_trigger_call_value_sun: u64,
    pub solver_max_trigger_calldata_len: u64,
    pub solver_trx_usd_ttl_secs: u64,
    pub solver_trx_usd_url: String,
    pub solver_eth_usd_ttl_secs: u64,
    pub solver_eth_usd_url: String,
    pub solver_instance_id: String,
}

impl Default for SolverEnv {
    /// The value of each setting whose variable is not set.
    fn default() -> (e: Self)
        ensures
            e.solver_db_url@.len() == 0,
            e.indexer_api_base_url@.len() == 0,
            e.indexer_timeout_secs == 10,
            e.indexer_max_head_lag_blocks == 50,
            e.hub_rpc_url@.len() == 0,
            e.hub_chain_id is None,
            e.hub_pool_address@.len() == 0,
            e.hub_untron_v3_address@.len() == 0,
            e.hub_tx_mode@ == "eoa"@,
            e.hub_entrypoint_address@.len() == 0,
            e.hub_safe_address@.len() == 0,
            e.hub_safe_4337_module_address@.len() == 0,
            e.hub_safe_proxy_factory_address@.len() == 0,
            e.hub_safe_singleton_address@.len() == 0,
            e.hub_safe_module_setup_address@.len() == 0,
            e.hub_signer_private_key_hex@.len() == 0,
            e.hub_bundler_urls@.len() == 0,
            e.hub_paymasters_json@.len() == 0,
            e.tron_mode@ == "grpc"@,
            e.tron_grpc_url@.len() == 0,
            e.tron_api_key is None,
            e.tron_private_key_hex@.len() == 0,
            e.tron_private_keys_hex_csv@.len() == 0,
            e.tron_controller_address@.len() == 0,
            e.tron_mock_reader_address@.len() == 0,
            e.tron_block_lag == 0,
            e.tron_fee_limit_cap_sun == 200000000,
            e.tron_fee_limit_headroom_ppm == 100000,
            e.tron_stake_totals_cache_ttl_secs == 10,
            e.tron_energy_rental_apis_json@.len() == 0,
            e.tron_delegate_resource_resell_enabled == false,
            e.tron_rental_provider_fail_threshold == 3,
            e.tron_rental_provider_fail_window_secs == 60,
            e.tron_rental_provider_freeze_secs == 300,
            e.tron_resell_energy_headroom_ppm == 50000,
            e.solver_tron_emulation_enabled == true,
            e.solver_tick_interval_secs == 5,
            e.tron_finality_blocks == 19,
            e.tron_tip_proof_resend_blocks == 20,
            e.process_controller_max_events == 100,
            e.fill_max_claims == 50,
            e.solver_max_in_flight_jobs == 50,
            e.solver_safe4337_max_claimed_unproved_jobs == 1,
            e.solver_concurrency_trx_transfer == 4,
            e.solver_concurrency_usdt_transfer == 2,
            e.solver_concurrency_delegate_resource == 1,
            e.solver_concurrency_trigger_smart_contract == 1,
            e.solver_concurrency_tron_broadcast == 1,
            e.solver_consolidation_enabled == false,
            e.solver_consolidation_max_pre_txs == 0,
            e.solver_consolidation_max_total_trx_pull_sun == 0,
            e.solver_consolidation_max_per_tx_trx_pull_sun == 0,
            e.solver_consolidation_max_total_usdt_pull_amount == 0,
            e.solver_consolidation_max_per_tx_usdt_pull_amount == 0,
            e.solver_rate_limit_claims_per_minute_global == 0,
            e.solver_rate_limit_claims_per_minute_trx_transfer == 0,
            e.solver_rate_limit_claims_per_minute_usdt_transfer == 0,
            e.solver_rate_limit_claims_per_minute_delegate_resource == 0,
            e.solver_rate_limit_claims_per_minute_trigger_smart_contract == 0,
            e.solver_global_pause_fatal_threshold == 0,
            e.solver_global_pause_window_secs == 300,
            e.solver_global_pause_duration_secs == 300,
            e.solver_breaker_mismatch_penalty == 2,
            e.solver_delegate_reservation_ttl_secs == 600,
            e.controller_rebalance_threshold_usdt@ == "0"@,
            e.controller_rebalance_keep_usdt@ == "1"@,
            e.pull_liquidity_ppm == 500000,
            e.solver_enabled_intent_types@ == "trx_transfer,delegate_resource"@,
            e.solver_min_deadline_slack_secs == 30,
            e.solver_hub_cost_history_lookback == 50,
            e.solver_hub_cost_headroom_ppm == 200000,
            e.solver_tron_fee_history_lookback == 50,
            e.solver_tron_fee_headroom_ppm == 200000,
            e.solver_capital_lock_ppm_per_day == 0,
            e.solver_require_priced_escrow == false,
            e.solver_allowed_escrow_tokens_csv@.len() == 0,
            e.solver_trigger_contract_allowlist_csv@.len() == 0,
            e.solver_trigger_contract_denylist_csv@.len() == 0,
            e.solver_trigger_selector_denylist_csv@ == "0x095ea7b3,0x39509351"@,
            e.solver_trigger_allow_fallback_calls == false,
            e.solver_max_trx_transfer_sun == 0,
            e.solver_max_usdt_transfer_amount == 0,
            e.solver_max_delegate_balance_sun == 0,
            e.solver_max_delegate_lock_period_secs == 0,
            e.solver_max_trigger_call_value_sun == 0,
            e.solver_max_trigger_calldata_len == 0,
            e.solver_trx_usd_ttl_secs == 60,
            e.solver_trx_usd_url@ == "https://api.coingecko.com/api/v3/simple/price?ids=tron&vs_currencies=usd"@,
            e.solver_eth_usd_ttl_secs == 60,
            e.solver_eth_usd_url@ == "https://api.coingecko.com/api/v3/simple/price?ids=ethereum&vs_currencies=usd"@,
            e.solver_instance_id@.len() == 0,
    {
        SolverEnv {
            solver_db_url: String::new(),
            indexer_api_base_url: String::new(),
            indexer_timeout_secs: 10,
            indexer_max_head_lag_blocks: 50,
            hub_rpc_url: String::new(),
            hub_chain_id: None,
            hub_pool_address: String::new(),
            hub_untron_v3_address: String::new(),
            hub_tx_mode: "eoa".to_owned(),
            hub_entrypoint_address: String::new(),
            hub_safe_address: String::new(),
            hub_safe_4337_module_address: String::new(),
            hub_safe_proxy_factory_address: String::new(),
            hub_safe_singleton_address: String::new(),
            hub_safe_module_setup_address: String::new(),
            hub_signer_private_key_hex: String::new(),
            hub_bundler_urls: String::new(),
            hub_paymasters_json: String::new(),
            tron_mode: "grpc".to_owned(),
            tron_grpc_url: String::new(),
            tron_api_key: None,
            tron_private_key_hex: String::new(),
            tron_private_keys_hex_csv: String::new(),
            tron_controller_address: String::new(),
            tron_mock_reader_address: String::new(),
            tron_block_lag: 0,
            tron_fee_limit_cap_sun: 200_000_000,
            tron_fee_limit_headroom_ppm: 100_000,
            tron_stake_totals_cache_ttl_secs: 10,
            tron_energy_rental_apis_json: String::new(),
            tron_delegate_resource_resell_enabled: false,
            tron_rental_provider_fail_threshold: 3,
            tron_rental_provider_fail_window_secs: 60,
            tron_rental_provider_freeze_secs: 300,
            tron_resell_energy_headroom_ppm: 50_000,
            solver_tron_emulation_enabled: true,
            solver_tick_interval_secs: 5,
            tron_finality_blocks: 19,
            tron_tip_proof_resend_blocks: 20,
            process_controller_max_events: 100,
            fill_max_claims: 50,
            solver_max_in_flight_jobs: 50,
            solver_safe4337_max_claimed_unproved_jobs: 1,
            solver_concurrency_trx_transfer: 4,
            solver_concurrency_usdt_transfer: 2,
            solver_concurrency_delegate_resource: 1,
            solver_concurrency_trigger_smart_contract: 1,
            solver_concurrency_tron_broadcast: 1,
            solver_consolidation_enabled: false,
            solver_consolidation_max_pre_txs: 0,
            solver_consolidation_max_total_trx_pull_sun: 0,
            solver_consolidation_max_per_tx_trx_pull_sun: 0,
            solver_consolidation_max_total_usdt_pull_amount: 0,
            solver_consolidation_max_per_tx_usdt_pull_amount: 0,
            solver_rate_limit_claims_per_minute_global: 0,
            solver_rate_limit_claims_per_minute_trx_transfer: 0,
            solver_rate_limit_claims_per_minute_usdt_transfer: 0,
            solver_rate_limit_claims_per_minute_delegate_resource: 0,
            solver_rate_limit_claims_per_minute_trigger_smart_contract: 0,
            solver_global_pause_fatal_threshold: 0,
            solver_global_pause_window_secs: 300,
            solver_global_pause_duration_secs: 300,
            solver_breaker_mismatch_penalty: 2,
            solver_delegate_reservation_ttl_secs: 600,
            controller_rebalance_threshold_usdt: "0".to_owned(),
            controller_rebalance_keep_usdt: "1".to_owned(),
            pull_liquidity_ppm: 500_000,
            solver_enabled_intent_types: "trx_transfer,delegate_resource".to_owned(),
            solver_min_deadline_slack_secs: 30,
            solver_hub_cost_history_lookback: 50,
            solver_hub_cost_headroom_ppm: 200_000,
            solver_tron_fee_history_lookback: 50,
            solver_tron_fee_headroom_ppm: 200_000,
            solver_capital_lock_ppm_per_day: 0,
            solver_require_priced_escrow: false,
            solver_allowed_escrow_tokens_csv: String::new(),
            solver_trigger_contract_allowlist_csv: String::new(),
            solver_trigger_contract_denylist_csv: String::new(),
            solver_trigger_selector_denylist_csv: "0x095ea7b3,0x39509351".to_owned(),
            solver_trigger_allow_fallback_calls: false,
            solver_max_trx_transfer_sun: 0,
            solver_max_usdt_transfer_amount: 0,
            solver_max_delegate_balance_sun: 0,
            solver_max_delegate_lock_period_secs: 0,
            solver_max_trigger_call_value_sun: 0,
            solver_max_trigger_calldata_len: 0,
            solver_trx_usd_ttl_secs: 60,
            solver_trx_usd_url: "https://api.coingecko.com/api/v3/simple/price?ids=tron&vs_currencies=usd".to_owned(),
            solver_eth_usd_ttl_secs: 60,
            solver_eth_usd_url: "https://api.coingecko.com/api/v3/simple/price?ids=ethereum&vs_currencies=usd".to_owned(),
            solver_instance_id: String::new(),
        }
    }
}

/// A setting that must be given and was not (or is blank).
#[derive(Debug, Clone, Copy, PartialEq, Eq, Structural)]
pub enum MissingSetting {
    SolverDbUrl,
    IndexerApiBaseUrl,
    HubRpcUrl,
    HubPoolAddress,
    TriggerContractAllowlist,
    HubSignerPrivateKey,
    HubEntrypointAddress,
    HubSafe4337ModuleAddress,
    HubBundlerUrls,
    TronGrpcUrl,
    TronPrivateKeys,
    TronControllerAddress,
    TronMockReaderAddress,
    NoTronKeys,
}

/// Why the solver's settings were refused.
#[derive(Debug)]
pub enum ConfigError {
    Missing(MissingSetting),
    Invalid(ParseError),
    /// `HUB_PAYMASTERS_JSON` is not a list of paymasters (the JSON reader's own words).
    PaymastersJson(String),
    EmptyPaymasterUrl,
    PaymasterContextNotObject,
    /// `TRON_ENERGY_RENTAL_APIS_JSON` is not a list of providers (the JSON reader's own words).
    RentalApisJson(String),
    EmptyProviderName,
    EmptyProviderUrl,
}

/// [`ConfigError`] with its strings taken as character sequences.
pub enum ConfigErrorView {
    Missing(MissingSetting),
    Invalid(ParseErrorView),
    PaymastersJson(Seq<char>),
    EmptyPaymasterUrl,
    PaymasterContextNotObject,
    RentalApisJson(Seq<char>),
    EmptyProviderName,
    EmptyProviderUrl,
}

impl View for ConfigError {
    type V = ConfigErrorView;

    open spec fn view(&self) -> ConfigErrorView {
        match self {
            ConfigError::Missing(m) => ConfigErrorView::Missing(*m),
            ConfigError::Invalid(e) => ConfigErrorView::Invalid(e@),
            ConfigError::PaymastersJson(d) => ConfigErrorView::PaymastersJson(d@),
            ConfigError::EmptyPaymasterUrl => ConfigErrorView::EmptyPaymasterUrl,
            ConfigError::PaymasterContextNotObject => ConfigErrorView::PaymasterContextNotObject,
            ConfigError::RentalApisJson(d) => ConfigErrorView::RentalApisJson(d@),
            ConfigError::EmptyProviderName => ConfigErrorView::EmptyProviderName,
            ConfigError::EmptyProviderUrl => ConfigErrorView::EmptyProviderUrl,
        }
    }
}

/// The text of a missing-setting error.
pub open spec fn missing_message(m: MissingSetting) -> Seq<char> {
    match m {
        MissingSetting::SolverDbUrl => "SOLVER_DB_URL must be set"@,
        MissingSetting::IndexerApiBaseUrl => "INDEXER_API_BASE_URL must be set"@,
        MissingSetting::HubRpcUrl => "HUB_RPC_URL must be set"@,
        MissingSetting::HubPoolAddress => "HUB_POOL_ADDRESS must be set"@,
        MissingSetting::TriggerContractAllowlist =>
            "TRIGGER_SMART_CONTRACT enabled but SOLVER_TRIGGER_CONTRACT_ALLOWLIST_CSV is empty"@,
        MissingSetting::HubSignerPrivateKey => "HUB_SIGNER_PRIVATE_KEY_HEX must be set"@,
        MissingSetting::HubEntrypointAddress =>
            "HUB_ENTRYPOINT_ADDRESS must be set in HUB_TX_MODE=safe4337"@,
        MissingSetting::HubSafe4337ModuleAddress =>
            "HUB_SAFE_4337_MODULE_ADDRESS must be set in HUB_TX_MODE=safe4337"@,
        MissingSetting::HubBundlerUrls => "HUB_BUNDLER_URLS must be set in HUB_TX_MODE=safe4337"@,
        MissingSetting::TronGrpcUrl => "TRON_GRPC_URL must be set in TRON_MODE=grpc"@,
        MissingSetting::TronPrivateKeys =>
            "TRON_PRIVATE_KEY_HEX or TRON_PRIVATE_KEYS_HEX_CSV must be set in TRON_MODE=grpc"@,
        MissingSetting::TronControllerAddress =>
            "TRON_CONTROLLER_ADDRESS must be set in TRON_MODE=grpc"@,
        MissingSetting::TronMockReaderAddress =>
            "TRON_MOCK_READER_ADDRESS must be set in TRON_MODE=mock"@,
        MissingSetting::NoTronKeys => "no Tron keys configured"@,
    }
}

/// The text of a settings error, as the error value the solver stops with displays it.
pub open spec fn config_error_message(e: ConfigErrorView) -> Seq<char> {
    match e {
        ConfigErrorView::Missing(m) => missing_message(m),
        ConfigErrorView::Invalid(p) => crate::error::error_message(p),
        ConfigErrorView::PaymastersJson(_) => "parse HUB_PAYMASTERS_JSON"@,
        ConfigErrorView::EmptyPaymasterUrl => "HUB_PAYMASTERS_JSON contains an empty url"@,
        ConfigErrorView::PaymasterContextNotObject =>
            "HUB_PAYMASTERS_JSON paymaster.context must be a JSON object"@,
        ConfigErrorView::RentalApisJson(_) => "parse TRON_ENERGY_RENTAL_APIS_JSON"@,
        ConfigErrorView::EmptyProviderName =>
            "TRON_ENERGY_RENTAL_APIS_JSON contains an empty provider name"@,
        ConfigErrorView::EmptyProviderUrl =>
            "TRON_ENERGY_RENTAL_APIS_JSON contains an empty provider url"@,
    }
}

impl MissingSetting {
    /// The error's text.
    pub fn message(self) -> (s: &'static str)
        ensures
            s@ == missing_message(self),
    {
        match self {
            MissingSetting::SolverDbUrl => "SOLVER_DB_URL must be set",
            MissingSetting::IndexerApiBaseUrl => "INDEXER_API_BASE_URL must be set",
            MissingSetting::HubRpcUrl => "HUB_RPC_URL must be set",
            MissingSetting::HubPoolAddress => "HUB_POOL_ADDRESS must be set",
            MissingSetting::TriggerContractAllowlist =>
                "TRIGGER_SMART_CONTRACT enabled but SOLVER_TRIGGER_CONTRACT_ALLOWLIST_CSV is empty",
            MissingSetting::HubSignerPrivateKey => "HUB_SIGNER_PRIVATE_KEY_HEX must be set",
            MissingSetting::HubEntrypointAddress =>
                "HUB_ENTRYPOINT_ADDRESS must be set in HUB_TX_MODE=safe4337",
            MissingSetting::HubSafe4337ModuleAddress =>
                "HUB_SAFE_4337_MODULE_ADDRESS must be set in HUB_TX_MODE=safe4337",
            MissingSetting::HubBundlerUrls => "HUB_BUNDLER_URLS must be set in HUB_TX_MODE=safe4337",
            MissingSetting::TronGrpcUrl => "TRON_GRPC_URL must be set in TRON_MODE=grpc",
            MissingSetting::TronPrivateKeys =>
                "TRON_PRIVATE_KEY_HEX or TRON_PRIVATE_KEYS_HEX_CSV must be set in TRON_MODE=grpc",
            MissingSetting::TronControllerAddress =>
                "TRON_CONTROLLER_ADDRESS must be set in TRON_MODE=grpc",
            MissingSetting::TronMockReaderAddress =>
                "TRON_MOCK_READER_ADDRESS must be set in TRON_MODE=mock",
            MissingSetting::NoTronKeys => "no Tron keys configured",
        }
    }
}

impl ConfigError {
    /// The error's text.
    pub fn message(&self) -> (s: String)
        ensures
            s@ == config_error_message(self@),
    {
        match self {
            ConfigError::Missing(m) => m.message().to_owned(),
            ConfigError::Invalid(p) => p.message(),
            ConfigError::PaymastersJson(_) => "parse HUB_PAYMASTERS_JSON".to_owned(),
            ConfigError::EmptyPaymasterUrl => "HUB_PAYMASTERS_JSON contains an empty url".to_owned(),
            ConfigError::PaymasterContextNotObject =>
                "HUB_PAYMASTERS_JSON paymaster.context must be a JSON object".to_owned(),
            ConfigError::RentalApisJson(_) => "parse TRON_ENERGY_RENTAL_APIS_JSON".to_owned(),
            ConfigError::EmptyProviderName =>
                "TRON_ENERGY_RENTAL_APIS_JSON contains an empty provider name".to_owned(),
            ConfigError::EmptyProviderUrl =>
                "TRON_ENERGY_RENTAL_APIS_JSON contains an empty provider url".to_owned(),
        }
    }
}

/// A paymaster service that sponsors user operations.
#[derive(Debug)]
pub struct PaymasterServiceConfig {
    pub url: String,
    /// Extra context handed to the paymaster; a JSON object.
    pub context: serde_json::Value,
}

/// The addresses from which the Safe is deployed deterministically when no Safe address is
/// configured.
#[derive(Debug, Clone, Copy)]
pub struct SafeDeterministicDeploymentConfig {
    pub proxy_factory: Address,
    pub singleton: Address,
    pub module_setup: Address,
    /// The salt nonce, as a big-endian 256-bit word.
    pub salt_nonce: [u8; 32],
}

/// Hub chain settings.
#[derive(Debug)]
pub struct HubConfig {
    pub tx_mode: HubTxMode,
    pub rpc_url: String,
    pub chain_id: Option<u64>,
    pub pool: Address,
    /// Account-abstraction options, set only in the Safe4337 mode.
    pub entrypoint: Option<Address>,
    pub safe: Option<Address>,
    pub safe_4337_module: Option<Address>,
    pub safe_deployment: Option<SafeDeterministicDeploymentConfig>,
    pub bundler_urls: Vec<String>,
    pub paymasters: Vec<PaymasterServiceConfig>,
    /// Key that signs hub transactions (the EOA's key, or the Safe owner's key).
    pub signer_private_key: [u8; 32],
}

/// Tron settings.
#[derive(Debug)]
pub struct TronConfig {
    pub mode: TronMode,
    pub grpc_url: String,
    pub api_key: Option<String>,
    /// The first configured key.
    pub private_key: [u8; 32],
    /// Every configured key, each once, in the order given.
    pub private_keys: Vec<[u8; 32]>,
    pub controller_address: String,
    pub mock_reader_address: Option<Address>,
    pub block_lag: u64,
    pub fee_limit_cap_sun: u64,
    /// Extra headroom on a computed fee limit (ppm).
    pub fee_limit_headroom_ppm: u64,
    pub stake_totals_cache_ttl_secs: u64,
    pub energy_rental_providers: Vec<JsonApiRentalProviderConfig>,
    /// Delegate-resource intents are filled by renting from the providers.
    pub delegate_resource_resell_enabled: bool,
    pub rental_provider_fail_threshold: i32,
    pub rental_provider_fail_window_secs: i64,
    pub rental_provider_freeze_secs: i64,
    pub resell_energy_headroom_ppm: u64,
    pub emulation_enabled: bool,
}

/// The intent policy's settings, but for its USD amounts.
#[derive(Debug)]
pub struct PolicySettings {
    pub rules: PolicyRules,
    pub hub_cost_history_lookback: u64,
    pub hub_cost_headroom_ppm: u64,
    pub tron_fee_history_lookback: u64,
    pub tron_fee_headroom_ppm: u64,
    pub capital_lock_ppm_per_day: u64,
    pub require_priced_escrow: bool,
    pub allowed_escrow_tokens: Vec<Address>,
}

/// Where prices are fetched from, and how long a fetched price is kept.
#[derive(Debug)]
pub struct PricingSettings {
    pub trx_usd_ttl: std::time::Duration,
    pub trx_usd_url: String,
    pub eth_usd_ttl: std::time::Duration,
    pub eth_usd_url: String,
}

/// The solver's settings, checked and normalised.
#[derive(Debug)]
pub struct SolverConfig {
    pub indexer: IndexerConfig,
    pub hub: HubConfig,
    pub tron: TronConfig,
    pub jobs: JobConfig,
    pub policy: PolicySettings,
    pub pricing: PricingSettings,
    pub db_url: String,
    pub instance_id: String,
}

/// Only white space.
pub open spec fn blank(s: Seq<char>) -> bool {
    trim(s).len() == 0
}

/// The first of two possible errors.
pub open spec fn first_error(a: Option<ConfigErrorView>, b: Option<ConfigErrorView>) -> Option<
    ConfigErrorView,
> {
    match a {
        Some(e) => Some(e),
        None => b,
    }
}

/// The settings that must not be blank, checked in order; the pool may be given under its
/// older name.
pub open spec fn required_error(env: SolverEnv) -> Option<ConfigErrorView> {
    if blank(env.solver_db_url@) {
        Some(ConfigErrorView::Missing(MissingSetting::SolverDbUrl))
    } else if blank(env.indexer_api_base_url@) {
        Some(ConfigErrorView::Missing(MissingSetting::IndexerApiBaseUrl))
    } else if blank(env.hub_rpc_url@) {
        Some(ConfigErrorView::Missing(MissingSetting::HubRpcUrl))
    } else if blank(env.hub_pool_address@) && blank(env.hub_untron_v3_address@) {
        Some(ConfigErrorView::Missing(MissingSetting::HubPoolAddress))
    } else {
        None
    }
}

fn check_required(env: &SolverEnv) -> (r: Result<(), ConfigError>)
    ensures
        match r {
            Ok(_) => required_error(*env) is None,
            Err(e) => required_error(*env) == Some(e@),
        },
{
    if is_blank(env.solver_db_url.as_str()) {
        return Err(ConfigError::Missing(MissingSetting::SolverDbUrl));
    }
    if is_blank(env.indexer_api_base_url.as_str()) {
        return Err(ConfigError::Missing(MissingSetting::IndexerApiBaseUrl));
    }
    if is_blank(env.hub_rpc_url.as_str()) {
        return Err(ConfigError::Missing(MissingSetting::HubRpcUrl));
    }
    if is_blank(env.hub_pool_address.as_str()) && is_blank(env.hub_untron_v3_address.as_str()) {
        return Err(ConfigError::Missing(MissingSetting::HubPoolAddress));
    }
    Ok(())
}

/// An address setting: its bytes, or why they could not be read.
pub open spec fn address_of(label: Seq<char>, s: Seq<char>) -> Result<Seq<u8>, ParseErrorView> {
    match address_decoded(s) {
        Some(b) => Ok(b),
        None => Err(ParseErrorView::InvalidAddress { label, value: s }),
    }
}

/// An optional address setting: none when blank or the zero address.
pub open spec fn optional_address_of(label: Seq<char>, s: Seq<char>) -> Result<
    Option<Seq<u8>>,
    ParseErrorView,
> {
    if blank(s) {
        Ok(None)
    } else {
        match address_decoded(trim(s)) {
            None => Err(ParseErrorView::InvalidAddress { label, value: trim(s) }),
            Some(b) => if all_zero(b) {
                Ok(None)
            } else {
                Ok(Some(b))
            },
        }
    }
}

/// The bytes of an optional address.
pub open spec fn opt_bytes(a: Option<Address>) -> Option<Seq<u8>> {
    match a {
        Some(x) => Some(x.bytes@),
        None => None,
    }
}

/// The pool address: `HUB_POOL_ADDRESS`, or `HUB_UNTRON_V3_ADDRESS` when the first is blank.
pub open spec fn hub_pool_of(env: SolverEnv) -> Result<Seq<u8>, ParseErrorView> {
    if !blank(env.hub_pool_address@) {
        address_of("HUB_POOL_ADDRESS"@, env.hub_pool_address@)
    } else {
        address_of("HUB_UNTRON_V3_ADDRESS"@, env.hub_untron_v3_address@)
    }
}

/// A parse error, as a settings error.
pub open spec fn invalid<T>(r: Result<T, ParseErrorView>) -> Option<ConfigErrorView> {
    match r {
        Ok(_) => None,
        Err(e) => Some(ConfigErrorView::Invalid(e)),
    }
}

/// The hub transaction mode and the pool address.
pub open spec fn hub_basics_error(env: SolverEnv) -> Option<ConfigErrorView> {
    first_error(invalid(hub_tx_mode_of(env.hub_tx_mode@)), invalid(hub_pool_of(env)))
}

fn address_setting(label: &str, s: &str) -> (r: Result<Address, ConfigError>)
    ensures
        match r {
            Ok(a) => address_of(label@, s@) == Ok::<Seq<u8>, ParseErrorView>(a.bytes@),
            Err(e) => invalid(address_of(label@, s@)) == Some(e@),
        },
{
    match parse_address(label, s) {
        Ok(a) => Ok(a),
        Err(e) => Err(ConfigError::Invalid(e)),
    }
}

fn optional_address_setting(label: &str, s: &str) -> (r: Result<Option<Address>, ConfigError>)
    ensures
        match r {
            Ok(a) => optional_address_of(label@, s@) == Ok::<Option<Seq<u8>>, ParseErrorView>(
                opt_bytes(a),
            ),
            Err(e) => invalid(optional_address_of(label@, s@)) == Some(e@),
        },
{
    match parse_optional_address(label, s) {
        Ok(a) => Ok(a),
        Err(e) => Err(ConfigError::Invalid(e)),
    }
}

fn hub_basics(env: &SolverEnv) -> (r: Result<(HubTxMode, Address), ConfigError>)
    ensures
        match r {
            Ok((m, a)) => {
                &&& hub_basics_error(*env) is None
                &&& hub_tx_mode_of(env.hub_tx_mode@) == Ok::<HubTxMode, ParseErrorView>(m)
                &&& hub_pool_of(*env) == Ok::<Seq<u8>, ParseErrorView>(a.bytes@)
            },
            Err(e) => hub_basics_error(*env) == Some(e@),
        },
{
    let mode = match parse_hub_tx_mode(env.hub_tx_mode.as_str()) {
        Ok(m) => m,
        Err(e) => return Err(ConfigError::Invalid(e)),
    };
    let pool = if !is_blank(env.hub_pool_address.as_str()) {
        address_setting("HUB_POOL_ADDRESS", env.hub_pool_address.as_str())?
    } else {
        address_setting("HUB_UNTRON_V3_ADDRESS", env.hub_untron_v3_address.as_str())?
    };
    Ok((mode, pool))
}

/// The bytes of each address of a list.
pub open spec fn address_bytes(v: Seq<Address>) -> Seq<Seq<u8>> {
    v.map_values(|a: Address| a.bytes@)
}

/// The enabled intent types, the trigger contract allowlist, and the rule that trigger
/// intents need an allowlist.
pub open spec fn intents_error(env: SolverEnv) -> Option<ConfigErrorView> {
    match enabled_intent_types(env.solver_enabled_intent_types@) {
        Err(e) => Some(ConfigErrorView::Invalid(e)),
        Ok(types) => match addresses_of(
            "SOLVER_TRIGGER_CONTRACT_ALLOWLIST_CSV"@,
            trimmed_pieces(env.solver_trigger_contract_allowlist_csv@),
        ) {
            Err(e) => Some(ConfigErrorView::Invalid(e)),
            Ok(list) => if types.contains(IntentType::TriggerSmartContract) && list.len() == 0 {
                Some(ConfigErrorView::Missing(MissingSetting::TriggerContractAllowlist))
            } else {
                None
            },
        },
    }
}

fn has_trigger_type(types: &Vec<IntentType>) -> (b: bool)
    ensures
        b == types@.contains(IntentType::TriggerSmartContract),
{
    let mut i: usize = 0;
    while i < types.len()
        invariant
            i <= types@.len(),
            forall|j: int| 0 <= j < i ==> types@[j] != IntentType::TriggerSmartContract,
        decreases types@.len() - i,
    {
        if types[i] == IntentType::TriggerSmartContract {
            assert(types@[i as int] == IntentType::TriggerSmartContract);
            return true;
        }
        i = i + 1;
    }
    false
}

fn intent_settings(env: &SolverEnv) -> (r: Result<(Vec<IntentType>, Vec<Address>), ConfigError>)
    ensures
        match r {
            Ok((types, list)) => {
                &&& intents_error(*env) is None
                &&& enabled_intent_types(env.solver_enabled_intent_types@) == Ok::<
                    Seq<IntentType>,
                    ParseErrorView,
                >(types@)
                &&& addresses_of(
                    "SOLVER_TRIGGER_CONTRACT_ALLOWLIST_CSV"@,
                    trimmed_pieces(env.solver_trigger_contract_allowlist_csv@),
                ) == Ok::<Seq<Seq<u8>>, ParseErrorView>(address_bytes(list@))
            },
            Err(e) => intents_error(*env) == Some(e@),
        },
{
    let types = match parse_intent_types(env.solver_enabled_intent_types.as_str()) {
        Ok(t) => t,
        Err(e) => return Err(ConfigError::Invalid(e)),
    };
    let list = match parse_addresses_csv(
        "SOLVER_TRIGGER_CONTRACT_ALLOWLIST_CSV",
        env.solver_trigger_contract_allowlist_csv.as_str(),
    ) {
        Ok(l) => l,
        Err(e) => return Err(ConfigError::Invalid(e)),
    };
    if has_trigger_type(&types) && list.len() == 0 {
        return Err(ConfigError::Missing(MissingSetting::TriggerContractAllowlist));
    }
    Ok((types, list))
}

/// The hub signer key: required, 32 bytes of hex.
pub open spec fn signer_error(env: SolverEnv) -> Option<ConfigErrorView> {
    if blank(env.hub_signer_private_key_hex@) {
        Some(ConfigErrorView::Missing(MissingSetting::HubSignerPrivateKey))
    } else {
        invalid(hex32_of("HUB_SIGNER_PRIVATE_KEY_HEX"@, env.hub_signer_private_key_hex@))
    }
}

fn signer_key(env: &SolverEnv) -> (r: Result<[u8; 32], ConfigError>)
    ensures
        match r {
            Ok(k) => signer_error(*env) is None && hex32_of(
                "HUB_SIGNER_PRIVATE_KEY_HEX"@,
                env.hub_signer_private_key_hex@,
            ) == Ok::<Seq<u8>, ParseErrorView>(k@),
            Err(e) => signer_error(*env) == Some(e@),
        },
{
    if is_blank(env.hub_signer_private_key_hex.as_str()) {
        return Err(ConfigError::Missing(MissingSetting::HubSignerPrivateKey));
    }
    match parse_hex_32("HUB_SIGNER_PRIVATE_KEY_HEX", env.hub_signer_private_key_hex.as_str()) {
        Ok(k) => Ok(k),
        Err(e) => Err(ConfigError::Invalid(e)),
    }
}

/// The value is a JSON object.
pub open spec fn is_json_object(v: serde_json::Value) -> bool {
    json_contents(v).contains_key(""@) && json_contents(v)[""@] is Object
}

/// What is wrong with one paymaster entry: its url is blank, or its context is no object.
pub open spec fn paymaster_entry_error(p: PaymasterServiceConfig) -> Option<ConfigErrorView> {
    if blank(p.url@) {
        Some(ConfigErrorView::EmptyPaymasterUrl)
    } else if !is_json_object(p.context) {
        Some(ConfigErrorView::PaymasterContextNotObject)
    } else {
        None
    }
}

/// The first faulty paymaster entry's error.
pub open spec fn paymasters_error(v: Seq<PaymasterServiceConfig>) -> Option<ConfigErrorView>
    decreases v.len(),
{
    if v.len() == 0 {
        None
    } else {
        first_error(paymasters_error(v.drop_last()), paymaster_entry_error(v.last()))
    }
}

/// `out` is `input` with each url trimmed.
pub open spec fn paymasters_normalized(
    input: Seq<PaymasterServiceConfig>,
    out: Seq<PaymasterServiceConfig>,
) -> bool {
    &&& out.len() == input.len()
    &&& forall|i: int|
        0 <= i < out.len() ==> (#[trigger] out[i]).url@ == trim(input[i].url@) && out[i].context
            == input[i].context
}

/// The paymasters setting: nothing when blank; else the JSON reader's list, which must
/// hold a url and an object context in each entry.
pub open spec fn paymasters_outcome_error(
    text: Seq<char>,
    parsed: Result<Vec<PaymasterServiceConfig>, String>,
) -> Option<ConfigErrorView> {
    if blank(text) {
        None
    } else {
        match parsed {
            Err(d) => Some(ConfigErrorView::PaymastersJson(d@)),
            Ok(v) => paymasters_error(v@),
        }
    }
}

/// The paymasters taken from the setting.
pub open spec fn paymasters_from(
    text: Seq<char>,
    parsed: Result<Vec<PaymasterServiceConfig>, String>,
    out: Seq<PaymasterServiceConfig>,
) -> bool {
    if blank(text) {
        out.len() == 0
    } else {
        parsed matches Ok(v) && paymasters_normalized(v@, out)
    }
}

proof fn lemma_take_last<A>(s: Seq<A>, k: int)
    requires
        0 <= k < s.len(),
    ensures
        s.take(k + 1).drop_last() == s.take(k),
        s.take(k + 1).last() == s[k],
{
    assert(s.take(k + 1).drop_last() =~= s.take(k));
}

proof fn lemma_paymasters_error_persists(s: Seq<PaymasterServiceConfig>, j: int)
    requires
        0 <= j <= s.len(),
        paymasters_error(s.take(j)) is Some,
    ensures
        paymasters_error(s) == paymasters_error(s.take(j)),
    decreases s.len() - j,
{
    if j < s.len() {
        lemma_take_last(s, j);
        lemma_paymasters_error_persists(s, j + 1);
    } else {
        assert(s.take(j) =~= s);
    }
}

fn is_object(v: &serde_json::Value) -> (b: bool)
    ensures
        b == is_json_object(*v),
{
    match json_pointer(v, "") {
        Some(JsonScalar::Object(_)) => true,
        _ => false,
    }
}

fn check_paymasters(v: &Vec<PaymasterServiceConfig>) -> (r: Result<(), ConfigError>)
    ensures
        match r {
            Ok(_) => paymasters_error(v@) is None,
            Err(e) => paymasters_error(v@) == Some(e@),
        },
{
    let mut k: usize = 0;
    assert(v@.take(0) =~= Seq::<PaymasterServiceConfig>::empty());
    while k < v.len()
        invariant
            k <= v@.len(),
            paymasters_error(v@.take(k as int)) is None,
        decreases v@.len() - k,
    {
        proof {
            lemma_take_last(v@, k as int);
        }
        if is_blank(v[k].url.as_str()) {
            proof {
                lemma_paymasters_error_persists(v@, k + 1);
                assert(v@.take(v@.len() as int) =~= v@);
            }
            return Err(ConfigError::EmptyPaymasterUrl);
        }
        if !is_object(&v[k].context) {
            proof {
                lemma_paymasters_error_persists(v@, k + 1);
                assert(v@.take(v@.len() as int) =~= v@);
            }
            return Err(ConfigError::PaymasterContextNotObject);
        }
        k = k + 1;
    }
    assert(v@.take(k as int) =~= v@);
    Ok(())
}

/// Checks the paymasters the JSON reader gave: each url is trimmed and must not be blank,
/// and each context must be a JSON object; the first faulty entry is reported.
pub fn normalize_paymasters(v: Vec<PaymasterServiceConfig>) -> (r: Result<
    Vec<PaymasterServiceConfig>,
    ConfigError,
>)
    ensures
        match r {
            Ok(out) => paymasters_error(v@) is None && paymasters_normalized(v@, out@),
            Err(e) => paymasters_error(v@) == Some(e@),
        },
{
    check_paymasters(&v)?;
    let ghost orig = v@;
    let mut rest = v;
    let n: usize = rest.len();
    let mut out: Vec<PaymasterServiceConfig> = Vec::new();
    let mut k: usize = 0;
    assert(orig.subrange(0, orig.len() as int) =~= orig);
    while rest.len() > 0
        invariant
            n == orig.len(),
            k + rest@.len() == orig.len(),
            rest@ == orig.subrange(k as int, orig.len() as int),
            out@.len() == k,
            forall|i: int|
                0 <= i < k ==> (#[trigger] out@[i]).url@ == trim(orig[i].url@) && out@[i].context
                    == orig[i].context,
        decreases rest@.len(),
    {
        let p = rest.remove(0);
        assert(p == orig[k as int]);
        assert(rest@ =~= orig.subrange(k + 1, orig.len() as int));
        let PaymasterServiceConfig { url, context } = p;
        let t = trim_str(url.as_str());
        out.push(PaymasterServiceConfig { url: t, context });
        k = k + 1;
    }
    Ok(out)
}

/// The deployment addresses used when no Safe is configured.
pub open spec fn deployment_error(env: SolverEnv) -> Option<ConfigErrorView> {
    first_error(
        invalid(address_of("HUB_SAFE_PROXY_FACTORY_ADDRESS"@, env.hub_safe_proxy_factory_address@)),
        first_error(
            invalid(address_of("HUB_SAFE_SINGLETON_ADDRESS"@, env.hub_safe_singleton_address@)),
            invalid(address_of("HUB_SAFE_MODULE_SETUP_ADDRESS"@, env.hub_safe_module_setup_address@)),
        ),
    )
}

/// The deployment addresses are the configured ones, with a zero salt nonce.
pub open spec fn deployment_from(env: SolverEnv, d: SafeDeterministicDeploymentConfig) -> bool {
    &&& address_of("HUB_SAFE_PROXY_FACTORY_ADDRESS"@, env.hub_safe_proxy_factory_address@) == Ok::<
        Seq<u8>,
        ParseErrorView,
    >(d.proxy_factory.bytes@)
    &&& address_of("HUB_SAFE_SINGLETON_ADDRESS"@, env.hub_safe_singleton_address@) == Ok::<
        Seq<u8>,
        ParseErrorView,
    >(d.singleton.bytes@)
    &&& address_of("HUB_SAFE_MODULE_SETUP_ADDRESS"@, env.hub_safe_module_setup_address@) == Ok::<
        Seq<u8>,
        ParseErrorView,
    >(d.module_setup.bytes@)
    &&& all_zero(d.salt_nonce@)
}

fn deployment_settings(env: &SolverEnv) -> (r: Result<SafeDeterministicDeploymentConfig, ConfigError>)
    ensures
        match r {
            Ok(d) => deployment_error(*env) is None && deployment_from(*env, d),
            Err(e) => deployment_error(*env) == Some(e@),
        },
{
    let proxy_factory = address_setting(
        "HUB_SAFE_PROXY_FACTORY_ADDRESS",
        env.hub_safe_proxy_factory_address.as_str(),
    )?;
    let singleton = address_setting(
        "HUB_SAFE_SINGLETON_ADDRESS",
        env.hub_safe_singleton_address.as_str(),
    )?;
    let module_setup = address_setting(
        "HUB_SAFE_MODULE_SETUP_ADDRESS",
        env.hub_safe_module_setup_address.as_str(),
    )?;
    let salt_nonce: [u8; 32] = [0u8; 32];
    assert(all_zero(salt_nonce@));
    Ok(SafeDeterministicDeploymentConfig { proxy_factory, singleton, module_setup, salt_nonce })
}

/// The Safe4337 settings, checked in order: the three that must be given, the entry point,
/// the Safe, the module, the deployment addresses when there is no Safe, the bundler urls,
/// the paymasters.
pub open spec fn safe4337_error(
    env: SolverEnv,
    pm: Result<Vec<PaymasterServiceConfig>, String>,
) -> Option<ConfigErrorView> {
    if blank(env.hub_entrypoint_address@) {
        Some(ConfigErrorView::Missing(MissingSetting::HubEntrypointAddress))
    } else if blank(env.hub_safe_4337_module_address@) {
        Some(ConfigErrorView::Missing(MissingSetting::HubSafe4337ModuleAddress))
    } else if blank(env.hub_bundler_urls@) {
        Some(ConfigErrorView::Missing(MissingSetting::HubBundlerUrls))
    } else {
        first_error(
            invalid(address_of("HUB_ENTRYPOINT_ADDRESS"@, env.hub_entrypoint_address@)),
            match optional_address_of("HUB_SAFE_ADDRESS"@, env.hub_safe_address@) {
                Err(e) => Some(ConfigErrorView::Invalid(e)),
                Ok(safe) => first_error(
                    invalid(
                        address_of("HUB_SAFE_4337_MODULE_ADDRESS"@, env.hub_safe_4337_module_address@),
                    ),
                    first_error(
                        if safe is None {
                            deployment_error(env)
                        } else {
                            None
                        },
                        first_error(
                            if csv_items(env.hub_bundler_urls@).len() == 0 {
                                Some(
                                    ConfigErrorView::Invalid(
                                        ParseErrorView::MustBeNonEmpty { label: "HUB_BUNDLER_URLS"@ },
                                    ),
                                )
                            } else {
                                None
                            },
                            paymasters_outcome_error(env.hub_paymasters_json@, pm),
                        ),
                    ),
                ),
            },
        )
    }
}

struct Safe4337Parts {
    entrypoint: Address,
    safe: Option<Address>,
    module: Address,
    deployment: Option<SafeDeterministicDeploymentConfig>,
    bundlers: Vec<String>,
    paymasters: Vec<PaymasterServiceConfig>,
}

spec fn safe4337_parts_from(
    env: SolverEnv,
    pm: Result<Vec<PaymasterServiceConfig>, String>,
    p: Safe4337Parts,
) -> bool {
    &&& address_of("HUB_ENTRYPOINT_ADDRESS"@, env.hub_entrypoint_address@) == Ok::<
        Seq<u8>,
        ParseErrorView,
    >(p.entrypoint.bytes@)
    &&& optional_address_of("HUB_SAFE_ADDRESS"@, env.hub_safe_address@) == Ok::<
        Option<Seq<u8>>,
        ParseErrorView,
    >(opt_bytes(p.safe))
    &&& address_of("HUB_SAFE_4337_MODULE_ADDRESS"@, env.hub_safe_4337_module_address@) == Ok::<
        Seq<u8>,
        ParseErrorView,
    >(p.module.bytes@)
    &&& match p.safe {
        Some(_) => p.deployment is None,
        None => p.deployment matches Some(d) && deployment_from(env, d),
    }
    &&& string_views(p.bundlers@) == csv_items(env.hub_bundler_urls@)
    &&& paymasters_from(env.hub_paymasters_json@, pm, p.paymasters@)
}

fn safe4337_settings(env: &SolverEnv, pm: Result<Vec<PaymasterServiceConfig>, String>) -> (r: Result<
    Safe4337Parts,
    ConfigError,
>)
    ensures
        match r {
            Ok(p) => safe4337_error(*env, pm) is None && safe4337_parts_from(*env, pm, p),
            Err(e) => safe4337_error(*env, pm) == Some(e@),
        },
{
    if is_blank(env.hub_entrypoint_address.as_str()) {
        return Err(ConfigError::Missing(MissingSetting::HubEntrypointAddress));
    }
    if is_blank(env.hub_safe_4337_module_address.as_str()) {
        return Err(ConfigError::Missing(MissingSetting::HubSafe4337ModuleAddress));
    }
    if is_blank(env.hub_bundler_urls.as_str()) {
        return Err(ConfigError::Missing(MissingSetting::HubBundlerUrls));
    }
    let entrypoint = address_setting("HUB_ENTRYPOINT_ADDRESS", env.hub_entrypoint_address.as_str())?;
    let safe = optional_address_setting("HUB_SAFE_ADDRESS", env.hub_safe_address.as_str())?;
    let module = address_setting(
        "HUB_SAFE_4337_MODULE_ADDRESS",
        env.hub_safe_4337_module_address.as_str(),
    )?;
    let deployment = if safe.is_some() {
        None
    } else {
        Some(deployment_settings(env)?)
    };
    let bundlers = match parse_csv("HUB_BUNDLER_URLS", env.hub_bundler_urls.as_str()) {
        Ok(b) => b,
        Err(e) => return Err(ConfigError::Invalid(e)),
    };
    let ghost pm0 = pm;
    let paymasters = if is_blank(env.hub_paymasters_json.as_str()) {
        Vec::new()
    } else {
        match pm {
            Err(d) => return Err(ConfigError::PaymastersJson(d)),
            Ok(v) => normalize_paymasters(v)?,
        }
    };
    Ok(Safe4337Parts { entrypoint, safe, module, deployment, bundlers, paymasters })
}

/// The bytes of each key of a list.
pub open spec fn key_bytes(v: Seq<[u8; 32]>) -> Seq<Seq<u8>> {
    v.map_values(|a: [u8; 32]| a@)
}

/// The keys of `TRON_PRIVATE_KEYS_HEX_CSV`.
pub open spec fn key_csv_of(s: Seq<char>) -> Result<Seq<Seq<u8>>, ParseErrorView> {
    if csv_items(s).len() == 0 {
        Err(ParseErrorView::MustBeNonEmpty { label: "TRON_PRIVATE_KEYS_HEX_CSV"@ })
    } else {
        hex32_list_of("TRON_PRIVATE_KEYS_HEX_CSV"@, csv_items(s))
    }
}

/// The Tron keys in the order given: `TRON_PRIVATE_KEY_HEX` when not blank, then those of
/// `TRON_PRIVATE_KEYS_HEX_CSV` when not blank.
pub open spec fn tron_keys_of(env: SolverEnv) -> Result<Seq<Seq<u8>>, ParseErrorView> {
    let single: Result<Seq<Seq<u8>>, ParseErrorView> = if blank(env.tron_private_key_hex@) {
        Ok(Seq::empty())
    } else {
        match hex32_of("TRON_PRIVATE_KEY_HEX"@, env.tron_private_key_hex@) {
            Ok(b) => Ok(seq![b]),
            Err(e) => Err(e),
        }
    };
    match single {
        Err(e) => Err(e),
        Ok(a) => if blank(env.tron_private_keys_hex_csv@) {
            Ok(a)
        } else {
            match key_csv_of(env.tron_private_keys_hex_csv@) {
                Err(e) => Err(e),
                Ok(b) => Ok(a + b),
            }
        },
    }
}

/// The entries of `s`, each kept at its first occurrence only.
pub open spec fn dedup(s: Seq<Seq<u8>>) -> Seq<Seq<u8>>
    decreases s.len(),
{
    if s.len() == 0 {
        s
    } else {
        let d = dedup(s.drop_last());
        if d.contains(s.last()) {
            d
        } else {
            d.push(s.last())
        }
    }
}

/// The Tron mode and what it needs: in gRPC mode an endpoint, at least one key and the
/// controller; in mock mode the reader address.
pub open spec fn tron_error(env: SolverEnv) -> Option<ConfigErrorView> {
    match tron_mode_of(env.tron_mode@) {
        Err(e) => Some(ConfigErrorView::Invalid(e)),
        Ok(TronMode::Grpc) => if blank(env.tron_grpc_url@) {
            Some(ConfigErrorView::Missing(MissingSetting::TronGrpcUrl))
        } else if blank(env.tron_private_key_hex@) && blank(env.tron_private_keys_hex_csv@) {
            Some(ConfigErrorView::Missing(MissingSetting::TronPrivateKeys))
        } else if blank(env.tron_controller_address@) {
            Some(ConfigErrorView::Missing(MissingSetting::TronControllerAddress))
        } else {
            match tron_keys_of(env) {
                Err(e) => Some(ConfigErrorView::Invalid(e)),
                Ok(ks) => if dedup(ks).len() == 0 {
                    Some(ConfigErrorView::Missing(MissingSetting::NoTronKeys))
                } else {
                    None
                },
            }
        },
        Ok(TronMode::Mock) => if blank(env.tron_mock_reader_address@) {
            Some(ConfigErrorView::Missing(MissingSetting::TronMockReaderAddress))
        } else {
            None
        },
    }
}

fn same_key(a: &[u8; 32], b: &[u8; 32]) -> (r: bool)
    ensures
        r == (a@ == b@),
{
    let mut i: usize = 0;
    while i < 32
        invariant
            i <= 32,
            forall|j: int| 0 <= j < i ==> a@[j] == b@[j],
        decreases 32 - i,
    {
        if a[i] != b[i] {
            return false;
        }
        i = i + 1;
    }
    assert(a@ =~= b@);
    true
}

fn holds_key(keys: &Vec<[u8; 32]>, k: &[u8; 32]) -> (r: bool)
    ensures
        r == key_bytes(keys@).contains(k@),
{
    let mut i: usize = 0;
    while i < keys.len()
        invariant
            i <= keys@.len(),
            forall|j: int| 0 <= j < i ==> keys@[j]@ != k@,
        decreases keys@.len() - i,
    {
        if same_key(&keys[i], k) {
            assert(key_bytes(keys@)[i as int] == k@);
            return true;
        }
        i = i + 1;
    }
    assert forall|j: int| 0 <= j < key_bytes(keys@).len() implies key_bytes(keys@)[j] != k@ by {
        assert(key_bytes(keys@)[j] == keys@[j]@);
    }
    false
}

/// Keeps each key at its first occurrence only.
pub fn dedup_keys(keys: &Vec<[u8; 32]>) -> (out: Vec<[u8; 32]>)
    ensures
        key_bytes(out@) == dedup(key_bytes(keys@)),
{
    let ghost all = key_bytes(keys@);
    let mut out: Vec<[u8; 32]> = Vec::new();
    let mut i: usize = 0;
    assert(all.take(0) =~= Seq::<Seq<u8>>::empty());
    assert(key_bytes(out@) =~= Seq::<Seq<u8>>::empty());
    while i < keys.len()
        invariant
            i <= keys@.len(),
            all == key_bytes(keys@),
            key_bytes(out@) == dedup(all.take(i as int)),
        decreases keys@.len() - i,
    {
        proof {
            lemma_take_last(all, i as int);
        }
        let k = keys[i];
        if !holds_key(&out, &k) {
            let ghost before = key_bytes(out@);
            out.push(k);
            assert(key_bytes(out@) =~= before.push(k@));
        }
        i = i + 1;
    }
    assert(all.take(i as int) =~= all);
    out
}

fn tron_keys(env: &SolverEnv) -> (r: Result<Vec<[u8; 32]>, ConfigError>)
    ensures
        match r {
            Ok(keys) => tron_keys_of(*env) == Ok::<Seq<Seq<u8>>, ParseErrorView>(key_bytes(keys@)),
            Err(e) => invalid(tron_keys_of(*env)) == Some(e@),
        },
{
    let mut keys: Vec<[u8; 32]> = Vec::new();
    if !is_blank(env.tron_private_key_hex.as_str()) {
        match parse_hex_32("TRON_PRIVATE_KEY_HEX", env.tron_private_key_hex.as_str()) {
            Ok(k) => {
                keys.push(k);
                assert(key_bytes(keys@) =~= seq![k@]);
            },
            Err(e) => return Err(ConfigError::Invalid(e)),
        }
    } else {
        assert(key_bytes(keys@) =~= Seq::<Seq<u8>>::empty());
    }
    let ghost first = key_bytes(keys@);
    if !is_blank(env.tron_private_keys_hex_csv.as_str()) {
        match parse_hex_32_csv("TRON_PRIVATE_KEYS_HEX_CSV", env.tron_private_keys_hex_csv.as_str()) {
            Ok(more) => {
                let mut more = more;
                let ghost m = key_bytes(more@);
                assert(m == more@.map_values(|a: [u8; 32]| a@));
                keys.append(&mut more);
                assert(key_bytes(keys@) =~= first + m);
            },
            Err(e) => return Err(ConfigError::Invalid(e)),
        }
    }
    Ok(keys)
}

fn tron_settings(env: &SolverEnv) -> (r: Result<(TronMode, Vec<[u8; 32]>), ConfigError>)
    ensures
        match r {
            Ok((m, keys)) => {
                &&& tron_error(*env) is None
                &&& tron_mode_of(env.tron_mode@) == Ok::<TronMode, ParseErrorView>(m)
                &&& m == TronMode::Grpc ==> (tron_keys_of(*env) matches Ok(ks) && key_bytes(keys@)
                    == dedup(ks) && keys@.len() > 0)
                &&& m == TronMode::Mock ==> keys@.len() == 0
            },
            Err(e) => tron_error(*env) == Some(e@),
        },
{
    let mode = match parse_tron_mode(env.tron_mode.as_str()) {
        Ok(m) => m,
        Err(e) => return Err(ConfigError::Invalid(e)),
    };
    match mode {
        TronMode::Grpc => {
            if is_blank(env.tron_grpc_url.as_str()) {
                return Err(ConfigError::Missing(MissingSetting::TronGrpcUrl));
            }
            if is_blank(env.tron_private_key_hex.as_str()) && is_blank(
                env.tron_private_keys_hex_csv.as_str(),
            ) {
                return Err(ConfigError::Missing(MissingSetting::TronPrivateKeys));
            }
            if is_blank(env.tron_controller_address.as_str()) {
                return Err(ConfigError::Missing(MissingSetting::TronControllerAddress));
            }
            let keys = tron_keys(env)?;
            let out = dedup_keys(&keys);
            if out.len() == 0 {
                return Err(ConfigError::Missing(MissingSetting::NoTronKeys));
            }
            Ok((mode, out))
        },
        TronMode::Mock => {
            if is_blank(env.tron_mock_reader_address.as_str()) {
                return Err(ConfigError::Missing(MissingSetting::TronMockReaderAddress));
            }
            Ok((mode, Vec::new()))
        },
    }
}

/// What is wrong with one rental provider entry: a blank name, or a blank url.
pub open spec fn provider_entry_error(p: JsonApiRentalProviderConfig) -> Option<ConfigErrorView> {
    if blank(p.name@) {
        Some(ConfigErrorView::EmptyProviderName)
    } else if blank(p.url@) {
        Some(ConfigErrorView::EmptyProviderUrl)
    } else {
        None
    }
}

/// The first faulty provider entry's error.
pub open spec fn providers_error(v: Seq<JsonApiRentalProviderConfig>) -> Option<ConfigErrorView>
    decreases v.len(),
{
    if v.len() == 0 {
        None
    } else {
        first_error(providers_error(v.drop_last()), provider_entry_error(v.last()))
    }
}

/// `out` is the provider `p` with its name and url trimmed and a blank method replaced by
/// `POST`.
pub open spec fn provider_normalized(p: JsonApiRentalProviderConfig, out: JsonApiRentalProviderConfig) -> bool {
    &&& out.name@ == trim(p.name@)
    &&& out.url@ == trim(p.url@)
    &&& out.method@ == (if blank(p.method@) {
        "POST"@
    } else {
        p.method@
    })
    &&& out.headers == p.headers
    &&& out.body == p.body
    &&& out.response == p.response
    &&& out.quote == p.quote
}

/// Each provider of `out` is the one of `input` at the same place, normalised.
pub open spec fn providers_normalized(
    input: Seq<JsonApiRentalProviderConfig>,
    out: Seq<JsonApiRentalProviderConfig>,
) -> bool {
    &&& out.len() == input.len()
    &&& forall|i: int| 0 <= i < out.len() ==> provider_normalized(input[i], #[trigger] out[i])
}

/// The rental providers setting: nothing when blank; else the JSON reader's list, which
/// must hold a name and a url in each entry.
pub open spec fn providers_outcome_error(
    text: Seq<char>,
    parsed: Result<Vec<JsonApiRentalProviderConfig>, String>,
) -> Option<ConfigErrorView> {
    if blank(text) {
        None
    } else {
        match parsed {
            Err(d) => Some(ConfigErrorView::RentalApisJson(d@)),
            Ok(v) => providers_error(v@),
        }
    }
}

/// The rental providers taken from the setting.
pub open spec fn providers_from(
    text: Seq<char>,
    parsed: Result<Vec<JsonApiRentalProviderConfig>, String>,
    out: Seq<JsonApiRentalProviderConfig>,
) -> bool {
    if blank(text) {
        out.len() == 0
    } else {
        parsed matches Ok(v) && providers_normalized(v@, out)
    }
}

proof fn lemma_providers_error_persists(s: Seq<JsonApiRentalProviderConfig>, j: int)
    requires
        0 <= j <= s.len(),
        providers_error(s.take(j)) is Some,
    ensures
        providers_error(s) == providers_error(s.take(j)),
    decreases s.len() - j,
{
    if j < s.len() {
        lemma_take_last(s, j);
        lemma_providers_error_persists(s, j + 1);
    } else {
        assert(s.take(j) =~= s);
    }
}

fn check_providers(v: &Vec<JsonApiRentalProviderConfig>) -> (r: Result<(), ConfigError>)
    ensures
        match r {
            Ok(_) => providers_error(v@) is None,
            Err(e) => providers_error(v@) == Some(e@),
        },
{
    let mut k: usize = 0;
    assert(v@.take(0) =~= Seq::<JsonApiRentalProviderConfig>::empty());
    while k < v.len()
        invariant
            k <= v@.len(),
            providers_error(v@.take(k as int)) is None,
        decreases v@.len() - k,
    {
        proof {
            lemma_take_last(v@, k as int);
        }
        if is_blank(v[k].name.as_str()) {
            proof {
                lemma_providers_error_persists(v@, k + 1);
                assert(v@.take(v@.len() as int) =~= v@);
            }
            return Err(ConfigError::EmptyProviderName);
        }
        if is_blank(v[k].url.as_str()) {
            proof {
                lemma_providers_error_persists(v@, k + 1);
                assert(v@.take(v@.len() as int) =~= v@);
            }
            return Err(ConfigError::EmptyProviderUrl);
        }
        k = k + 1;
    }
    assert(v@.take(k as int) =~= v@);
    Ok(())
}

fn normalize_provider(p: JsonApiRentalProviderConfig) -> (out: JsonApiRentalProviderConfig)
    ensures
        provider_normalized(p, out),
{
    let JsonApiRentalProviderConfig { name, url, method, headers, body, response, quote } = p;
    let method = if is_blank(method.as_str()) {
        "POST".to_owned()
    } else {
        method
    };
    JsonApiRentalProviderConfig {
        name: trim_str(name.as_str()),
        url: trim_str(url.as_str()),
        method,
        headers,
        body,
        response,
        quote,
    }
}

/// Checks the rental providers the JSON reader gave: names and urls are trimmed and must not
/// be blank, and a blank method becomes `POST`; the first faulty entry is reported.
pub fn normalize_rental_providers(v: Vec<JsonApiRentalProviderConfig>) -> (r: Result<
    Vec<JsonApiRentalProviderConfig>,
    ConfigError,
>)
    ensures
        match r {
            Ok(out) => providers_error(v@) is None && providers_normalized(v@, out@),
            Err(e) => providers_error(v@) == Some(e@),
        },
{
    check_providers(&v)?;
    let ghost orig = v@;
    let mut rest = v;
    let n: usize = rest.len();
    let mut out: Vec<JsonApiRentalProviderConfig> = Vec::new();
    let mut k: usize = 0;
    assert(orig.subrange(0, orig.len() as int) =~= orig);
    while rest.len() > 0
        invariant
            n == orig.len(),
            k + rest@.len() == orig.len(),
            rest@ == orig.subrange(k as int, orig.len() as int),
            out@.len() == k,
            forall|i: int| 0 <= i < k ==> provider_normalized(orig[i], #[trigger] out@[i]),
        decreases rest@.len(),
    {
        let p = rest.remove(0);
        assert(p == orig[k as int]);
        assert(rest@ =~= orig.subrange(k + 1, orig.len() as int));
        out.push(normalize_provider(p));
        k = k + 1;
    }
    Ok(out)
}

/// The settings read last, in order: the mock reader address, the rental providers, the
/// priced escrow tokens, the trigger contract denylist, the trigger selector denylist.
pub open spec fn tail_error(
    env: SolverEnv,
    rp: Result<Vec<JsonApiRentalProviderConfig>, String>,
) -> Option<ConfigErrorView> {
    first_error(
        invalid(optional_address_of("TRON_MOCK_READER_ADDRESS"@, env.tron_mock_reader_address@)),
        first_error(
            providers_outcome_error(env.tron_energy_rental_apis_json@, rp),
            first_error(
                invalid(
                    addresses_of(
                        "SOLVER_ALLOWED_ESCROW_TOKENS_CSV"@,
                        trimmed_pieces(env.solver_allowed_escrow_tokens_csv@),
                    ),
                ),
                first_error(
                    invalid(
                        addresses_of(
                            "SOLVER_TRIGGER_CONTRACT_DENYLIST_CSV"@,
                            trimmed_pieces(env.solver_trigger_contract_denylist_csv@),
                        ),
                    ),
                    invalid(
                        selectors_of(
                            "SOLVER_TRIGGER_SELECTOR_DENYLIST_CSV"@,
                            trimmed_pieces(env.solver_trigger_selector_denylist_csv@),
                        ),
                    ),
                ),
            ),
        ),
    )
}

/// The bytes of each selector of a list.
pub open spec fn selector_bytes(v: Seq<[u8; 4]>) -> Seq<Seq<u8>> {
    v.map_values(|a: [u8; 4]| a@)
}

struct TailParts {
    mock_reader: Option<Address>,
    providers: Vec<JsonApiRentalProviderConfig>,
    escrow_tokens: Vec<Address>,
    denylist: Vec<Address>,
    selectors: Vec<[u8; 4]>,
}

spec fn tail_parts_from(
    env: SolverEnv,
    rp: Result<Vec<JsonApiRentalProviderConfig>, String>,
    t: TailParts,
) -> bool {
    &&& optional_address_of("TRON_MOCK_READER_ADDRESS"@, env.tron_mock_reader_address@) == Ok::<
        Option<Seq<u8>>,
        ParseErrorView,
    >(opt_bytes(t.mock_reader))
    &&& providers_from(env.tron_energy_rental_apis_json@, rp, t.providers@)
    &&& addresses_of(
        "SOLVER_ALLOWED_ESCROW_TOKENS_CSV"@,
        trimmed_pieces(env.solver_allowed_escrow_tokens_csv@),
    ) == Ok::<Seq<Seq<u8>>, ParseErrorView>(address_bytes(t.escrow_tokens@))
    &&& addresses_of(
        "SOLVER_TRIGGER_CONTRACT_DENYLIST_CSV"@,
        trimmed_pieces(env.solver_trigger_contract_denylist_csv@),
    ) == Ok::<Seq<Seq<u8>>, ParseErrorView>(address_bytes(t.denylist@))
    &&& selectors_of(
        "SOLVER_TRIGGER_SELECTOR_DENYLIST_CSV"@,
        trimmed_pieces(env.solver_trigger_selector_denylist_csv@),
    ) == Ok::<Seq<Seq<u8>>, ParseErrorView>(selector_bytes(t.selectors@))
}

fn tail_settings(env: &SolverEnv, rp: Result<Vec<JsonApiRentalProviderConfig>, String>) -> (r: Result<
    TailParts,
    ConfigError,
>)
    ensures
        match r {
            Ok(t) => tail_error(*env, rp) is None && tail_parts_from(*env, rp, t),
            Err(e) => tail_error(*env, rp) == Some(e@),
        },
{
    let mock_reader = optional_address_setting(
        "TRON_MOCK_READER_ADDRESS",
        env.tron_mock_reader_address.as_str(),
    )?;
    let providers = if is_blank(env.tron_energy_rental_apis_json.as_str()) {
        Vec::new()
    } else {
        match rp {
            Err(d) => return Err(ConfigError::RentalApisJson(d)),
            Ok(v) => normalize_rental_providers(v)?,
        }
    };
    let escrow_tokens = match parse_addresses_csv(
        "SOLVER_ALLOWED_ESCROW_TOKENS_CSV",
        env.solver_allowed_escrow_tokens_csv.as_str(),
    ) {
        Ok(v) => v,
        Err(e) => return Err(ConfigError::Invalid(e)),
    };
    let denylist = match parse_addresses_csv(
        "SOLVER_TRIGGER_CONTRACT_DENYLIST_CSV",
        env.solver_trigger_contract_denylist_csv.as_str(),
    ) {
        Ok(v) => v,
        Err(e) => return Err(ConfigError::Invalid(e)),
    };
    let selectors = match parse_selectors_csv(
        "SOLVER_TRIGGER_SELECTOR_DENYLIST_CSV",
        env.solver_trigger_selector_denylist_csv.as_str(),
    ) {
        Ok(v) => v,
        Err(e) => return Err(ConfigError::Invalid(e)),
    };
    Ok(TailParts { mock_reader, providers, escrow_tokens, denylist, selectors })
}

/// `v`, raised to `lo` when below it.
pub open spec fn at_least(v: int, lo: int) -> int {
    if v < lo {
        lo
    } else {
        v
    }
}

/// `v`, lowered to `hi` when above it.
pub open spec fn at_most(v: int, hi: int) -> int {
    if v > hi {
        hi
    } else {
        v
    }
}

/// A limit where 0 means none.
pub open spec fn nonzero(v: u64) -> Option<u64> {
    if v == 0 {
        None
    } else {
        Some(v)
    }
}

/// The indexer settings, with the timeout and lag raised to at least 1.
pub open spec fn indexer_from(env: SolverEnv, i: IndexerConfig) -> bool {
    &&& i.base_url@ == env.indexer_api_base_url@
    &&& i.timeout == duration_of_secs(at_least(env.indexer_timeout_secs as int, 1) as u64)
    &&& i.max_head_lag_blocks == at_least(env.indexer_max_head_lag_blocks as int, 1)
}

fn indexer_settings(env: &SolverEnv) -> (i: IndexerConfig)
    ensures
        indexer_from(*env, i),
{
    let t = if env.indexer_timeout_secs < 1 {
        1
    } else {
        env.indexer_timeout_secs
    };
    IndexerConfig {
        base_url: env.indexer_api_base_url.clone(),
        timeout: duration_from_secs(t),
        max_head_lag_blocks: if env.indexer_max_head_lag_blocks < 1 {
            1
        } else {
            env.indexer_max_head_lag_blocks
        },
    }
}

/// The job runner settings: intervals, windows and concurrency limits raised to at least 1,
/// the in-flight limit also kept within the claim limit, the breaker penalty kept within
/// 1..=100, the reservation time-to-live raised to at least 30 seconds, the pull share kept
/// within one million ppm.
pub open spec fn jobs_from(env: SolverEnv, j: JobConfig) -> bool {
    &&& j.tick_interval == duration_of_secs(at_least(env.solver_tick_interval_secs as int, 1) as u64)
    &&& j.tron_finality_blocks == env.tron_finality_blocks
    &&& j.tip_proof_resend_blocks == at_least(env.tron_tip_proof_resend_blocks as int, 1)
    &&& j.process_controller_max_events == env.process_controller_max_events
    &&& j.fill_max_claims == env.fill_max_claims
    &&& j.max_in_flight_jobs == at_most(
        at_least(env.solver_max_in_flight_jobs as int, 1),
        at_least(env.fill_max_claims as int, 1),
    )
    &&& j.concurrency_trx_transfer == at_least(env.solver_concurrency_trx_transfer as int, 1)
    &&& j.concurrency_usdt_transfer == at_least(env.solver_concurrency_usdt_transfer as int, 1)
    &&& j.concurrency_delegate_resource == at_least(
        env.solver_concurrency_delegate_resource as int,
        1,
    )
    &&& j.concurrency_trigger_smart_contract == at_least(
        env.solver_concurrency_trigger_smart_contract as int,
        1,
    )
    &&& j.concurrency_tron_broadcast == at_least(env.solver_concurrency_tron_broadcast as int, 1)
    &&& j.consolidation_enabled == env.solver_consolidation_enabled
    &&& j.consolidation_max_pre_txs == env.solver_consolidation_max_pre_txs
    &&& j.consolidation_max_total_trx_pull_sun == env.solver_consolidation_max_total_trx_pull_sun
    &&& j.consolidation_max_per_tx_trx_pull_sun == env.solver_consolidation_max_per_tx_trx_pull_sun
    &&& j.consolidation_max_total_usdt_pull_amount
        == env.solver_consolidation_max_total_usdt_pull_amount
    &&& j.consolidation_max_per_tx_usdt_pull_amount
        == env.solver_consolidation_max_per_tx_usdt_pull_amount
    &&& j.rate_limit_claims_per_minute_global == env.solver_rate_limit_claims_per_minute_global
    &&& j.rate_limit_claims_per_minute_trx_transfer
        == env.solver_rate_limit_claims_per_minute_trx_transfer
    &&& j.rate_limit_claims_per_minute_usdt_transfer
        == env.solver_rate_limit_claims_per_minute_usdt_transfer
    &&& j.rate_limit_claims_per_minute_delegate_resource
        == env.solver_rate_limit_claims_per_minute_delegate_resource
    &&& j.rate_limit_claims_per_minute_trigger_smart_contract
        == env.solver_rate_limit_claims_per_minute_trigger_smart_contract
    &&& j.global_pause_fatal_threshold == env.solver_global_pause_fatal_threshold
    &&& j.global_pause_window_secs == at_least(env.solver_global_pause_window_secs as int, 1)
    &&& j.global_pause_duration_secs == at_least(env.solver_global_pause_duration_secs as int, 1)
    &&& j.breaker_mismatch_penalty == at_most(
        at_least(env.solver_breaker_mismatch_penalty as int, 1),
        100,
    )
    &&& j.delegate_reservation_ttl_secs == at_least(
        env.solver_delegate_reservation_ttl_secs as int,
        30,
    )
    &&& j.controller_rebalance_threshold_usdt@ == env.controller_rebalance_threshold_usdt@
    &&& j.controller_rebalance_keep_usdt@ == env.controller_rebalance_keep_usdt@
    &&& j.pull_liquidity_ppm == at_most(env.pull_liquidity_ppm as int, 1_000_000)
}

fn raise_to(v: u64, lo: u64) -> (r: u64)
    ensures
        r == at_least(v as int, lo as int),
{
    if v < lo {
        lo
    } else {
        v
    }
}

fn lower_to(v: u64, hi: u64) -> (r: u64)
    ensures
        r == at_most(v as int, hi as int),
{
    if v > hi {
        hi
    } else {
        v
    }
}

fn job_settings(env: &SolverEnv) -> (j: JobConfig)
    ensures
        jobs_from(*env, j),
{
    let tick = raise_to(env.solver_tick_interval_secs, 1);
    JobConfig {
        tick_interval: duration_from_secs(tick),
        tron_finality_blocks: env.tron_finality_blocks,
        tip_proof_resend_blocks: raise_to(env.tron_tip_proof_resend_blocks, 1),
        process_controller_max_events: env.process_controller_max_events,
        fill_max_claims: env.fill_max_claims,
        max_in_flight_jobs: lower_to(
            raise_to(env.solver_max_in_flight_jobs, 1),
            raise_to(env.fill_max_claims, 1),
        ),
        concurrency_trx_transfer: raise_to(env.solver_concurrency_trx_transfer, 1),
        concurrency_usdt_transfer: raise_to(env.solver_concurrency_usdt_transfer, 1),
        concurrency_delegate_resource: raise_to(env.solver_concurrency_delegate_resource, 1),
        concurrency_trigger_smart_contract: raise_to(
            env.solver_concurrency_trigger_smart_contract,
            1,
        ),
        concurrency_tron_broadcast: raise_to(env.solver_concurrency_tron_broadcast, 1),
        consolidation_enabled: env.solver_consolidation_enabled,
        consolidation_max_pre_txs: env.solver_consolidation_max_pre_txs,
        consolidation_max_total_trx_pull_sun: env.solver_consolidation_max_total_trx_pull_sun,
        consolidation_max_per_tx_trx_pull_sun: env.solver_consolidation_max_per_tx_trx_pull_sun,
        consolidation_max_total_usdt_pull_amount: env.solver_consolidation_max_total_usdt_pull_amount,
        consolidation_max_per_tx_usdt_pull_amount: env.solver_consolidation_max_per_tx_usdt_pull_amount,
        rate_limit_claims_per_minute_global: env.solver_rate_limit_claims_per_minute_global,
        rate_limit_claims_per_minute_trx_transfer: env.solver_rate_limit_claims_per_minute_trx_transfer,
        rate_limit_claims_per_minute_usdt_transfer: env.solver_rate_limit_claims_per_minute_usdt_transfer,
        rate_limit_claims_per_minute_delegate_resource:
            env.solver_rate_limit_claims_per_minute_delegate_resource,
        rate_limit_claims_per_minute_trigger_smart_contract:
            env.solver_rate_limit_claims_per_minute_trigger_smart_contract,
        global_pause_fatal_threshold: env.solver_global_pause_fatal_threshold,
        global_pause_window_secs: raise_to(env.solver_global_pause_window_secs, 1),
        global_pause_duration_secs: raise_to(env.solver_global_pause_duration_secs, 1),
        breaker_mismatch_penalty: lower_to(raise_to(env.solver_breaker_mismatch_penalty, 1), 100),
        delegate_reservation_ttl_secs: raise_to(env.solver_delegate_reservation_ttl_secs, 30),
        controller_rebalance_threshold_usdt: env.controller_rebalance_threshold_usdt.clone(),
        controller_rebalance_keep_usdt: env.controller_rebalance_keep_usdt.clone(),
        pull_liquidity_ppm: lower_to(env.pull_liquidity_ppm, 1_000_000),
    }
}

/// The price sources, with their time-to-live raised to at least one second.
pub open spec fn pricing_from(env: SolverEnv, p: PricingSettings) -> bool {
    &&& p.trx_usd_ttl == duration_of_secs(at_least(env.solver_trx_usd_ttl_secs as int, 1) as u64)
    &&& p.trx_usd_url@ == env.solver_trx_usd_url@
    &&& p.eth_usd_ttl == duration_of_secs(at_least(env.solver_eth_usd_ttl_secs as int, 1) as u64)
    &&& p.eth_usd_url@ == env.solver_eth_usd_url@
}

fn pricing_settings(env: &SolverEnv) -> (p: PricingSettings)
    ensures
        pricing_from(*env, p),
{
    let trx_ttl = raise_to(env.solver_trx_usd_ttl_secs, 1);
    let eth_ttl = raise_to(env.solver_eth_usd_ttl_secs, 1);
    PricingSettings {
        trx_usd_ttl: duration_from_secs(trx_ttl),
        trx_usd_url: env.solver_trx_usd_url.clone(),
        eth_usd_ttl: duration_from_secs(eth_ttl),
        eth_usd_url: env.solver_eth_usd_url.clone(),
    }
}

/// The first error met when the settings are read in order: the required settings, the hub
/// mode and pool, the intent types and trigger allowlist, the hub signer key, the Safe4337
/// settings (in that mode only), the Tron settings, and the settings read last.
pub open spec fn load_error(
    env: SolverEnv,
    pm: Result<Vec<PaymasterServiceConfig>, String>,
    rp: Result<Vec<JsonApiRentalProviderConfig>, String>,
) -> Option<ConfigErrorView> {
    first_error(
        required_error(env),
        first_error(
            hub_basics_error(env),
            first_error(
                intents_error(env),
                first_error(
                    signer_error(env),
                    first_error(
                        match hub_tx_mode_of(env.hub_tx_mode@) {
                            Ok(HubTxMode::Safe4337) => safe4337_error(env, pm),
                            _ => None,
                        },
                        first_error(tron_error(env), tail_error(env, rp)),
                    ),
                ),
            ),
        ),
    )
}

/// The account-abstraction part of the hub settings: in the Safe4337 mode the configured
/// entry point, Safe, module, deployment (exactly when there is no Safe), bundler urls and
/// paymasters; in the EOA mode none of them.
pub open spec fn hub_aa_from(
    env: SolverEnv,
    pm: Result<Vec<PaymasterServiceConfig>, String>,
    h: HubConfig,
) -> bool {
    if h.tx_mode == HubTxMode::Safe4337 {
        &&& h.entrypoint matches Some(a) && address_of(
            "HUB_ENTRYPOINT_ADDRESS"@,
            env.hub_entrypoint_address@,
        ) == Ok::<Seq<u8>, ParseErrorView>(a.bytes@)
        &&& optional_address_of("HUB_SAFE_ADDRESS"@, env.hub_safe_address@) == Ok::<
            Option<Seq<u8>>,
            ParseErrorView,
        >(opt_bytes(h.safe))
        &&& h.safe_4337_module matches Some(a) && address_of(
            "HUB_SAFE_4337_MODULE_ADDRESS"@,
            env.hub_safe_4337_module_address@,
        ) == Ok::<Seq<u8>, ParseErrorView>(a.bytes@)
        &&& match h.safe {
            Some(_) => h.safe_deployment is None,
            None => h.safe_deployment matches Some(d) && deployment_from(env, d),
        }
        &&& string_views(h.bundler_urls@) == csv_items(env.hub_bundler_urls@)
        &&& paymasters_from(env.hub_paymasters_json@, pm, h.paymasters@)
    } else {
        &&& h.entrypoint is None
        &&& h.safe is None
        &&& h.safe_4337_module is None
        &&& h.safe_deployment is None
        &&& h.bundler_urls@.len() == 0
        &&& h.paymasters@.len() == 0
    }
}

/// The hub settings read from the environment.
pub open spec fn hub_from(
    env: SolverEnv,
    pm: Result<Vec<PaymasterServiceConfig>, String>,
    h: HubConfig,
) -> bool {
    &&& hub_tx_mode_of(env.hub_tx_mode@) == Ok::<HubTxMode, ParseErrorView>(h.tx_mode)
    &&& h.rpc_url@ == env.hub_rpc_url@
    &&& h.chain_id == env.hub_chain_id
    &&& hub_pool_of(env) == Ok::<Seq<u8>, ParseErrorView>(h.pool.bytes@)
    &&& hex32_of("HUB_SIGNER_PRIVATE_KEY_HEX"@, env.hub_signer_private_key_hex@) == Ok::<
        Seq<u8>,
        ParseErrorView,
    >(h.signer_private_key@)
    &&& hub_aa_from(env, pm, h)
}

/// The API key, unless blank.
pub open spec fn api_key_from(given: Option<String>, out: Option<String>) -> bool {
    match given {
        Some(k) => if blank(k@) {
            out is None
        } else {
            out matches Some(o) && o@ == k@
        },
        None => out is None,
    }
}

/// The Tron settings read from the environment: in gRPC mode the keys given, each once, the
/// first of them being the default key; in mock mode no key and a zero default key; the fee
/// cap raised to at least one million sun, headrooms kept within one million ppm, the cache
/// time-to-live and the provider failure threshold and window raised to at least 1, the
/// freeze time to at least 0; reselling only when providers are configured.
pub open spec fn tron_from(
    env: SolverEnv,
    rp: Result<Vec<JsonApiRentalProviderConfig>, String>,
    t: TronConfig,
) -> bool {
    &&& tron_mode_of(env.tron_mode@) == Ok::<TronMode, ParseErrorView>(t.mode)
    &&& t.grpc_url@ == env.tron_grpc_url@
    &&& api_key_from(env.tron_api_key, t.api_key)
    &&& t.mode == TronMode::Grpc ==> (tron_keys_of(env) matches Ok(ks) && key_bytes(
        t.private_keys@,
    ) == dedup(ks) && t.private_keys@.len() > 0 && t.private_key == t.private_keys@[0])
    &&& t.mode == TronMode::Mock ==> (t.private_keys@.len() == 0 && all_zero(t.private_key@))
    &&& t.controller_address@ == env.tron_controller_address@
    &&& optional_address_of("TRON_MOCK_READER_ADDRESS"@, env.tron_mock_reader_address@) == Ok::<
        Option<Seq<u8>>,
        ParseErrorView,
    >(opt_bytes(t.mock_reader_address))
    &&& t.block_lag == env.tron_block_lag
    &&& t.fee_limit_cap_sun == at_least(env.tron_fee_limit_cap_sun as int, 1_000_000)
    &&& t.fee_limit_headroom_ppm == at_most(env.tron_fee_limit_headroom_ppm as int, 1_000_000)
    &&& t.stake_totals_cache_ttl_secs == at_least(env.tron_stake_totals_cache_ttl_secs as int, 1)
    &&& providers_from(env.tron_energy_rental_apis_json@, rp, t.energy_rental_providers@)
    &&& t.delegate_resource_resell_enabled == (env.tron_delegate_resource_resell_enabled && !blank(
        env.tron_energy_rental_apis_json@,
    ))
    &&& t.rental_provider_fail_threshold == at_least(
        env.tron_rental_provider_fail_threshold as int,
        1,
    )
    &&& t.rental_provider_fail_window_secs == at_least(
        env.tron_rental_provider_fail_window_secs as int,
        1,
    )
    &&& t.rental_provider_freeze_secs == at_least(env.tron_rental_provider_freeze_secs as int, 0)
    &&& t.resell_energy_headroom_ppm == at_most(env.tron_resell_energy_headroom_ppm as int, 1_000_000)
    &&& t.emulation_enabled == env.solver_tron_emulation_enabled
}

/// The policy settings read from the environment: limits of 0 mean none, lookbacks are
/// raised to at least 1, headrooms and the capital lock rate kept within one million ppm.
pub open spec fn policy_from(env: SolverEnv, p: PolicySettings) -> bool {
    &&& enabled_intent_types(env.solver_enabled_intent_types@) == Ok::<
        Seq<IntentType>,
        ParseErrorView,
    >(p.rules.enabled_intent_types@)
    &&& p.rules.min_deadline_slack_secs == env.solver_min_deadline_slack_secs
    &&& addresses_of(
        "SOLVER_TRIGGER_CONTRACT_ALLOWLIST_CSV"@,
        trimmed_pieces(env.solver_trigger_contract_allowlist_csv@),
    ) == Ok::<Seq<Seq<u8>>, ParseErrorView>(address_bytes(p.rules.trigger_contract_allowlist@))
    &&& addresses_of(
        "SOLVER_TRIGGER_CONTRACT_DENYLIST_CSV"@,
        trimmed_pieces(env.solver_trigger_contract_denylist_csv@),
    ) == Ok::<Seq<Seq<u8>>, ParseErrorView>(address_bytes(p.rules.trigger_contract_denylist@))
    &&& selectors_of(
        "SOLVER_TRIGGER_SELECTOR_DENYLIST_CSV"@,
        trimmed_pieces(env.solver_trigger_selector_denylist_csv@),
    ) == Ok::<Seq<Seq<u8>>, ParseErrorView>(selector_bytes(p.rules.trigger_selector_denylist@))
    &&& p.rules.trigger_allow_fallback_calls == env.solver_trigger_allow_fallback_calls
    &&& p.rules.max_trx_transfer_sun == nonzero(env.solver_max_trx_transfer_sun)
    &&& p.rules.max_usdt_transfer_amount == nonzero(env.solver_max_usdt_transfer_amount)
    &&& p.rules.max_delegate_balance_sun == nonzero(env.solver_max_delegate_balance_sun)
    &&& p.rules.max_delegate_lock_period_secs == nonzero(env.solver_max_delegate_lock_period_secs)
    &&& p.rules.max_trigger_call_value_sun == nonzero(env.solver_max_trigger_call_value_sun)
    &&& p.rules.max_trigger_calldata_len == nonzero(env.solver_max_trigger_calldata_len)
    &&& p.hub_cost_history_lookback == at_least(env.solver_hub_cost_history_lookback as int, 1)
    &&& p.hub_cost_headroom_ppm == at_most(env.solver_hub_cost_headroom_ppm as int, 1_000_000)
    &&& p.tron_fee_history_lookback == at_least(env.solver_tron_fee_history_lookback as int, 1)
    &&& p.tron_fee_headroom_ppm == at_most(env.solver_tron_fee_headroom_ppm as int, 1_000_000)
    &&& p.capital_lock_ppm_per_day == at_most(env.solver_capital_lock_ppm_per_day as int, 1_000_000)
    &&& p.require_priced_escrow == env.solver_require_priced_escrow
    &&& addresses_of(
        "SOLVER_ALLOWED_ESCROW_TOKENS_CSV"@,
        trimmed_pieces(env.solver_allowed_escrow_tokens_csv@),
    ) == Ok::<Seq<Seq<u8>>, ParseErrorView>(address_bytes(p.allowed_escrow_tokens@))
}

/// The instance id: the configured one, or `solver:` and the process id when it is blank.
pub open spec fn instance_id_of(given: Seq<char>, pid: u32) -> Seq<char> {
    if blank(given) {
        "solver:"@ + dec(pid as nat)
    } else {
        given
    }
}

/// Every part of `c` is what the environment says, as the parts' own descriptions state.
pub open spec fn loaded_from(
    env: SolverEnv,
    pm: Result<Vec<PaymasterServiceConfig>, String>,
    rp: Result<Vec<JsonApiRentalProviderConfig>, String>,
    pid: u32,
    c: SolverConfig,
) -> bool {
    &&& indexer_from(env, c.indexer)
    &&& hub_from(env, pm, c.hub)
    &&& tron_from(env, rp, c.tron)
    &&& jobs_from(env, c.jobs)
    &&& policy_from(env, c.policy)
    &&& pricing_from(env, c.pricing)
    &&& c.db_url@ == env.solver_db_url@
    &&& c.instance_id@ == instance_id_of(env.solver_instance_id@, pid)
}

fn instance_id(given: &String, pid: u32) -> (s: String)
    ensures
        s@ == instance_id_of(given@, pid),
{
    if is_blank(given.as_str()) {
        let n = u64_to_dec(pid as u64);
        concat_str("solver:", n.as_str())
    } else {
        given.clone()
    }
}

fn api_key(given: &Option<String>) -> (out: Option<String>)
    ensures
        api_key_from(*given, out),
{
    match given {
        Some(k) => if is_blank(k.as_str()) {
            None
        } else {
            Some(k.clone())
        },
        None => None,
    }
}

/// Reads the solver's settings. `paymasters` and `rental_providers` are what the JSON
/// reader made of the (trimmed) texts of `HUB_PAYMASTERS_JSON` and
/// `TRON_ENERGY_RENTAL_APIS_JSON`, or its error; they are used only where the settings call
/// for them. `pid` is the process id, which names the instance when no id is configured.
/// The settings are checked in order and the first fault is reported; otherwise the
/// result holds what each setting says, normalised.
pub fn load_config(
    env: &SolverEnv,
    paymasters: Result<Vec<PaymasterServiceConfig>, String>,
    rental_providers: Result<Vec<JsonApiRentalProviderConfig>, String>,
    pid: u32,
) -> (r: Result<SolverConfig, ConfigError>)
    ensures
        match r {
            Ok(c) => load_error(*env, paymasters, rental_providers) is None && loaded_from(
                *env,
                paymasters,
                rental_providers,
                pid,
                c,
            ),
            Err(e) => load_error(*env, paymasters, rental_providers) == Some(e@),
        },
{
    check_required(env)?;
    let (tx_mode, pool) = hub_basics(env)?;
    let (intent_types, allowlist) = intent_settings(env)?;
    let signer = signer_key(env)?;
    let ghost pm = paymasters;
    let aa = if tx_mode == HubTxMode::Safe4337 {
        Some(safe4337_settings(env, paymasters)?)
    } else {
        None
    };
    let (tron_mode, keys) = tron_settings(env)?;
    let ghost rp = rental_providers;
    let tail = tail_settings(env, rental_providers)?;
    let hub = match aa {
        Some(p) => {
            let Safe4337Parts { entrypoint, safe, module, deployment, bundlers, paymasters } = p;
            HubConfig {
                tx_mode,
                rpc_url: env.hub_rpc_url.clone(),
                chain_id: env.hub_chain_id,
                pool,
                entrypoint: Some(entrypoint),
                safe,
                safe_4337_module: Some(module),
                safe_deployment: deployment,
                bundler_urls: bundlers,
                paymasters,
                signer_private_key: signer,
            }
        },
        None => HubConfig {
            tx_mode,
            rpc_url: env.hub_rpc_url.clone(),
            chain_id: env.hub_chain_id,
            pool,
            entrypoint: None,
            safe: None,
            safe_4337_module: None,
            safe_deployment: None,
            bundler_urls: Vec::new(),
            paymasters: Vec::new(),
            signer_private_key: signer,
        },
    };
    let TailParts { mock_reader, providers, escrow_tokens, denylist, selectors } = tail;
    let private_key: [u8; 32] = if tron_mode == TronMode::Grpc {
        keys[0]
    } else {
        let z: [u8; 32] = [0u8; 32];
        assert(all_zero(z@));
        z
    };
    let resell = env.tron_delegate_resource_resell_enabled && !is_blank(
        env.tron_energy_rental_apis_json.as_str(),
    );
    let tron = TronConfig {
        mode: tron_mode,
        grpc_url: env.tron_grpc_url.clone(),
        api_key: api_key(&env.tron_api_key),
        private_key,
        private_keys: keys,
        controller_address: env.tron_controller_address.clone(),
        mock_reader_address: mock_reader,
        block_lag: env.tron_block_lag,
        fee_limit_cap_sun: raise_to(env.tron_fee_limit_cap_sun, 1_000_000),
        fee_limit_headroom_ppm: lower_to(env.tron_fee_limit_headroom_ppm, 1_000_000),
        stake_totals_cache_ttl_secs: raise_to(env.tron_stake_totals_cache_ttl_secs, 1),
        energy_rental_providers: providers,
        delegate_resource_resell_enabled: resell,
        rental_provider_fail_threshold: if env.tron_rental_provider_fail_threshold < 1 {
            1
        } else {
            env.tron_rental_provider_fail_threshold
        },
        rental_provider_fail_window_secs: if env.tron_rental_provider_fail_window_secs < 1 {
            1
        } else {
            env.tron_rental_provider_fail_window_secs
        },
        rental_provider_freeze_secs: if env.tron_rental_provider_freeze_secs < 0 {
            0
        } else {
            env.tron_rental_provider_freeze_secs
        },
        resell_energy_headroom_ppm: lower_to(env.tron_resell_energy_headroom_ppm, 1_000_000),
        emulation_enabled: env.solver_tron_emulation_enabled,
    };
    let rules = PolicyRules {
        enabled_intent_types: intent_types,
        min_deadline_slack_secs: env.solver_min_deadline_slack_secs,
        trigger_contract_allowlist: allowlist,
        trigger_contract_denylist: denylist,
        trigger_selector_denylist: selectors,
        trigger_allow_fallback_calls: env.solver_trigger_allow_fallback_calls,
        max_trx_transfer_sun: crate::config::opt_u64(env.solver_max_trx_transfer_sun),
        max_usdt_transfer_amount: crate::config::opt_u64(env.solver_max_usdt_transfer_amount),
        max_delegate_balance_sun: crate::config::opt_u64(env.solver_max_delegate_balance_sun),
        max_delegate_lock_period_secs: crate::config::opt_u64(
            env.solver_max_delegate_lock_period_secs,
        ),
        max_trigger_call_value_sun: crate::config::opt_u64(env.solver_max_trigger_call_value_sun),
        max_trigger_calldata_len: crate::config::opt_u64(env.solver_max_trigger_calldata_len),
    };
    let policy = PolicySettings {
        rules,
        hub_cost_history_lookback: raise_to(env.solver_hub_cost_history_lookback, 1),
        hub_cost_headroom_ppm: lower_to(env.solver_hub_cost_headroom_ppm, 1_000_000),
        tron_fee_history_lookback: raise_to(env.solver_tron_fee_history_lookback, 1),
        tron_fee_headroom_ppm: lower_to(env.solver_tron_fee_headroom_ppm, 1_000_000),
        capital_lock_ppm_per_day: lower_to(env.solver_capital_lock_ppm_per_day, 1_000_000),
        require_priced_escrow: env.solver_require_priced_escrow,
        allowed_escrow_tokens: escrow_tokens,
    };
    Ok(SolverConfig {
        indexer: indexer_settings(env),
        hub,
        tron,
        jobs: job_settings(env),
        policy,
        pricing: pricing_settings(env),
        db_url: env.solver_db_url.clone(),
        instance_id: instance_id(&env.solver_instance_id, pid),
    })
}

proof fn lemma_dedup_facts(s: Seq<Seq<u8>>)
    ensures
        dedup(s).no_duplicates(),
        forall|x: Seq<u8>| dedup(s).contains(x) <==> s.contains(x),
    decreases s.len(),
{
    if s.len() > 0 {
        lemma_dedup_facts(s.drop_last());
        let d = dedup(s.drop_last());
        assert forall|x: Seq<u8>| s.contains(x) <==> (s.drop_last().contains(x) || x == s.last()) by {
            if s.contains(x) {
                let i = choose|i: int| 0 <= i < s.len() && s[i] == x;
                if i < s.len() - 1 {
                    assert(s.drop_last()[i] == x);
                }
            }
            if s.drop_last().contains(x) {
                let i = choose|i: int| 0 <= i < s.drop_last().len() && s.drop_last()[i] == x;
                assert(s[i] == x);
            }
            if x == s.last() {
                assert(s[s.len() - 1] == x);
            }
        }
        if !d.contains(s.last()) {
            let e = d.push(s.last());
            assert forall|i: int, j: int| 0 <= i < j < e.len() implies e[i] != e[j] by {
                if j == e.len() - 1 {
                    assert(d[i] == e[i]);
                }
            }
            assert forall|x: Seq<u8>| e.contains(x) <==> (d.contains(x) || x == s.last()) by {
                if e.contains(x) {
                    let i = choose|i: int| 0 <= i < e.len() && e[i] == x;
                    if i < d.len() {
                        assert(d[i] == x);
                    }
                }
                if d.contains(x) {
                    let i = choose|i: int| 0 <= i < d.len() && d[i] == x;
                    assert(e[i] == x);
                }
                if x == s.last() {
                    assert(e[e.len() - 1] == x);
                }
            }
        }
    }
}

/// Every given Tron key is kept, each exactly once.
pub proof fn lemma_dedup_keeps_each_key_once(s: Seq<Seq<u8>>)
    ensures
        dedup(s).no_duplicates(),
        forall|x: Seq<u8>| #[trigger] dedup(s).contains(x) <==> s.contains(x),
{
    lemma_dedup_facts(s);
}

/// A loaded configuration that enables trigger intents has a trigger contract allowlist.
pub proof fn lemma_trigger_intents_have_allowlist(
    env: SolverEnv,
    pm: Result<Vec<PaymasterServiceConfig>, String>,
    rp: Result<Vec<JsonApiRentalProviderConfig>, String>,
    pid: u32,
    c: SolverConfig,
)
    requires
        load_error(env, pm, rp) is None,
        loaded_from(env, pm, rp, pid, c),
    ensures
        c.policy.rules.enabled_intent_types@.contains(IntentType::TriggerSmartContract)
            ==> c.policy.rules.trigger_contract_allowlist@.len() > 0,
{
    assert(intents_error(env) is None);
}

/// A loaded configuration respects its bounds: the in-flight limit is at least 1 and within
/// the claim limit (itself taken as at least 1), the breaker penalty is within 1..=100, the
/// fee cap is at least one million sun, every headroom is at most one million ppm, and in
/// gRPC mode there is at least one key, the first being the default key.
pub proof fn lemma_loaded_config_bounds(
    env: SolverEnv,
    pm: Result<Vec<PaymasterServiceConfig>, String>,
    rp: Result<Vec<JsonApiRentalProviderConfig>, String>,
    pid: u32,
    c: SolverConfig,
)
    requires
        loaded_from(env, pm, rp, pid, c),
    ensures
        1 <= c.jobs.max_in_flight_jobs <= at_least(c.jobs.fill_max_claims as int, 1),
        1 <= c.jobs.breaker_mismatch_penalty <= 100,
        c.tron.fee_limit_cap_sun >= 1_000_000,
        c.tron.fee_limit_headroom_ppm <= 1_000_000,
        c.tron.resell_energy_headroom_ppm <= 1_000_000,
        c.policy.hub_cost_headroom_ppm <= 1_000_000,
        c.policy.tron_fee_headroom_ppm <= 1_000_000,
        c.jobs.pull_liquidity_ppm <= 1_000_000,
        c.jobs.delegate_reservation_ttl_secs >= 30,
        c.tron.mode == TronMode::Grpc ==> c.tron.private_keys@.len() > 0 && c.tron.private_key
            == c.tron.private_keys@[0],
        c.tron.delegate_resource_resell_enabled ==> !blank(env.tron_energy_rental_apis_json@),
{
}

/// Which Safe the user-operation sender uses.
#[derive(Debug, Clone, Copy)]
pub enum SafeChoice {
    /// The configured Safe.
    Existing(Address),
    /// A Safe deployed (if not yet there) from these addresses.
    Deploy(SafeDeterministicDeploymentConfig),
}

/// The text of the error when there is neither a Safe nor deployment addresses.
pub open spec fn no_safe_message() -> Seq<char> {
    "HUB_SAFE_ADDRESS is not set; HUB_SAFE_PROXY_FACTORY_ADDRESS/HUB_SAFE_SINGLETON_ADDRESS/HUB_SAFE_MODULE_SETUP_ADDRESS must be set"@
}

/// Chooses the Safe: the configured one unless it is absent or zero, else one deployed from
/// the deployment addresses, which must then be given.
pub fn safe_choice(
    safe: Option<Address>,
    deployment: Option<SafeDeterministicDeploymentConfig>,
) -> (r: Result<SafeChoice, &'static str>)
    ensures
        match safe {
            Some(a) if !all_zero(a.bytes@) => r matches Ok(SafeChoice::Existing(x)) && x == a,
            _ => match deployment {
                Some(d) => r matches Ok(SafeChoice::Deploy(x)) && x == d,
                None => r matches Err(m) && m@ == no_safe_message(),
            },
        },
{
    if let Some(a) = safe {
        if !a.is_zero() {
            return Ok(SafeChoice::Existing(a));
        }
    }
    match deployment {
        Some(d) => Ok(SafeChoice::Deploy(d)),
        None => Err(
            "HUB_SAFE_ADDRESS is not set; HUB_SAFE_PROXY_FACTORY_ADDRESS/HUB_SAFE_SINGLETON_ADDRESS/HUB_SAFE_MODULE_SETUP_ADDRESS must be set",
        ),
    }
}

} // verus!
