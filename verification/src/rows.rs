use vstd::prelude::*;

use std::time::Duration;

verus! {

/// A solver job as stored in the jobs table.
#[derive(Debug, Clone)]
pub struct SolverJob {
    pub job_id: i64,
    pub intent_id: [u8; 32],
    pub intent_type: i16,
    pub intent_specs: Vec<u8>,
    pub deadline: i64,
    pub claim_window_expires_at_unix: Option<i64>,
    pub state: String,
    pub attempts: i32,
    pub tron_txid: Option<[u8; 32]>,
}

/// The costs recorded for a confirmed Tron transaction.
#[derive(Debug, Clone)]
pub struct TronTxCostsRow {
    pub fee_sun: Option<i64>,
    pub energy_usage_total: Option<i64>,
    pub net_usage: Option<i64>,
    pub energy_fee_sun: Option<i64>,
    pub net_fee_sun: Option<i64>,
    pub block_number: Option<i64>,
    pub block_timestamp: Option<i64>,
    pub result_code: Option<i32>,
    pub result_message: Option<String>,
}

/// One signed Tron transaction of a job's plan (`pre:NNNN` steps, then `final`).
#[derive(Debug, Clone)]
pub struct TronSignedTxRow {
    pub step: String,
    pub txid: [u8; 32],
    pub tx_bytes: Vec<u8>,
    pub fee_limit_sun: Option<i64>,
    pub energy_required: Option<i64>,
    pub tx_size_bytes: Option<i64>,
}

/// How often intents were skipped for one reason.
#[derive(Debug, Clone)]
pub struct IntentSkipSummaryRow {
    pub reason: String,
    pub intent_type: Option<i16>,
    pub skips: i64,
    pub last_seen_unix: i64,
}

/// The last emulation verdict recorded for an intent.
#[derive(Debug, Clone)]
pub struct IntentEmulationRow {
    pub ok: bool,
    pub reason: Option<String>,
    pub contract: Option<Vec<u8>>,
    pub selector: Option<Vec<u8>>,
    pub checked_at_unix: Option<i64>,
}

/// Staked capacity held back for one delegate job.
#[derive(Debug, Clone)]
pub struct DelegateReservationRow {
    pub owner_address: Vec<u8>,
    pub resource: i16,
    pub amount_sun: i64,
    pub expires_in_secs: i64,
}

/// A hub user operation of a job, as stored.
#[derive(Debug, Clone)]
pub struct HubUserOpRow {
    pub userop_id: i64,
    pub state: String,
    pub userop_json: String,
    pub userop_hash: Option<String>,
    pub tx_hash: Option<[u8; 32]>,
    pub block_number: Option<i64>,
    pub success: Option<bool>,
    pub receipt_json: Option<String>,
    pub attempts: i32,
}

/// A stored Tron inclusion proof.
#[derive(Debug, Clone)]
pub struct TronProofRow {
    pub blocks: Vec<Vec<u8>>,
    pub encoded_tx: Vec<u8>,
    pub proof: Vec<Vec<u8>>,
    pub index_dec: String,
}

/// An open intent as the indexer reports it.
#[derive(Debug, Clone)]
pub struct PoolOpenIntentRow {
    pub id: String,
    pub intent_type: i16,
    pub intent_specs: String,
    pub escrow_token: String,
    pub escrow_amount: String,
    pub solver: Option<String>,
    pub deadline: i64,
    pub solved: bool,
    pub funded: bool,
    pub settled: bool,
    pub closed: bool,
}

/// A signed Tron transaction produced by the gRPC backend.
#[derive(Debug, Clone)]
pub struct PreparedTronTx {
    pub txid: [u8; 32],
    pub tx_bytes: Vec<u8>,
    pub fee_limit_sun: Option<i64>,
    pub energy_required: Option<i64>,
    pub tx_size_bytes: Option<i64>,
}

/// A signed Tron transaction ready to be broadcast.
#[derive(Debug, Clone)]
pub struct TronPreparedTx {
    pub txid: [u8; 32],
    pub tx_bytes: Vec<u8>,
    pub fee_limit_sun: Option<i64>,
    pub energy_required: Option<i64>,
    pub tx_size_bytes: Option<i64>,
}

/// Consolidation transfers to broadcast first, then the transaction that fills the intent.
#[derive(Debug, Clone)]
pub struct TronPreparedPlan {
    pub pre_txs: Vec<TronPreparedTx>,
    pub final_tx: TronPreparedTx,
}

/// Whether the configured keys can fill an intent before it is claimed.
#[derive(Debug, Clone)]
pub struct InventoryCheck {
    pub ok: bool,
    pub reason: Option<&'static str>,
    pub required_pre_txs: usize,
}

/// The verdict of a pre-claim emulation.
#[derive(Debug, Clone)]
pub struct EmulationCheck {
    pub ok: bool,
    pub reason: Option<String>,
}

/// A signed Tron transaction with the resources it was priced for.
#[derive(Debug, Clone)]
pub struct SignedTronTx {
    /// The encoded transaction.
    pub tx: Vec<u8>,
    /// `sha256(raw_data_bytes)`.
    pub txid: [u8; 32],
    pub fee_limit_sun: u64,
    pub energy_required: u64,
    pub tx_size_bytes: u64,
}

/// Where the indexer is and how far behind the chain head it may be.
#[derive(Debug)]
pub struct IndexerConfig {
    pub base_url: String,
    pub timeout: Duration,
    pub max_head_lag_blocks: u64,
}

/// Settings of the job runner.
#[derive(Debug)]
pub struct JobConfig {
    pub tick_interval: Duration,
    pub tron_finality_blocks: u64,
    pub tip_proof_resend_blocks: u64,
    pub process_controller_max_events: u64,
    pub fill_max_claims: u64,
    pub max_in_flight_jobs: u64,
    pub concurrency_trx_transfer: u64,
    pub concurrency_usdt_transfer: u64,
    pub concurrency_delegate_resource: u64,
    pub concurrency_trigger_smart_contract: u64,
    pub concurrency_tron_broadcast: u64,
    pub consolidation_enabled: bool,
    pub consolidation_max_pre_txs: u64,
    pub consolidation_max_total_trx_pull_sun: u64,
    pub consolidation_max_per_tx_trx_pull_sun: u64,
    pub consolidation_max_total_usdt_pull_amount: u64,
    pub consolidation_max_per_tx_usdt_pull_amount: u64,
    pub rate_limit_claims_per_minute_global: u64,
    pub rate_limit_claims_per_minute_trx_transfer: u64,
    pub rate_limit_claims_per_minute_usdt_transfer: u64,
    pub rate_limit_claims_per_minute_delegate_resource: u64,
    pub rate_limit_claims_per_minute_trigger_smart_contract: u64,
    pub global_pause_fatal_threshold: u64,
    pub global_pause_window_secs: u64,
    pub global_pause_duration_secs: u64,
    pub breaker_mismatch_penalty: u64,
    pub delegate_reservation_ttl_secs: u64,
    pub controller_rebalance_threshold_usdt: String,
    pub controller_rebalance_keep_usdt: String,
    pub pull_liquidity_ppm: u64,
}

/// Whether the paymaster's final data is fetched even when the stub data is already final.
#[derive(Debug, Clone, Copy, PartialEq, Eq, Structural)]
pub enum PaymasterFinalizationMode {
    SkipIfStubFinal,
    AlwaysFetchFinal,
}

/// Options of the Safe4337 user operation sender.
#[derive(Debug, Clone)]
pub struct Safe4337UserOpSenderOptions {
    pub check_bundler_entrypoints: bool,
    pub paymaster_finalization: PaymasterFinalizationMode,
}

impl Default for Safe4337UserOpSenderOptions {
    /// Bundler entry points are not checked, and the paymaster's final data is always fetched.
    fn default() -> (o: Self)
        ensures
            !o.check_bundler_entrypoints,
            o.paymaster_finalization == PaymasterFinalizationMode::AlwaysFetchFinal,
    {
        Safe4337UserOpSenderOptions {
            check_bundler_entrypoints: false,
            paymaster_finalization: PaymasterFinalizationMode::AlwaysFetchFinal,
        }
    }
}

} // verus!
