pub mod abi;
pub mod address;
pub mod backoff;
pub mod base58;
pub mod candidate;
pub mod config;
pub mod delegate;
pub mod diagnostics;
pub mod error;
pub mod flow;
pub mod hexcodec;
pub mod intents;
pub mod inventory;
pub mod json;
pub mod nonce;
pub mod planner;
pub mod receipts;
pub mod report;
pub mod policy;
pub mod rental;
pub mod rows;
pub mod runner;
pub mod settings;
pub mod steps;
pub mod store;
pub mod text;
pub mod transitions;
pub mod tron_steps;
pub mod types;
pub mod wordmath;
