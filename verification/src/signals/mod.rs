//! Signals about markets: where they come from, and which of them count.
pub mod copy_replay;
pub mod copy_trading;
pub mod correlator;
pub mod days;
pub mod db_storage;
pub mod detector;
pub mod enrichment;
pub mod follower;
pub mod quality;
pub mod storage;
pub mod updown_history;
pub mod wallet_analytics;
