//! The vault: execution, strategies and the accounts behind them.
pub mod ab_test;
pub mod backtest_rnjd;
pub mod belief_vol;
pub mod book_access;
pub mod engine;
pub mod execution;
pub mod fast15m_reactive;
pub mod hft_paper_strategy;
pub mod kelly;
pub mod latency_arb;
pub mod llm;
pub mod long_decision;
pub mod long_engine;
pub mod long_evaluation;
pub mod orderflow_paper;
pub mod paper_ledger;
pub mod pool;
pub mod records;
pub mod rnjd;
pub mod updown15m;
pub mod updown_evaluation;
