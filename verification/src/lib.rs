//! Initial block download: which bodies to ask of which peer, what to make of what
//! comes in, and how blocks pass through the confirm pipeline.
//!
//! Sockets, threads, the store and the clock stand outside: functions take what they
//! answered as plain values and say what to do next.
pub mod assign;
pub mod assign_plan;
pub mod body;
pub mod body_events;
pub mod cadence;
pub mod chain;
pub mod config;
pub mod confirm_class;
pub mod confirm_engine;
pub mod confirm_events;
pub mod confirm_feed;
pub mod confirm_queue;
pub mod confirm_thr_stats;
pub mod confirm_wave;
pub mod dial;
pub mod error;
pub mod exit;
pub mod fetch;
pub mod hash;
pub mod header_events;
pub mod inflight;
pub mod keyed;
pub mod laws;
pub mod load_ahead;
pub mod order;
pub mod path;
pub mod peer_io;
pub mod peers;
pub mod perf_log;
pub mod perf_sample;
pub mod proc_rss;
pub mod race;
pub mod rate;
pub mod reach;
pub mod relslow;
pub mod reorg;
pub mod requests;
pub mod state;
pub mod text;
pub mod time;
pub mod wire;
