//! Top-of-book aggregation across several exchange feeds.
//!
//! Each feed delivers order-book snapshots; a change filter drops the frames
//! that carry nothing new, the rest are parsed into fixed-size books, and an
//! aggregator merges the latest book of every feed into one best-bid/best-ask
//! summary.

pub mod aggregator;
pub mod book;
pub mod client;
pub mod constants;
pub mod decimal;
pub mod error;
pub mod feed;
pub mod listener;
pub mod merge;
pub mod session;
pub mod subscriber;
pub mod text;
