//! Core logic for a daily random image feature: per-day image selection with a
//! recency window, user reactions with aggregate counters, and the key-value
//! records both are stored in.
//!
//! The store is modelled in memory; the pieces that talk to a real backend
//! (network clients, request envelopes) live outside this crate and exchange
//! plain values with it.

pub mod counts;
pub mod date;
pub mod images;
pub mod models;
pub mod selection;
pub mod store;
pub mod user_reaction;

pub use counts::ReactionCounts;
pub use date::Date;
pub use images::Image;
pub use models::Reactions;
pub use store::Store;
pub use user_reaction::UserItems;
