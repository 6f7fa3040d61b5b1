//! Cache-and-delivery core of a bot that sends channels what is hot on the
//! sources they follow.
//!
//! - [`cache`]: the post cache, refreshed from batches of fetches.
//! - [`blacklist`]: the per-channel blacklist and its epochs.
//! - [`tracker`]: the item each channel was sent last.
//! - [`limiter`]: the per-channel request budget and what is answered to a
//!   channel that is over it.
//! - [`db`] and [`store`]: the channel registry, loaded from and written
//!   through to a collection of registrations.
//! - [`data`]: the runtime data that holds them all, and the choice of the
//!   item to send.
//! - [`config`], [`setup`], [`token`], [`channel_id`], [`post`], [`error`]:
//!   what the above are made from.
//! - [`shared`]: the concurrent maps underneath, and what is assumed of them.
//!
//! The maps are changed through `&mut` only: whoever holds the data decides
//! who may change it, and every contract speaks of a map that nobody else
//! is changing meanwhile.

pub mod blacklist;
pub mod cache;
pub mod channel_id;
pub mod config;
pub mod data;
pub mod db;
pub mod error;
pub mod limiter;
pub mod post;
pub mod setup;
pub mod shared;
pub mod store;
pub mod text;
pub mod token;
pub mod tracker;
