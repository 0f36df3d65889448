//! Price tracking for Australian grocery stores.
//!
//! The library turns a store's catalogue into canonical product records and
//! folds each day's prices into a per-product price history. Every function
//! here carries a contract that Verus proves; reading files, talking to the
//! stores and decoding JSON are left to the program around it.
pub mod analysis;
pub mod cache;
pub mod category;
pub mod conversion;
pub mod date;
pub mod document;
pub mod errors;
pub mod merge;
pub mod pagination;
pub mod paths;
pub mod pattern;
pub mod price_list;
pub mod product;
pub mod retry;
pub mod storage;
pub mod stores;
pub mod sync;
pub mod text;
pub mod unit;
