//! The Woolworths catalogue.
pub mod category;
pub mod http;
pub mod product;
