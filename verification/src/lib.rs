//! The core of a URL shortener: a target URL goes in, a short code comes out,
//! and the code resolves back to the target.
//!
//! - `code`: short codes and their random generator.
//! - `validate`: which texts are targets, and their canonical form.
//! - `store`: what a mapping store answers, and a store in memory.
//! - `shorten`: the decisions of a shorten request, with its bounded retries.
//! - `resolve`: the lookup of a code.
//! - `http`: the replies at the HTTP boundary.
//! - `history`: what holds of every run of requests.
//! - `failure`: the kinds of failure.

pub mod code;
pub mod failure;
pub mod validate;
pub mod store;
pub mod shorten;
pub mod resolve;
pub mod http;
pub mod history;
