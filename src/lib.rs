//! Fetches an account's repositories, ranks them by star count and serves
//! repeated requests from a per-account cache.
pub mod cache;
pub mod ranking;
pub mod repository;
pub mod source;
