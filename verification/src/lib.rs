//! The routing core of a transparent reverse proxy, and the rule language that
//! describes proxy rules: every decision is a function with a proved contract.

pub mod bytes;
pub mod config;
pub mod handlers;
pub mod lang;
pub mod laws;
pub mod not_found;
pub mod redirect;
pub mod supervisor;
