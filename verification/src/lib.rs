//! The verified core of the siren tunnel: what a request asks for, how a client's
//! protocol is told and its request read, which way its traffic takes, and what
//! is counted of it.
//!
//! Connecting, reading and writing are left to the caller: the functions here say
//! what to do next, and are told how it ended.
pub mod codec;
pub mod config;
pub mod error;
pub mod link;
pub mod patterns;
pub mod proxy;
pub mod route;
pub mod stats_do;
pub mod text;
