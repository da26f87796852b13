//! An anonymous credit system: clients earn credit tokens by proof of work and spend, split and
//! combine them without revealing who they are; the server only ever learns which tokens are
//! used up.

pub mod client;
pub mod codec;
pub mod commands;
pub mod config;
pub mod laws;
pub mod load_test;
pub mod metrics;
pub mod pow;
pub mod protocol;
pub mod scheme;
pub mod server;
pub mod text;
pub mod tls;
pub mod wallet;

pub use anonymous_credit_tokens::CreditToken;
pub use client::{
    nullifier_bytes, Client, ClientStep, CreditTokenExt, Outcome, Part, Operation, Waiting,
};
pub use pow::{credits_for, leading_zeros, meets_difficulty, pow_hash, Miner};
pub use protocol::{ClientError, Rejection, Request, Response};
