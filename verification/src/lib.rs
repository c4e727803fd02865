//! The decisions behind the `z_shieldcoinbase` wallet RPC method: which
//! transparent addresses to sweep, what the pre-flight numbers are, which keys
//! to ask for, and which error answers a request that cannot be served.

pub mod account;
pub mod address;
pub mod amount;
pub mod asking;
pub mod books;
pub mod call;
pub mod collect;
pub mod eligible;
pub mod error;
pub mod inquiry;
pub mod json;
pub mod keys;
pub mod laws;
pub mod outcome;
pub mod params;
pub mod preflight;
pub mod promises;
pub mod proposal;
pub mod refusals;
pub mod resolve;
pub mod run;
pub mod signing;
pub mod step;
pub mod trail;
pub mod world;
