//! Lazy-loading forks of a Stellar network: the rules of the fork, proved.

pub mod auth_tree;
pub mod cache;
pub mod codec;
pub mod duration;
pub mod error;
pub mod fees;
pub mod fork;
pub mod ledger;
pub mod render;
pub mod rpc;
pub mod scval;
pub mod server;
pub mod source;
pub mod store;
pub mod strkey;
pub mod test_accounts;
pub mod text;
pub mod trace;
pub mod transaction;
pub mod workspace;
