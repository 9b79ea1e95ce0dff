pub mod cli;
pub mod crypto;
pub mod encoding;
pub mod generator;
pub mod partition;
pub mod wallet;

pub use cli::{Args, KeyType};
pub use generator::{generate_addresses, generate_wallets_batch};
pub use wallet::Wallet;
