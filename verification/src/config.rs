//! Configuration: default paths, mining parameters and the wallet password.

use vstd::prelude::*;

verus! {

pub const DEFAULT_WALLET_PATH: &'static str = "wallet.json";

pub const DEFAULT_CHAIN_PATH: &'static str = "blockchain.json";

pub const DEFAULT_DIFFICULTY: usize = 2;

pub const COINBASE_REWARD: u64 = 50;

pub const API_BIND_ADDR: &'static str = "0.0.0.0:3000";

/// The password used when none is configured (insecure, for development).
pub const DEV_WALLET_PASSWORD: &'static str = "dev_password_change_me";

/// Settings shared by the command line, the HTTP API and the node.
#[derive(Clone, Debug)]
pub struct Config {
    pub wallet_path: String,
    pub chain_path: String,
    pub difficulty: usize,
    pub coinbase_reward: u64,
    pub wallet_password: String,
}

impl Config {
    /// The default configuration with the configured wallet password, or the
    /// development password when none is set.
    pub fn from_password_setting(password: Option<String>) -> (r: Config)
        ensures
            r.wallet_path@ == DEFAULT_WALLET_PATH@,
            r.chain_path@ == DEFAULT_CHAIN_PATH@,
            r.difficulty == DEFAULT_DIFFICULTY,
            r.coinbase_reward == COINBASE_REWARD,
            match password {
                Some(p) => r.wallet_password == p,
                None => r.wallet_password@ == DEV_WALLET_PASSWORD@,
            },
    {
        let wallet_password = match password {
            Some(p) => p,
            None => DEV_WALLET_PASSWORD.to_owned(),
        };
        Config {
            wallet_path: DEFAULT_WALLET_PATH.to_owned(),
            chain_path: DEFAULT_CHAIN_PATH.to_owned(),
            difficulty: DEFAULT_DIFFICULTY,
            coinbase_reward: COINBASE_REWARD,
            wallet_password,
        }
    }
}

} // verus!
