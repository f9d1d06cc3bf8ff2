//! A ledger of keys, hash preimages, coins and staged transaction parts,
//! from which taproot spending transactions are planned and finalized.

pub mod address;
pub mod crypto;
pub mod error;
pub mod image;
pub mod input;
pub mod key;
pub mod output;
pub mod secrets;
pub mod slots;
pub mod spend;
pub mod state;
pub mod timelock;
pub mod transaction;
pub mod util;
pub mod utxo;
