//! A single-winner raffle settled on a ledger: the state machine of its four
//! transitions, the ledger of purchased entry ranges, and the derivation of
//! the draw seed from ledger entropy.

pub mod pubkey;
pub mod entropy;
pub mod ledger;
pub mod engine;

pub use pubkey::Pubkey;
pub use entropy::seed_from_hash;
pub use ledger::{EntryLedger, EntryRecord};
pub use engine::{
    claim_prize, draw_winner, enter_raffle, initialize_raffle, ClaimPrize, DrawWinner,
    EnterRaffle, InitializeRaffle, Party, RaffleAccount, RaffleError, RaffleStatus, Transfer,
};
