//! Verified core of a horse-racing NFT game: the operator white list, the
//! byte layout of the NFT list account, the attribute rolls of minting and
//! upgrading, and the race that ranks the NFTs and pays the prizes.
//!
//! Account access, price feeds, clocks, transfers and events stay with the
//! on-chain program shell; every decision it takes is made here.
pub mod errors;
pub mod state;
pub mod utils;
pub mod instructions;
pub mod laws;
