//! Destination-chain escrow for cross-chain atomic swaps on Solana:
//! instruction decoding, the escrow account layout, program-address
//! derivation, Merkle proof checking and the checks made when an escrow
//! is created.
pub mod error;
pub mod exit;
pub mod instruction;
pub mod processor;
pub mod solana;
pub mod state;

pub use error::{EscrowError, ProgramError};
pub use instruction::{EscrowInit, EscrowInstruction};
pub use state::Escrow;
