use svm_escrow::{EscrowError, ProgramError};

#[test]
fn codes_follow_declaration_order() {
    assert_eq!(EscrowError::InvalidInstruction.code(), 0);
    assert_eq!(EscrowError::InvalidSecret.code(), 4);
    assert_eq!(EscrowError::InvalidMerkleProof.code(), 5);
    assert_eq!(EscrowError::TimelockNotExpired.code(), 6);
    assert_eq!(EscrowError::Unauthorized.code(), 7);
    assert_eq!(EscrowError::SafetyDepositMismatch.code(), 15);
    assert_eq!(EscrowError::MerkleProofTooDeep.code(), EscrowError::MerkleProofTooDeep as u32);
}

#[test]
fn conversion_carries_the_code() {
    assert_eq!(ProgramError::from(EscrowError::InvalidPDA), ProgramError::Custom(1));
    assert_eq!(ProgramError::from(EscrowError::Overflow), ProgramError::Custom(8));
}

#[test]
fn messages() {
    assert_eq!(EscrowError::InvalidInstruction.message(), "Invalid instruction");
    assert_eq!(EscrowError::AlreadyInitialized.message(), "Escrow already initialized");
    assert_eq!(EscrowError::Overflow.message(), "Arithmetic overflow");
    assert_eq!(EscrowError::SafetyDepositMismatch.message(), "Safety deposit mismatch");
}
