use vstd::prelude::*;

verus! {

/// Custom errors of the escrow program. Their codes are their positions in
/// this list, starting at 0.
#[derive(Clone, Copy, Debug, PartialEq, Eq, Structural)]
pub enum EscrowError {
    InvalidInstruction,
    InvalidPDA,
    AlreadyInitialized,
    NotInitialized,
    InvalidSecret,
    InvalidMerkleProof,
    TimelockNotExpired,
    Unauthorized,
    Overflow,
    InvalidAccount,
    InsufficientFunds,
    AlreadyWithdrawn,
    InvalidFilledIndex,
    MerkleProofTooDeep,
    InvalidTokenMint,
    SafetyDepositMismatch,
}

/// The numeric code of each error, as carried in `ProgramError::Custom`.
pub open spec fn error_code(e: EscrowError) -> u32 {
    match e {
        EscrowError::InvalidInstruction => 0,
        EscrowError::InvalidPDA => 1,
        EscrowError::AlreadyInitialized => 2,
        EscrowError::NotInitialized => 3,
        EscrowError::InvalidSecret => 4,
        EscrowError::InvalidMerkleProof => 5,
        EscrowError::TimelockNotExpired => 6,
        EscrowError::Unauthorized => 7,
        EscrowError::Overflow => 8,
        EscrowError::InvalidAccount => 9,
        EscrowError::InsufficientFunds => 10,
        EscrowError::AlreadyWithdrawn => 11,
        EscrowError::InvalidFilledIndex => 12,
        EscrowError::MerkleProofTooDeep => 13,
        EscrowError::InvalidTokenMint => 14,
        EscrowError::SafetyDepositMismatch => 15,
    }
}

/// The human-readable message of each error.
pub open spec fn error_message(e: EscrowError) -> Seq<char> {
    match e {
        EscrowError::InvalidInstruction => "Invalid instruction"@,
        EscrowError::InvalidPDA => "Invalid PDA"@,
        EscrowError::AlreadyInitialized => "Escrow already initialized"@,
        EscrowError::NotInitialized => "Escrow not initialized"@,
        EscrowError::InvalidSecret => "Invalid secret"@,
        EscrowError::InvalidMerkleProof => "Invalid Merkle proof"@,
        EscrowError::TimelockNotExpired => "Timelock not expired"@,
        EscrowError::Unauthorized => "Unauthorized"@,
        EscrowError::Overflow => "Arithmetic overflow"@,
        EscrowError::InvalidAccount => "Invalid account"@,
        EscrowError::InsufficientFunds => "Insufficient funds"@,
        EscrowError::AlreadyWithdrawn => "Already withdrawn"@,
        EscrowError::InvalidFilledIndex => "Invalid filled index"@,
        EscrowError::MerkleProofTooDeep => "Merkle proof too deep"@,
        EscrowError::InvalidTokenMint => "Invalid token mint"@,
        EscrowError::SafetyDepositMismatch => "Safety deposit mismatch"@,
    }
}

/// Distinct errors have distinct codes, so a code names its error.
pub proof fn lemma_error_codes_distinct(a: EscrowError, b: EscrowError)
    ensures
        error_code(a) == error_code(b) ==> a == b,
        error_code(a) < 16,
{
}

impl EscrowError {
    /// The error's numeric code.
    pub fn code(&self) -> (c: u32)
        ensures
            c == error_code(*self),
    {
        match self {
            EscrowError::InvalidInstruction => 0,
            EscrowError::InvalidPDA => 1,
            EscrowError::AlreadyInitialized => 2,
            EscrowError::NotInitialized => 3,
            EscrowError::InvalidSecret => 4,
            EscrowError::InvalidMerkleProof => 5,
            EscrowError::TimelockNotExpired => 6,
            EscrowError::Unauthorized => 7,
            EscrowError::Overflow => 8,
            EscrowError::InvalidAccount => 9,
            EscrowError::InsufficientFunds => 10,
            EscrowError::AlreadyWithdrawn => 11,
            EscrowError::InvalidFilledIndex => 12,
            EscrowError::MerkleProofTooDeep => 13,
            EscrowError::InvalidTokenMint => 14,
            EscrowError::SafetyDepositMismatch => 15,
        }
    }

    /// The error's message, as printed to the program log.
    pub fn message(&self) -> (m: &'static str)
        ensures
            m@ == error_message(*self),
    {
        match self {
            EscrowError::InvalidInstruction => "Invalid instruction",
            EscrowError::InvalidPDA => "Invalid PDA",
            EscrowError::AlreadyInitialized => "Escrow already initialized",
            EscrowError::NotInitialized => "Escrow not initialized",
            EscrowError::InvalidSecret => "Invalid secret",
            EscrowError::InvalidMerkleProof => "Invalid Merkle proof",
            EscrowError::TimelockNotExpired => "Timelock not expired",
            EscrowError::Unauthorized => "Unauthorized",
            EscrowError::Overflow => "Arithmetic overflow",
            EscrowError::InvalidAccount => "Invalid account",
            EscrowError::InsufficientFunds => "Insufficient funds",
            EscrowError::AlreadyWithdrawn => "Already withdrawn",
            EscrowError::InvalidFilledIndex => "Invalid filled index",
            EscrowError::MerkleProofTooDeep => "Merkle proof too deep",
            EscrowError::InvalidTokenMint => "Invalid token mint",
            EscrowError::SafetyDepositMismatch => "Safety deposit mismatch",
        }
    }
}

/// The failures the program reports to the runtime. A custom error carries
/// the code of an `EscrowError`; the others are the runtime's built-in
/// failures that this program raises.
#[derive(Clone, Copy, Debug, PartialEq, Eq, Structural)]
pub enum ProgramError {
    Custom(u32),
    InvalidInstructionData,
    AccountDataTooSmall,
    NotEnoughAccountKeys,
}

impl From<EscrowError> for ProgramError {
    fn from(e: EscrowError) -> (r: ProgramError) {
        ProgramError::Custom(e.code())
    }
}

impl vstd::std_specs::convert::FromSpecImpl<EscrowError> for ProgramError {
    open spec fn obeys_from_spec() -> bool {
        true
    }

    open spec fn from_spec(e: EscrowError) -> ProgramError {
        ProgramError::Custom(error_code(e))
    }
}

} // verus!
