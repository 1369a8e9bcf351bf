use svm_escrow::exit::{
    check_cancel, check_rescue, check_withdraw, exit_escrow, lamports_after_close, secret_digest,
    ExitRequest,
};
use svm_escrow::processor::{hash_pair, AccountState};
use svm_escrow::{Escrow, EscrowError, ProgramError};

const DEPLOYED: i64 = 1_700_000_000;
const SECRET: [u8; 32] = *b"test_secret_32_bytes_long_______";

fn keccak(data: &[u8]) -> [u8; 32] {
    solana_program::keccak::hashv(&[data]).to_bytes()
}

fn escrow() -> Escrow {
    Escrow {
        maker: [1u8; 32],
        resolver: [2u8; 32],
        hash_secret: keccak(&SECRET),
        token_mint: [4u8; 32],
        amount: 1_000_000_000,
        safety_deposit_lamports: 1_000_000,
        merkle_root: [0u8; 32],
        filled_index: 0,
        timelocks: [0, 0, 300, 600, 900, 1200, 86400],
        deployed_at: DEPLOYED as u64,
        bump: 255,
    }
}

fn resolver() -> AccountState {
    AccountState { key: [2u8; 32], is_signer: true, lamports: 0 }
}

fn stranger() -> AccountState {
    AccountState { key: [9u8; 32], is_signer: true, lamports: 0 }
}

fn err(e: EscrowError) -> Result<(), ProgramError> {
    Err(ProgramError::Custom(e as u32))
}

#[test]
fn secret_digest_is_keccak() {
    assert_eq!(secret_digest(&SECRET), keccak(&SECRET));
    assert_ne!(secret_digest(&SECRET), SECRET);
}

#[test]
fn exclusive_withdraw_by_resolver_after_its_stage() {
    let e = escrow();
    assert_eq!(check_withdraw(&e, &resolver(), &SECRET, &[], DEPLOYED + 400, false), Ok(()));
    assert_eq!(check_withdraw(&e, &resolver(), &SECRET, &[], DEPLOYED + 300, false), Ok(()));
    assert_eq!(
        check_withdraw(&e, &resolver(), &SECRET, &[], DEPLOYED + 299, false),
        err(EscrowError::TimelockNotExpired)
    );
    assert_eq!(
        check_withdraw(&e, &resolver(), &SECRET, &[], -5, false),
        err(EscrowError::TimelockNotExpired)
    );
    assert_eq!(
        check_withdraw(&e, &stranger(), &SECRET, &[], DEPLOYED + 400, false),
        err(EscrowError::Unauthorized)
    );
    let unsigned = AccountState { is_signer: false, ..resolver() };
    assert_eq!(
        check_withdraw(&e, &unsigned, &SECRET, &[], DEPLOYED + 400, false),
        err(EscrowError::Unauthorized)
    );
    assert_eq!(
        check_withdraw(&e, &resolver(), &[0u8; 32], &[], DEPLOYED + 400, false),
        err(EscrowError::InvalidSecret)
    );
}

#[test]
fn public_withdraw_by_anyone_after_its_stage() {
    let e = escrow();
    assert_eq!(check_withdraw(&e, &stranger(), &SECRET, &[], DEPLOYED + 700, true), Ok(()));
    assert_eq!(
        check_withdraw(&e, &stranger(), &SECRET, &[], DEPLOYED + 400, true),
        err(EscrowError::TimelockNotExpired)
    );
    assert_eq!(
        check_withdraw(&e, &stranger(), &[1u8; 32], &[], DEPLOYED + 700, true),
        err(EscrowError::InvalidSecret)
    );
}

#[test]
fn batch_withdraw_needs_a_proof_to_the_root() {
    let mut e = escrow();
    let digest = keccak(&SECRET);
    let sibling = [7u8; 32];
    e.filled_index = 1;
    e.merkle_root = hash_pair(&sibling, &digest);
    assert_eq!(check_withdraw(&e, &resolver(), &SECRET, &[sibling], DEPLOYED + 400, false), Ok(()));
    assert_eq!(
        check_withdraw(&e, &resolver(), &SECRET, &[[8u8; 32]], DEPLOYED + 400, false),
        err(EscrowError::InvalidMerkleProof)
    );
    e.filled_index = 0;
    assert_eq!(
        check_withdraw(&e, &resolver(), &SECRET, &[sibling], DEPLOYED + 400, false),
        err(EscrowError::InvalidMerkleProof)
    );
}

#[test]
fn cancel_stages() {
    let e = escrow();
    assert_eq!(check_cancel(&e, &resolver(), DEPLOYED + 900, false), Ok(()));
    assert_eq!(check_cancel(&e, &resolver(), DEPLOYED + 899, false), err(EscrowError::TimelockNotExpired));
    assert_eq!(check_cancel(&e, &stranger(), DEPLOYED + 1000, false), err(EscrowError::Unauthorized));
    assert_eq!(check_cancel(&e, &stranger(), DEPLOYED + 1300, true), Ok(()));
    assert_eq!(check_cancel(&e, &stranger(), DEPLOYED + 1000, true), err(EscrowError::TimelockNotExpired));
}

#[test]
fn rescue_after_the_last_stage() {
    let e = escrow();
    assert_eq!(check_rescue(&e, DEPLOYED + 86400), Ok(()));
    assert_eq!(check_rescue(&e, DEPLOYED + 86399), err(EscrowError::TimelockNotExpired));
}

#[test]
fn stage_time_overflow_is_refused() {
    let mut e = escrow();
    e.deployed_at = u64::MAX - 1000;
    assert_eq!(check_rescue(&e, i64::MAX), err(EscrowError::Overflow));
    // the cancel stage opens after any time an i64 can hold
    assert_eq!(check_cancel(&e, &resolver(), i64::MAX, false), err(EscrowError::TimelockNotExpired));
}

#[test]
fn an_escrow_ends_only_once() {
    let mut data = vec![0u8; Escrow::LEN];
    escrow().write_to_account_data(&mut data).unwrap();
    let before = data.clone();
    // a refused request leaves the account as it was
    let early = ExitRequest::Cancel { public: false };
    assert_eq!(
        exit_escrow(&mut data, &resolver(), &early, DEPLOYED + 10).unwrap_err(),
        ProgramError::Custom(EscrowError::TimelockNotExpired as u32)
    );
    assert_eq!(data, before);
    let withdraw = ExitRequest::Withdraw { secret: SECRET, proof: vec![], public: false };
    let ended = exit_escrow(&mut data, &resolver(), &withdraw, DEPLOYED + 400).unwrap();
    assert_eq!(ended.amount, 1_000_000_000);
    assert_eq!(ended.safety_deposit_lamports, 1_000_000);
    assert!(data.is_empty());
    assert_eq!(
        exit_escrow(&mut data, &stranger(), &ExitRequest::Rescue, DEPLOYED + 100_000).unwrap_err(),
        ProgramError::AccountDataTooSmall
    );
}

#[test]
fn closing_moves_all_lamports() {
    assert_eq!(lamports_after_close(3_039_280, 5), Ok(3_039_285));
    assert_eq!(
        lamports_after_close(2, u64::MAX - 1),
        Err(ProgramError::Custom(EscrowError::Overflow as u32))
    );
}
