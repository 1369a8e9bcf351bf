//! The decisions of the instructions that end an escrow: withdraw (to the
//! maker, by the resolver or in the public phase), cancel (by the resolver
//! or in the public phase) and rescue, and the closing of the escrow
//! account once one of them has succeeded.
use vstd::prelude::*;

use crate::error::{EscrowError, ProgramError};
use crate::instruction::proof_view;
use crate::processor::{
    lemma_merkle_verdict, merkle_root, MAX_MERKLE_DEPTH, custom, keys_eq, spec_verify_merkle_proof, verify_merkle_proof, AccountState};
use crate::solana::{keccak256, keccak_hashv};
use crate::state::{spec_decode_escrow, Escrow, EscrowView};

verus! {

/// The time a stage opens: the creation time plus the stage's offset.
pub open spec fn stage_opens_at(escrow: EscrowView, stage: int) -> int {
    escrow.deployed_at + escrow.timelocks[stage]
}

/// Whether a stage has opened at `now`: refused with `Overflow` when its
/// opening time does not fit in a `u64`, with `TimelockNotExpired` before
/// it.
pub open spec fn spec_check_stage(escrow: EscrowView, stage: int, now: i64) -> Result<(), ProgramError> {
    if stage_opens_at(escrow, stage) > u64::MAX {
        Err(custom(EscrowError::Overflow))
    } else if now < stage_opens_at(escrow, stage) {
        Err(custom(EscrowError::TimelockNotExpired))
    } else {
        Ok(())
    }
}

/// Whether `caller` is the escrow's resolver and has signed.
pub open spec fn is_signing_resolver(escrow: EscrowView, caller: AccountState) -> bool {
    caller.is_signer && caller.key@ == escrow.resolver
}

/// A Merkle root of all zero bytes marks a single-fill escrow.
pub open spec fn is_single_fill(escrow: EscrowView) -> bool {
    escrow.merkle_root == Seq::new(32, |i: int| 0u8)
}

/// The checks of a withdrawal, in order: the withdraw stage has opened (the
/// exclusive stage, or the public one for a public withdrawal); in the
/// exclusive stage the caller is the signing resolver; the secret's digest
/// is the escrow's; for a batch escrow, the proof leads from that digest, at
/// the next leaf to fill, to the Merkle root.
pub open spec fn spec_check_withdraw(
    escrow: EscrowView,
    caller: AccountState,
    secret_digest: Seq<u8>,
    proof: Seq<Seq<u8>>,
    now: i64,
    public: bool,
) -> Result<(), ProgramError> {
    let stage = if public {
        Escrow::TL_DST_PUBLIC_WITHDRAW
    } else {
        Escrow::TL_DST_EXCLUSIVE_WITHDRAW
    };
    match spec_check_stage(escrow, stage as int, now) {
        Err(e) => Err(e),
        Ok(()) => if !public && !is_signing_resolver(escrow, caller) {
            Err(custom(EscrowError::Unauthorized))
        } else if secret_digest != escrow.hash_secret {
            Err(custom(EscrowError::InvalidSecret))
        } else if !is_single_fill(escrow) {
            spec_verify_merkle_proof(
                secret_digest,
                proof,
                escrow.merkle_root,
                escrow.filled_index as nat,
            )
        } else {
            Ok(())
        },
    }
}

/// The checks of a cancellation: the cancel stage has opened (the exclusive
/// one, or the public one for a public cancellation), and in the exclusive
/// stage the caller is the signing resolver.
pub open spec fn spec_check_cancel(escrow: EscrowView, caller: AccountState, now: i64, public: bool)
    -> Result<(), ProgramError>
{
    let stage = if public {
        Escrow::TL_DST_PUBLIC_CANCEL
    } else {
        Escrow::TL_DST_EXCLUSIVE_CANCEL
    };
    match spec_check_stage(escrow, stage as int, now) {
        Err(e) => Err(e),
        Ok(()) => if !public && !is_signing_resolver(escrow, caller) {
            Err(custom(EscrowError::Unauthorized))
        } else {
            Ok(())
        },
    }
}

/// The check of a rescue: the rescue stage has opened.
pub open spec fn spec_check_rescue(escrow: EscrowView, now: i64) -> Result<(), ProgramError> {
    spec_check_stage(escrow, Escrow::TL_RESCUE as int, now)
}

fn check_stage(escrow: &Escrow, stage: usize, now: i64) -> (res: Result<(), ProgramError>)
    requires
        stage < 7,
    ensures
        res == spec_check_stage(escrow@, stage as int, now),
{
    match escrow.deployed_at.checked_add(escrow.timelocks[stage]) {
        None => Err(ProgramError::from(EscrowError::Overflow)),
        Some(opens_at) => {
            if now < 0 || (now as u64) < opens_at {
                Err(ProgramError::from(EscrowError::TimelockNotExpired))
            } else {
                Ok(())
            }
        },
    }
}

fn is_single_fill_root(root: &[u8; 32]) -> (single: bool)
    ensures
        single == (root@ == Seq::new(32, |i: int| 0u8)),
{
    let mut i: usize = 0;
    while i < 32
        invariant
            0 <= i <= 32,
            forall|j: int| 0 <= j < i ==> root@[j] == 0,
        decreases 32 - i,
    {
        if root[i] != 0 {
            assert(root@[i as int] != Seq::new(32, |k: int| 0u8)[i as int]);
            return false;
        }
        i = i + 1;
    }
    assert(root@ =~= Seq::new(32, |i: int| 0u8));
    true
}

/// The Keccak-256 digest of a secret.
pub fn secret_digest(secret: &[u8; 32]) -> (digest: [u8; 32])
    ensures
        digest@ == keccak256(secret@),
{
    let nothing: [u8; 0] = [];
    let digest = keccak_hashv(secret.as_slice(), nothing.as_slice());
    assert(secret@ + nothing@ =~= secret@);
    digest
}

/// Checks a withdrawal from `escrow` by `caller` at `now`.
pub fn check_withdraw(
    escrow: &Escrow,
    caller: &AccountState,
    secret: &[u8; 32],
    proof: &[[u8; 32]],
    now: i64,
    public: bool,
) -> (res: Result<(), ProgramError>)
    ensures
        res == spec_check_withdraw(escrow@, *caller, keccak256(secret@), proof_view(proof@), now, public),
{
    let stage = if public {
        Escrow::TL_DST_PUBLIC_WITHDRAW
    } else {
        Escrow::TL_DST_EXCLUSIVE_WITHDRAW
    };
    check_stage(escrow, stage, now)?;
    if !public && !(caller.is_signer && keys_eq(&caller.key, &escrow.resolver)) {
        return Err(ProgramError::from(EscrowError::Unauthorized));
    }
    let digest = secret_digest(secret);
    if !keys_eq(&digest, &escrow.hash_secret) {
        return Err(ProgramError::from(EscrowError::InvalidSecret));
    }
    if !is_single_fill_root(&escrow.merkle_root) {
        return verify_merkle_proof(&digest, proof, &escrow.merkle_root, escrow.filled_index);
    }
    Ok(())
}

/// Checks a cancellation of `escrow` by `caller` at `now`.
pub fn check_cancel(escrow: &Escrow, caller: &AccountState, now: i64, public: bool) -> (res: Result<
    (),
    ProgramError,
>)
    ensures
        res == spec_check_cancel(escrow@, *caller, now, public),
{
    let stage = if public {
        Escrow::TL_DST_PUBLIC_CANCEL
    } else {
        Escrow::TL_DST_EXCLUSIVE_CANCEL
    };
    check_stage(escrow, stage, now)?;
    if !public && !(caller.is_signer && keys_eq(&caller.key, &escrow.resolver)) {
        return Err(ProgramError::from(EscrowError::Unauthorized));
    }
    Ok(())
}

/// Checks a rescue of `escrow` at `now`.
pub fn check_rescue(escrow: &Escrow, now: i64) -> (res: Result<(), ProgramError>)
    ensures
        res == spec_check_rescue(escrow@, now),
{
    check_stage(escrow, Escrow::TL_RESCUE, now)
}

/// A request to end an escrow.
pub enum ExitRequest {
    Withdraw { secret: [u8; 32], proof: Vec<[u8; 32]>, public: bool },
    Cancel { public: bool },
    Rescue,
}

/// An exit request with its byte arrays seen as sequences.
pub enum ExitRequestView {
    Withdraw { secret: Seq<u8>, proof: Seq<Seq<u8>>, public: bool },
    Cancel { public: bool },
    Rescue,
}

impl View for ExitRequest {
    type V = ExitRequestView;

    open spec fn view(&self) -> ExitRequestView {
        match self {
            ExitRequest::Withdraw { secret, proof, public } => ExitRequestView::Withdraw {
                secret: secret@,
                proof: proof_view(proof@),
                public: *public,
            },
            ExitRequest::Cancel { public } => ExitRequestView::Cancel { public: *public },
            ExitRequest::Rescue => ExitRequestView::Rescue,
        }
    }
}

/// The checks of an exit request.
pub open spec fn spec_check_exit(escrow: EscrowView, caller: AccountState, request: ExitRequestView, now: i64)
    -> Result<(), ProgramError>
{
    match request {
        ExitRequestView::Withdraw { secret, proof, public } => spec_check_withdraw(
            escrow,
            caller,
            keccak256(secret),
            proof,
            now,
            public,
        ),
        ExitRequestView::Cancel { public } => spec_check_cancel(escrow, caller, now, public),
        ExitRequestView::Rescue => spec_check_rescue(escrow, now),
    }
}

/// The outcome of an exit request on escrow account data, and the account
/// data afterwards: refused when the data is too short to hold an escrow or
/// the checks fail, leaving the data as it was; otherwise the escrow that
/// was read, and the account closed (no data left).
pub open spec fn spec_exit(data: Seq<u8>, caller: AccountState, request: ExitRequestView, now: i64) -> (
    Result<EscrowView, ProgramError>,
    Seq<u8>,
) {
    if data.len() < Escrow::LEN {
        (Err(ProgramError::AccountDataTooSmall), data)
    } else {
        let escrow = spec_decode_escrow(data);
        match spec_check_exit(escrow, caller, request, now) {
            Ok(()) => (Ok(escrow), Seq::empty()),
            Err(e) => (Err(e), data),
        }
    }
}

/// Ends the escrow held in `data` if the request's checks pass, closing the
/// account; returns the escrow that was ended, so that its funds can be paid
/// out.
pub fn exit_escrow(data: &mut Vec<u8>, caller: &AccountState, request: &ExitRequest, now: i64) -> (res:
    Result<Escrow, ProgramError>)
    ensures
        ({
            let (outcome, after) = spec_exit(old(data)@, *caller, request@, now);
            &&& final(data)@ == after
            &&& match res {
                Ok(escrow) => outcome == Ok::<_, ProgramError>(escrow@),
                Err(e) => outcome == Err::<EscrowView, _>(e),
            }
        }),
{
    let escrow = Escrow::from_account_info(data.as_slice())?;
    let checked = match request {
        ExitRequest::Withdraw { secret, proof, public } => check_withdraw(
            &escrow,
            caller,
            secret,
            proof.as_slice(),
            now,
            *public,
        ),
        ExitRequest::Cancel { public } => check_cancel(&escrow, caller, now, *public),
        ExitRequest::Rescue => check_rescue(&escrow, now),
    };
    match checked {
        Err(e) => Err(e),
        Ok(()) => {
            data.clear();
            Ok(escrow)
        },
    }
}

/// The recipient's balance once the closed escrow account's lamports (rent
/// and safety deposit) are moved to it, refused when it overflows.
pub fn lamports_after_close(escrow_lamports: u64, recipient_lamports: u64) -> (res: Result<
    u64,
    ProgramError,
>)
    ensures
        escrow_lamports + recipient_lamports <= u64::MAX ==> res == Ok::<u64, ProgramError>(
            (escrow_lamports + recipient_lamports) as u64,
        ),
        escrow_lamports + recipient_lamports > u64::MAX ==> res == Err::<u64, _>(
            custom(EscrowError::Overflow),
        ),
{
    match recipient_lamports.checked_add(escrow_lamports) {
        Some(total) => Ok(total),
        None => Err(ProgramError::from(EscrowError::Overflow)),
    }
}

/// An escrow ends at most once: after an exit request has succeeded on the
/// account data, every later exit request on what is left is refused.
pub proof fn lemma_exit_at_most_once(
    data: Seq<u8>,
    first_caller: AccountState,
    first: ExitRequestView,
    first_now: i64,
    caller: AccountState,
    request: ExitRequestView,
    now: i64,
)
    ensures
        spec_exit(data, first_caller, first, first_now).0 is Ok ==> spec_exit(
            spec_exit(data, first_caller, first, first_now).1,
            caller,
            request,
            now,
        ).0 == Err::<EscrowView, _>(ProgramError::AccountDataTooSmall),
{
}

/// No stage-gated exit happens before its stage opens: a withdrawal only
/// once the withdraw stage it asks for has opened, a cancellation only once
/// its cancel stage has, a rescue only once the rescue stage has; and in
/// the exclusive stages only the signing resolver gets through; a
/// withdrawal needs the secret whose digest the escrow holds and, for a
/// batch escrow, a proof from that digest at the next leaf to the root.
pub proof fn lemma_exits_respect_stages(escrow: EscrowView, caller: AccountState, request: ExitRequestView, now: i64)
    ensures
        spec_check_exit(escrow, caller, request, now) is Ok ==> match request {
            ExitRequestView::Withdraw { secret, proof, public } => {
                &&& now >= stage_opens_at(
                    escrow,
                    if public {
                        Escrow::TL_DST_PUBLIC_WITHDRAW as int
                    } else {
                        Escrow::TL_DST_EXCLUSIVE_WITHDRAW as int
                    },
                )
                &&& keccak256(secret) == escrow.hash_secret
                &&& !public ==> is_signing_resolver(escrow, caller)
                &&& !is_single_fill(escrow) ==> proof.len() <= MAX_MERKLE_DEPTH && merkle_root(
                    keccak256(secret),
                    proof,
                    escrow.filled_index as nat,
                ) == escrow.merkle_root
            },
            ExitRequestView::Cancel { public } => {
                &&& now >= stage_opens_at(
                    escrow,
                    if public {
                        Escrow::TL_DST_PUBLIC_CANCEL as int
                    } else {
                        Escrow::TL_DST_EXCLUSIVE_CANCEL as int
                    },
                )
                &&& !public ==> is_signing_resolver(escrow, caller)
            },
            ExitRequestView::Rescue => now >= stage_opens_at(escrow, Escrow::TL_RESCUE as int),
        },
{
}

/// A withdrawal is accepted exactly when the stage it asks for (2 for the
/// resolver's exclusive withdrawal, 3 for the public one) has opened, its
/// opening time fitting in a `u64`; the exclusive withdrawal comes from the
/// signing resolver; the secret hashes to the escrow's digest; and, unless
/// the Merkle root is all zeroes, the proof has at most 32 entries and
/// leads from that digest, at the escrow's next leaf, to the root. No later
/// time closes any of these.
pub proof fn lemma_withdraw_accepted_iff_owed(
    e: EscrowView,
    caller: AccountState,
    secret: Seq<u8>,
    proof: Seq<Seq<u8>>,
    now: i64,
    public: bool,
)
    ensures
        spec_check_withdraw(e, caller, keccak256(secret), proof, now, public) is Ok <==> ({
            let opens = e.deployed_at + e.timelocks[if public { 3int } else { 2int }];
            &&& opens <= u64::MAX
            &&& now >= opens
            &&& !public ==> (caller.is_signer && caller.key@ == e.resolver)
            &&& keccak256(secret) == e.hash_secret
            &&& e.merkle_root != Seq::new(32, |i: int| 0u8) ==> (proof.len() <= 32 && merkle_root(
                keccak256(secret),
                proof,
                e.filled_index as nat,
            ) == e.merkle_root)
        }),
{
    lemma_merkle_verdict(keccak256(secret), proof, e.merkle_root, e.filled_index as nat);
}

/// A cancellation is accepted exactly when the stage it asks for (4 for the
/// resolver's exclusive cancellation, 5 for the public one) has opened, its
/// opening time fitting in a `u64`, and an exclusive cancellation comes
/// from the signing resolver; no later time closes it.
pub proof fn lemma_cancel_accepted_iff_opened(e: EscrowView, caller: AccountState, now: i64, public: bool)
    ensures
        spec_check_cancel(e, caller, now, public) is Ok <==> ({
            let opens = e.deployed_at + e.timelocks[if public { 5int } else { 4int }];
            &&& opens <= u64::MAX
            &&& now >= opens
            &&& !public ==> (caller.is_signer && caller.key@ == e.resolver)
        }),
{
}

/// A rescue is accepted exactly when the rescue stage (6) has opened, its
/// opening time fitting in a `u64`, whoever asks.
pub proof fn lemma_rescue_accepted_iff_opened(e: EscrowView, caller: AccountState, now: i64)
    ensures
        spec_check_rescue(e, now) is Ok <==> (e.deployed_at + e.timelocks[6] <= u64::MAX && now
            >= e.deployed_at + e.timelocks[6]),
        spec_check_exit(e, caller, ExitRequestView::Rescue, now) is Ok <==> (e.deployed_at
            + e.timelocks[6] <= u64::MAX && now >= e.deployed_at + e.timelocks[6]),
{
}

/// Why a stage-gated request is refused, in order: a stage whose opening
/// time overflows a `u64` gives `Overflow` (code 8), a stage not yet open
/// `TimelockNotExpired` (code 6), an exclusive request from anyone but the
/// signing resolver `Unauthorized` (code 7), and a withdrawal whose secret
/// does not hash to the escrow's digest `InvalidSecret` (code 4).
pub proof fn lemma_exit_refusals(e: EscrowView, caller: AccountState, request: ExitRequestView, now: i64)
    ensures
        ({
            let (stage, public) = match request {
                ExitRequestView::Withdraw { public, .. } => (if public { 3int } else { 2int }, public),
                ExitRequestView::Cancel { public } => (if public { 5int } else { 4int }, public),
                ExitRequestView::Rescue => (6int, true),
            };
            let opens = e.deployed_at + e.timelocks[stage];
            let result = spec_check_exit(e, caller, request, now);
            &&& opens > u64::MAX ==> result == Err::<(), _>(ProgramError::Custom(8))
            &&& opens <= u64::MAX && now < opens ==> result == Err::<(), _>(ProgramError::Custom(6))
            &&& opens <= u64::MAX && now >= opens && !public && !(caller.is_signer && caller.key@
                == e.resolver) ==> result == Err::<(), _>(ProgramError::Custom(7))
            &&& request matches ExitRequestView::Withdraw { secret, .. } ==> (opens <= u64::MAX && now
                >= opens && (public || (caller.is_signer && caller.key@ == e.resolver)) && keccak256(
                secret,
            ) != e.hash_secret ==> result == Err::<(), _>(ProgramError::Custom(4)))
        }),
{
}

/// Ending an escrow held in account data: it succeeds exactly when the data
/// holds an escrow (at least `LEN` bytes) and the request is owed for the
/// escrow read from it; withdrawals as above, cancellations once their
/// stage has opened (exclusive ones only for the signing resolver), rescues
/// once the rescue stage has opened, for anyone. On success the escrow read
/// is returned and the account is left without data; on refusal the data is
/// left as it was.
pub proof fn lemma_exit_outcome(data: Seq<u8>, caller: AccountState, request: ExitRequestView, now: i64)
    ensures
        ({
            let (outcome, after) = spec_exit(data, caller, request, now);
            let e = spec_decode_escrow(data);
            let owed = match request {
                ExitRequestView::Withdraw { secret, proof, public } => {
                    let opens = e.deployed_at + e.timelocks[if public { 3int } else { 2int }];
                    &&& opens <= u64::MAX
                    &&& now >= opens
                    &&& !public ==> (caller.is_signer && caller.key@ == e.resolver)
                    &&& keccak256(secret) == e.hash_secret
                    &&& e.merkle_root != Seq::new(32, |i: int| 0u8) ==> (proof.len() <= 32
                        && merkle_root(keccak256(secret), proof, e.filled_index as nat)
                        == e.merkle_root)
                },
                ExitRequestView::Cancel { public } => {
                    let opens = e.deployed_at + e.timelocks[if public { 5int } else { 4int }];
                    &&& opens <= u64::MAX
                    &&& now >= opens
                    &&& !public ==> (caller.is_signer && caller.key@ == e.resolver)
                },
                ExitRequestView::Rescue => e.deployed_at + e.timelocks[6] <= u64::MAX && now
                    >= e.deployed_at + e.timelocks[6],
            };
            &&& outcome is Ok <==> (data.len() >= Escrow::LEN && owed)
            &&& outcome is Ok ==> outcome == Ok::<_, ProgramError>(e) && after.len() == 0
            &&& outcome is Err ==> after == data
        }),
{
    let e = spec_decode_escrow(data);
    match request {
        ExitRequestView::Withdraw { secret, proof, public } => {
            lemma_withdraw_accepted_iff_owed(e, caller, secret, proof, now, public);
        },
        ExitRequestView::Cancel { public } => {
            lemma_cancel_accepted_iff_opened(e, caller, now, public);
        },
        ExitRequestView::Rescue => {
            lemma_rescue_accepted_iff_opened(e, caller, now);
        },
    }
}

} // verus!
