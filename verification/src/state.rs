//! The escrow account: its fields, its byte layout and its address.
use vstd::prelude::*;

use vstd::bytes::{
    lemma_auto_spec_u32_to_from_le_bytes, lemma_auto_spec_u64_to_from_le_bytes,
    spec_u32_from_le_bytes, spec_u32_to_le_bytes, u32_from_le_bytes, u32_to_le_bytes,
    u64_to_le_bytes,
};
use vstd::slice::{slice_subrange, slice_to_vec};

use crate::error::ProgramError;
use crate::instruction::{
    EscrowInit,
    bytes32_at, concat, lemma_concat_uniform, read_bytes32, read_u64, u64_at, u64_le, u64s_le,
};
use crate::solana::{program_address_search, try_find_program_address};
use pinocchio::pubkey::Pubkey;

verus! {

/// The state kept in an escrow account.
#[derive(Clone, Copy, Debug)]
pub struct Escrow {
    /// The EVM maker address.
    pub maker: Pubkey,
    /// The resolver address.
    pub resolver: Pubkey,
    /// Keccak-256 digest of the secret.
    pub hash_secret: [u8; 32],
    /// SPL token mint.
    pub token_mint: Pubkey,
    /// Token amount in the smallest unit.
    pub amount: u64,
    /// Native SOL deposit paid at creation, rewarded at exit.
    pub safety_deposit_lamports: u64,
    /// Merkle root for batch fills; all zeroes for a single fill.
    pub merkle_root: [u8; 32],
    /// Next expected Merkle leaf index.
    pub filled_index: u32,
    /// Offsets in seconds from `deployed_at`, one per stage.
    pub timelocks: [u64; 7],
    /// Unix time in seconds when the escrow was created.
    pub deployed_at: u64,
    /// Bump seed of the account's program address.
    pub bump: u8,
}

/// The bytes `escrow`, which start every escrow's address seeds.
pub open spec fn escrow_seed_prefix() -> Seq<u8> {
    seq![101u8, 115u8, 99u8, 114u8, 111u8, 119u8]
}

impl Escrow {
    /// The size of an escrow account's data.
    pub const LEN: usize = 293;

    /// The size of the escrow record at the start of the account data: the
    /// fields in declaration order, each at its natural alignment (four
    /// padding bytes follow `filled_index`), and the record padded to a
    /// multiple of 8 (seven bytes after `bump`).
    pub const RECORD_SIZE: usize = 256;

    /// First seed of every escrow address.
    pub const SEED_PREFIX: [u8; 6] = [101, 115, 99, 114, 111, 119];

    /// Role byte of destination escrows on Solana.
    pub const ROLE_BYTE_DST: u8 = 0x00;

    /// Timelock stages, as positions in `timelocks`.
    pub const TL_SRC_EXCLUSIVE_WITHDRAW: usize = 0;
    pub const TL_SRC_PUBLIC_WITHDRAW: usize = 1;
    pub const TL_DST_EXCLUSIVE_WITHDRAW: usize = 2;
    pub const TL_DST_PUBLIC_WITHDRAW: usize = 3;
    pub const TL_DST_EXCLUSIVE_CANCEL: usize = 4;
    pub const TL_DST_PUBLIC_CANCEL: usize = 5;
    pub const TL_RESCUE: usize = 6;
}

/// An escrow with its byte arrays seen as sequences.
pub struct EscrowView {
    pub maker: Seq<u8>,
    pub resolver: Seq<u8>,
    pub hash_secret: Seq<u8>,
    pub token_mint: Seq<u8>,
    pub amount: u64,
    pub safety_deposit_lamports: u64,
    pub merkle_root: Seq<u8>,
    pub filled_index: u32,
    pub timelocks: Seq<u64>,
    pub deployed_at: u64,
    pub bump: u8,
}

impl View for Escrow {
    type V = EscrowView;

    open spec fn view(&self) -> EscrowView {
        EscrowView {
            maker: self.maker@,
            resolver: self.resolver@,
            hash_secret: self.hash_secret@,
            token_mint: self.token_mint@,
            amount: self.amount,
            safety_deposit_lamports: self.safety_deposit_lamports,
            merkle_root: self.merkle_root@,
            filled_index: self.filled_index,
            timelocks: self.timelocks@,
            deployed_at: self.deployed_at,
            bump: self.bump,
        }
    }
}

/// The little-endian `u32` stored at byte `at` of `data`.
pub open spec fn u32_at(data: Seq<u8>, at: int) -> u32 {
    spec_u32_from_le_bytes(data.subrange(at, at + 4))
}

/// The escrow stored at the start of account data, integers little-endian:
/// maker at 0, resolver at 32, secret digest at 64, mint at 96, amount at
/// 128, deposit at 136, Merkle root at 144, filled index at 176, timelocks
/// from 184, creation time at 240, bump at 248.
pub open spec fn spec_decode_escrow(data: Seq<u8>) -> EscrowView {
    EscrowView {
        maker: bytes32_at(data, 0),
        resolver: bytes32_at(data, 32),
        hash_secret: bytes32_at(data, 64),
        token_mint: bytes32_at(data, 96),
        amount: u64_at(data, 128),
        safety_deposit_lamports: u64_at(data, 136),
        merkle_root: bytes32_at(data, 144),
        filled_index: u32_at(data, 176),
        timelocks: Seq::new(7, |i: int| u64_at(data, 184 + 8 * i)),
        deployed_at: u64_at(data, 240),
        bump: data[248],
    }
}

/// The escrow record written over the first 256 bytes of `data`: each
/// field's bytes at its offset, the padding bytes as `data` held them.
pub open spec fn spec_escrow_record(v: EscrowView, data: Seq<u8>) -> Seq<u8> {
    v.maker + v.resolver + v.hash_secret + v.token_mint + u64_le(v.amount) + u64_le(
        v.safety_deposit_lamports,
    ) + v.merkle_root + spec_u32_to_le_bytes(v.filled_index) + data.subrange(180, 184) + u64s_le(
        v.timelocks,
    ) + u64_le(v.deployed_at) + seq![v.bump] + data.subrange(249, 256)
}

/// Account data after the escrow is stored in it: the record, then the
/// data's bytes past the record unchanged.
pub open spec fn spec_store_escrow(v: EscrowView, data: Seq<u8>) -> Seq<u8> {
    spec_escrow_record(v, data) + data.skip(Escrow::RECORD_SIZE as int)
}

/// The seeds of an escrow's address: `escrow`, the maker, the resolver, the
/// secret's digest and the destination role byte.
pub open spec fn escrow_pda_seeds(maker: Seq<u8>, resolver: Seq<u8>, hash_secret: Seq<u8>) -> Seq<
    Seq<u8>,
> {
    seq![escrow_seed_prefix(), maker, resolver, hash_secret, seq![0u8]]
}

fn append_bytes(out: &mut Vec<u8>, bytes: &[u8])
    ensures
        final(out)@ == old(out)@ + bytes@,
{
    let n = bytes.len();
    let ghost start = out@;
    let mut i: usize = 0;
    while i < n
        invariant
            0 <= i <= n,
            n == bytes@.len(),
            out@ == start + bytes@.subrange(0, i as int),
        decreases n - i,
    {
        out.push(bytes[i]);
        i = i + 1;
        assert(out@ =~= start + bytes@.subrange(0, i as int));
    }
    assert(bytes@.subrange(0, n as int) =~= bytes@);
}

impl Escrow {
    fn pda_seeds(maker: &Pubkey, resolver: &Pubkey, hash_secret: &[u8; 32]) -> (seeds: Vec<Vec<u8>>)
        ensures
            seeds.deep_view() == escrow_pda_seeds(maker@, resolver@, hash_secret@),
    {
        let prefix = Self::SEED_PREFIX;
        let role = [Self::ROLE_BYTE_DST];
        let mut seeds: Vec<Vec<u8>> = Vec::new();
        seeds.push(slice_to_vec(prefix.as_slice()));
        seeds.push(slice_to_vec(maker.as_slice()));
        seeds.push(slice_to_vec(resolver.as_slice()));
        seeds.push(slice_to_vec(hash_secret.as_slice()));
        seeds.push(slice_to_vec(role.as_slice()));
        proof {
            let expected = escrow_pda_seeds(maker@, resolver@, hash_secret@);
            assert(seeds@[0].deep_view() =~= expected[0]);
            assert(seeds@[1].deep_view() =~= expected[1]);
            assert(seeds@[2].deep_view() =~= expected[2]);
            assert(seeds@[3].deep_view() =~= expected[3]);
            assert(seeds@[4].deep_view() =~= expected[4]);
            assert(seeds.deep_view() =~= expected);
        }
        seeds
    }

    /// The seeds that sign for the escrow account of `init`: its address
    /// seeds followed by the bump seed.
    pub fn signer_seeds(init: &EscrowInit, bump: u8) -> (seeds: Vec<Vec<u8>>)
        ensures
            seeds.deep_view() == escrow_pda_seeds(init.maker@, init.resolver@, init.hash_secret@).push(
                seq![bump],
            ),
    {
        let mut seeds = Self::pda_seeds(&init.maker, &init.resolver, &init.hash_secret);
        let ghost before = seeds.deep_view();
        let ghost old_seeds = seeds@;
        assert(before.len() == 5);
        assert(old_seeds.len() == 5);
        let bump_seed = [bump];
        let last = slice_to_vec(bump_seed.as_slice());
        seeds.push(last);
        proof {
            assert(seeds@[5].deep_view() =~= seq![bump]);
            assert forall|i: int| 0 <= i < 5 implies seeds@[i].deep_view() == before[i] by {
                assert(seeds@[i] == old_seeds[i]);
            }
            assert(seeds.deep_view() =~= before.push(seq![bump]));
        }
        seeds
    }

    /// Derives the program address of the escrow for these parties and
    /// secret digest, with its bump seed; `None` when no bump seed yields an
    /// address.
    pub fn derive_pda(maker: &Pubkey, resolver: &Pubkey, hash_secret: &[u8; 32], program_id: &Pubkey)
        -> (found: Option<(Pubkey, u8)>)
        ensures
            found is None <==> program_address_search(
                escrow_pda_seeds(maker@, resolver@, hash_secret@),
                program_id@,
            ) is None,
            found matches Some((address, bump)) ==> program_address_search(
                escrow_pda_seeds(maker@, resolver@, hash_secret@),
                program_id@,
            ) == Some((address@, bump)),
    {
        let seeds = Self::pda_seeds(maker, resolver, hash_secret);
        try_find_program_address(&seeds, program_id)
    }

    /// Reads the escrow stored in account data, which must hold at least
    /// `LEN` bytes.
    pub fn from_account_info(data: &[u8]) -> (res: Result<Escrow, ProgramError>)
        ensures
            data@.len() < Self::LEN ==> res == Err::<Escrow, _>(ProgramError::AccountDataTooSmall),
            data@.len() >= Self::LEN ==> (res matches Ok(escrow) && escrow@ == spec_decode_escrow(
                data@,
            )),
    {
        if data.len() < Self::LEN {
            return Err(ProgramError::AccountDataTooSmall);
        }
        let mut timelocks = [0u64; 7];
        let mut i: usize = 0;
        while i < 7
            invariant
                0 <= i <= 7,
                data@.len() >= Self::LEN,
                forall|j: int| 0 <= j < i ==> timelocks@[j] == u64_at(data@, 184 + 8 * j),
            decreases 7 - i,
        {
            timelocks[i] = read_u64(data, 184 + 8 * i);
            i = i + 1;
        }
        let escrow = Escrow {
            maker: read_bytes32(data, 0),
            resolver: read_bytes32(data, 32),
            hash_secret: read_bytes32(data, 64),
            token_mint: read_bytes32(data, 96),
            amount: read_u64(data, 128),
            safety_deposit_lamports: read_u64(data, 136),
            merkle_root: read_bytes32(data, 144),
            filled_index: u32_from_le_bytes(slice_subrange(data, 176, 180)),
            timelocks,
            deployed_at: read_u64(data, 240),
            bump: data[248],
        };
        assert(escrow@.timelocks =~= spec_decode_escrow(data@).timelocks);
        Ok(escrow)
    }

    /// The record the escrow occupies over `data`, keeping the padding bytes
    /// `data` holds.
    fn record_over(&self, data: &[u8]) -> (bytes: Vec<u8>)
        requires
            data@.len() >= Self::RECORD_SIZE,
        ensures
            bytes@ == spec_escrow_record(self@, data@),
    {
        let mut out: Vec<u8> = Vec::new();
        append_bytes(&mut out, self.maker.as_slice());
        append_bytes(&mut out, self.resolver.as_slice());
        append_bytes(&mut out, self.hash_secret.as_slice());
        append_bytes(&mut out, self.token_mint.as_slice());
        append_bytes(&mut out, u64_to_le_bytes(self.amount).as_slice());
        append_bytes(&mut out, u64_to_le_bytes(self.safety_deposit_lamports).as_slice());
        append_bytes(&mut out, self.merkle_root.as_slice());
        append_bytes(&mut out, u32_to_le_bytes(self.filled_index).as_slice());
        append_bytes(&mut out, slice_subrange(data, 180, 184));
        let ghost before = out@;
        let mut i: usize = 0;
        while i < 7
            invariant
                0 <= i <= 7,
                out@ == before + u64s_le(self.timelocks@.take(i as int)),
            decreases 7 - i,
        {
            append_bytes(&mut out, u64_to_le_bytes(self.timelocks[i]).as_slice());
            proof {
                let done = self.timelocks@.take(i as int);
                let next = self.timelocks@.take(i + 1);
                lemma_concat_append(done.map_values(|x: u64| u64_le(x)), u64_le(self.timelocks@[i as int]));
                assert(next.map_values(|x: u64| u64_le(x)) =~= done.map_values(|x: u64| u64_le(x)).push(
                    u64_le(self.timelocks@[i as int]),
                ));
            }
            i = i + 1;
        }
        assert(self.timelocks@.take(7) =~= self.timelocks@);
        append_bytes(&mut out, u64_to_le_bytes(self.deployed_at).as_slice());
        let bump = [self.bump];
        append_bytes(&mut out, bump.as_slice());
        append_bytes(&mut out, slice_subrange(data, 249, 256));
        assert(out@ =~= spec_escrow_record(self@, data@));
        out
    }

    /// Stores the escrow in account data, which must hold at least `LEN`
    /// bytes: each field's bytes go to the field's offset; padding bytes and
    /// the bytes past the record are left as they were.
    pub fn write_to_account_data(&self, data: &mut Vec<u8>) -> (res: Result<(), ProgramError>)
        ensures
            old(data)@.len() < Self::LEN ==> res == Err::<(), _>(ProgramError::AccountDataTooSmall)
                && final(data)@ == old(data)@,
            old(data)@.len() >= Self::LEN ==> res is Ok && final(data)@ == spec_store_escrow(
                self@,
                old(data)@,
            ),
    {
        if data.len() < Self::LEN {
            return Err(ProgramError::AccountDataTooSmall);
        }
        let bytes = self.record_over(data.as_slice());
        proof {
            lemma_record_len(self@, data@);
        }
        let ghost start = data@;
        let mut i: usize = 0;
        while i < Self::RECORD_SIZE
            invariant
                0 <= i <= Self::RECORD_SIZE,
                bytes@.len() == Self::RECORD_SIZE,
                start.len() >= Self::LEN,
                data@ == bytes@.subrange(0, i as int) + start.skip(i as int),
            decreases Self::RECORD_SIZE - i,
        {
            data.set(i, bytes[i]);
            i = i + 1;
            assert(data@ =~= bytes@.subrange(0, i as int) + start.skip(i as int));
        }
        assert(bytes@.subrange(0, Self::RECORD_SIZE as int) =~= bytes@);
        Ok(())
    }
}

proof fn lemma_record_len(v: EscrowView, data: Seq<u8>)
    requires
        v.maker.len() == 32,
        v.resolver.len() == 32,
        v.hash_secret.len() == 32,
        v.token_mint.len() == 32,
        v.merkle_root.len() == 32,
        v.timelocks.len() == 7,
        data.len() >= Escrow::RECORD_SIZE,
    ensures
        spec_escrow_record(v, data).len() == Escrow::RECORD_SIZE,
{
    lemma_auto_spec_u64_to_from_le_bytes();
    lemma_auto_spec_u32_to_from_le_bytes();
    lemma_concat_uniform(v.timelocks.map_values(|x: u64| u64_le(x)), 8);
}

/// The byte range each field of an escrow occupies once stored, and the
/// bytes that storing leaves as they were.
pub proof fn lemma_store_layout(v: EscrowView, data: Seq<u8>)
    requires
        v.maker.len() == 32,
        v.resolver.len() == 32,
        v.hash_secret.len() == 32,
        v.token_mint.len() == 32,
        v.merkle_root.len() == 32,
        v.timelocks.len() == 7,
        data.len() >= Escrow::RECORD_SIZE,
    ensures
        ({
            let s = spec_store_escrow(v, data);
            &&& s.len() == data.len()
            &&& s.subrange(0, 32) == v.maker
            &&& s.subrange(32, 64) == v.resolver
            &&& s.subrange(64, 96) == v.hash_secret
            &&& s.subrange(96, 128) == v.token_mint
            &&& s.subrange(128, 136) == u64_le(v.amount)
            &&& s.subrange(136, 144) == u64_le(v.safety_deposit_lamports)
            &&& s.subrange(144, 176) == v.merkle_root
            &&& s.subrange(176, 180) == spec_u32_to_le_bytes(v.filled_index)
            &&& s.subrange(180, 184) == data.subrange(180, 184)
            &&& s.subrange(184, 240) == u64s_le(v.timelocks)
            &&& s.subrange(240, 248) == u64_le(v.deployed_at)
            &&& s[248] == v.bump
            &&& s.subrange(249, 256) == data.subrange(249, 256)
            &&& s.skip(256) == data.skip(256)
        }),
{
    lemma_auto_spec_u64_to_from_le_bytes();
    lemma_auto_spec_u32_to_from_le_bytes();
    lemma_record_len(v, data);
    lemma_concat_uniform(v.timelocks.map_values(|x: u64| u64_le(x)), 8);
    let s = spec_store_escrow(v, data);
    assert(s.subrange(0, 32) =~= v.maker);
    assert(s.subrange(32, 64) =~= v.resolver);
    assert(s.subrange(64, 96) =~= v.hash_secret);
    assert(s.subrange(96, 128) =~= v.token_mint);
    assert(s.subrange(128, 136) =~= u64_le(v.amount));
    assert(s.subrange(136, 144) =~= u64_le(v.safety_deposit_lamports));
    assert(s.subrange(144, 176) =~= v.merkle_root);
    assert(s.subrange(176, 180) =~= spec_u32_to_le_bytes(v.filled_index));
    assert(s.subrange(180, 184) =~= data.subrange(180, 184));
    assert(s.subrange(184, 240) =~= u64s_le(v.timelocks));
    assert(s.subrange(240, 248) =~= u64_le(v.deployed_at));
    assert(s.subrange(249, 256) =~= data.subrange(249, 256));
    assert(s.skip(256) =~= data.skip(256));
}

/// Reading an escrow back from account data it was stored in gives the same
/// escrow, whatever the data held before.
pub proof fn lemma_read_after_write(escrow: Escrow, data: Seq<u8>)
    requires
        data.len() >= Escrow::RECORD_SIZE,
    ensures
        spec_decode_escrow(spec_store_escrow(escrow@, data)) == escrow@,
{
    lemma_auto_spec_u64_to_from_le_bytes();
    lemma_auto_spec_u32_to_from_le_bytes();
    lemma_store_layout(escrow@, data);
    let v = escrow@;
    let times = v.timelocks.map_values(|x: u64| u64_le(x));
    lemma_concat_uniform(times, 8);
    let s = spec_store_escrow(v, data);
    let d = spec_decode_escrow(s);
    assert(d.maker =~= v.maker);
    assert(d.resolver =~= v.resolver);
    assert(d.hash_secret =~= v.hash_secret);
    assert(d.token_mint =~= v.token_mint);
    assert(d.merkle_root =~= v.merkle_root);
    assert forall|i: int| 0 <= i < 7 implies #[trigger] d.timelocks[i] == v.timelocks[i] by {
        assert(s.subrange(184 + 8 * i, 192 + 8 * i) =~= u64s_le(v.timelocks).subrange(
            8 * i,
            8 * i + 8,
        ));
        assert(times[i] == u64_le(v.timelocks[i]));
    }
    assert(d.timelocks =~= v.timelocks);
    assert(d.bump == v.bump);
}

proof fn lemma_concat_chunks8(data: Seq<u8>, n: int)
    requires
        0 <= n,
        data.len() >= 8 * n,
    ensures
        concat(Seq::new(n as nat, |i: int| data.subrange(8 * i, 8 * i + 8))) == data.take(8 * n),
    decreases n,
{
    if n == 0 {
        assert(Seq::new(0, |i: int| data.subrange(8 * i, 8 * i + 8)) =~= Seq::<Seq<u8>>::empty());
        assert(data.take(0) =~= Seq::<u8>::empty());
    } else {
        let m: int = n - 1;
        lemma_concat_chunks8(data, m);
        let parts = Seq::new(n as nat, |i: int| data.subrange(8 * i, 8 * i + 8));
        let prev = Seq::new(m as nat, |i: int| data.subrange(8 * i, 8 * i + 8));
        assert(parts =~= prev.push(data.subrange(8 * m, 8 * m + 8)));
        lemma_concat_append(prev, data.subrange(8 * m, 8 * m + 8));
        assert(data.take(8 * m) + data.subrange(8 * m, 8 * m + 8) =~= data.take(8 * n));
    }
}

/// Storing the escrow just read from account data leaves the data exactly
/// as it was.
pub proof fn lemma_write_after_read(data: Seq<u8>)
    requires
        data.len() >= Escrow::RECORD_SIZE,
    ensures
        spec_store_escrow(spec_decode_escrow(data), data) == data,
{
    lemma_auto_spec_u64_to_from_le_bytes();
    lemma_auto_spec_u32_to_from_le_bytes();
    let v = spec_decode_escrow(data);
    let times = Seq::new(7, |i: int| data.skip(184).subrange(8 * i, 8 * i + 8));
    let mapped = v.timelocks.map_values(|x: u64| u64_le(x));
    assert(mapped =~= times) by {
        assert forall|i: int| 0 <= i < 7 implies #[trigger] mapped[i] == times[i] by {
            assert(data.subrange(184 + 8 * i, 192 + 8 * i) =~= times[i]);
        }
    }
    lemma_concat_chunks8(data.skip(184), 7);
    assert(u64s_le(v.timelocks) =~= data.subrange(184, 240));
    assert(u64_le(v.amount) =~= data.subrange(128, 136));
    assert(u64_le(v.safety_deposit_lamports) =~= data.subrange(136, 144));
    assert(spec_u32_to_le_bytes(v.filled_index) =~= data.subrange(176, 180));
    assert(u64_le(v.deployed_at) =~= data.subrange(240, 248));
    assert(spec_store_escrow(v, data) =~= data);
}

/// Storing an escrow over account data it was read from changes only the
/// bytes of the fields that differ: the bytes of every field left as read,
/// the padding bytes and every byte past the record stay as they were.
pub proof fn lemma_write_back_keeps_unchanged_fields(data: Seq<u8>, escrow: Escrow)
    requires
        data.len() >= Escrow::RECORD_SIZE,
    ensures
        ({
            let written = spec_store_escrow(escrow@, data);
            let read = spec_decode_escrow(data);
            &&& written.len() == data.len()
            &&& written.subrange(180, 184) == data.subrange(180, 184)
            &&& written.subrange(249, 256) == data.subrange(249, 256)
            &&& written.skip(256) == data.skip(256)
            &&& escrow@.maker == read.maker ==> written.subrange(0, 32) == data.subrange(0, 32)
            &&& escrow@.resolver == read.resolver ==> written.subrange(32, 64) == data.subrange(32, 64)
            &&& escrow@.hash_secret == read.hash_secret ==> written.subrange(64, 96)
                == data.subrange(64, 96)
            &&& escrow@.token_mint == read.token_mint ==> written.subrange(96, 128)
                == data.subrange(96, 128)
            &&& escrow@.amount == read.amount ==> written.subrange(128, 136) == data.subrange(128, 136)
            &&& escrow@.safety_deposit_lamports == read.safety_deposit_lamports ==> written.subrange(
                136,
                144,
            ) == data.subrange(136, 144)
            &&& escrow@.merkle_root == read.merkle_root ==> written.subrange(144, 176)
                == data.subrange(144, 176)
            &&& escrow@.filled_index == read.filled_index ==> written.subrange(176, 180)
                == data.subrange(176, 180)
            &&& escrow@.timelocks == read.timelocks ==> written.subrange(184, 240) == data.subrange(
                184,
                240,
            )
            &&& escrow@.deployed_at == read.deployed_at ==> written.subrange(240, 248)
                == data.subrange(240, 248)
            &&& escrow@.bump == read.bump ==> written[248] == data[248]
        }),
{
    let read = spec_decode_escrow(data);
    lemma_write_after_read(data);
    lemma_store_layout(escrow@, data);
    lemma_store_layout(read, data);
}

proof fn lemma_concat_append(parts: Seq<Seq<u8>>, last: Seq<u8>)
    ensures
        concat(parts.push(last)) == concat(parts) + last,
    decreases parts.len(),
{
    if parts.len() == 0 {
        assert(parts.push(last).drop_first() =~= Seq::<Seq<u8>>::empty());
        assert(concat(Seq::<Seq<u8>>::empty()) =~= Seq::<u8>::empty());
        assert(concat(parts.push(last)) =~= last);
    } else {
        lemma_concat_append(parts.drop_first(), last);
        assert(parts.push(last).drop_first() =~= parts.drop_first().push(last));
        assert(concat(parts.push(last)) =~= concat(parts) + last);
    }
}

} // verus!
