//! The on-chain programs that the bundles call, and the instructions that their crates build.
use crate::instruction::{
    instruction_bytes, le_bytes, metas_view, readonly, writable, AccountMeta, AccountMetaView,
    Address, Instruction, InstructionView,
};
use crate::message::precedes;
use solana_sdk::instruction::AccountMeta as SdkAccountMeta;
use solana_sdk::instruction::Instruction as SdkInstruction;
use solana_sdk::pubkey::Pubkey;
use vstd::prelude::*;

verus! {

/// Address of the memo program, `MemoSq4gqABAXKb96qnH8TysNcWxMyWCqXgDLGmfcHr`.
pub const MEMO_PROGRAM_ID: Address = [
    5, 74, 83, 90, 153, 41, 33, 6, 77, 36, 232, 113, 96, 218, 56, 124, 124, 53, 181, 221, 188, 146,
    187, 129, 228, 31, 168, 64, 65, 5, 68, 141,
];

/// Address of the token program, `TokenkegQfeZyiNwAJbNbGKPFXCWuBvf9Ss623VQ5DA`.
pub const TOKEN_PROGRAM_ID: Address = [
    6, 221, 246, 225, 215, 101, 161, 147, 217, 203, 225, 70, 206, 235, 121, 172, 28, 180, 133, 237,
    95, 91, 55, 145, 58, 140, 245, 133, 126, 255, 0, 169,
];

/// Address of the rent sysvar, `SysvarRent111111111111111111111111111111111`.
pub const RENT_SYSVAR_ID: Address = [
    6, 167, 213, 23, 25, 44, 92, 81, 33, 140, 201, 76, 61, 74, 241, 127, 88, 218, 238, 8, 155, 161,
    253, 68, 227, 219, 217, 138, 0, 0, 0, 0,
];

/// Address of the system program, `11111111111111111111111111111111`.
pub const SYSTEM_PROGRAM_ID: Address = [
    0, 0, 0, 0, 0, 0, 0, 0, 0, 0, 0, 0, 0, 0, 0, 0, 0, 0, 0, 0, 0, 0, 0, 0, 0, 0, 0, 0, 0, 0, 0, 0,
];

/// An account as a bare triple: address, signer flag, writable flag.
pub type RawMeta = (Address, bool, bool);

/// An instruction as a bare triple: program, accounts, data.
pub type RawInstruction = (Address, Vec<RawMeta>, Vec<u8>);

/// The account that a bare triple stands for.
pub open spec fn raw_meta_view(raw: RawMeta) -> AccountMetaView {
    AccountMetaView { pubkey: raw.0@, is_signer: raw.1, is_writable: raw.2 }
}

/// The instruction that a bare triple stands for.
pub open spec fn raw_view(raw: RawInstruction) -> InstructionView {
    InstructionView {
        program_id: raw.0@,
        accounts: raw.1@.map_values(|meta: RawMeta| raw_meta_view(meta)),
        data: raw.2@,
    }
}

/// Names the parts of a bare instruction.
pub(crate) fn from_raw(raw: RawInstruction) -> (instruction: Instruction)
    ensures
        instruction@ == raw_view(raw),
{
    let (program_id, metas, data) = raw;
    let mut accounts: Vec<AccountMeta> = Vec::new();
    let mut i: usize = 0;
    while i < metas.len()
        invariant
            i <= metas@.len(),
            accounts@.len() == i,
            forall|j: int| 0 <= j < i ==> (#[trigger] accounts@[j])@ == raw_meta_view(metas@[j]),
        decreases metas@.len() - i,
    {
        let meta: RawMeta = metas[i];
        accounts.push(AccountMeta { pubkey: meta.0, is_signer: meta.1, is_writable: meta.2 });
        i += 1;
    }
    let instruction = Instruction { program_id, accounts, data };
    assert(instruction@.accounts =~= raw_view(raw).accounts);
    instruction
}

/// The accounts of an instruction as bare triples.
pub(crate) fn raw_metas(accounts: &Vec<AccountMeta>) -> (metas: Vec<RawMeta>)
    ensures
        metas@.map_values(|meta: RawMeta| raw_meta_view(meta))
            == metas_view(accounts@),
{
    let mut metas: Vec<RawMeta> = Vec::new();
    let mut i: usize = 0;
    while i < accounts.len()
        invariant
            i <= accounts@.len(),
            metas@.len() == i,
            forall|j: int| 0 <= j < i ==> raw_meta_view(#[trigger] metas@[j]) == accounts@[j]@,
        decreases accounts@.len() - i,
    {
        let meta = accounts[i];
        metas.push((meta.pubkey, meta.is_signer, meta.is_writable));
        i += 1;
    }
    assert(metas@.map_values(|meta: RawMeta| raw_meta_view(meta))
        =~= metas_view(accounts@));
    metas
}

/// Takes an instruction apart into a bare triple.
pub(crate) fn into_raw(instruction: Instruction) -> (raw: RawInstruction)
    ensures
        raw_view(raw) == instruction@,
{
    let metas = raw_metas(&instruction.accounts);
    (instruction.program_id, metas, instruction.data)
}

/// A memo instruction: the memo bytes, and the accounts that sign for them.
pub open spec fn memo_instruction(memo: Seq<u8>, signers: Seq<Seq<u8>>) -> InstructionView {
    InstructionView {
        program_id: MEMO_PROGRAM_ID@,
        accounts: signers.map_values(|signer: Seq<u8>| readonly(signer, true)),
        data: memo,
    }
}

/// A lamport transfer by the system program, whose data is the number 2 in four bytes and the
/// lamports in eight.
pub open spec fn transfer_instruction(from: Seq<u8>, to: Seq<u8>, lamports: u64) -> InstructionView {
    InstructionView {
        program_id: SYSTEM_PROGRAM_ID@,
        accounts: seq![writable(from, true), writable(to, false)],
        data: le_bytes(2, 4) + le_bytes(lamports as nat, 8),
    }
}

/// `spl_memo::build_memo`: an instruction of the memo program whose data is the memo and whose
/// accounts are the given signers, read only.
#[verifier::external_body]
pub(crate) fn build_memo(memo: &[u8], signers: &Vec<Address>) -> (raw: RawInstruction)
    ensures
        raw_view(raw) == memo_instruction(memo@, signers@.map_values(|signer: Address| signer@)),
{
    let signers: Vec<Pubkey> = signers.iter().map(|signer| Pubkey::from(*signer)).collect();
    let i = spl_memo::build_memo(memo, &signers.iter().collect::<Vec<_>>());
    (
        i.program_id.to_bytes(),
        i.accounts.iter().map(|m| (m.pubkey.to_bytes(), m.is_signer, m.is_writable)).collect(),
        i.data,
    )
}

/// `solana_sdk::system_instruction::transfer`: an instruction of the system program that names
/// the sender as a writable signer and the receiver as writable, and carries the amount.
#[verifier::external_body]
pub(crate) fn transfer(from: &Address, to: &Address, lamports: u64) -> (raw: RawInstruction)
    ensures
        raw_view(raw) == transfer_instruction(from@, to@, lamports),
{
    let i = solana_sdk::system_instruction::transfer(&(*from).into(), &(*to).into(), lamports);
    (
        i.program_id.to_bytes(),
        i.accounts.iter().map(|m| (m.pubkey.to_bytes(), m.is_signer, m.is_writable)).collect(),
        i.data,
    )
}

/// `spl_token::id`: the address of the token program.
#[verifier::external_body]
pub(crate) fn token_program_id() -> (id: Address)
    ensures
        id@ == TOKEN_PROGRAM_ID@,
{
    spl_token::id().to_bytes()
}

/// `solana_sdk::sysvar::rent::id`: the address of the rent sysvar.
#[verifier::external_body]
pub(crate) fn rent_sysvar_id() -> (id: Address)
    ensures
        id@ == RENT_SYSVAR_ID@,
{
    solana_sdk::sysvar::rent::id().to_bytes()
}

/// `solana_sdk::pubkey::Pubkey::new_unique`, nine times: addresses that the process has not handed
/// out before. An address counts up in its first eight bytes, the highest first, and leaves the
/// others zero, so each address comes before the ones drawn later; 64 bits of count do not run
/// out. The count itself depends on what the process did earlier, so nothing is stated of it.
#[verifier::external_body]
pub(crate) fn new_unique_nine() -> (addresses: [Address; 9])
    ensures
        forall|k: int, i: int| 0 <= k < 9 && 8 <= i < 32 ==> #[trigger] addresses@[k]@[i] == 0,
        forall|j: int, k: int|
            0 <= j < k < 9 ==> precedes(#[trigger] addresses@[j]@, #[trigger] addresses@[k]@),
{
    [(); 9].map(|_| Pubkey::new_unique().to_bytes())
}

/// `solana_sdk::instruction::Instruction::new_with_bincode` on an instruction: the program and
/// the accounts as given, and as data the fixed-width little-endian encoding of the inner
/// instruction, field after field, each list behind its length.
#[verifier::external_body]
pub(crate) fn new_with_bincode(
    program_id: &Address,
    inner: RawInstruction,
    accounts: Vec<RawMeta>,
) -> (raw: RawInstruction)
    ensures
        raw_view(raw) == (InstructionView {
            program_id: program_id@,
            accounts: accounts@.map_values(|meta: RawMeta| raw_meta_view(meta)),
            data: instruction_bytes(raw_view(inner)),
        }),
{
    let meta = |(k, s, w): RawMeta| SdkAccountMeta { pubkey: k.into(), is_signer: s, is_writable: w };
    let (program, metas, data) = inner;
    let metas = metas.into_iter().map(meta).collect();
    let inner = SdkInstruction { program_id: program.into(), accounts: metas, data };
    let accounts = accounts.into_iter().map(meta).collect();
    let i = SdkInstruction::new_with_bincode((*program_id).into(), &inner, accounts);
    (
        i.program_id.to_bytes(),
        i.accounts.iter().map(|m| (m.pubkey.to_bytes(), m.is_signer, m.is_writable)).collect(),
        i.data,
    )
}

} // verus!
