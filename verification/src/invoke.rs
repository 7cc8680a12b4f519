//! The instructions that the program sends to other programs.

use vstd::prelude::*;
use crate::codec::le_bytes;
use crate::pubkey::{token_program_key, Pubkey};

verus! {

/// An account that an instruction names.
#[derive(Clone, Copy, Debug, PartialEq, Eq)]
pub struct AccountMeta {
    pub pubkey: Pubkey,
    pub is_signer: bool,
    pub is_writable: bool,
}

/// What [`AccountMeta`] stands for.
pub struct MetaView {
    pub key: Seq<u8>,
    pub is_signer: bool,
    pub is_writable: bool,
}

impl View for AccountMeta {
    type V = MetaView;

    open spec fn view(&self) -> MetaView {
        MetaView { key: self.pubkey@, is_signer: self.is_signer, is_writable: self.is_writable }
    }
}

/// An instruction to another program.
#[derive(Debug, PartialEq, Eq)]
pub struct Instruction {
    pub program_id: Pubkey,
    pub accounts: Vec<AccountMeta>,
    pub data: Vec<u8>,
}

/// What [`Instruction`] stands for.
pub struct InstructionView {
    pub program_id: Seq<u8>,
    pub accounts: Seq<MetaView>,
    pub data: Seq<u8>,
}

impl View for Instruction {
    type V = InstructionView;

    open spec fn view(&self) -> InstructionView {
        InstructionView {
            program_id: self.program_id@,
            accounts: self.accounts@.map_values(|meta: AccountMeta| meta@),
            data: self.data@,
        }
    }
}

/// A writable account.
pub open spec fn writable(key: Seq<u8>, is_signer: bool) -> MetaView {
    MetaView { key, is_signer, is_writable: true }
}

/// An account that is only read.
pub open spec fn readonly(key: Seq<u8>, is_signer: bool) -> MetaView {
    MetaView { key, is_signer, is_writable: false }
}

/// The key of the system program: 32 zero bytes.
pub open spec fn system_program_key() -> Seq<u8> {
    Seq::new(32, |i: int| 0u8)
}

/// The key of the rent sysvar, `SysvarRent111111111111111111111111111111111`.
pub open spec fn rent_sysvar_key() -> Seq<u8> {
    seq![
        6u8, 167, 213, 23, 25, 44, 92, 81, 33, 140, 201, 76, 61, 74, 241, 127, 88, 218, 238, 8,
        155, 161, 253, 68, 227, 219, 217, 138, 0, 0, 0, 0,
    ]
}

/// To the system program: create the account `to` with `space` bytes of data,
/// owned by `owner`, and pay `lamports` from `from`.
pub open spec fn creation(
    from: Seq<u8>,
    to: Seq<u8>,
    lamports: u64,
    space: u64,
    owner: Seq<u8>,
) -> InstructionView {
    InstructionView {
        program_id: system_program_key(),
        accounts: seq![writable(from, true), writable(to, true)],
        data: le_bytes(0, 4) + le_bytes(lamports as nat, 8) + le_bytes(space as nat, 8) + owner,
    }
}

/// To the token program: mint `amount` to `account`, on the word of `owner`, or,
/// where `signers` are given, of these.
pub open spec fn minting(
    mint: Seq<u8>,
    account: Seq<u8>,
    owner: Seq<u8>,
    signers: Seq<Pubkey>,
    amount: u64,
) -> InstructionView {
    InstructionView {
        program_id: token_program_key(),
        accounts: seq![
            writable(mint, false),
            writable(account, false),
            readonly(owner, signers.len() == 0),
        ] + signers.map_values(|signer: Pubkey| readonly(signer@, true)),
        data: seq![7u8] + le_bytes(amount as nat, 8),
    }
}

/// To the token program: make `mint` a mint whose tokens have `decimals` decimals,
/// under the authority `authority`.
pub open spec fn mint_setup(
    mint: Seq<u8>,
    authority: Seq<u8>,
    freeze_authority: Option<Pubkey>,
    decimals: u8,
) -> InstructionView {
    InstructionView {
        program_id: token_program_key(),
        accounts: seq![writable(mint, false), readonly(rent_sysvar_key(), false)],
        data: seq![0u8, decimals] + authority + match freeze_authority {
            Some(key) => seq![1u8] + key@,
            None => seq![0u8],
        },
    }
}

/// `solana_program::system_instruction::create_account`: names the system program,
/// the two accounts, both writable and signing, and carries the number 0 in four
/// bytes, then the lamports, the space and the owner.
#[verifier::external_body]
pub(crate) fn create_account(
    from: &Pubkey,
    to: &Pubkey,
    lamports: u64,
    space: u64,
    owner: &Pubkey,
) -> (r: Instruction)
    ensures
        r@ == creation(from@, to@, lamports, space, owner@),
{
    let from_key = solana_program::pubkey::Pubkey::new_from_array(from.bytes);
    let to_key = solana_program::pubkey::Pubkey::new_from_array(to.bytes);
    let owner_key = solana_program::pubkey::Pubkey::new_from_array(owner.bytes);
    let made = solana_program::system_instruction::create_account(
        &from_key, &to_key, lamports, space, &owner_key);
    Instruction {
        program_id: Pubkey { bytes: made.program_id.to_bytes() },
        accounts: made.accounts.iter().map(|m| AccountMeta {
            pubkey: Pubkey { bytes: m.pubkey.to_bytes() },
            is_signer: m.is_signer, is_writable: m.is_writable,
        }).collect(),
        data: made.data,
    }
}

/// `spl_token::instruction::mint_to`: fails only where `program` is not the token
/// program; else names the mint and the account, both writable, and the owner,
/// who signs where no signers are given, then the signers, and carries the
/// number 7 and the amount.
#[verifier::external_body]
pub(crate) fn mint_to(
    program: &Pubkey,
    mint: &Pubkey,
    account: &Pubkey,
    owner: &Pubkey,
    signers: &[Pubkey],
    amount: u64,
) -> (r: Option<Instruction>)
    ensures
        r is Some <==> program@ == token_program_key(),
        r matches Some(made) ==> made@ == minting(mint@, account@, owner@, signers@, amount),
{
    let key = |k: &Pubkey| solana_program::pubkey::Pubkey::new_from_array(k.bytes);
    let keys: Vec<solana_program::pubkey::Pubkey> = signers.iter().map(key).collect();
    let refs: Vec<&solana_program::pubkey::Pubkey> = keys.iter().collect();
    let made = spl_token::instruction::mint_to(
        &key(program), &key(mint), &key(account), &key(owner), &refs, amount).ok()?;
    Some(Instruction {
        program_id: Pubkey { bytes: made.program_id.to_bytes() },
        accounts: made.accounts.iter().map(|m| AccountMeta {
            pubkey: Pubkey { bytes: m.pubkey.to_bytes() },
            is_signer: m.is_signer, is_writable: m.is_writable,
        }).collect(),
        data: made.data,
    })
}

/// `spl_token::instruction::initialize_mint`: fails only where `program` is not
/// the token program; else names the mint, writable, and the rent sysvar, and
/// carries the number 0, the decimals, the authority and the freeze authority,
/// the last behind a byte that says whether there is one.
#[verifier::external_body]
pub(crate) fn initialize_mint(
    program: &Pubkey,
    mint: &Pubkey,
    authority: &Pubkey,
    freeze_authority: Option<Pubkey>,
    decimals: u8,
) -> (r: Option<Instruction>)
    ensures
        r is Some <==> program@ == token_program_key(),
        r matches Some(made) ==> made@ == mint_setup(mint@, authority@, freeze_authority, decimals),
{
    let key = |k: &Pubkey| solana_program::pubkey::Pubkey::new_from_array(k.bytes);
    let freeze: Option<solana_program::pubkey::Pubkey> = freeze_authority.as_ref().map(key);
    let made = spl_token::instruction::initialize_mint(
        &key(program), &key(mint), &key(authority), freeze.as_ref(), decimals).ok()?;
    Some(Instruction {
        program_id: Pubkey { bytes: made.program_id.to_bytes() },
        accounts: made.accounts.iter().map(|m| AccountMeta {
            pubkey: Pubkey { bytes: m.pubkey.to_bytes() },
            is_signer: m.is_signer, is_writable: m.is_writable,
        }).collect(),
        data: made.data,
    })
}

/// `solana_program::native_token::LAMPORTS_PER_SOL`: a thousand million.
#[verifier::external_body]
pub(crate) fn lamports_per_sol() -> (r: u64)
    ensures
        r == 1_000_000_000,
{
    solana_program::native_token::LAMPORTS_PER_SOL
}

} // verus!
