//! Keys, accounts and the addresses that are derived for a program.

use vstd::prelude::*;
use vstd::utf8::*;
use crate::codec::{be_bytes, u64_be_bytes};

verus! {

/// A public key.
#[derive(Clone, Copy, Debug, PartialEq, Eq)]
pub struct Pubkey {
    pub bytes: [u8; 32],
}

impl View for Pubkey {
    type V = Seq<u8>;

    open spec fn view(&self) -> Seq<u8> {
        self.bytes@
    }
}

/// Two keys with the same bytes are one key.
pub proof fn lemma_pubkey_by_bytes(a: Pubkey, b: Pubkey)
    requires
        a@ == b@,
    ensures
        a == b,
{
    assert forall|i: int| 0 <= i < 32 implies a.bytes[i] == b.bytes[i] by {
        assert(a@[i] == b@[i]);
    }
    assert(a.bytes =~= b.bytes);
}

/// Whether two keys are the same.
pub fn same_key(a: &Pubkey, b: &Pubkey) -> (r: bool)
    ensures
        r == (*a == *b),
        r == (a@ == b@),
{
    let mut i: usize = 0;
    while i < 32
        invariant
            i <= 32,
            forall|j: int| 0 <= j < i ==> a.bytes[j] == b.bytes[j],
        decreases 32 - i,
    {
        if a.bytes[i] != b.bytes[i] {
            return false;
        }
        i = i + 1;
    }
    proof {
        assert(a@ =~= b@);
        lemma_pubkey_by_bytes(*a, *b);
    }
    true
}

/// What the program sees of an account that a request names.
#[derive(Clone, Copy, Debug, PartialEq, Eq)]
pub struct Account {
    pub key: Pubkey,
    /// Whether the account signed the request.
    pub is_signer: bool,
    /// The program that owns the account.
    pub owner: Pubkey,
}

/// The address that the host derives from seeds for a program, and its bump
/// seed; `None` where it derives none.
pub uninterp spec fn program_address(seeds: Seq<Seq<u8>>, program_id: Seq<u8>) -> Option<
    (Seq<u8>, u8),
>;

/// The bytes of each seed.
pub open spec fn seed_bytes(seeds: Seq<&[u8]>) -> Seq<Seq<u8>> {
    seeds.map_values(|seed: &[u8]| seed@)
}

/// `solana_program::pubkey::Pubkey::try_find_program_address`: the derived
/// address and its bump seed are a function of the seeds and the program alone,
/// and there is none where a seed is longer than 32 bytes.
#[verifier::external_body]
fn derive(seeds: &[&[u8]], program_id: &Pubkey) -> (r: Option<(Pubkey, u8)>)
    ensures
        r is Some <==> program_address(seed_bytes(seeds@), program_id@) is Some,
        r matches Some(found) ==> program_address(seed_bytes(seeds@), program_id@) == Some(
            (found.0@, found.1),
        ),
        r is Some ==> forall|i: int| 0 <= i < seeds@.len() ==> (#[trigger] seeds@[i])@.len() <= 32,
{
    let program = solana_program::pubkey::Pubkey::new_from_array(program_id.bytes);
    match solana_program::pubkey::Pubkey::try_find_program_address(seeds, &program) {
        Some((address, bump)) => Some((Pubkey { bytes: address.to_bytes() }, bump)),
        None => None,
    }
}

/// The key of the token program, `TokenkegQfeZyiNwAJbNbGKPFXCWuBvf9Ss623VQ5DA`.
pub open spec fn token_program_key() -> Seq<u8> {
    seq![
        6u8, 221, 246, 225, 215, 101, 161, 147, 217, 203, 225, 70, 206, 235, 121, 172, 28, 180,
        133, 237, 95, 91, 55, 145, 58, 140, 245, 133, 126, 255, 0, 169,
    ]
}

/// The key of the associated token program,
/// `ATokenGPvbdGVxr1b2hvZbsiqW5xWH25efTNsLJA8knL`.
pub open spec fn associated_token_program_key() -> Seq<u8> {
    seq![
        140u8, 151, 37, 143, 78, 36, 137, 241, 187, 61, 16, 41, 20, 142, 13, 131, 11, 90, 19, 153,
        218, 255, 16, 132, 4, 142, 123, 216, 219, 233, 248, 89,
    ]
}

/// `spl_token::ID`: the key of the token program.
#[verifier::external_body]
pub(crate) fn token_program_id() -> (r: Pubkey)
    ensures
        r@ == token_program_key(),
{
    Pubkey { bytes: spl_token::ID.to_bytes() }
}

/// `spl_associated_token_account::ID`: the key of the associated token program.
#[verifier::external_body]
fn associated_token_program_id() -> (r: Pubkey)
    ensures
        r@ == associated_token_program_key(),
{
    Pubkey { bytes: spl_associated_token_account::ID.to_bytes() }
}

/// The address of the review that one account gives of the film `title`.
pub open spec fn review_address(reviewer: Pubkey, title: Seq<char>, program_id: Pubkey) -> Option<
    (Seq<u8>, u8),
> {
    program_address(seq![reviewer@, encode_utf8(title)], program_id@)
}

/// The address of the counter of a review's comments.
pub open spec fn counter_address(review: Pubkey, program_id: Pubkey) -> Option<(Seq<u8>, u8)> {
    program_address(seq![review@, encode_utf8("comment"@)], program_id@)
}

/// The address of the comment number `count` on a review.
pub open spec fn comment_address(review: Pubkey, count: u64, program_id: Pubkey) -> Option<
    (Seq<u8>, u8),
> {
    program_address(seq![review@, be_bytes(count as nat, 8)], program_id@)
}

/// The address of the program's token mint.
pub open spec fn mint_address(program_id: Pubkey) -> Option<(Seq<u8>, u8)> {
    program_address(seq![encode_utf8("token_mint"@)], program_id@)
}

/// The address of the authority over the program's token mint.
pub open spec fn authority_address(program_id: Pubkey) -> Option<(Seq<u8>, u8)> {
    program_address(seq![encode_utf8("token_auth"@)], program_id@)
}

/// The address of the account in which `owner` holds the tokens of a mint.
pub open spec fn wallet_address(owner: Pubkey, mint: Pubkey) -> Option<(Seq<u8>, u8)> {
    program_address(seq![owner@, token_program_key(), mint@], associated_token_program_key())
}

/// Whether `r` holds the derived address and bump seed `derived`.
pub open spec fn holds(r: Option<(Pubkey, u8)>, derived: Option<(Seq<u8>, u8)>) -> bool {
    match r {
        Some(found) => derived == Some((found.0@, found.1)),
        None => derived is None,
    }
}

/// Derives the address of a review. A title of more than 32 bytes has none.
pub fn find_review_address(reviewer: &Pubkey, title: &String, program_id: &Pubkey) -> (r: Option<
    (Pubkey, u8),
>)
    ensures
        holds(r, review_address(*reviewer, title@, *program_id)),
        r is Some ==> encode_utf8(title@).len() <= 32,
{
    let name: &[u8] = title.as_str().as_bytes();
    let seeds: [&[u8]; 2] = [reviewer.bytes.as_slice(), name];
    let r = derive(&seeds, program_id);
    assert(seeds@[1]@ == encode_utf8(title@));
    assert(seed_bytes(seeds@) =~= seq![reviewer@, encode_utf8(title@)]);
    r
}

/// Derives the address of the counter of a review's comments.
pub fn find_counter_address(review: &Pubkey, program_id: &Pubkey) -> (r: Option<(Pubkey, u8)>)
    ensures
        holds(r, counter_address(*review, *program_id)),
{
    let seeds: [&[u8]; 2] = [review.bytes.as_slice(), "comment".as_bytes()];
    let r = derive(&seeds, program_id);
    assert(seed_bytes(seeds@) =~= seq![review@, encode_utf8("comment"@)]);
    r
}

/// Derives the address of the comment number `count` on a review.
pub fn find_comment_address(review: &Pubkey, count: u64, program_id: &Pubkey) -> (r: Option<
    (Pubkey, u8),
>)
    ensures
        holds(r, comment_address(*review, count, *program_id)),
{
    let number: Vec<u8> = u64_be_bytes(count);
    let seeds: [&[u8]; 2] = [review.bytes.as_slice(), number.as_slice()];
    let r = derive(&seeds, program_id);
    assert(seed_bytes(seeds@) =~= seq![review@, be_bytes(count as nat, 8)]);
    r
}

/// Derives the address of the program's token mint.
pub fn find_mint_address(program_id: &Pubkey) -> (r: Option<(Pubkey, u8)>)
    ensures
        holds(r, mint_address(*program_id)),
{
    let seeds: [&[u8]; 1] = ["token_mint".as_bytes()];
    let r = derive(&seeds, program_id);
    assert(seed_bytes(seeds@) =~= seq![encode_utf8("token_mint"@)]);
    r
}

/// Derives the address of the authority over the program's token mint.
pub fn find_authority_address(program_id: &Pubkey) -> (r: Option<(Pubkey, u8)>)
    ensures
        holds(r, authority_address(*program_id)),
{
    let seeds: [&[u8]; 1] = ["token_auth".as_bytes()];
    let r = derive(&seeds, program_id);
    assert(seed_bytes(seeds@) =~= seq![encode_utf8("token_auth"@)]);
    r
}

/// Whether there is an address for the tokens of a mint that `owner` holds.
pub fn has_wallet_address(owner: &Pubkey, mint: &Pubkey) -> (r: bool)
    ensures
        r == (wallet_address(*owner, *mint) is Some),
{
    let tokens: Pubkey = token_program_id();
    let seeds: [&[u8]; 3] = [
        owner.bytes.as_slice(),
        tokens.bytes.as_slice(),
        mint.bytes.as_slice(),
    ];
    let r = derive(&seeds, &associated_token_program_id());
    assert(seed_bytes(seeds@) =~= seq![owner@, token_program_key(), mint@]);
    r.is_some()
}

/// `spl_associated_token_account::get_associated_token_address`: the address that
/// is derived for the associated token program from the owner, the token program
/// and the mint. It panics where none is derived.
#[verifier::external_body]
pub(crate) fn get_associated_token_address(owner: &Pubkey, mint: &Pubkey) -> (r: Pubkey)
    requires
        wallet_address(*owner, *mint) is Some,
    ensures
        r@ == wallet_address(*owner, *mint).unwrap().0,
{
    let wallet = solana_program::pubkey::Pubkey::new_from_array(owner.bytes);
    let token_mint = solana_program::pubkey::Pubkey::new_from_array(mint.bytes);
    let address = spl_associated_token_account::get_associated_token_address(&wallet, &token_mint);
    Pubkey { bytes: address.to_bytes() }
}

} // verus!
