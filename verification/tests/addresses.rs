use movie_review::pubkey::{
    find_authority_address, find_comment_address, find_counter_address, find_mint_address,
    find_review_address, has_wallet_address, same_key, Pubkey,
};
use solana_program::pubkey::Pubkey as Host;

fn key(byte: u8) -> Pubkey {
    Pubkey { bytes: [byte; 32] }
}

fn derived(seeds: &[&[u8]], program: &Pubkey) -> Option<(Pubkey, u8)> {
    let (address, bump) =
        Host::find_program_address(seeds, &Host::new_from_array(program.bytes));
    Some((Pubkey { bytes: address.to_bytes() }, bump))
}

#[test]
fn a_review_stands_at_author_and_title() {
    let found = find_review_address(&key(1), &"Amélie".to_string(), &key(9));
    assert_eq!(found, derived(&[&[1; 32], "Amélie".as_bytes()], &key(9)));
    assert_ne!(found, find_review_address(&key(2), &"Amélie".to_string(), &key(9)));
    assert_ne!(found, find_review_address(&key(1), &"Heat".to_string(), &key(9)));
    assert_ne!(found, find_review_address(&key(1), &"Amélie".to_string(), &key(8)));
}

#[test]
fn a_title_of_more_than_32_bytes_has_no_address() {
    assert!(find_review_address(&key(1), &"x".repeat(32), &key(9)).is_some());
    assert_eq!(find_review_address(&key(1), &"x".repeat(33), &key(9)), None);
    assert_eq!(find_review_address(&key(1), &"é".repeat(17), &key(9)), None);
}

#[test]
fn a_counter_stands_at_its_review() {
    assert_eq!(
        find_counter_address(&key(3), &key(9)),
        derived(&[&[3; 32], b"comment"], &key(9))
    );
}

#[test]
fn a_comment_stands_at_its_review_and_number() {
    assert_eq!(
        find_comment_address(&key(3), 258, &key(9)),
        derived(&[&[3; 32], &[0, 0, 0, 0, 0, 0, 1, 2]], &key(9))
    );
}

#[test]
fn the_mint_and_its_authority_stand_at_their_names() {
    assert_eq!(find_mint_address(&key(9)), derived(&[b"token_mint"], &key(9)));
    assert_eq!(find_authority_address(&key(9)), derived(&[b"token_auth"], &key(9)));
}

#[test]
fn an_owner_has_a_wallet() {
    assert!(has_wallet_address(&key(1), &key(2)));
}

#[test]
fn keys_are_the_same_by_their_bytes() {
    let mut other = key(4);
    assert!(same_key(&key(4), &other));
    other.bytes[31] = 5;
    assert!(!same_key(&key(4), &other));
}
