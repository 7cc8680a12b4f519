use movie_review::error::{IoFault, ProgramError};
use movie_review::instruction::{MovieInstruction, MovieReviewPayload};
use movie_review::invoke::{AccountMeta, Instruction};
use movie_review::model::Places;
use movie_review::processor::{
    add_comment, add_movie_review, add_review_at, can_begin, can_resume, check_payment,
    count_up, counter_data, create_comment_at, create_comment_counter, create_counter_at,
    dispatch, initialize_mint_at, initialize_token_mint, pay_to, process_instruction, resume,
    try_dispatch, try_process_instruction, try_resume, update_movie_review, update_review_at,
};
use movie_review::pubkey::{
    find_authority_address, find_comment_address, find_counter_address, find_mint_address,
    find_review_address, Account, Pubkey,
};
use movie_review::state::{MovieAccountState, MovieComment, MovieCommentCounter};
use movie_review::step::{Action, Event, Flow, Stage, Step};
use solana_program::pubkey::Pubkey as Host;

const PROGRAM: Pubkey = Pubkey { bytes: [9; 32] };
const INVALID_PDA: ProgramError = ProgramError::Custom(1);
const INVALID_LENGTH: ProgramError = ProgramError::Custom(2);
const INVALID_RATING: ProgramError = ProgramError::Custom(3);
const INCORRECT_ACCOUNT: ProgramError = ProgramError::Custom(4);

fn key(byte: u8) -> Pubkey {
    Pubkey { bytes: [byte; 32] }
}

fn account(key: Pubkey) -> Account {
    Account { key, is_signer: false, owner: PROGRAM }
}

fn signer(byte: u8) -> Account {
    Account { key: key(byte), is_signer: true, owner: key(0) }
}

fn token_program() -> Pubkey {
    Pubkey { bytes: spl_token::ID.to_bytes() }
}

fn wallet(owner: Pubkey, mint: Pubkey) -> Pubkey {
    let address = spl_associated_token_account::get_associated_token_address(
        &Host::new_from_array(owner.bytes),
        &Host::new_from_array(mint.bytes),
    );
    Pubkey { bytes: address.to_bytes() }
}

fn words(title: &str, rating: u8, description: &str) -> MovieReviewPayload {
    MovieReviewPayload {
        title: title.to_string(),
        rating,
        description: description.to_string(),
    }
}

/// The accounts of a new review of `title` by the account 1.
fn review_accounts(title: &str) -> Vec<Account> {
    let review = find_review_address(&key(1), &title.to_string(), &PROGRAM).unwrap().0;
    let mint = find_mint_address(&PROGRAM).unwrap().0;
    let authority = find_authority_address(&PROGRAM).unwrap().0;
    vec![
        signer(1),
        account(review),
        account(mint),
        account(authority),
        account(wallet(key(1), mint)),
        account(key(0)),
        account(token_program()),
    ]
}

/// The accounts of the comment number `count` on the review 3 by the account 2.
fn comment_accounts(count: u64) -> Vec<Account> {
    let comment = find_comment_address(&key(3), count, &PROGRAM).unwrap().0;
    let mint = find_mint_address(&PROGRAM).unwrap().0;
    let authority = find_authority_address(&PROGRAM).unwrap().0;
    vec![
        signer(2),
        account(key(3)),
        account(find_counter_address(&key(3), &PROGRAM).unwrap().0),
        account(comment),
        account(mint),
        account(authority),
        account(wallet(key(2), mint)),
        account(key(0)),
        account(token_program()),
    ]
}

fn mint_accounts() -> Vec<Account> {
    vec![
        signer(1),
        account(find_mint_address(&PROGRAM).unwrap().0),
        account(find_authority_address(&PROGRAM).unwrap().0),
        account(key(0)),
        account(token_program()),
        account(key(5)),
    ]
}

fn refused(error: ProgramError) -> Step {
    Step::Done(Err(error))
}

fn flow(step: Step) -> Flow {
    match step {
        Step::Ask(_, flow) => flow,
        Step::Done(result) => panic!("the request ended with {:?}", result),
    }
}

fn action(step: &Step) -> &Action {
    match step {
        Step::Ask(action, _) => action,
        Step::Done(result) => panic!("the request ended with {:?}", result),
    }
}

fn at(accounts: &[Account], stage: Stage) -> Flow {
    Flow { program_id: PROGRAM, accounts: accounts.to_vec(), stage }
}

fn creation(from: Pubkey, to: Pubkey, lamports: u64, space: u64, owner: Pubkey) -> Instruction {
    let mut data = vec![0, 0, 0, 0];
    data.extend_from_slice(&lamports.to_le_bytes());
    data.extend_from_slice(&space.to_le_bytes());
    data.extend_from_slice(&owner.bytes);
    Instruction {
        program_id: key(0),
        accounts: vec![
            AccountMeta { pubkey: from, is_signer: true, is_writable: true },
            AccountMeta { pubkey: to, is_signer: true, is_writable: true },
        ],
        data,
    }
}

fn minting(mint: Pubkey, wallet: Pubkey, authority: Pubkey, amount: u64) -> Instruction {
    let mut data = vec![7];
    data.extend_from_slice(&amount.to_le_bytes());
    Instruction {
        program_id: token_program(),
        accounts: vec![
            AccountMeta { pubkey: mint, is_signer: false, is_writable: true },
            AccountMeta { pubkey: wallet, is_signer: false, is_writable: true },
            AccountMeta { pubkey: authority, is_signer: true, is_writable: false },
        ],
        data,
    }
}

fn review_record(title: &str, rating: u8, description: &str, used: bool) -> MovieAccountState {
    MovieAccountState {
        discriminator: "review".to_string(),
        is_initialized: used,
        reviewer: key(1),
        rating,
        title: title.to_string(),
        description: description.to_string(),
    }
}

fn counter_record(count: u64, used: bool) -> MovieCommentCounter {
    MovieCommentCounter {
        discriminator: "counter".to_string(),
        is_initialized: used,
        counter: count,
    }
}

fn comment_record(text: &str, used: bool) -> MovieComment {
    MovieComment {
        discriminator: "comment".to_string(),
        is_initialized: used,
        review: key(3),
        commenter: key(2),
        comment: text.to_string(),
    }
}

fn request(tag: u8, title: &str, rating: u8, description: &str) -> Vec<u8> {
    let mut bytes = vec![tag];
    let said = borsh::to_vec(&(title.to_string(), rating, description.to_string())).unwrap();
    bytes.extend_from_slice(&said);
    bytes
}

fn begin(accounts: &[Account], title: &str, rating: u8, description: &str) -> Step {
    add_movie_review(&PROGRAM, accounts, title.to_string(), rating, description.to_string())
}

// A new review.

#[test]
fn a_new_review_asks_for_its_rent() {
    let accounts = review_accounts("Heat");
    let bump = find_review_address(&key(1), &"Heat".to_string(), &PROGRAM).unwrap().1;
    assert_eq!(
        begin(&accounts, "Heat", 5, "big"),
        Step::Ask(
            Action::Rent { space: 1000 },
            at(&accounts, Stage::ReviewRent { words: words("Heat", 5, "big"), bump })
        )
    );
}

#[test]
fn a_new_review_wants_seven_accounts() {
    let accounts = review_accounts("Heat");
    for count in 0..7 {
        assert_eq!(
            begin(&accounts[..count], "Heat", 5, "big"),
            refused(ProgramError::NotEnoughAccountKeys)
        );
    }
}

#[test]
fn a_new_review_wants_a_signature() {
    let mut accounts = review_accounts("Heat");
    accounts[0].is_signer = false;
    assert_eq!(
        begin(&accounts, "Heat", 5, "big"),
        refused(ProgramError::MissingRequiredSignature)
    );
}

#[test]
fn a_new_review_wants_its_own_address() {
    let accounts = review_accounts("Heat");
    assert_eq!(begin(&accounts, "Ronin", 5, "big"), refused(INVALID_PDA));
    assert_eq!(begin(&accounts, "Ronin", 9, "big"), refused(INVALID_PDA));
}

#[test]
fn a_new_review_wants_one_to_five() {
    let accounts = review_accounts("Heat");
    for rating in 0..=255u8 {
        let step = begin(&accounts, "Heat", rating, "big");
        if (1..=5).contains(&rating) {
            assert_eq!(action(&step), &Action::Rent { space: 1000 });
        } else {
            assert_eq!(step, refused(INVALID_RATING));
        }
    }
}

#[test]
fn a_new_review_has_a_thousand_bytes() {
    let accounts = review_accounts("Heat");
    let step = begin(&accounts, "Heat", 5, &"x".repeat(944));
    assert_eq!(action(&step), &Action::Rent { space: 1000 });
    assert_eq!(begin(&accounts, "Heat", 5, &"x".repeat(945)), refused(INVALID_LENGTH));
    assert_eq!(begin(&accounts, "Heat", 0, &"x".repeat(945)), refused(INVALID_RATING));
}

#[test]
fn a_new_review_is_held_against_the_address_it_is_given() {
    let accounts = review_accounts("Heat");
    assert_eq!(
        add_review_at(&PROGRAM, &accounts, words("Heat", 5, "big"), key(8), 255),
        refused(INVALID_PDA)
    );
    let step = add_review_at(&PROGRAM, &accounts, words("Heat", 5, "big"), accounts[1].key, 7);
    assert_eq!(
        flow(step).stage,
        Stage::ReviewRent { words: words("Heat", 5, "big"), bump: 7 }
    );
}

#[test]
fn a_new_review_creates_its_account() {
    let accounts = review_accounts("Heat");
    let bump = find_review_address(&key(1), &"Heat".to_string(), &PROGRAM).unwrap().1;
    let step = resume(flow(begin(&accounts, "Heat", 5, "big")), Event::Rent(77));
    assert_eq!(
        step,
        Step::Ask(
            Action::Invoke {
                instruction: creation(key(1), accounts[1].key, 77, 1000, PROGRAM),
                accounts: vec![0, 1, 5],
                seeds: vec![vec![1; 32], b"Heat".to_vec(), vec![bump]],
            },
            at(&accounts, Stage::ReviewCreate { words: words("Heat", 5, "big") })
        )
    );
    assert_eq!(
        resume(flow(step), Event::Invoked),
        Step::Ask(
            Action::Read { account: 1 },
            at(&accounts, Stage::ReviewRead { words: words("Heat", 5, "big") })
        )
    );
}

#[test]
fn a_new_review_is_written() {
    let accounts = review_accounts("Heat");
    let reading = at(&accounts, Stage::ReviewRead { words: words("Heat", 5, "big") });
    let unused = review_record(&"x".repeat(10), 0, &"y".repeat(20), false).serialize().bytes;
    let record = review_record("Heat", 5, "big", true).serialize().bytes;
    let mut expected = record.clone();
    expected.extend_from_slice(&unused[record.len()..]);
    assert_eq!(
        resume(reading, Event::Data(unused)),
        Step::Ask(
            Action::Write { account: 1, data: expected },
            at(&accounts, Stage::ReviewWrite { review: accounts[1].key, fault: None })
        )
    );
}

#[test]
fn a_new_review_without_room_is_refused_once_written() {
    let accounts = review_accounts("Heat");
    let reading = at(&accounts, Stage::ReviewRead { words: words("Heat", 5, "big") });
    let unused = review_record("", 0, "", false).serialize().bytes;
    let record = review_record("Heat", 5, "big", true).serialize().bytes;
    let step = resume(reading, Event::Data(unused.clone()));
    assert_eq!(
        action(&step),
        &Action::Write { account: 1, data: record[..unused.len()].to_vec() }
    );
    assert_eq!(
        resume(flow(step), Event::Written),
        refused(ProgramError::BorshIoError(IoFault::NoRoom))
    );
}

#[test]
fn a_review_in_use_is_not_written_again() {
    let accounts = review_accounts("Heat");
    let reading = at(&accounts, Stage::ReviewRead { words: words("Heat", 5, "big") });
    let used = review_record("Heat", 1, "old", true).serialize().bytes;
    assert_eq!(
        resume(reading, Event::Data(used)),
        refused(ProgramError::AccountAlreadyInitialized)
    );
}

#[test]
fn a_blank_review_account_is_refused() {
    let accounts = review_accounts("Heat");
    let reading = at(&accounts, Stage::ReviewRead { words: words("Heat", 5, "big") });
    assert_eq!(
        resume(reading, Event::Data(vec![0; 1000])),
        refused(ProgramError::BorshIoError(IoFault::TrailingBytes))
    );
}

#[test]
fn a_new_review_has_room_in_its_account() {
    let accounts = review_accounts("Heat");
    let description = "x".repeat(944);
    let reading = at(&accounts, Stage::ReviewRead { words: words("Heat", 5, &description) });
    let unused = review_record("", 0, &"z".repeat(948), false).serialize().bytes;
    assert_eq!(unused.len(), 1000);
    let step = resume(reading, Event::Data(unused));
    assert_eq!(
        flow(step).stage,
        Stage::ReviewWrite { review: accounts[1].key, fault: None }
    );
}

// The counter of a new review.

#[test]
fn a_counter_follows_a_new_review() {
    let accounts = review_accounts("Heat");
    let written = at(&accounts, Stage::ReviewWrite { review: accounts[1].key, fault: None });
    let step = resume(written, Event::Written);
    assert_eq!(
        step,
        Step::Ask(
            Action::Rent { space: 20 },
            at(&accounts, Stage::CounterRent { review: accounts[1].key })
        )
    );
    assert_eq!(resume(flow(step), Event::Rent(5)), refused(ProgramError::InvalidArgument));
}

#[test]
fn a_counter_is_created_at_its_address() {
    let accounts = review_accounts("Heat");
    let review = accounts[1].key;
    let step =
        create_counter_at(PROGRAM, accounts.clone(), review, 55, accounts[1].key, 250);
    assert_eq!(
        step,
        Step::Ask(
            Action::Invoke {
                instruction: creation(key(1), accounts[1].key, 55, 20, PROGRAM),
                accounts: vec![0, 1, 2],
                seeds: vec![review.bytes.to_vec(), b"comment".to_vec(), vec![250]],
            },
            at(&accounts, Stage::CounterCreate)
        )
    );
    assert_eq!(
        resume(flow(step), Event::Invoked),
        Step::Ask(Action::Read { account: 1 }, at(&accounts, Stage::CounterRead))
    );
    assert_eq!(
        create_counter_at(PROGRAM, accounts, review, 55, key(8), 250),
        refused(ProgramError::InvalidArgument)
    );
}

#[test]
fn a_counter_starts_at_zero() {
    let accounts = review_accounts("Heat");
    let unused = counter_record(9, false).serialize().bytes;
    assert_eq!(
        resume(at(&accounts, Stage::CounterRead), Event::Data(unused)),
        Step::Ask(
            Action::Write { account: 1, data: counter_record(0, true).serialize().bytes },
            at(&accounts, Stage::CounterWrite { fault: None })
        )
    );
    let used = counter_record(9, true).serialize().bytes;
    assert_eq!(
        resume(at(&accounts, Stage::CounterRead), Event::Data(used)),
        refused(ProgramError::AccountAlreadyInitialized)
    );
    assert_eq!(
        resume(at(&accounts, Stage::CounterRead), Event::Data(vec![0; 20])),
        refused(ProgramError::BorshIoError(IoFault::TrailingBytes))
    );
    let fault = at(&accounts, Stage::CounterWrite { fault: Some(IoFault::NoRoom) });
    assert_eq!(
        resume(fault, Event::Written),
        refused(ProgramError::BorshIoError(IoFault::NoRoom))
    );
}

#[test]
fn a_counter_wants_three_accounts() {
    let accounts = review_accounts("Heat");
    for count in 0..3 {
        assert_eq!(
            create_comment_counter(PROGRAM, accounts[..count].to_vec(), accounts[1].key),
            refused(ProgramError::NotEnoughAccountKeys)
        );
    }
    assert_eq!(
        create_comment_counter(PROGRAM, accounts[..3].to_vec(), accounts[1].key),
        Step::Ask(
            Action::Rent { space: 20 },
            at(&accounts[..3], Stage::CounterRent { review: accounts[1].key })
        )
    );
}

#[test]
fn a_counter_depends_on_three_accounts() {
    let accounts = review_accounts("Heat");
    let review = accounts[1].key;
    let begun = |named: &[Account]| create_comment_counter(PROGRAM, named.to_vec(), review);
    let created = |named: &[Account], counter: Pubkey| {
        create_counter_at(PROGRAM, named.to_vec(), review, 55, counter, 250)
    };
    let opened = |named: &[Account], data: Vec<u8>| counter_data(PROGRAM, named.to_vec(), data);
    let unused = || counter_record(9, false).serialize().bytes;
    assert_eq!(action(&begun(&accounts)), action(&begun(&accounts[..3])));
    assert_eq!(action(&created(&accounts, review)), action(&created(&accounts[..3], review)));
    assert_eq!(created(&accounts, key(8)), created(&accounts[..3], key(8)));
    assert_eq!(action(&opened(&accounts, unused())), action(&opened(&accounts[..3], unused())));
    assert_eq!(opened(&accounts, vec![1]), opened(&accounts[..3], vec![1]));
    assert_eq!(
        flow(opened(&accounts, unused())).stage,
        flow(opened(&accounts[..3], unused())).stage
    );
}

// The reward.

#[test]
fn a_review_earns_ten_tokens() {
    let accounts = review_accounts("Heat");
    let bump = find_authority_address(&PROGRAM).unwrap().1;
    let step = resume(at(&accounts, Stage::CounterWrite { fault: None }), Event::Written);
    assert_eq!(
        step,
        Step::Ask(
            Action::Invoke {
                instruction: minting(
                    accounts[2].key,
                    accounts[4].key,
                    accounts[3].key,
                    10 * solana_program::native_token::LAMPORTS_PER_SOL,
                ),
                accounts: vec![2, 4, 3],
                seeds: vec![b"token_auth".to_vec(), vec![bump]],
            },
            at(&accounts, Stage::Payment)
        )
    );
    assert_eq!(resume(flow(step), Event::Invoked), Step::Done(Ok(())));
}

#[test]
fn a_payment_wants_its_own_accounts() {
    for (place, error) in [
        (2, INCORRECT_ACCOUNT),
        (3, INVALID_PDA),
        (4, INCORRECT_ACCOUNT),
        (6, INCORRECT_ACCOUNT),
    ] {
        let mut accounts = review_accounts("Heat");
        accounts[place].key = key(200);
        let step = resume(at(&accounts, Stage::CounterWrite { fault: None }), Event::Written);
        assert_eq!(step, refused(error));
    }
}

#[test]
fn a_payment_is_held_against_the_addresses_it_is_given() {
    let places = Places { mint: 0, authority: 1, wallet: 2, program: 3 };
    let accounts =
        vec![account(key(1)), account(key(2)), account(key(3)), account(token_program())];
    assert_eq!(check_payment(&accounts, places, &key(1), &key(2)), None);
    assert_eq!(
        check_payment(&accounts, places, &key(8), &key(2)).map(|e| e.code()),
        Some(4)
    );
    assert_eq!(
        check_payment(&accounts, places, &key(1), &key(8)).map(|e| e.code()),
        Some(1)
    );
    assert_eq!(
        pay_to(PROGRAM, accounts.clone(), places, 3, 17, key(3)),
        Step::Ask(
            Action::Invoke {
                instruction: minting(key(1), key(3), key(2), 3_000_000_000),
                accounts: vec![0, 2, 1],
                seeds: vec![b"token_auth".to_vec(), vec![17]],
            },
            at(&accounts, Stage::Payment)
        )
    );
    assert_eq!(
        pay_to(PROGRAM, accounts.clone(), places, 3, 17, key(8)),
        refused(INCORRECT_ACCOUNT)
    );
}

// A changed review.

fn change(accounts: &[Account], rating: u8, description: &str) -> Step {
    update_movie_review(
        &PROGRAM,
        accounts,
        "Heat".to_string(),
        rating,
        description.to_string(),
    )
}

#[test]
fn a_changed_review_is_read_first() {
    let accounts = review_accounts("Heat");
    assert_eq!(
        change(&accounts[..2], 2, "long"),
        Step::Ask(
            Action::Read { account: 1 },
            at(&accounts[..2], Stage::UpdateRead { words: words("Heat", 2, "long") })
        )
    );
}

#[test]
fn a_changed_review_is_refused_at_once() {
    let mut accounts = review_accounts("Heat");
    assert_eq!(change(&accounts[..1], 2, ""), refused(ProgramError::NotEnoughAccountKeys));
    accounts[0].is_signer = false;
    assert_eq!(change(&accounts, 2, ""), refused(ProgramError::MissingRequiredSignature));
    accounts[1].owner = key(8);
    assert_eq!(change(&accounts, 2, ""), refused(ProgramError::IllegalOwner));
}

#[test]
fn a_changed_review_keeps_all_but_rating_and_description() {
    let accounts = review_accounts("Heat");
    let old = review_record("Heat", 5, "big", true).serialize().bytes;
    let step = update_movie_review(
        &PROGRAM,
        &accounts,
        "another".to_string(),
        2,
        "bad".to_string(),
    );
    let step = resume(flow(step), Event::Data(old));
    assert_eq!(
        action(&step),
        &Action::Write {
            account: 1,
            data: review_record("Heat", 2, "bad", true).serialize().bytes,
        }
    );
    assert_eq!(resume(flow(step), Event::Written), Step::Done(Ok(())));
}

#[test]
fn a_changed_review_without_room_is_refused_once_written() {
    let accounts = review_accounts("Heat");
    let old = review_record("Heat", 5, "big", true).serialize().bytes;
    let step = resume(flow(change(&accounts, 2, "longer")), Event::Data(old.clone()));
    let new = review_record("Heat", 2, "longer", true).serialize().bytes;
    assert_eq!(action(&step), &Action::Write { account: 1, data: new[..old.len()].to_vec() });
    assert_eq!(
        resume(flow(step), Event::Written),
        refused(ProgramError::BorshIoError(IoFault::NoRoom))
    );
}

#[test]
fn a_changed_review_is_refused_for_what_it_reads() {
    let accounts = review_accounts("Heat");
    let read = |rating: u8, description: &str, data: Vec<u8>| {
        resume(flow(change(&accounts, rating, description)), Event::Data(data))
    };
    let old = review_record("Heat", 5, "big", true).serialize().bytes;
    assert_eq!(
        read(2, "", vec![1]),
        refused(ProgramError::BorshIoError(IoFault::Unreadable(
            "Unexpected length of input".to_string()
        )))
    );
    let mut padded = old.clone();
    padded.push(0);
    assert_eq!(
        read(2, "", padded),
        refused(ProgramError::BorshIoError(IoFault::TrailingBytes))
    );
    let other = review_record("Ronin", 5, "big", true).serialize().bytes;
    assert_eq!(read(2, "", other), refused(INVALID_PDA));
    let unused = review_record("Heat", 5, "big", false).serialize().bytes;
    assert_eq!(read(2, "", unused), refused(ProgramError::Custom(0)));
    assert_eq!(read(6, "", old.clone()), refused(INVALID_RATING));
    assert_eq!(read(0, "", old.clone()), refused(INVALID_RATING));
    assert_eq!(read(5, &"x".repeat(945), old), refused(INVALID_LENGTH));
}

#[test]
fn a_changed_review_is_held_against_the_address_it_is_given() {
    let accounts = review_accounts("Heat");
    let found = review_record("Heat", 5, "big", true);
    let data = found.serialize().bytes;
    assert_eq!(
        update_review_at(PROGRAM, accounts, words("Heat", 1, "big"), data, found, key(8)),
        refused(INVALID_PDA)
    );
}

// A comment.

#[test]
fn a_comment_is_worked_through() {
    let accounts = comment_accounts(6);
    let text = "yes".to_string();
    let step = add_comment(&PROGRAM, &accounts, text.clone());
    assert_eq!(
        step,
        Step::Ask(
            Action::Read { account: 2 },
            at(&accounts, Stage::CommentCount { comment: text.clone() })
        )
    );
    let old = counter_record(6, true).serialize().bytes;
    let step = resume(flow(step), Event::Data(old.clone()));
    assert_eq!(action(&step), &Action::Rent { space: 83 });
    let step = resume(flow(step), Event::Rent(40));
    let bump = find_comment_address(&key(3), 6, &PROGRAM).unwrap().1;
    assert_eq!(
        action(&step),
        &Action::Invoke {
            instruction: creation(key(2), accounts[3].key, 40, 83, PROGRAM),
            accounts: vec![0, 3, 7],
            seeds: vec![vec![3; 32], vec![0, 0, 0, 0, 0, 0, 0, 6], vec![bump]],
        }
    );
    let step = resume(flow(step), Event::Invoked);
    assert_eq!(action(&step), &Action::Read { account: 3 });
    let unused = comment_record("abc", false).serialize().bytes;
    let step = resume(flow(step), Event::Data(unused));
    assert_eq!(
        action(&step),
        &Action::Write { account: 3, data: comment_record("yes", true).serialize().bytes }
    );
    let step = resume(flow(step), Event::Written);
    assert_eq!(action(&step), &Action::Read { account: 2 });
    let step = resume(flow(step), Event::Data(old));
    assert_eq!(
        action(&step),
        &Action::Write { account: 2, data: counter_record(7, true).serialize().bytes }
    );
    let step = resume(flow(step), Event::Written);
    let authority = find_authority_address(&PROGRAM).unwrap();
    assert_eq!(
        action(&step),
        &Action::Invoke {
            instruction: minting(
                accounts[4].key,
                accounts[6].key,
                accounts[5].key,
                5_000_000_000,
            ),
            accounts: vec![4, 6, 5],
            seeds: vec![b"token_auth".to_vec(), vec![authority.1]],
        }
    );
    assert_eq!(resume(flow(step), Event::Invoked), Step::Done(Ok(())));
}

#[test]
fn a_comment_wants_nine_accounts() {
    let accounts = comment_accounts(0);
    for count in 0..9 {
        assert_eq!(
            add_comment(&PROGRAM, &accounts[..count], "yes".to_string()),
            refused(ProgramError::NotEnoughAccountKeys)
        );
    }
}

#[test]
fn a_comment_wants_its_own_address() {
    let accounts = comment_accounts(6);
    let rent = |count: u64| {
        let stage = Stage::CommentRent {
            comment: "yes".to_string(),
            counter: counter_record(count, true),
        };
        resume(at(&accounts, stage), Event::Rent(1))
    };
    assert_eq!(rent(5), refused(INVALID_PDA));
    assert!(matches!(rent(6), Step::Ask(Action::Invoke { .. }, _)));
    assert_eq!(
        create_comment_at(
            PROGRAM,
            accounts.clone(),
            "yes".to_string(),
            counter_record(6, true),
            1,
            key(8),
            1,
        ),
        refused(INVALID_PDA)
    );
}

#[test]
fn a_comment_is_refused_for_what_it_reads() {
    let accounts = comment_accounts(6);
    let counting = at(&accounts, Stage::CommentCount { comment: "yes".to_string() });
    assert_eq!(
        resume(counting, Event::Data(vec![0; 20])),
        refused(ProgramError::BorshIoError(IoFault::TrailingBytes))
    );
    let read = |data: Vec<u8>| {
        let stage = Stage::CommentRead {
            comment: "yes".to_string(),
            counter: counter_record(6, true),
        };
        resume(at(&accounts, stage), Event::Data(data))
    };
    assert_eq!(
        read(comment_record("old", true).serialize().bytes),
        refused(ProgramError::AccountAlreadyInitialized)
    );
    assert_eq!(
        read(vec![0; 83]),
        refused(ProgramError::BorshIoError(IoFault::TrailingBytes))
    );
    let stage = Stage::CommentWrite {
        counter: counter_record(6, true),
        fault: Some(IoFault::NoRoom),
    };
    assert_eq!(
        resume(at(&accounts, stage), Event::Written),
        refused(ProgramError::BorshIoError(IoFault::NoRoom))
    );
}

#[test]
fn a_counter_goes_up_by_one() {
    assert_eq!(count_up(counter_record(41, true)), counter_record(42, true));
}

#[test]
fn a_full_counter_does_not_go_up() {
    let stage = Stage::CommentWrite { counter: counter_record(u64::MAX, true), fault: None };
    let full = at(&comment_accounts(0), stage);
    assert!(!can_resume(&full, &Event::Written));
    assert_eq!(try_resume(full, Event::Written), None);
}

// The token mint.

#[test]
fn the_mint_is_set_up() {
    let accounts = mint_accounts();
    let bump = find_mint_address(&PROGRAM).unwrap().1;
    let step = initialize_token_mint(&PROGRAM, &accounts);
    assert_eq!(
        step,
        Step::Ask(Action::Rent { space: 82 }, at(&accounts, Stage::MintRent { bump }))
    );
    let step = resume(flow(step), Event::Rent(30));
    assert_eq!(
        action(&step),
        &Action::Invoke {
            instruction: creation(key(1), accounts[1].key, 30, 82, token_program()),
            accounts: vec![0, 1, 3],
            seeds: vec![b"token_mint".to_vec(), vec![bump]],
        }
    );
    let step = resume(flow(step), Event::Invoked);
    let mut data = vec![0, 9];
    data.extend_from_slice(&accounts[2].key.bytes);
    data.push(0);
    let rent = Pubkey { bytes: solana_program::sysvar::rent::ID.to_bytes() };
    assert_eq!(
        action(&step),
        &Action::Invoke {
            instruction: Instruction {
                program_id: token_program(),
                accounts: vec![
                    AccountMeta { pubkey: accounts[1].key, is_signer: false, is_writable: true },
                    AccountMeta { pubkey: rent, is_signer: false, is_writable: false },
                ],
                data,
            },
            accounts: vec![1, 5, 2],
            seeds: vec![b"token_mint".to_vec(), vec![bump]],
        }
    );
    assert_eq!(resume(flow(step), Event::Invoked), Step::Done(Ok(())));
}

#[test]
fn the_mint_wants_six_accounts() {
    let accounts = mint_accounts();
    for count in 0..6 {
        assert_eq!(
            initialize_token_mint(&PROGRAM, &accounts[..count]),
            refused(ProgramError::NotEnoughAccountKeys)
        );
    }
}

#[test]
fn the_mint_wants_its_own_accounts() {
    for place in [1, 2, 4] {
        let mut accounts = mint_accounts();
        accounts[place].key = key(200);
        assert_eq!(initialize_token_mint(&PROGRAM, &accounts), refused(INCORRECT_ACCOUNT));
    }
    let accounts = mint_accounts();
    assert_eq!(
        initialize_mint_at(&PROGRAM, &accounts, accounts[1].key, 3, key(8)),
        refused(INCORRECT_ACCOUNT)
    );
    let step = initialize_mint_at(&PROGRAM, &accounts, accounts[1].key, 3, accounts[2].key);
    assert_eq!(flow(step).stage, Stage::MintRent { bump: 3 });
}

// Requests and answers.

#[test]
fn a_request_in_bytes_is_begun() {
    let accounts = review_accounts("Heat");
    assert_eq!(
        process_instruction(&PROGRAM, &accounts, &request(0, "Heat", 5, "big")),
        begin(&accounts, "Heat", 5, "big")
    );
    assert_eq!(
        process_instruction(&PROGRAM, &accounts, &request(1, "Heat", 2, "bad")),
        change(&accounts, 2, "bad")
    );
    assert_eq!(
        process_instruction(&PROGRAM, &accounts, &request(2, "Heat", 2, "bad")),
        refused(ProgramError::InvalidInstructionData)
    );
    assert_eq!(
        try_process_instruction(&PROGRAM, &accounts, &[]),
        Some(refused(ProgramError::InvalidInstructionData))
    );
    assert_eq!(
        try_process_instruction(&PROGRAM, &accounts, &request(0, "Heat", 5, "big")),
        Some(begin(&accounts, "Heat", 5, "big"))
    );
}

#[test]
fn every_request_is_begun_as_it_asks() {
    let accounts = comment_accounts(0);
    let comment = || MovieInstruction::AddComment { comment: "yes".to_string() };
    assert_eq!(
        dispatch(&PROGRAM, &accounts, comment()),
        add_comment(&PROGRAM, &accounts, "yes".to_string())
    );
    assert_eq!(
        try_dispatch(&PROGRAM, &accounts, comment()),
        Some(add_comment(&PROGRAM, &accounts, "yes".to_string()))
    );
    let accounts = mint_accounts();
    assert_eq!(
        dispatch(&PROGRAM, &accounts, MovieInstruction::InitializeMint),
        initialize_token_mint(&PROGRAM, &accounts)
    );
}

#[test]
fn a_title_without_an_address_is_not_begun() {
    let accounts = review_accounts("Heat");
    let title = "x".repeat(33);
    let bytes = request(0, &title, 5, "big");
    assert_eq!(try_process_instruction(&PROGRAM, &accounts, &bytes), None);
    let instruction = MovieInstruction::unpack(&bytes).unwrap();
    assert!(!can_begin(&PROGRAM, &accounts, &instruction));
    assert_eq!(try_dispatch(&PROGRAM, &accounts, instruction), None);
    assert_eq!(
        try_process_instruction(&PROGRAM, &accounts[..6], &bytes),
        Some(refused(ProgramError::NotEnoughAccountKeys))
    );
}

#[test]
fn a_stored_title_without_an_address_is_not_resumed() {
    let accounts = review_accounts("Heat");
    let data = review_record(&"x".repeat(33), 5, "big", true).serialize().bytes;
    assert_eq!(try_resume(flow(change(&accounts, 2, "bad")), Event::Data(data)), None);
}

#[test]
fn an_error_of_the_host_is_the_answer() {
    let accounts = review_accounts("Heat");
    let step = begin(&accounts, "Heat", 5, "big");
    assert_eq!(resume(flow(step), Event::Failed(81)), refused(ProgramError::Runtime(81)));
    let paying = at(&accounts, Stage::Payment);
    assert_eq!(
        try_resume(paying, Event::Failed(82)),
        Some(refused(ProgramError::Runtime(82)))
    );
}
