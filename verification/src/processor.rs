//! The program: what it does with a request, and with each answer of the host.

use vstd::prelude::*;
use vstd::slice::slice_to_vec;
use vstd::utf8::*;
use crate::codec::{lemma_le_bytes_len, u64_be_bytes};
use crate::error::{ProgramError, ReviewError};
use crate::instruction::{
    law_request_has_one_form, request_of, MovieInstruction, MovieReviewPayload, PayloadView,
    RequestView,
};
use crate::invoke::{create_account, initialize_mint, lamports_per_sol, mint_to, Instruction};
use crate::model::{
    ask, begin_derivable, begun, comment_at, comment_begun, comment_counted, comment_opened,
    comment_places, count_opened, counted_up, counter_at, counter_begun, counter_opened, mint_at,
    mint_begun, mint_opened, mint_priced, next, next_derivable, payment, payment_derivable,
    payment_refusal, payment_to, processed, refused, rejected, review_at, review_begun,
    review_opened, review_places, review_priced, update_at, update_begun, update_opened, Places,
    COMMENT_REWARD, MINT_DECIMALS, MINT_SPACE, REVIEW_REWARD, REVIEW_SPACE, UNITS_PER_TOKEN,
};
use crate::pubkey::{
    authority_address, find_authority_address, find_comment_address, find_counter_address,
    find_mint_address, find_review_address, get_associated_token_address, has_wallet_address,
    mint_address, review_address, same_key, token_program_id, token_program_key, Account, Pubkey,
};
use crate::state::{
    comment_size, decode_review, review_size, store, MovieAccountState, MovieComment,
    MovieCommentCounter,
};
use crate::step::{seeds_view, Action, ActionView, Event, Flow, Stage, Step};

verus! {

fn refuse(error: ProgramError) -> (r: Step)
    ensures
        r@ == refused(error@),
{
    Step::Done(Err(error))
}

fn reject(error: ReviewError) -> (r: Step)
    ensures
        r@ == rejected(error),
{
    Step::Done(Err(ProgramError::from(error)))
}

fn go(program_id: Pubkey, accounts: Vec<Account>, action: Action, stage: Stage) -> (r: Step)
    ensures
        r@ == ask(program_id, accounts@, action@, stage@),
{
    Step::Ask(action, Flow { program_id, accounts, stage })
}

fn invoke(instruction: Instruction, accounts: Vec<usize>, seeds: Vec<Vec<u8>>) -> (r: Action)
    ensures
        r@ == (ActionView::Invoke {
            instruction: instruction@,
            accounts: accounts@,
            seeds: seeds_view(seeds@),
        }),
{
    Action::Invoke { instruction, accounts, seeds }
}

fn three(a: usize, b: usize, c: usize) -> (r: Vec<usize>)
    ensures
        r@ == seq![a, b, c],
{
    let r: Vec<usize> = vec![a, b, c];
    assert(r@ =~= seq![a, b, c]);
    r
}

fn seeds_of_two(a: &[u8], bump: u8) -> (r: Vec<Vec<u8>>)
    ensures
        seeds_view(r@) == seq![a@, seq![bump]],
{
    let last: Vec<u8> = vec![bump];
    assert(last@ =~= seq![bump]);
    let r: Vec<Vec<u8>> = vec![slice_to_vec(a), last];
    assert(seeds_view(r@) =~= seq![a@, seq![bump]]);
    r
}

fn seeds_of_three(a: &[u8], b: &[u8], bump: u8) -> (r: Vec<Vec<u8>>)
    ensures
        seeds_view(r@) == seq![a@, b@, seq![bump]],
{
    let last: Vec<u8> = vec![bump];
    assert(last@ =~= seq![bump]);
    let r: Vec<Vec<u8>> = vec![slice_to_vec(a), slice_to_vec(b), last];
    assert(seeds_view(r@) =~= seq![a@, b@, seq![bump]]);
    r
}

// A new review.

/// Begins a new review.
pub fn add_movie_review(
    program_id: &Pubkey,
    accounts: &[Account],
    title: String,
    rating: u8,
    description: String,
) -> (r: Step)
    requires
        review_size(title@, description@) <= usize::MAX,
        accounts@.len() >= 7 && accounts@[0].is_signer ==> review_address(
            accounts@[0].key,
            title@,
            *program_id,
        ) is Some,
    ensures
        r@ == review_begun(
            *program_id,
            accounts@,
            (PayloadView { title: title@, rating, description: description@ }),
        ),
        r@.wf(),
{
    if accounts.len() < 7 {
        return refuse(ProgramError::NotEnoughAccountKeys);
    }
    if !accounts[0].is_signer {
        return refuse(ProgramError::MissingRequiredSignature);
    }
    let (pda, bump) = find_review_address(&accounts[0].key, &title, program_id).unwrap();
    add_review_at(
        program_id,
        accounts,
        MovieReviewPayload { title, rating, description },
        pda,
        bump,
    )
}

/// Begins a new review whose address is derived.
pub fn add_review_at(
    program_id: &Pubkey,
    accounts: &[Account],
    words: MovieReviewPayload,
    pda: Pubkey,
    bump: u8,
) -> (r: Step)
    requires
        accounts@.len() >= 7,
        review_size(words@.title, words@.description) <= usize::MAX,
    ensures
        r@ == review_at(*program_id, accounts@, words@, (pda@, bump)),
        r@.wf(),
{
    if !same_key(&pda, &accounts[1].key) {
        return reject(ReviewError::InvalidPDA);
    }
    if words.rating > 5 || words.rating < 1 {
        return reject(ReviewError::InvalidRating);
    }
    let total: usize = MovieAccountState::get_account_size(&words.title, &words.description);
    if total > REVIEW_SPACE {
        return reject(ReviewError::InvalidDataLength);
    }
    go(
        *program_id,
        slice_to_vec(accounts),
        Action::Rent { space: REVIEW_SPACE },
        Stage::ReviewRent { words, bump },
    )
}

fn review_rent(
    program_id: Pubkey,
    accounts: Vec<Account>,
    words: MovieReviewPayload,
    bump: u8,
    lamports: u64,
) -> (r: Step)
    requires
        accounts@.len() >= 7,
    ensures
        r@ == review_priced(program_id, accounts@, words@, bump, lamports),
{
    let instruction: Instruction = create_account(
        &accounts[0].key,
        &accounts[1].key,
        lamports,
        REVIEW_SPACE as u64,
        &program_id,
    );
    let seeds: Vec<Vec<u8>> = seeds_of_three(
        accounts[0].key.bytes.as_slice(),
        words.title.as_str().as_bytes(),
        bump,
    );
    let action: Action = invoke(instruction, three(0, 1, 5), seeds);
    go(program_id, accounts, action, Stage::ReviewCreate { words })
}

fn review_data(
    program_id: Pubkey,
    accounts: Vec<Account>,
    words: MovieReviewPayload,
    data: Vec<u8>,
) -> (r: Step)
    requires
        accounts@.len() >= 7,
    ensures
        r@ == review_opened(program_id, accounts@, words@, data@),
{
    let found: MovieAccountState = match MovieAccountState::try_from_slice(data.as_slice()) {
        Ok(found) => found,
        Err(fault) => return refuse(ProgramError::BorshIoError(fault)),
    };
    if found.is_initialized() {
        return refuse(ProgramError::AccountAlreadyInitialized);
    }
    let record = MovieAccountState {
        discriminator: MovieAccountState::DISCRIMINATOR.to_owned(),
        is_initialized: true,
        reviewer: accounts[0].key,
        rating: words.rating,
        title: words.title,
        description: words.description,
    };
    let (data, fault) = store(data, &record.serialize());
    let review: Pubkey = accounts[1].key;
    go(
        program_id,
        accounts,
        Action::Write { account: 1, data },
        Stage::ReviewWrite { review, fault },
    )
}

// The counter of a new review.

/// Begins the counter of a new review.
pub fn create_comment_counter(
    program_id: Pubkey,
    accounts: Vec<Account>,
    review: Pubkey,
) -> (r: Step)
    ensures
        r@ == counter_begun(program_id, accounts@, review),
        accounts@.len() < 3 || accounts@.len() >= 7 ==> r@.wf(),
{
    if accounts.len() < 3 {
        return refuse(ProgramError::NotEnoughAccountKeys);
    }
    go(
        program_id,
        accounts,
        Action::Rent { space: MovieCommentCounter::SIZE },
        Stage::CounterRent { review },
    )
}

/// Creates the account of a counter whose address is derived.
pub fn create_counter_at(
    program_id: Pubkey,
    accounts: Vec<Account>,
    review: Pubkey,
    lamports: u64,
    counter: Pubkey,
    bump: u8,
) -> (r: Step)
    requires
        accounts@.len() >= 3,
    ensures
        r@ == counter_at(program_id, accounts@, review, lamports, (counter@, bump)),
        accounts@.len() >= 7 ==> r@.wf(),
{
    if !same_key(&counter, &accounts[1].key) {
        return refuse(ProgramError::InvalidArgument);
    }
    let instruction: Instruction = create_account(
        &accounts[0].key,
        &accounts[1].key,
        lamports,
        MovieCommentCounter::SIZE as u64,
        &program_id,
    );
    let seeds: Vec<Vec<u8>> = seeds_of_three(
        review.bytes.as_slice(),
        "comment".as_bytes(),
        bump,
    );
    let action: Action = invoke(instruction, three(0, 1, 2), seeds);
    go(program_id, accounts, action, Stage::CounterCreate)
}

/// Starts a counter in an account that holds `data`.
pub fn counter_data(program_id: Pubkey, accounts: Vec<Account>, data: Vec<u8>) -> (r: Step)
    ensures
        r@ == counter_opened(program_id, accounts@, data@),
        accounts@.len() >= 7 ==> r@.wf(),
{
    let found: MovieCommentCounter = match MovieCommentCounter::try_from_slice(data.as_slice()) {
        Ok(found) => found,
        Err(fault) => return refuse(ProgramError::BorshIoError(fault)),
    };
    if found.is_initialized() {
        return refuse(ProgramError::AccountAlreadyInitialized);
    }
    let record = MovieCommentCounter {
        discriminator: MovieCommentCounter::DISCRIMINATOR.to_owned(),
        is_initialized: true,
        counter: 0,
    };
    let (data, fault) = store(data, &record.serialize());
    go(program_id, accounts, Action::Write { account: 1, data }, Stage::CounterWrite { fault })
}

// The reward.

fn places_of_review() -> (r: Places)
    ensures
        r == review_places(),
{
    Places { mint: 2, authority: 3, wallet: 4, program: 6 }
}

fn places_of_comment() -> (r: Places)
    ensures
        r == comment_places(),
{
    Places { mint: 4, authority: 5, wallet: 6, program: 8 }
}

/// Holds the token accounts of a payment against the derived mint and authority.
pub fn check_payment(
    accounts: &Vec<Account>,
    places: Places,
    mint: &Pubkey,
    authority: &Pubkey,
) -> (r: Option<ReviewError>)
    requires
        places.mint < accounts@.len(),
        places.authority < accounts@.len(),
    ensures
        r == payment_refusal(accounts@, places, mint@, authority@),
{
    if !same_key(&accounts[places.mint].key, mint) {
        return Some(ReviewError::IncorrectAccountError);
    }
    if !same_key(&accounts[places.authority].key, authority) {
        return Some(ReviewError::InvalidPDA);
    }
    None
}

/// Pays to a token account whose address is derived.
pub fn pay_to(
    program_id: Pubkey,
    accounts: Vec<Account>,
    places: Places,
    tokens: u64,
    bump: u8,
    wallet: Pubkey,
) -> (r: Step)
    requires
        places.mint < accounts@.len(),
        places.authority < accounts@.len(),
        places.wallet < accounts@.len(),
        places.program < accounts@.len(),
        tokens * UNITS_PER_TOKEN <= u64::MAX,
    ensures
        r@ == payment_to(program_id, accounts@, places, tokens, bump, wallet@),
        r@.wf(),
{
    if !same_key(&accounts[places.wallet].key, &wallet) {
        return reject(ReviewError::IncorrectAccountError);
    }
    if !same_key(&accounts[places.program].key, &token_program_id()) {
        return reject(ReviewError::IncorrectAccountError);
    }
    let signers: Vec<Pubkey> = Vec::new();
    let instruction: Instruction = mint_to(
        &accounts[places.program].key,
        &accounts[places.mint].key,
        &accounts[places.wallet].key,
        &accounts[places.authority].key,
        signers.as_slice(),
        tokens * lamports_per_sol(),
    ).unwrap();
    let seeds: Vec<Vec<u8>> = seeds_of_two("token_auth".as_bytes(), bump);
    let action: Action = invoke(
        instruction,
        three(places.mint, places.wallet, places.authority),
        seeds,
    );
    go(program_id, accounts, action, Stage::Payment)
}

fn pay(program_id: Pubkey, accounts: Vec<Account>, places: Places, tokens: u64) -> (r: Step)
    requires
        places.mint < accounts@.len(),
        places.authority < accounts@.len(),
        places.wallet < accounts@.len(),
        places.program < accounts@.len(),
        tokens * UNITS_PER_TOKEN <= u64::MAX,
        payment_derivable(program_id, accounts@, places),
    ensures
        r@ == payment(program_id, accounts@, places, tokens),
        r@.wf(),
{
    let (mint, _) = find_mint_address(&program_id).unwrap();
    let (authority, bump) = find_authority_address(&program_id).unwrap();
    if let Some(error) = check_payment(&accounts, places, &mint, &authority) {
        return reject(error);
    }
    let wallet: Pubkey = get_associated_token_address(
        &accounts[0].key,
        &accounts[places.mint].key,
    );
    pay_to(program_id, accounts, places, tokens, bump, wallet)
}

// A changed review.

/// Begins to change a review.
pub fn update_movie_review(
    program_id: &Pubkey,
    accounts: &[Account],
    title: String,
    rating: u8,
    description: String,
) -> (r: Step)
    requires
        review_size(title@, description@) <= usize::MAX,
    ensures
        r@ == update_begun(
            *program_id,
            accounts@,
            (PayloadView { title: title@, rating, description: description@ }),
        ),
        r@.wf(),
{
    if accounts.len() < 2 {
        return refuse(ProgramError::NotEnoughAccountKeys);
    }
    if !same_key(&accounts[1].owner, program_id) {
        return refuse(ProgramError::IllegalOwner);
    }
    if !accounts[0].is_signer {
        return refuse(ProgramError::MissingRequiredSignature);
    }
    go(
        *program_id,
        slice_to_vec(accounts),
        Action::Read { account: 1 },
        Stage::UpdateRead { words: MovieReviewPayload { title, rating, description } },
    )
}

/// Changes a review that was read from `data` and whose address is derived.
pub fn update_review_at(
    program_id: Pubkey,
    accounts: Vec<Account>,
    words: MovieReviewPayload,
    data: Vec<u8>,
    found: MovieAccountState,
    pda: Pubkey,
) -> (r: Step)
    requires
        accounts@.len() >= 2,
        review_size(words@.title, words@.description) <= usize::MAX,
    ensures
        r@ == update_at(program_id, accounts@, words@, data@, found@, pda@),
        r@.wf(),
{
    if !same_key(&pda, &accounts[1].key) {
        return reject(ReviewError::InvalidPDA);
    }
    if !found.is_initialized() {
        return reject(ReviewError::UninitializedAccount);
    }
    if words.rating > 5 || words.rating < 1 {
        return reject(ReviewError::InvalidRating);
    }
    let total: usize = MovieAccountState::get_account_size(&words.title, &words.description);
    if total > REVIEW_SPACE {
        return reject(ReviewError::InvalidDataLength);
    }
    let mut record: MovieAccountState = found;
    record.rating = words.rating;
    record.description = words.description;
    let (data, fault) = store(data, &record.serialize());
    go(program_id, accounts, Action::Write { account: 1, data }, Stage::UpdateWrite { fault })
}

fn update_data(
    program_id: Pubkey,
    accounts: Vec<Account>,
    words: MovieReviewPayload,
    data: Vec<u8>,
) -> (r: Step)
    requires
        accounts@.len() >= 2,
        review_size(words@.title, words@.description) <= usize::MAX,
        decode_review(data@) matches Ok(found) ==> review_address(
            accounts@[0].key,
            found.title,
            program_id,
        ) is Some,
    ensures
        r@ == update_opened(program_id, accounts@, words@, data@),
        r@.wf(),
{
    let found: MovieAccountState = match MovieAccountState::try_from_slice(data.as_slice()) {
        Ok(found) => found,
        Err(fault) => return refuse(ProgramError::BorshIoError(fault)),
    };
    let (pda, _) = find_review_address(&accounts[0].key, &found.title, &program_id).unwrap();
    update_review_at(program_id, accounts, words, data, found, pda)
}

// A comment.

/// Begins a comment.
pub fn add_comment(program_id: &Pubkey, accounts: &[Account], comment: String) -> (r: Step)
    requires
        comment_size(comment@) <= usize::MAX,
    ensures
        r@ == comment_begun(*program_id, accounts@, comment@),
        r@.wf(),
{
    if accounts.len() < 9 {
        return refuse(ProgramError::NotEnoughAccountKeys);
    }
    go(
        *program_id,
        slice_to_vec(accounts),
        Action::Read { account: 2 },
        Stage::CommentCount { comment },
    )
}

fn comment_count(
    program_id: Pubkey,
    accounts: Vec<Account>,
    comment: String,
    data: Vec<u8>,
) -> (r: Step)
    requires
        comment_size(comment@) <= usize::MAX,
    ensures
        r@ == comment_counted(program_id, accounts@, comment@, data@),
{
    let counter: MovieCommentCounter = match MovieCommentCounter::try_from_slice(data.as_slice()) {
        Ok(counter) => counter,
        Err(fault) => return refuse(ProgramError::BorshIoError(fault)),
    };
    let space: usize = MovieComment::get_account_size(&comment);
    go(program_id, accounts, Action::Rent { space }, Stage::CommentRent { comment, counter })
}

/// Creates the account of a comment whose address is derived.
pub fn create_comment_at(
    program_id: Pubkey,
    accounts: Vec<Account>,
    comment: String,
    counter: MovieCommentCounter,
    lamports: u64,
    pda: Pubkey,
    bump: u8,
) -> (r: Step)
    requires
        accounts@.len() >= 9,
        comment_size(comment@) <= usize::MAX,
    ensures
        r@ == comment_at(program_id, accounts@, comment@, counter@, lamports, (pda@, bump)),
        r@.wf(),
{
    if !same_key(&pda, &accounts[3].key) {
        return reject(ReviewError::InvalidPDA);
    }
    let instruction: Instruction = create_account(
        &accounts[0].key,
        &accounts[3].key,
        lamports,
        MovieComment::get_account_size(&comment) as u64,
        &program_id,
    );
    let number: Vec<u8> = u64_be_bytes(counter.counter);
    let seeds: Vec<Vec<u8>> = seeds_of_three(
        accounts[1].key.bytes.as_slice(),
        number.as_slice(),
        bump,
    );
    let action: Action = invoke(instruction, three(0, 3, 7), seeds);
    go(program_id, accounts, action, Stage::CommentCreate { comment, counter })
}

fn comment_data(
    program_id: Pubkey,
    accounts: Vec<Account>,
    comment: String,
    counter: MovieCommentCounter,
    data: Vec<u8>,
) -> (r: Step)
    requires
        accounts@.len() >= 9,
    ensures
        r@ == comment_opened(program_id, accounts@, comment@, counter@, data@),
{
    let found: MovieComment = match MovieComment::try_from_slice(data.as_slice()) {
        Ok(found) => found,
        Err(fault) => return refuse(ProgramError::BorshIoError(fault)),
    };
    if found.is_initialized() {
        return refuse(ProgramError::AccountAlreadyInitialized);
    }
    let record = MovieComment {
        discriminator: MovieComment::DISCRIMINATOR.to_owned(),
        is_initialized: true,
        review: accounts[1].key,
        commenter: accounts[0].key,
        comment,
    };
    let (data, fault) = store(data, &record.serialize());
    go(
        program_id,
        accounts,
        Action::Write { account: 3, data },
        Stage::CommentWrite { counter, fault },
    )
}

/// Counts one more comment.
pub fn count_up(counter: MovieCommentCounter) -> (r: MovieCommentCounter)
    requires
        counter@.counter < u64::MAX,
    ensures
        r@ == counted_up(counter@),
{
    let mut counter: MovieCommentCounter = counter;
    counter.counter = counter.counter + 1;
    counter
}

fn count_data(
    program_id: Pubkey,
    accounts: Vec<Account>,
    counter: MovieCommentCounter,
    data: Vec<u8>,
) -> (r: Step)
    ensures
        r@ == count_opened(program_id, accounts@, counter@, data@),
{
    let (data, fault) = store(data, &counter.serialize());
    go(program_id, accounts, Action::Write { account: 2, data }, Stage::CountWrite { fault })
}

// The token mint.

/// Begins to set up the token mint.
pub fn initialize_token_mint(program_id: &Pubkey, accounts: &[Account]) -> (r: Step)
    requires
        accounts@.len() >= 6 ==> mint_address(*program_id) is Some,
        accounts@.len() >= 6 ==> authority_address(*program_id) is Some,
    ensures
        r@ == mint_begun(*program_id, accounts@),
        r@.wf(),
{
    if accounts.len() < 6 {
        return refuse(ProgramError::NotEnoughAccountKeys);
    }
    let (mint, bump) = find_mint_address(program_id).unwrap();
    let (authority, _) = find_authority_address(program_id).unwrap();
    initialize_mint_at(program_id, accounts, mint, bump, authority)
}

/// Begins to set up the token mint, whose address and authority are derived.
pub fn initialize_mint_at(
    program_id: &Pubkey,
    accounts: &[Account],
    mint: Pubkey,
    bump: u8,
    authority: Pubkey,
) -> (r: Step)
    requires
        accounts@.len() >= 6,
    ensures
        r@ == mint_at(*program_id, accounts@, (mint@, bump), authority@),
        r@.wf(),
{
    if !same_key(&mint, &accounts[1].key) {
        return reject(ReviewError::IncorrectAccountError);
    }
    if !same_key(&accounts[4].key, &token_program_id()) {
        return reject(ReviewError::IncorrectAccountError);
    }
    if !same_key(&accounts[2].key, &authority) {
        return reject(ReviewError::IncorrectAccountError);
    }
    go(
        *program_id,
        slice_to_vec(accounts),
        Action::Rent { space: MINT_SPACE },
        Stage::MintRent { bump },
    )
}

fn mint_rent(program_id: Pubkey, accounts: Vec<Account>, bump: u8, lamports: u64) -> (r: Step)
    requires
        accounts@.len() >= 6,
    ensures
        r@ == mint_priced(program_id, accounts@, bump, lamports),
{
    let instruction: Instruction = create_account(
        &accounts[0].key,
        &accounts[1].key,
        lamports,
        MINT_SPACE as u64,
        &accounts[4].key,
    );
    let seeds: Vec<Vec<u8>> = seeds_of_two("token_mint".as_bytes(), bump);
    let action: Action = invoke(instruction, three(0, 1, 3), seeds);
    go(program_id, accounts, action, Stage::MintCreate { bump })
}

fn mint_created(program_id: Pubkey, accounts: Vec<Account>, bump: u8) -> (r: Step)
    requires
        accounts@.len() >= 6,
        accounts@[4].key@ == token_program_key(),
    ensures
        r@ == mint_opened(program_id, accounts@, bump),
{
    let instruction: Instruction = initialize_mint(
        &accounts[4].key,
        &accounts[1].key,
        &accounts[2].key,
        None,
        MINT_DECIMALS,
    ).unwrap();
    let seeds: Vec<Vec<u8>> = seeds_of_two("token_mint".as_bytes(), bump);
    let action: Action = invoke(instruction, three(1, 5, 2), seeds);
    go(program_id, accounts, action, Stage::MintSetup)
}

// Requests and answers.

/// Begins a request.
pub fn dispatch(
    program_id: &Pubkey,
    accounts: &[Account],
    instruction: MovieInstruction,
) -> (r: Step)
    requires
        request_fits(instruction@),
        begin_derivable(*program_id, accounts@, instruction@),
    ensures
        r@ == begun(*program_id, accounts@, instruction@),
        r@.wf(),
{
    match instruction {
        MovieInstruction::AddMovieReview { title, rating, description } => add_movie_review(
            program_id,
            accounts,
            title,
            rating,
            description,
        ),
        MovieInstruction::UpdateMovieReview { title, rating, description } => update_movie_review(
            program_id,
            accounts,
            title,
            rating,
            description,
        ),
        MovieInstruction::AddComment { comment } => add_comment(program_id, accounts, comment),
        MovieInstruction::InitializeMint => initialize_token_mint(program_id, accounts),
    }
}

/// Whether the sizes that a request is reckoned by are sizes of this machine.
pub open spec fn request_fits(request: RequestView) -> bool {
    match request {
        RequestView::AddMovieReview { title, description, .. } => review_size(title, description)
            <= usize::MAX,
        RequestView::UpdateMovieReview { title, description, .. } => review_size(
            title,
            description,
        ) <= usize::MAX,
        RequestView::AddComment { comment } => comment_size(comment) <= usize::MAX,
        RequestView::InitializeMint => true,
    }
}

/// A request that was read is 42 bytes shorter than the review it speaks of.
proof fn lemma_request_fits(input: Seq<u8>)
    requires
        request_of(input) is Ok,
        input.len() + 42 <= usize::MAX,
    ensures
        request_fits(request_of(input)->Ok_0),
{
    law_request_has_one_form(input);
    match request_of(input)->Ok_0 {
        RequestView::AddMovieReview { title, description, .. } => {
            lemma_le_bytes_len(encode_utf8(title).len(), 4);
            lemma_le_bytes_len(encode_utf8(description).len(), 4);
        },
        RequestView::UpdateMovieReview { title, description, .. } => {
            lemma_le_bytes_len(encode_utf8(title).len(), 4);
            lemma_le_bytes_len(encode_utf8(description).len(), 4);
        },
        _ => {},
    }
}

/// Reads a request and begins it.
pub fn process_instruction(
    program_id: &Pubkey,
    accounts: &[Account],
    instruction_data: &[u8],
) -> (r: Step)
    requires
        instruction_data@.len() + 42 <= usize::MAX,
        request_of(instruction_data@) matches Ok(request) ==> begin_derivable(
            *program_id,
            accounts@,
            request,
        ),
    ensures
        r@ == processed(*program_id, accounts@, instruction_data@),
        r@.wf(),
{
    let instruction: MovieInstruction = match MovieInstruction::unpack(instruction_data) {
        Ok(instruction) => instruction,
        Err(error) => return refuse(error),
    };
    proof {
        lemma_request_fits(instruction_data@);
    }
    dispatch(program_id, accounts, instruction)
}

/// Goes on with a request, given an answer of the host to what was asked.
pub fn resume(flow: Flow, event: Event) -> (r: Step)
    requires
        flow@.wf(),
        event@.answers(flow@.stage.awaits()),
        next_derivable(flow@, event@),
    ensures
        r@ == next(flow@, event@),
        r@.wf(),
{
    let program_id: Pubkey = flow.program_id;
    let accounts: Vec<Account> = flow.accounts;
    if let Event::Failed(code) = event {
        return refuse(ProgramError::Runtime(code));
    }
    match (flow.stage, event) {
        (Stage::ReviewRent { words, bump }, Event::Rent(lamports)) => review_rent(
            program_id,
            accounts,
            words,
            bump,
            lamports,
        ),
        (Stage::ReviewCreate { words }, _) => go(
            program_id,
            accounts,
            Action::Read { account: 1 },
            Stage::ReviewRead { words },
        ),
        (Stage::ReviewRead { words }, Event::Data(data)) => review_data(
            program_id,
            accounts,
            words,
            data,
        ),
        (Stage::ReviewWrite { review, fault }, _) => match fault {
            Some(fault) => refuse(ProgramError::BorshIoError(fault)),
            None => create_comment_counter(program_id, accounts, review),
        },
        (Stage::CounterRent { review }, Event::Rent(lamports)) => {
            let (counter, bump) = find_counter_address(&review, &program_id).unwrap();
            create_counter_at(program_id, accounts, review, lamports, counter, bump)
        },
        (Stage::CounterCreate, _) => go(
            program_id,
            accounts,
            Action::Read { account: 1 },
            Stage::CounterRead,
        ),
        (Stage::CounterRead, Event::Data(data)) => counter_data(program_id, accounts, data),
        (Stage::CounterWrite { fault }, _) => match fault {
            Some(fault) => refuse(ProgramError::BorshIoError(fault)),
            None => pay(program_id, accounts, places_of_review(), REVIEW_REWARD),
        },
        (Stage::UpdateRead { words }, Event::Data(data)) => update_data(
            program_id,
            accounts,
            words,
            data,
        ),
        (Stage::UpdateWrite { fault }, _) => match fault {
            Some(fault) => refuse(ProgramError::BorshIoError(fault)),
            None => Step::Done(Ok(())),
        },
        (Stage::CommentCount { comment }, Event::Data(data)) => comment_count(
            program_id,
            accounts,
            comment,
            data,
        ),
        (Stage::CommentRent { comment, counter }, Event::Rent(lamports)) => {
            let (pda, bump) = find_comment_address(
                &accounts[1].key,
                counter.counter,
                &program_id,
            ).unwrap();
            create_comment_at(program_id, accounts, comment, counter, lamports, pda, bump)
        },
        (Stage::CommentCreate { comment, counter }, _) => go(
            program_id,
            accounts,
            Action::Read { account: 3 },
            Stage::CommentRead { comment, counter },
        ),
        (Stage::CommentRead { comment, counter }, Event::Data(data)) => comment_data(
            program_id,
            accounts,
            comment,
            counter,
            data,
        ),
        (Stage::CommentWrite { counter, fault }, _) => match fault {
            Some(fault) => refuse(ProgramError::BorshIoError(fault)),
            None => go(
                program_id,
                accounts,
                Action::Read { account: 2 },
                Stage::CountRead { counter: count_up(counter) },
            ),
        },
        (Stage::CountRead { counter }, Event::Data(data)) => count_data(
            program_id,
            accounts,
            counter,
            data,
        ),
        (Stage::CountWrite { fault }, _) => match fault {
            Some(fault) => refuse(ProgramError::BorshIoError(fault)),
            None => pay(program_id, accounts, places_of_comment(), COMMENT_REWARD),
        },
        (Stage::Payment, _) => Step::Done(Ok(())),
        (Stage::MintRent { bump }, Event::Rent(lamports)) => mint_rent(
            program_id,
            accounts,
            bump,
            lamports,
        ),
        (Stage::MintCreate { bump }, _) => mint_created(program_id, accounts, bump),
        (Stage::MintSetup, _) => Step::Done(Ok(())),
        (_, _) => {
            assert(false);
            refuse(ProgramError::InvalidArgument)
        },
    }
}

// Requests and answers for which an address may be wanting.

fn can_pay(program_id: &Pubkey, accounts: &Vec<Account>, places: Places) -> (r: bool)
    requires
        0 < accounts@.len(),
        places.mint < accounts@.len(),
        places.authority < accounts@.len(),
    ensures
        r == payment_derivable(*program_id, accounts@, places),
{
    match (find_mint_address(program_id), find_authority_address(program_id)) {
        (Some((mint, _)), Some((authority, _))) => {
            match check_payment(accounts, places, &mint, &authority) {
                Some(_) => true,
                None => has_wallet_address(&accounts[0].key, &accounts[places.mint].key),
            }
        },
        (_, _) => false,
    }
}

/// Whether the addresses are derived that a request needs at once.
pub fn can_begin(
    program_id: &Pubkey,
    accounts: &[Account],
    instruction: &MovieInstruction,
) -> (r: bool)
    ensures
        r == begin_derivable(*program_id, accounts@, instruction@),
{
    match instruction {
        MovieInstruction::AddMovieReview { title, .. } => {
            if accounts.len() < 7 || !accounts[0].is_signer {
                return true;
            }
            find_review_address(&accounts[0].key, title, program_id).is_some()
        },
        MovieInstruction::InitializeMint => {
            if accounts.len() < 6 {
                return true;
            }
            let mint: bool = find_mint_address(program_id).is_some();
            let authority: bool = find_authority_address(program_id).is_some();
            mint && authority
        },
        _ => true,
    }
}

/// Whether the program can go on with an answer: the addresses that it needs are
/// derived, and the counter of comments can go up.
pub fn can_resume(flow: &Flow, event: &Event) -> (r: bool)
    requires
        flow@.wf(),
    ensures
        r == next_derivable(flow@, event@),
{
    match (&flow.stage, event) {
        (Stage::CounterRent { review }, Event::Rent(_)) => {
            find_counter_address(review, &flow.program_id).is_some()
        },
        (Stage::CounterWrite { fault: None }, Event::Written) => can_pay(
            &flow.program_id,
            &flow.accounts,
            places_of_review(),
        ),
        (Stage::UpdateRead { .. }, Event::Data(data)) => {
            match MovieAccountState::try_from_slice(data.as_slice()) {
                Ok(found) => find_review_address(
                    &flow.accounts[0].key,
                    &found.title,
                    &flow.program_id,
                ).is_some(),
                Err(_) => true,
            }
        },
        (Stage::CommentRent { counter, .. }, Event::Rent(_)) => find_comment_address(
            &flow.accounts[1].key,
            counter.counter,
            &flow.program_id,
        ).is_some(),
        (Stage::CommentWrite { counter, fault: None }, Event::Written) => counter.counter < u64::MAX,
        (Stage::CountWrite { fault: None }, Event::Written) => can_pay(
            &flow.program_id,
            &flow.accounts,
            places_of_comment(),
        ),
        (_, _) => true,
    }
}

/// Reads a request and begins it; `None` where an address that it needs at once is
/// not derived.
pub fn try_process_instruction(
    program_id: &Pubkey,
    accounts: &[Account],
    instruction_data: &[u8],
) -> (r: Option<Step>)
    requires
        instruction_data@.len() + 42 <= usize::MAX,
    ensures
        r is Some <==> (request_of(instruction_data@) matches Ok(request) ==> begin_derivable(
            *program_id,
            accounts@,
            request,
        )),
        r matches Some(step) ==> step@ == processed(*program_id, accounts@, instruction_data@)
            && step@.wf(),
{
    if let Ok(instruction) = MovieInstruction::unpack(instruction_data) {
        if !can_begin(program_id, accounts, &instruction) {
            return None;
        }
    }
    Some(process_instruction(program_id, accounts, instruction_data))
}

/// Begins a request; `None` where an address that it needs at once is not derived.
pub fn try_dispatch(
    program_id: &Pubkey,
    accounts: &[Account],
    instruction: MovieInstruction,
) -> (r: Option<Step>)
    requires
        request_fits(instruction@),
    ensures
        r is Some <==> begin_derivable(*program_id, accounts@, instruction@),
        r matches Some(step) ==> step@ == begun(*program_id, accounts@, instruction@) && step@.wf(),
{
    if can_begin(program_id, accounts, &instruction) {
        Some(dispatch(program_id, accounts, instruction))
    } else {
        None
    }
}

/// Goes on with a request, given an answer of the host to what was asked; `None`
/// where an address that it needs is not derived, or the counter of comments
/// cannot go up.
pub fn try_resume(flow: Flow, event: Event) -> (r: Option<Step>)
    requires
        flow@.wf(),
        event@.answers(flow@.stage.awaits()),
    ensures
        r is Some <==> next_derivable(flow@, event@),
        r matches Some(step) ==> step@ == next(flow@, event@) && step@.wf(),
{
    if can_resume(&flow, &event) {
        Some(resume(flow, event))
    } else {
        None
    }
}

} // verus!
