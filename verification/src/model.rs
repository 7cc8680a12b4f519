//! What the program answers to a request, and to each answer of the host.

use vstd::prelude::*;
use vstd::utf8::*;
use crate::codec::be_bytes;
use crate::error::{ErrorView, FaultView, ReviewError};
use crate::instruction::{request_of, PayloadView, RequestView};
use crate::invoke::{creation, mint_setup, minting};
use crate::pubkey::{
    authority_address, comment_address, counter_address, mint_address, review_address,
    token_program_key, wallet_address, Account, Pubkey,
};
use crate::state::{
    comment_size, decode_comment, decode_counter, decode_review, encode_comment, encode_counter,
    encode_review, overlay, review_size, store_fault, CommentView, CounterView, Encoded,
    MovieCommentCounter, ReviewView,
};
use crate::step::{ActionView, EventView, FlowView, StageView, StepView};

verus! {

/// The bytes that the account of a review has.
pub const REVIEW_SPACE: usize = 1000;

/// The bytes that the account of a token mint has.
pub const MINT_SPACE: usize = 82;

/// The decimals of the program's tokens.
pub const MINT_DECIMALS: u8 = 9;

/// The tokens that a review earns.
pub const REVIEW_REWARD: u64 = 10;

/// The tokens that a comment earns.
pub const COMMENT_REWARD: u64 = 5;

/// The least unit in a whole token.
pub const UNITS_PER_TOKEN: u64 = 1_000_000_000;

/// Where the accounts stand that a payment names.
#[derive(Clone, Copy, Debug, PartialEq, Eq)]
pub struct Places {
    pub mint: usize,
    pub authority: usize,
    pub wallet: usize,
    pub program: usize,
}

/// Where a new review names them.
pub open spec fn review_places() -> Places {
    Places { mint: 2, authority: 3, wallet: 4, program: 6 }
}

/// Where a comment names them.
pub open spec fn comment_places() -> Places {
    Places { mint: 4, authority: 5, wallet: 6, program: 8 }
}

/// The request is refused.
pub open spec fn refused(error: ErrorView) -> StepView {
    StepView::Done(Err(error))
}

/// The request is refused with an error of the program's own.
pub open spec fn rejected(error: ReviewError) -> StepView {
    refused(ErrorView::Custom(error.spec_code()))
}

/// The host is asked, and the flow goes on at `stage`.
pub open spec fn ask(
    program_id: Pubkey,
    accounts: Seq<Account>,
    action: ActionView,
    stage: StageView,
) -> StepView {
    StepView::Ask(action, FlowView { program_id, accounts, stage })
}

/// A record is written to an account that holds `data`.
pub open spec fn put(account: usize, data: Seq<u8>, record: Encoded) -> ActionView {
    ActionView::Write { account, data: overlay(data, record.bytes) }
}

/// A rating is one to five.
pub open spec fn rating_ok(rating: u8) -> bool {
    1 <= rating <= 5
}

// A new review.

/// A new review, once its address is derived.
pub open spec fn review_at(
    program_id: Pubkey,
    accounts: Seq<Account>,
    words: PayloadView,
    derived: (Seq<u8>, u8),
) -> StepView {
    if derived.0 != accounts[1].key@ {
        rejected(ReviewError::InvalidPDA)
    } else if !rating_ok(words.rating) {
        rejected(ReviewError::InvalidRating)
    } else if review_size(words.title, words.description) > REVIEW_SPACE {
        rejected(ReviewError::InvalidDataLength)
    } else {
        ask(
            program_id,
            accounts,
            ActionView::Rent { space: REVIEW_SPACE },
            StageView::ReviewRent { words, bump: derived.1 },
        )
    }
}

/// A new review. The accounts are its author, the review, the token mint, the
/// mint's authority, the author's token account, the system program and the token
/// program.
pub open spec fn review_begun(
    program_id: Pubkey,
    accounts: Seq<Account>,
    words: PayloadView,
) -> StepView {
    if accounts.len() < 7 {
        refused(ErrorView::NotEnoughAccountKeys)
    } else if !accounts[0].is_signer {
        refused(ErrorView::MissingRequiredSignature)
    } else {
        review_at(
            program_id,
            accounts,
            words,
            review_address(accounts[0].key, words.title, program_id).unwrap(),
        )
    }
}

/// A new review, once the rent of its account is known.
pub open spec fn review_priced(
    program_id: Pubkey,
    accounts: Seq<Account>,
    words: PayloadView,
    bump: u8,
    lamports: u64,
) -> StepView {
    ask(
        program_id,
        accounts,
        ActionView::Invoke {
            instruction: creation(
                accounts[0].key@,
                accounts[1].key@,
                lamports,
                REVIEW_SPACE as u64,
                program_id@,
            ),
            accounts: seq![0, 1, 5],
            seeds: seq![accounts[0].key@, encode_utf8(words.title), seq![bump]],
        },
        StageView::ReviewCreate { words },
    )
}

/// The record of a new review.
pub open spec fn new_review(reviewer: Pubkey, words: PayloadView) -> ReviewView {
    ReviewView {
        discriminator: "review"@,
        is_initialized: true,
        reviewer: reviewer@,
        rating: words.rating,
        title: words.title,
        description: words.description,
    }
}

/// A new review, once the data of its account are known.
pub open spec fn review_opened(
    program_id: Pubkey,
    accounts: Seq<Account>,
    words: PayloadView,
    data: Seq<u8>,
) -> StepView {
    match decode_review(data) {
        Err(fault) => refused(ErrorView::BorshIoError(fault)),
        Ok(found) => if found.is_initialized {
            refused(ErrorView::AccountAlreadyInitialized)
        } else {
            let record = encode_review(new_review(accounts[0].key, words));
            ask(
                program_id,
                accounts,
                put(1, data, record),
                StageView::ReviewWrite {
                    review: accounts[1].key,
                    fault: store_fault(data.len(), record),
                },
            )
        },
    }
}

// The counter of a new review.

/// The counter of a new review: the rent of its account is asked for. The accounts
/// are the payer, the counter and the system program.
pub open spec fn counter_begun(
    program_id: Pubkey,
    accounts: Seq<Account>,
    review: Pubkey,
) -> StepView {
    if accounts.len() < 3 {
        refused(ErrorView::NotEnoughAccountKeys)
    } else {
        ask(
            program_id,
            accounts,
            ActionView::Rent { space: MovieCommentCounter::SIZE },
            StageView::CounterRent { review },
        )
    }
}

/// The counter of a new review, once the rent of its account is known and its
/// address is derived. Its account stands second in the request.
pub open spec fn counter_at(
    program_id: Pubkey,
    accounts: Seq<Account>,
    review: Pubkey,
    lamports: u64,
    derived: (Seq<u8>, u8),
) -> StepView {
    if derived.0 != accounts[1].key@ {
        refused(ErrorView::InvalidArgument)
    } else {
        ask(
            program_id,
            accounts,
            ActionView::Invoke {
                instruction: creation(
                    accounts[0].key@,
                    accounts[1].key@,
                    lamports,
                    MovieCommentCounter::SIZE as u64,
                    program_id@,
                ),
                accounts: seq![0, 1, 2],
                seeds: seq![review@, encode_utf8("comment"@), seq![derived.1]],
            },
            StageView::CounterCreate,
        )
    }
}

/// The record of a new counter.
pub open spec fn new_counter() -> CounterView {
    CounterView { discriminator: "counter"@, is_initialized: true, counter: 0 }
}

/// The counter of a new review, once the data of its account are known.
pub open spec fn counter_opened(
    program_id: Pubkey,
    accounts: Seq<Account>,
    data: Seq<u8>,
) -> StepView {
    match decode_counter(data) {
        Err(fault) => refused(ErrorView::BorshIoError(fault)),
        Ok(found) => if found.is_initialized {
            refused(ErrorView::AccountAlreadyInitialized)
        } else {
            let record = encode_counter(new_counter());
            ask(
                program_id,
                accounts,
                put(1, data, record),
                StageView::CounterWrite { fault: store_fault(data.len(), record) },
            )
        },
    }
}

// The reward.

/// Why the token accounts of a payment are refused, given the derived mint and
/// authority.
pub open spec fn payment_refusal(
    accounts: Seq<Account>,
    places: Places,
    mint: Seq<u8>,
    authority: Seq<u8>,
) -> Option<ReviewError> {
    if accounts[places.mint as int].key@ != mint {
        Some(ReviewError::IncorrectAccountError)
    } else if accounts[places.authority as int].key@ != authority {
        Some(ReviewError::InvalidPDA)
    } else {
        None
    }
}

/// A payment, once the address of the payee's token account is derived.
pub open spec fn payment_to(
    program_id: Pubkey,
    accounts: Seq<Account>,
    places: Places,
    tokens: u64,
    bump: u8,
    wallet: Seq<u8>,
) -> StepView {
    if accounts[places.wallet as int].key@ != wallet {
        rejected(ReviewError::IncorrectAccountError)
    } else if accounts[places.program as int].key@ != token_program_key() {
        rejected(ReviewError::IncorrectAccountError)
    } else {
        ask(
            program_id,
            accounts,
            ActionView::Invoke {
                instruction: minting(
                    accounts[places.mint as int].key@,
                    accounts[places.wallet as int].key@,
                    accounts[places.authority as int].key@,
                    Seq::empty(),
                    (tokens * UNITS_PER_TOKEN) as u64,
                ),
                accounts: seq![places.mint, places.wallet, places.authority],
                seeds: seq![encode_utf8("token_auth"@), seq![bump]],
            },
            StageView::Payment,
        )
    }
}

/// Whether the addresses that a payment needs are derived.
pub open spec fn payment_derivable(
    program_id: Pubkey,
    accounts: Seq<Account>,
    places: Places,
) -> bool {
    &&& mint_address(program_id) is Some
    &&& authority_address(program_id) is Some
    &&& payment_refusal(
        accounts,
        places,
        mint_address(program_id).unwrap().0,
        authority_address(program_id).unwrap().0,
    ) is None ==> wallet_address(accounts[0].key, accounts[places.mint as int].key) is Some
}

/// A payment to the first account of the request.
pub open spec fn payment(
    program_id: Pubkey,
    accounts: Seq<Account>,
    places: Places,
    tokens: u64,
) -> StepView {
    match payment_refusal(
        accounts,
        places,
        mint_address(program_id).unwrap().0,
        authority_address(program_id).unwrap().0,
    ) {
        Some(error) => rejected(error),
        None => payment_to(
            program_id,
            accounts,
            places,
            tokens,
            authority_address(program_id).unwrap().1,
            wallet_address(accounts[0].key, accounts[places.mint as int].key).unwrap().0,
        ),
    }
}

// A changed review.

/// A changed review. The accounts are its author and the review.
pub open spec fn update_begun(
    program_id: Pubkey,
    accounts: Seq<Account>,
    words: PayloadView,
) -> StepView {
    if accounts.len() < 2 {
        refused(ErrorView::NotEnoughAccountKeys)
    } else if accounts[1].owner != program_id {
        refused(ErrorView::IllegalOwner)
    } else if !accounts[0].is_signer {
        refused(ErrorView::MissingRequiredSignature)
    } else {
        ask(
            program_id,
            accounts,
            ActionView::Read { account: 1 },
            StageView::UpdateRead { words },
        )
    }
}

/// The record of a changed review: the rating and the description are new.
pub open spec fn changed_review(found: ReviewView, words: PayloadView) -> ReviewView {
    ReviewView { rating: words.rating, description: words.description, ..found }
}

/// A changed review, once the review that stands is read and the address that
/// belongs to it is derived.
pub open spec fn update_at(
    program_id: Pubkey,
    accounts: Seq<Account>,
    words: PayloadView,
    data: Seq<u8>,
    found: ReviewView,
    derived: Seq<u8>,
) -> StepView {
    if derived != accounts[1].key@ {
        rejected(ReviewError::InvalidPDA)
    } else if !found.is_initialized {
        rejected(ReviewError::UninitializedAccount)
    } else if !rating_ok(words.rating) {
        rejected(ReviewError::InvalidRating)
    } else if review_size(words.title, words.description) > REVIEW_SPACE {
        rejected(ReviewError::InvalidDataLength)
    } else {
        let record = encode_review(changed_review(found, words));
        ask(
            program_id,
            accounts,
            put(1, data, record),
            StageView::UpdateWrite { fault: store_fault(data.len(), record) },
        )
    }
}

/// A changed review, once the data of its account are known.
pub open spec fn update_opened(
    program_id: Pubkey,
    accounts: Seq<Account>,
    words: PayloadView,
    data: Seq<u8>,
) -> StepView {
    match decode_review(data) {
        Err(fault) => refused(ErrorView::BorshIoError(fault)),
        Ok(found) => update_at(
            program_id,
            accounts,
            words,
            data,
            found,
            review_address(accounts[0].key, found.title, program_id).unwrap().0,
        ),
    }
}

// A comment.

/// A comment. The accounts are the commenter, the review, the counter, the
/// comment, the token mint, its authority, the commenter's token account, the
/// system program and the token program.
pub open spec fn comment_begun(
    program_id: Pubkey,
    accounts: Seq<Account>,
    comment: Seq<char>,
) -> StepView {
    if accounts.len() < 9 {
        refused(ErrorView::NotEnoughAccountKeys)
    } else {
        ask(
            program_id,
            accounts,
            ActionView::Read { account: 2 },
            StageView::CommentCount { comment },
        )
    }
}

/// A comment, once the data of the counter are known.
pub open spec fn comment_counted(
    program_id: Pubkey,
    accounts: Seq<Account>,
    comment: Seq<char>,
    data: Seq<u8>,
) -> StepView {
    match decode_counter(data) {
        Err(fault) => refused(ErrorView::BorshIoError(fault)),
        Ok(counter) => ask(
            program_id,
            accounts,
            ActionView::Rent { space: comment_size(comment) as usize },
            StageView::CommentRent { comment, counter },
        ),
    }
}

/// A comment, once the rent of its account is known and its address is derived.
pub open spec fn comment_at(
    program_id: Pubkey,
    accounts: Seq<Account>,
    comment: Seq<char>,
    counter: CounterView,
    lamports: u64,
    derived: (Seq<u8>, u8),
) -> StepView {
    if derived.0 != accounts[3].key@ {
        rejected(ReviewError::InvalidPDA)
    } else {
        ask(
            program_id,
            accounts,
            ActionView::Invoke {
                instruction: creation(
                    accounts[0].key@,
                    accounts[3].key@,
                    lamports,
                    comment_size(comment) as u64,
                    program_id@,
                ),
                accounts: seq![0, 3, 7],
                seeds: seq![
                    accounts[1].key@,
                    be_bytes(counter.counter as nat, 8),
                    seq![derived.1],
                ],
            },
            StageView::CommentCreate { comment, counter },
        )
    }
}

/// The record of a new comment.
pub open spec fn new_comment(
    review: Pubkey,
    commenter: Pubkey,
    comment: Seq<char>,
) -> CommentView {
    CommentView {
        discriminator: "comment"@,
        is_initialized: true,
        review: review@,
        commenter: commenter@,
        comment,
    }
}

/// A comment, once the data of its account are known.
pub open spec fn comment_opened(
    program_id: Pubkey,
    accounts: Seq<Account>,
    comment: Seq<char>,
    counter: CounterView,
    data: Seq<u8>,
) -> StepView {
    match decode_comment(data) {
        Err(fault) => refused(ErrorView::BorshIoError(fault)),
        Ok(found) => if found.is_initialized {
            refused(ErrorView::AccountAlreadyInitialized)
        } else {
            let record = encode_comment(new_comment(accounts[1].key, accounts[0].key, comment));
            ask(
                program_id,
                accounts,
                put(3, data, record),
                StageView::CommentWrite { counter, fault: store_fault(data.len(), record) },
            )
        },
    }
}

/// The counter after one more comment.
pub open spec fn counted_up(counter: CounterView) -> CounterView {
    CounterView { counter: (counter.counter + 1) as u64, ..counter }
}

/// A comment, once it is written: the data that the counter replaces are asked
/// for.
pub open spec fn comment_kept(
    program_id: Pubkey,
    accounts: Seq<Account>,
    counter: CounterView,
) -> StepView {
    ask(
        program_id,
        accounts,
        ActionView::Read { account: 2 },
        StageView::CountRead { counter: counted_up(counter) },
    )
}

/// A comment, once the data that the counter replaces are known.
pub open spec fn count_opened(
    program_id: Pubkey,
    accounts: Seq<Account>,
    counter: CounterView,
    data: Seq<u8>,
) -> StepView {
    let record = encode_counter(counter);
    ask(
        program_id,
        accounts,
        put(2, data, record),
        StageView::CountWrite { fault: store_fault(data.len(), record) },
    )
}

// The token mint.

/// The token mint, once its address and that of its authority are derived.
pub open spec fn mint_at(
    program_id: Pubkey,
    accounts: Seq<Account>,
    mint: (Seq<u8>, u8),
    authority: Seq<u8>,
) -> StepView {
    if mint.0 != accounts[1].key@ {
        rejected(ReviewError::IncorrectAccountError)
    } else if accounts[4].key@ != token_program_key() {
        rejected(ReviewError::IncorrectAccountError)
    } else if accounts[2].key@ != authority {
        rejected(ReviewError::IncorrectAccountError)
    } else {
        ask(
            program_id,
            accounts,
            ActionView::Rent { space: MINT_SPACE },
            StageView::MintRent { bump: mint.1 },
        )
    }
}

/// The token mint. The accounts are the payer, the mint, its authority, the system
/// program, the token program and the rent sysvar.
pub open spec fn mint_begun(program_id: Pubkey, accounts: Seq<Account>) -> StepView {
    if accounts.len() < 6 {
        refused(ErrorView::NotEnoughAccountKeys)
    } else {
        mint_at(
            program_id,
            accounts,
            mint_address(program_id).unwrap(),
            authority_address(program_id).unwrap().0,
        )
    }
}

/// The token mint, once the rent of its account is known.
pub open spec fn mint_priced(
    program_id: Pubkey,
    accounts: Seq<Account>,
    bump: u8,
    lamports: u64,
) -> StepView {
    ask(
        program_id,
        accounts,
        ActionView::Invoke {
            instruction: creation(
                accounts[0].key@,
                accounts[1].key@,
                lamports,
                MINT_SPACE as u64,
                accounts[4].key@,
            ),
            accounts: seq![0, 1, 3],
            seeds: seq![encode_utf8("token_mint"@), seq![bump]],
        },
        StageView::MintCreate { bump },
    )
}

/// The token mint, once its account is created.
pub open spec fn mint_opened(program_id: Pubkey, accounts: Seq<Account>, bump: u8) -> StepView {
    ask(
        program_id,
        accounts,
        ActionView::Invoke {
            instruction: mint_setup(accounts[1].key@, accounts[2].key@, None, MINT_DECIMALS),
            accounts: seq![1, 5, 2],
            seeds: seq![encode_utf8("token_mint"@), seq![bump]],
        },
        StageView::MintSetup,
    )
}

// Requests and answers.

/// What comes of a request.
pub open spec fn begun(
    program_id: Pubkey,
    accounts: Seq<Account>,
    request: RequestView,
) -> StepView {
    match request {
        RequestView::AddMovieReview { title, rating, description } => review_begun(
            program_id,
            accounts,
            PayloadView { title, rating, description },
        ),
        RequestView::UpdateMovieReview { title, rating, description } => update_begun(
            program_id,
            accounts,
            PayloadView { title, rating, description },
        ),
        RequestView::AddComment { comment } => comment_begun(program_id, accounts, comment),
        RequestView::InitializeMint => mint_begun(program_id, accounts),
    }
}

/// What comes of a request that is made in bytes.
pub open spec fn processed(program_id: Pubkey, accounts: Seq<Account>, input: Seq<u8>) -> StepView {
    match request_of(input) {
        Err(error) => refused(error),
        Ok(request) => begun(program_id, accounts, request),
    }
}

/// What comes after a record was written, or could not be written whole.
pub open spec fn written(fault: Option<FaultView>, next: StepView) -> StepView {
    match fault {
        Some(fault) => refused(ErrorView::BorshIoError(fault)),
        None => next,
    }
}

/// What comes of an answer of the host.
pub open spec fn next(flow: FlowView, event: EventView) -> StepView {
    let program_id = flow.program_id;
    let accounts = flow.accounts;
    match (flow.stage, event) {
        (_, EventView::Failed(code)) => refused(ErrorView::Runtime(code)),
        (StageView::ReviewRent { words, bump }, EventView::Rent(lamports)) => review_priced(
            program_id,
            accounts,
            words,
            bump,
            lamports,
        ),
        (StageView::ReviewCreate { words }, _) => ask(
            program_id,
            accounts,
            ActionView::Read { account: 1 },
            StageView::ReviewRead { words },
        ),
        (StageView::ReviewRead { words }, EventView::Data(data)) => review_opened(
            program_id,
            accounts,
            words,
            data,
        ),
        (StageView::ReviewWrite { review, fault }, _) => written(
            fault,
            counter_begun(program_id, accounts, review),
        ),
        (StageView::CounterRent { review }, EventView::Rent(lamports)) => counter_at(
            program_id,
            accounts,
            review,
            lamports,
            counter_address(review, program_id).unwrap(),
        ),
        (StageView::CounterCreate, _) => ask(
            program_id,
            accounts,
            ActionView::Read { account: 1 },
            StageView::CounterRead,
        ),
        (StageView::CounterRead, EventView::Data(data)) => counter_opened(
            program_id,
            accounts,
            data,
        ),
        (StageView::CounterWrite { fault }, _) => written(
            fault,
            payment(program_id, accounts, review_places(), REVIEW_REWARD),
        ),
        (StageView::UpdateRead { words }, EventView::Data(data)) => update_opened(
            program_id,
            accounts,
            words,
            data,
        ),
        (StageView::UpdateWrite { fault }, _) => written(fault, StepView::Done(Ok(()))),
        (StageView::CommentCount { comment }, EventView::Data(data)) => comment_counted(
            program_id,
            accounts,
            comment,
            data,
        ),
        (StageView::CommentRent { comment, counter }, EventView::Rent(lamports)) => comment_at(
            program_id,
            accounts,
            comment,
            counter,
            lamports,
            comment_address(accounts[1].key, counter.counter, program_id).unwrap(),
        ),
        (StageView::CommentCreate { comment, counter }, _) => ask(
            program_id,
            accounts,
            ActionView::Read { account: 3 },
            StageView::CommentRead { comment, counter },
        ),
        (StageView::CommentRead { comment, counter }, EventView::Data(data)) => comment_opened(
            program_id,
            accounts,
            comment,
            counter,
            data,
        ),
        (StageView::CommentWrite { counter, fault }, _) => written(
            fault,
            comment_kept(program_id, accounts, counter),
        ),
        (StageView::CountRead { counter }, EventView::Data(data)) => count_opened(
            program_id,
            accounts,
            counter,
            data,
        ),
        (StageView::CountWrite { fault }, _) => written(
            fault,
            payment(program_id, accounts, comment_places(), COMMENT_REWARD),
        ),
        (StageView::Payment, _) => StepView::Done(Ok(())),
        (StageView::MintRent { bump }, EventView::Rent(lamports)) => mint_priced(
            program_id,
            accounts,
            bump,
            lamports,
        ),
        (StageView::MintCreate { bump }, _) => mint_opened(program_id, accounts, bump),
        (StageView::MintSetup, _) => StepView::Done(Ok(())),
        (_, _) => arbitrary(),
    }
}

/// Whether the addresses are derived that a request needs at once.
pub open spec fn begin_derivable(
    program_id: Pubkey,
    accounts: Seq<Account>,
    request: RequestView,
) -> bool {
    match request {
        RequestView::AddMovieReview { title, .. } => accounts.len() >= 7 && accounts[0].is_signer
            ==> review_address(accounts[0].key, title, program_id) is Some,
        RequestView::UpdateMovieReview { .. } => true,
        RequestView::AddComment { .. } => true,
        RequestView::InitializeMint => accounts.len() >= 6 ==> mint_address(program_id) is Some
            && authority_address(program_id) is Some,
    }
}

/// Whether the program can go on with an answer: the addresses that it needs are
/// derived, and the counter of comments can go up.
pub open spec fn next_derivable(flow: FlowView, event: EventView) -> bool {
    let program_id = flow.program_id;
    let accounts = flow.accounts;
    match (flow.stage, event) {
        (StageView::CounterRent { review }, EventView::Rent(_)) => counter_address(
            review,
            program_id,
        ) is Some,
        (StageView::CounterWrite { fault: None }, EventView::Written) => payment_derivable(
            program_id,
            accounts,
            review_places(),
        ),
        (StageView::UpdateRead { .. }, EventView::Data(data)) => match decode_review(data) {
            Ok(found) => review_address(accounts[0].key, found.title, program_id) is Some,
            Err(_) => true,
        },
        (StageView::CommentRent { counter, .. }, EventView::Rent(_)) => comment_address(
            accounts[1].key,
            counter.counter,
            program_id,
        ) is Some,
        (StageView::CommentWrite { counter, fault: None }, EventView::Written) => counter.counter
            < u64::MAX,
        (StageView::CountWrite { fault: None }, EventView::Written) => payment_derivable(
            program_id,
            accounts,
            comment_places(),
        ),
        (_, _) => true,
    }
}

} // verus!
