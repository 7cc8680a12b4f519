//! What holds of the program as a whole.

pub mod effects;
pub mod forms;

use vstd::prelude::*;
use vstd::utf8::*;
use crate::codec::{be_bytes, le_value, lemma_le_bytes_len, string_front};
use crate::error::{ErrorView, FaultView};
use crate::instruction::{PayloadView, RequestView};
use crate::invoke::minting;
use crate::model::{
    begin_derivable, begun, changed_review, comment_at, comment_begun, comment_opened,
    comment_places, counted_up, counter_at, counter_begun, counter_opened, mint_begun,
    mint_opened, mint_priced, new_comment, new_counter, new_review, next, next_derivable, payment,
    payment_derivable, rating_ok, refused, review_begun, review_opened, review_places,
    review_priced, update_begun, Places, COMMENT_REWARD, REVIEW_REWARD, REVIEW_SPACE,
};
use crate::pubkey::{
    authority_address, comment_address, counter_address, mint_address, program_address,
    review_address, token_program_key, wallet_address, Account, Pubkey,
};
use crate::state::{
    comment_size, decode_comment, decode_counter, decode_review, encode_comment, encode_counter,
    encode_review, law_counter_has_one_form, law_counter_reads_back, law_review_size, overlay,
    review_size, store_fault, CounterView, MovieCommentCounter,
};
use crate::step::{ActionView, EventView, FlowView, StageView, StepView};

verus! {

/// What comes of a step when the host gives this answer.
pub open spec fn told(step: StepView, event: EventView) -> StepView {
    match step {
        StepView::Done(_) => step,
        StepView::Ask(_, flow) => next(flow, event),
    }
}

/// How many answers are still wanted, at the most.
pub open spec fn wanted(stage: StageView) -> nat {
    match stage {
        StageView::ReviewRent { .. } => 9,
        StageView::ReviewCreate { .. } => 8,
        StageView::ReviewRead { .. } => 7,
        StageView::ReviewWrite { .. } => 6,
        StageView::CounterRent { .. } => 5,
        StageView::CounterCreate => 4,
        StageView::CounterRead => 3,
        StageView::CounterWrite { .. } => 2,
        StageView::UpdateRead { .. } => 2,
        StageView::UpdateWrite { .. } => 1,
        StageView::CommentCount { .. } => 8,
        StageView::CommentRent { .. } => 7,
        StageView::CommentCreate { .. } => 6,
        StageView::CommentRead { .. } => 5,
        StageView::CommentWrite { .. } => 4,
        StageView::CountRead { .. } => 3,
        StageView::CountWrite { .. } => 2,
        StageView::Payment => 1,
        StageView::MintRent { .. } => 3,
        StageView::MintCreate { .. } => 2,
        StageView::MintSetup => 1,
    }
}

/// A request that is being worked through stays well formed, and is worked through
/// for the same program with the same accounts.
pub proof fn law_flow_stays_well_formed(flow: FlowView, event: EventView)
    requires
        flow.wf(),
        event.answers(flow.stage.awaits()),
    ensures
        next(flow, event).wf(),
        next(flow, event) matches StepView::Ask(_, after) ==> after.program_id == flow.program_id
            && after.accounts == flow.accounts,
{
}

/// Every request comes to an end: each answer leaves fewer to be wanted.
pub proof fn law_every_request_ends(flow: FlowView, event: EventView)
    requires
        event.answers(flow.stage.awaits()),
    ensures
        wanted(flow.stage) > 0,
        next(flow, event) matches StepView::Ask(_, after) ==> wanted(after.stage) < wanted(
            flow.stage,
        ),
{
}

/// An error of the host ends the request, and is the answer to it.
pub proof fn law_host_error_is_the_answer(flow: FlowView, code: u64)
    requires
        EventView::Failed(code).answers(flow.stage.awaits()),
    ensures
        next(flow, EventView::Failed(code)) == StepView::Done(Err(ErrorView::Runtime(code))),
{
}

/// The account whose data a stage waits for.
pub open spec fn opened(stage: StageView) -> usize {
    match stage {
        StageView::ReviewRead { .. } => 1,
        StageView::CounterRead => 1,
        StageView::UpdateRead { .. } => 1,
        StageView::CommentCount { .. } => 2,
        StageView::CommentRead { .. } => 3,
        StageView::CountRead { .. } => 2,
        _ => arbitrary(),
    }
}

/// A request never succeeds before the host has been asked, and what is asked
/// first changes nothing: the rent, or the data of an account.
pub proof fn law_first_step_changes_nothing(
    program_id: Pubkey,
    accounts: Seq<Account>,
    request: RequestView,
)
    ensures
        match begun(program_id, accounts, request) {
            StepView::Done(result) => result is Err,
            StepView::Ask(action, flow) => action is Rent || action == (ActionView::Read {
                account: opened(flow.stage),
            }),
        },
{
}

/// A request succeeds only in three ways: its reward was minted, the token mint
/// was set up, or a changed review was written whole.
pub proof fn law_success_has_three_ways(flow: FlowView, event: EventView)
    requires
        event.answers(flow.stage.awaits()),
        next(flow, event) == StepView::Done(Ok(())),
    ensures
        ({
            ||| flow.stage is Payment && event is Invoked
            ||| flow.stage is MintSetup && event is Invoked
            ||| flow.stage == (StageView::UpdateWrite { fault: None }) && event is Written
        }),
{
}

/// Nothing is written to an account but what the request has just read from it,
/// with a record at its front; its size stays.
pub proof fn law_write_replaces_what_was_read(flow: FlowView, event: EventView)
    requires
        event.answers(flow.stage.awaits()),
    ensures
        next(flow, event) matches StepView::Ask(ActionView::Read { account }, after) ==> account
            == opened(after.stage),
        next(flow, event) matches StepView::Ask(ActionView::Write { account, data }, _) ==> {
            &&& account == opened(flow.stage)
            &&& event matches EventView::Data(before) && {
                &&& data.len() == before.len()
                &&& exists|record: Seq<u8>| data == #[trigger] overlay(before, record)
            }
        },
{
}

/// Whether the words of a new review have been found in order, for the review at
/// the address that is derived for them, and signed by its author.
pub open spec fn review_checked(flow: FlowView, words: PayloadView) -> bool {
    &&& flow.accounts[0].is_signer
    &&& review_address(flow.accounts[0].key, words.title, flow.program_id) is Some
    &&& review_address(flow.accounts[0].key, words.title, flow.program_id).unwrap().0
        == flow.accounts[1].key@
    &&& rating_ok(words.rating)
    &&& review_size(words.title, words.description) <= REVIEW_SPACE
}

/// Whether the counter of the review in the second account is derived to be that
/// same account.
pub open spec fn counter_checked(flow: FlowView) -> bool {
    &&& counter_address(flow.accounts[1].key, flow.program_id) is Some
    &&& counter_address(flow.accounts[1].key, flow.program_id).unwrap().0 == flow.accounts[1].key@
}

/// Whether the comment that comes after `counter` others is derived to be in the
/// fourth account.
pub open spec fn comment_checked(flow: FlowView, counter: CounterView) -> bool {
    let derived = comment_address(flow.accounts[1].key, counter.counter, flow.program_id);
    derived is Some && derived.unwrap().0 == flow.accounts[3].key@
}

/// Whether the token mint and its authority are derived to be in the second and
/// the third account, with this bump seed of the mint.
pub open spec fn mint_checked(flow: FlowView, bump: u8) -> bool {
    &&& mint_address(flow.program_id) == Some((flow.accounts[1].key@, bump))
    &&& authority_address(flow.program_id) is Some
    &&& authority_address(flow.program_id).unwrap().0 == flow.accounts[2].key@
    &&& flow.accounts[4].key@ == token_program_key()
}

/// What has been checked by the time that a request has come this far.
pub open spec fn checked(flow: FlowView) -> bool {
    match flow.stage {
        StageView::ReviewRent { words, bump } => review_checked(flow, words) && review_address(
            flow.accounts[0].key,
            words.title,
            flow.program_id,
        ).unwrap().1 == bump,
        StageView::ReviewCreate { words } => review_checked(flow, words),
        StageView::ReviewRead { words } => review_checked(flow, words),
        StageView::ReviewWrite { review, .. } => review == flow.accounts[1].key,
        StageView::CounterRent { review } => review == flow.accounts[1].key,
        StageView::CounterCreate => counter_checked(flow),
        StageView::CounterRead => counter_checked(flow),
        StageView::CounterWrite { .. } => counter_checked(flow),
        StageView::UpdateRead { .. } => flow.accounts[1].owner == flow.program_id
            && flow.accounts[0].is_signer,
        StageView::CommentCreate { counter, .. } => comment_checked(flow, counter),
        StageView::CommentRead { counter, .. } => comment_checked(flow, counter),
        StageView::CommentWrite { counter, .. } => comment_checked(flow, counter),
        StageView::MintRent { bump } => mint_checked(flow, bump),
        StageView::MintCreate { bump } => mint_checked(flow, bump),
        _ => true,
    }
}

/// A request that the program begins has been checked.
pub proof fn law_begun_is_checked(
    program_id: Pubkey,
    accounts: Seq<Account>,
    request: RequestView,
)
    requires
        begin_derivable(program_id, accounts, request),
    ensures
        begun(program_id, accounts, request) matches StepView::Ask(_, flow) ==> checked(flow),
{
}

/// A request stays checked as it is worked through.
pub proof fn law_checked_stays_checked(flow: FlowView, event: EventView)
    requires
        checked(flow),
        event.answers(flow.stage.awaits()),
        next_derivable(flow, event),
    ensures
        next(flow, event) matches StepView::Ask(_, after) ==> checked(after),
{
}

/// Whether the seeds derive, for the program, the key of one of these accounts,
/// with the last of them as its bump seed.
pub open spec fn signs_for_one_of(
    flow: FlowView,
    places: Seq<usize>,
    seeds: Seq<Seq<u8>>,
    at: int,
) -> bool {
    &&& 0 <= at < places.len()
    &&& 0 < seeds.len()
    &&& seeds.last().len() == 1
    &&& program_address(seeds.drop_last(), flow.program_id@) == Some(
        (flow.accounts[places[at] as int].key@, seeds.last()[0]),
    )
}

proof fn lemma_two_seeds(flow: FlowView, places: Seq<usize>, seed: Seq<u8>, bump: u8, at: int)
    requires
        0 <= at < places.len(),
        program_address(seq![seed], flow.program_id@) == Some(
            (flow.accounts[places[at] as int].key@, bump),
        ),
    ensures
        signs_for_one_of(flow, places, seq![seed, seq![bump]], at),
{
    assert(seq![seed, seq![bump]].drop_last() =~= seq![seed]);
}

proof fn lemma_three_seeds(
    flow: FlowView,
    places: Seq<usize>,
    first: Seq<u8>,
    second: Seq<u8>,
    bump: u8,
    at: int,
)
    requires
        0 <= at < places.len(),
        program_address(seq![first, second], flow.program_id@) == Some(
            (flow.accounts[places[at] as int].key@, bump),
        ),
    ensures
        signs_for_one_of(flow, places, seq![first, second, seq![bump]], at),
{
    assert(seq![first, second, seq![bump]].drop_last() =~= seq![first, second]);
}

/// Whether a step, where it sends an instruction, signs it for one of the accounts
/// of the instruction.
pub open spec fn signs_well(flow: FlowView, step: StepView) -> bool {
    step matches StepView::Ask(ActionView::Invoke { accounts, seeds, .. }, _) ==> exists|at: int|
        signs_for_one_of(flow, accounts, seeds, at)
}

proof fn lemma_signs(flow: FlowView, step: StepView, at: int)
    requires
        step is Ask,
        step->Ask_0 is Invoke,
        signs_for_one_of(flow, step->Ask_0->accounts, step->Ask_0->seeds, at),
    ensures
        signs_well(flow, step),
{
}

proof fn lemma_review_signs(flow: FlowView, words: PayloadView, bump: u8, lamports: u64)
    requires
        review_address(flow.accounts[0].key, words.title, flow.program_id) == Some(
            (flow.accounts[1].key@, bump),
        ),
    ensures
        signs_well(
            flow,
            review_priced(flow.program_id, flow.accounts, words, bump, lamports),
        ),
{
    lemma_three_seeds(
        flow,
        seq![0, 1, 5],
        flow.accounts[0].key@,
        encode_utf8(words.title),
        bump,
        1,
    );
    lemma_signs(
        flow,
        review_priced(flow.program_id, flow.accounts, words, bump, lamports),
        1,
    );
}

proof fn lemma_counter_signs(flow: FlowView, review: Pubkey, lamports: u64)
    requires
        counter_address(review, flow.program_id) is Some,
    ensures
        signs_well(
            flow,
            counter_at(
                flow.program_id,
                flow.accounts,
                review,
                lamports,
                counter_address(review, flow.program_id).unwrap(),
            ),
        ),
{
    let derived = counter_address(review, flow.program_id).unwrap();
    if derived.0 == flow.accounts[1].key@ {
        lemma_three_seeds(
            flow,
            seq![0, 1, 2],
            review@,
            encode_utf8("comment"@),
            derived.1,
            1,
        );
        lemma_signs(
            flow,
            counter_at(flow.program_id, flow.accounts, review, lamports, derived),
            1,
        );
    }
}

proof fn lemma_comment_signs(
    flow: FlowView,
    comment: Seq<char>,
    counter: CounterView,
    lamports: u64,
)
    requires
        comment_address(flow.accounts[1].key, counter.counter, flow.program_id) is Some,
    ensures
        signs_well(
            flow,
            comment_at(
                flow.program_id,
                flow.accounts,
                comment,
                counter,
                lamports,
                comment_address(
                    flow.accounts[1].key,
                    counter.counter,
                    flow.program_id,
                ).unwrap(),
            ),
        ),
{
    let derived = comment_address(
        flow.accounts[1].key,
        counter.counter,
        flow.program_id,
    ).unwrap();
    if derived.0 == flow.accounts[3].key@ {
        lemma_three_seeds(
            flow,
            seq![0, 3, 7],
            flow.accounts[1].key@,
            be_bytes(counter.counter as nat, 8),
            derived.1,
            1,
        );
        lemma_signs(
            flow,
            comment_at(flow.program_id, flow.accounts, comment, counter, lamports, derived),
            1,
        );
    }
}

proof fn lemma_payment_signs(flow: FlowView, places: Places, tokens: u64)
    requires
        payment_derivable(flow.program_id, flow.accounts, places),
    ensures
        signs_well(flow, payment(flow.program_id, flow.accounts, places, tokens)),
{
    let authority = authority_address(flow.program_id).unwrap();
    if flow.accounts[places.authority as int].key@ == authority.0 {
        lemma_two_seeds(
            flow,
            seq![places.mint, places.wallet, places.authority],
            encode_utf8("token_auth"@),
            authority.1,
            2,
        );
        let step = payment(flow.program_id, flow.accounts, places, tokens);
        if step is Ask {
            lemma_signs(flow, step, 2);
        }
    }
}

proof fn lemma_mint_signs(flow: FlowView, bump: u8, lamports: u64)
    requires
        mint_checked(flow, bump),
    ensures
        signs_well(flow, mint_priced(flow.program_id, flow.accounts, bump, lamports)),
        signs_well(flow, mint_opened(flow.program_id, flow.accounts, bump)),
{
    lemma_two_seeds(flow, seq![0, 1, 3], encode_utf8("token_mint"@), bump, 1);
    lemma_two_seeds(flow, seq![1, 5, 2], encode_utf8("token_mint"@), bump, 0);
    lemma_signs(flow, mint_priced(flow.program_id, flow.accounts, bump, lamports), 1);
    lemma_signs(flow, mint_opened(flow.program_id, flow.accounts, bump), 0);
}

/// The program signs an instruction only for an address that is derived for it,
/// and that stands among the accounts of the instruction.
pub proof fn law_signs_for_its_own_addresses(flow: FlowView, event: EventView)
    requires
        checked(flow),
        event.answers(flow.stage.awaits()),
        next_derivable(flow, event),
    ensures
        signs_well(flow, next(flow, event)),
{
    match (flow.stage, event) {
        (StageView::ReviewRent { words, bump }, EventView::Rent(lamports)) => {
            lemma_review_signs(flow, words, bump, lamports);
        },
        (StageView::CounterRent { review }, EventView::Rent(lamports)) => {
            lemma_counter_signs(flow, review, lamports);
        },
        (StageView::CounterWrite { fault: None }, _) => {
            lemma_payment_signs(flow, review_places(), REVIEW_REWARD);
        },
        (StageView::CommentRent { comment, counter }, EventView::Rent(lamports)) => {
            lemma_comment_signs(flow, comment, counter, lamports);
        },
        (StageView::CountWrite { fault: None }, _) => {
            lemma_payment_signs(flow, comment_places(), COMMENT_REWARD);
        },
        (StageView::MintRent { bump }, EventView::Rent(lamports)) => {
            lemma_mint_signs(flow, bump, lamports);
        },
        (StageView::MintCreate { bump }, _) => {
            lemma_mint_signs(flow, bump, 0);
        },
        _ => {},
    }
}

/// A new review that is written has a rating from one to five, stands at the
/// address derived from its author and title, and was signed by its author.
pub proof fn law_new_review_is_in_order(flow: FlowView, words: PayloadView, data: Seq<u8>)
    requires
        checked(flow),
        flow.stage == (StageView::ReviewRead { words }),
        next(flow, EventView::Data(data)) is Ask,
    ensures
        next(flow, EventView::Data(data))->Ask_0 == (ActionView::Write {
            account: 1,
            data: overlay(data, encode_review(new_review(flow.accounts[0].key, words)).bytes),
        }),
        review_checked(flow, words),
{
}

/// A new review has room in the account that is created for it.
pub proof fn law_new_review_has_room(flow: FlowView, words: PayloadView, data: Seq<u8>)
    requires
        checked(flow),
        flow.stage == (StageView::ReviewRead { words }),
        data.len() == REVIEW_SPACE,
        next(flow, EventView::Data(data)) is Ask,
    ensures
        next(flow, EventView::Data(data))->Ask_1.stage == (StageView::ReviewWrite {
            review: flow.accounts[1].key,
            fault: None,
        }),
{
    let r = new_review(flow.accounts[0].key, words);
    reveal_strlit("review");
    is_ascii_chars_encode_utf8("review"@);
    assert(encode_review(r).complete);
    law_review_size(r);
}

/// A review is changed only where it stands at the address derived from the signer
/// and its title; the rating it gets is from one to five. Its title, its author and
/// its marks stay: nothing but the rating and the description is new.
pub proof fn law_update_changes_rating_and_description(
    flow: FlowView,
    words: PayloadView,
    data: Seq<u8>,
)
    requires
        checked(flow),
        flow.stage == (StageView::UpdateRead { words }),
        next_derivable(flow, EventView::Data(data)),
        next(flow, EventView::Data(data)) is Ask,
    ensures
        decode_review(data) is Ok,
        ({
            let found = decode_review(data)->Ok_0;
            let changed = changed_review(found, words);
            &&& next(flow, EventView::Data(data))->Ask_0 == (ActionView::Write {
                account: 1,
                data: overlay(data, encode_review(changed).bytes),
            })
            &&& changed.rating == words.rating && rating_ok(changed.rating)
            &&& changed.description == words.description
            &&& changed.title == found.title
            &&& changed.reviewer == found.reviewer
            &&& changed.discriminator == found.discriminator
            &&& changed.is_initialized && found.is_initialized
            &&& flow.accounts[0].is_signer
            &&& flow.accounts[1].owner == flow.program_id
            &&& review_address(
                flow.accounts[0].key,
                found.title,
                flow.program_id,
            ).unwrap().0 == flow.accounts[1].key@
        }),
{
}

/// The counter goes up by one for a comment, and nothing else of it changes: an
/// account that the counter fills reads one more afterwards.
pub proof fn law_comment_counts_one(counter: CounterView, data: Seq<u8>)
    requires
        decode_counter(data) == Ok::<CounterView, FaultView>(counter),
        counter.counter < u64::MAX,
    ensures
        decode_counter(overlay(data, encode_counter(counted_up(counter)).bytes)) == Ok::<
            CounterView,
            FaultView,
        >(counted_up(counter)),
        counted_up(counter).counter == counter.counter + 1,
        counted_up(counter).discriminator == counter.discriminator,
        counted_up(counter).is_initialized == counter.is_initialized,
{
    law_counter_has_one_form(data);
    let after = counted_up(counter);
    lemma_le_bytes_len(counter.counter as nat, 8);
    lemma_le_bytes_len(after.counter as nat, 8);
    let bytes = encode_counter(after).bytes;
    assert(bytes.len() == data.len());
    assert(overlay(data, bytes) =~= bytes);
    law_counter_reads_back(after);
}

/// Once a comment is written, what replaces the counter is the counter that was
/// read for the comment, with one more comment on it.
pub proof fn law_counter_follows_the_comment(
    flow: FlowView,
    counter: CounterView,
    data: Seq<u8>,
)
    requires
        flow.stage == (StageView::CommentWrite { counter, fault: None }),
    ensures
        told(next(flow, EventView::Written), EventView::Data(data)) == StepView::Ask(
            ActionView::Write {
                account: 2,
                data: overlay(data, encode_counter(counted_up(counter)).bytes),
            },
            FlowView {
                stage: StageView::CountWrite {
                    fault: store_fault(data.len(), encode_counter(counted_up(counter))),
                },
                ..flow
            },
        ),
{
}

/// The reward is minted from the program's own mint, on the word of its own
/// authority, to the token account of the one who made the request: ten tokens for
/// a review, five for a comment.
pub proof fn law_reward(flow: FlowView, event: EventView)
    requires
        event.answers(flow.stage.awaits()),
        next_derivable(flow, event),
        next(flow, event) is Ask,
        next(flow, event)->Ask_1.stage is Payment,
    ensures
        flow.stage is CounterWrite || flow.stage is CountWrite,
        next(flow, event)->Ask_0 is Invoke,
        ({
            let mint = mint_address(flow.program_id).unwrap().0;
            let authority = authority_address(flow.program_id).unwrap().0;
            let place = if flow.stage is CounterWrite {
                2
            } else {
                4int
            };
            let wallet = wallet_address(
                flow.accounts[0].key,
                flow.accounts[place].key,
            ).unwrap().0;
            let amount: u64 = if flow.stage is CounterWrite {
                10_000_000_000
            } else {
                5_000_000_000
            };
            &&& flow.accounts[place].key@ == mint
            &&& next(flow, event)->Ask_0->instruction == minting(
                mint,
                wallet,
                authority,
                Seq::empty(),
                amount,
            )
        }),
{
}

/// Whether the token accounts of a payment are the ones that are derived.
pub open spec fn payment_in_order(
    program_id: Pubkey,
    accounts: Seq<Account>,
    places: Places,
) -> bool {
    &&& accounts[places.mint as int].key@ == mint_address(program_id).unwrap().0
    &&& accounts[places.authority as int].key@ == authority_address(program_id).unwrap().0
    &&& accounts[places.wallet as int].key@ == wallet_address(
        accounts[0].key,
        accounts[places.mint as int].key,
    ).unwrap().0
    &&& accounts[places.program as int].key@ == token_program_key()
}

proof fn lemma_payment_outcome(
    program_id: Pubkey,
    accounts: Seq<Account>,
    places: Places,
    tokens: u64,
)
    ensures
        told(payment(program_id, accounts, places, tokens), EventView::Invoked) == StepView::Done(
            Ok(()),
        ) <==> payment_in_order(program_id, accounts, places),
{
}

/// When a changed review is taken: the review belongs to the program, is signed
/// for by its author, stands at the address of the author and its title, is in
/// use, gets a rating from one to five and few enough words, and has room.
pub open spec fn update_in_order(
    program_id: Pubkey,
    accounts: Seq<Account>,
    words: PayloadView,
    data: Seq<u8>,
) -> bool {
    &&& accounts.len() >= 2
    &&& accounts[1].owner == program_id
    &&& accounts[0].is_signer
    &&& decode_review(data) matches Ok(found) && {
        &&& review_address(accounts[0].key, found.title, program_id).unwrap().0 == accounts[1].key@
        &&& found.is_initialized
        &&& rating_ok(words.rating)
        &&& review_size(words.title, words.description) <= REVIEW_SPACE
        &&& store_fault(data.len(), encode_review(changed_review(found, words))) is None
    }
}

/// A review is changed exactly where the request is in order.
pub proof fn law_update_outcome(
    program_id: Pubkey,
    accounts: Seq<Account>,
    words: PayloadView,
    data: Seq<u8>,
)
    requires
        decode_review(data) matches Ok(found) ==> accounts.len() >= 2 ==> review_address(
            accounts[0].key,
            found.title,
            program_id,
        ) is Some,
    ensures
        told(
            told(update_begun(program_id, accounts, words), EventView::Data(data)),
            EventView::Written,
        ) == StepView::Done(Ok(())) <==> update_in_order(program_id, accounts, words, data),
{
}

/// When a new review is taken, up to its being written.
pub open spec fn review_in_order(
    program_id: Pubkey,
    accounts: Seq<Account>,
    words: PayloadView,
    data: Seq<u8>,
) -> bool {
    &&& accounts.len() >= 7
    &&& accounts[0].is_signer
    &&& review_address(accounts[0].key, words.title, program_id).unwrap().0 == accounts[1].key@
    &&& rating_ok(words.rating)
    &&& review_size(words.title, words.description) <= REVIEW_SPACE
    &&& decode_review(data) matches Ok(found) && {
        &&& !found.is_initialized
        &&& store_fault(data.len(), encode_review(new_review(accounts[0].key, words))) is None
    }
}

/// When the counter of a new review is taken.
pub open spec fn counter_in_order(
    program_id: Pubkey,
    accounts: Seq<Account>,
    data: Seq<u8>,
) -> bool {
    &&& counter_address(accounts[1].key, program_id).unwrap().0 == accounts[1].key@
    &&& decode_counter(data) matches Ok(found) && {
        &&& !found.is_initialized
        &&& store_fault(data.len(), encode_counter(new_counter())) is None
    }
}

proof fn lemma_review_written(
    program_id: Pubkey,
    accounts: Seq<Account>,
    words: PayloadView,
    lamports: u64,
    data: Seq<u8>,
)
    ensures
        ({
            let step = told(
                told(
                    told(
                        told(
                            review_begun(program_id, accounts, words),
                            EventView::Rent(lamports),
                        ),
                        EventView::Invoked,
                    ),
                    EventView::Data(data),
                ),
                EventView::Written,
            );
            if review_in_order(program_id, accounts, words, data) {
                step == counter_begun(program_id, accounts, accounts[1].key)
            } else {
                step is Done && step->Done_0 is Err
            }
        }),
{
}

proof fn lemma_counter_written(
    program_id: Pubkey,
    accounts: Seq<Account>,
    lamports: u64,
    data: Seq<u8>,
)
    requires
        accounts.len() >= 3,
    ensures
        ({
            let step = told(
                told(
                    told(
                        told(
                            counter_begun(program_id, accounts, accounts[1].key),
                            EventView::Rent(lamports),
                        ),
                        EventView::Invoked,
                    ),
                    EventView::Data(data),
                ),
                EventView::Written,
            );
            if counter_in_order(program_id, accounts, data) {
                step == payment(program_id, accounts, review_places(), REVIEW_REWARD)
            } else {
                step is Done && step->Done_0 is Err
            }
        }),
{
}

/// Whether two steps are the same but for the accounts that the request names: the
/// same result, or the same thing asked at the same stage.
pub open spec fn same_step(a: StepView, b: StepView) -> bool {
    match (a, b) {
        (StepView::Done(x), StepView::Done(y)) => x == y,
        (StepView::Ask(action, flow), StepView::Ask(other, twin)) => {
            &&& action == other
            &&& flow.stage == twin.stage
            &&& flow.program_id == twin.program_id
        },
        (_, _) => false,
    }
}

/// Creating a counter depends on the first three accounts alone: the payer, the
/// counter and the system program. With the same answers of the host, a request
/// that names more accounts asks for the same rent, sends the same instruction,
/// writes the same data and is refused in the same way.
pub proof fn law_counter_takes_three_accounts(
    program_id: Pubkey,
    accounts: Seq<Account>,
    review: Pubkey,
    lamports: u64,
    data: Seq<u8>,
)
    requires
        accounts.len() >= 3,
    ensures
        ({
            let first = accounts.take(3);
            let begun = counter_begun(program_id, accounts, review);
            let begun_first = counter_begun(program_id, first, review);
            let priced = told(begun, EventView::Rent(lamports));
            let priced_first = told(begun_first, EventView::Rent(lamports));
            let created = told(priced, EventView::Invoked);
            let created_first = told(priced_first, EventView::Invoked);
            let put = told(created, EventView::Data(data));
            let put_first = told(created_first, EventView::Data(data));
            &&& same_step(begun, begun_first)
            &&& same_step(priced, priced_first)
            &&& same_step(created, created_first)
            &&& same_step(put, put_first)
        }),
{
}

/// A new review is taken exactly where it, its counter and its reward are in order.
/// The counter is wanted in the account of the review itself.
pub proof fn law_review_outcome(
    program_id: Pubkey,
    accounts: Seq<Account>,
    words: PayloadView,
    lamports: u64,
    data: Seq<u8>,
    counter_lamports: u64,
    counter_data: Seq<u8>,
)
    ensures
        ({
            let written = told(
                told(
                    told(
                        told(
                            review_begun(program_id, accounts, words),
                            EventView::Rent(lamports),
                        ),
                        EventView::Invoked,
                    ),
                    EventView::Data(data),
                ),
                EventView::Written,
            );
            let counted = told(
                told(
                    told(
                        told(written, EventView::Rent(counter_lamports)),
                        EventView::Invoked,
                    ),
                    EventView::Data(counter_data),
                ),
                EventView::Written,
            );
            told(counted, EventView::Invoked) == StepView::Done(Ok(())) <==> {
                &&& review_in_order(program_id, accounts, words, data)
                &&& counter_in_order(program_id, accounts, counter_data)
                &&& payment_in_order(program_id, accounts, review_places())
            }
        }),
{
    lemma_review_written(program_id, accounts, words, lamports, data);
    if accounts.len() >= 7 {
        lemma_counter_written(program_id, accounts, counter_lamports, counter_data);
    }
    lemma_payment_outcome(program_id, accounts, review_places(), REVIEW_REWARD);
}

/// When a comment is taken.
pub open spec fn comment_in_order(
    program_id: Pubkey,
    accounts: Seq<Account>,
    comment: Seq<char>,
    counter_data: Seq<u8>,
    data: Seq<u8>,
    counter_data_then: Seq<u8>,
) -> bool {
    &&& accounts.len() >= 9
    &&& decode_counter(counter_data) matches Ok(counter) && {
        &&& comment_address(accounts[1].key, counter.counter, program_id).unwrap().0
            == accounts[3].key@
        &&& decode_comment(data) matches Ok(found) && {
            &&& !found.is_initialized
            &&& store_fault(
                data.len(),
                encode_comment(new_comment(accounts[1].key, accounts[0].key, comment)),
            ) is None
            &&& store_fault(counter_data_then.len(), encode_counter(counted_up(counter))) is None
            &&& payment_in_order(program_id, accounts, comment_places())
        }
    }
}

/// A comment is taken exactly where it, the counter and its reward are in order.
pub proof fn law_comment_outcome(
    program_id: Pubkey,
    accounts: Seq<Account>,
    comment: Seq<char>,
    counter_data: Seq<u8>,
    lamports: u64,
    data: Seq<u8>,
    counter_data_then: Seq<u8>,
)
    ensures
        ({
            let written = told(
                told(
                    told(
                        told(
                            told(
                                comment_begun(program_id, accounts, comment),
                                EventView::Data(counter_data),
                            ),
                            EventView::Rent(lamports),
                        ),
                        EventView::Invoked,
                    ),
                    EventView::Data(data),
                ),
                EventView::Written,
            );
            let counted = told(
                told(written, EventView::Data(counter_data_then)),
                EventView::Written,
            );
            told(counted, EventView::Invoked) == StepView::Done(Ok(())) <==> comment_in_order(
                program_id,
                accounts,
                comment,
                counter_data,
                data,
                counter_data_then,
            )
        }),
{
    lemma_payment_outcome(program_id, accounts, comment_places(), COMMENT_REWARD);
}

/// The token mint is set up exactly where it and its authority are the accounts
/// that are derived and the token program is named.
pub proof fn law_mint_outcome(program_id: Pubkey, accounts: Seq<Account>, lamports: u64)
    ensures
        told(
            told(
                told(mint_begun(program_id, accounts), EventView::Rent(lamports)),
                EventView::Invoked,
            ),
            EventView::Invoked,
        ) == StepView::Done(Ok(())) <==> {
            &&& accounts.len() >= 6
            &&& accounts[1].key@ == mint_address(program_id).unwrap().0
            &&& accounts[2].key@ == authority_address(program_id).unwrap().0
            &&& accounts[4].key@ == token_program_key()
        },
{
}

/// The data of an account that nothing was written to.
pub open spec fn blank(length: nat) -> Seq<u8> {
    Seq::new(length, |i: int| 0u8)
}

proof fn lemma_blank_string(length: nat)
    requires
        length >= 4,
    ensures
        string_front(blank(length)) == Ok::<(Seq<char>, Seq<u8>), FaultView>(
            (Seq::empty(), blank((length - 4) as nat)),
        ),
{
    let data = blank(length);
    let head = data.take(4);
    reveal_with_fuel(le_value, 5);
    assert(head.skip(1).skip(1) =~= head.skip(2));
    assert(head.skip(2).skip(1) =~= head.skip(3));
    assert(head.skip(3).skip(1) =~= head.skip(4));
    assert(le_value(head) == 0);
    assert(data.subrange(4, 4) =~= Seq::empty());
    assert(data.skip(4) =~= blank((length - 4) as nat));
    assert(decode_utf8(Seq::<u8>::empty()) =~= Seq::empty());
}

/// A record is read only where it fills the data. So an account that was created
/// for a review, a counter or a comment and holds nothing but zeros is refused: the
/// empty record at its front leaves bytes over.
pub proof fn law_blank_account_is_refused(
    program_id: Pubkey,
    accounts: Seq<Account>,
    words: PayloadView,
    comment: Seq<char>,
    counter: CounterView,
)
    ensures
        review_opened(program_id, accounts, words, blank(REVIEW_SPACE as nat)) == refused(
            ErrorView::BorshIoError(FaultView::TrailingBytes),
        ),
        counter_opened(program_id, accounts, blank(MovieCommentCounter::SIZE as nat)) == refused(
            ErrorView::BorshIoError(FaultView::TrailingBytes),
        ),
        comment_opened(
            program_id,
            accounts,
            comment,
            counter,
            blank(comment_size(comment)),
        ) == refused(ErrorView::BorshIoError(FaultView::TrailingBytes)),
{
    let review_length = REVIEW_SPACE as nat;
    lemma_blank_string(review_length);
    assert(blank((review_length - 4) as nat).skip(1) =~= blank((review_length - 5) as nat));
    assert(blank((review_length - 5) as nat).skip(32) =~= blank((review_length - 37) as nat));
    assert(blank((review_length - 37) as nat).skip(1) =~= blank((review_length - 38) as nat));
    lemma_blank_string((review_length - 38) as nat);
    lemma_blank_string((review_length - 42) as nat);

    let counter_length = MovieCommentCounter::SIZE as nat;
    lemma_blank_string(counter_length);
    assert(blank((counter_length - 4) as nat).skip(1) =~= blank((counter_length - 5) as nat));
    assert(blank((counter_length - 5) as nat).skip(8) =~= blank((counter_length - 13) as nat));

    let comment_length = comment_size(comment);
    lemma_blank_string(comment_length);
    assert(blank((comment_length - 4) as nat).skip(1) =~= blank((comment_length - 5) as nat));
    assert(blank((comment_length - 5) as nat).skip(32) =~= blank((comment_length - 37) as nat));
    assert(blank((comment_length - 37) as nat).skip(32) =~= blank((comment_length - 69) as nat));
    lemma_blank_string((comment_length - 69) as nat);
}

} // verus!
