//! What each request comes to, told by what is asked of the host and what the host
//! answers: the rent, the instructions, and the bytes of the accounts before and
//! after.

use vstd::prelude::*;
use vstd::utf8::*;
use crate::codec::{
    le_bytes, le_value, lemma_le_bytes_len, lemma_le_value_of_bytes, string_fits,
};
use crate::error::{ErrorView, FaultView, ReviewError};
use crate::instruction::RequestView;
use crate::invoke::{creation, mint_setup, InstructionView, MetaView};
use crate::laws::forms::{
    law_comment_layout, law_counter_layout, law_highest_byte_first, law_review_layout,
    law_written_over,
};
use crate::laws::told;
use crate::model::{
    begun, comment_opened, counter_begun, mint_opened, mint_priced, next, payment, payment_refusal,
    payment_to, update_at, Places,
};
use crate::pubkey::{
    associated_token_program_key, program_address, token_program_key, Account, Pubkey,
};
use crate::state::{
    decode_comment, decode_counter, decode_review, encode_comment, encode_counter, encode_review,
    law_comment_reads_back, law_counter_has_one_form, law_counter_reads_back,
    law_review_has_one_form, law_review_reads_back, CommentView, CounterView, ReviewView,
};
use crate::step::{ActionView, EventView, FlowView, StageView, StepView};

verus! {

// The words in which the laws are put.

/// The request ends with this error.
pub open spec fn fails(step: StepView, error: ErrorView) -> bool {
    step == StepView::Done(Err(error))
}

/// The request ends well.
pub open spec fn succeeds(step: StepView) -> bool {
    step == StepView::Done(Ok(()))
}

/// The rent of an account of `space` bytes is asked for.
pub open spec fn asks_rent(step: StepView, space: nat) -> bool {
    step matches StepView::Ask(ActionView::Rent { space: asked }, _) && asked == space
}

/// The data of an account are asked for.
pub open spec fn asks_data(step: StepView, account: usize) -> bool {
    step matches StepView::Ask(ActionView::Read { account: asked }, _) && asked == account
}

/// An instruction is sent with these accounts and signed with these seeds.
pub open spec fn sends(step: StepView, accounts: Seq<usize>, seeds: Seq<Seq<u8>>) -> bool {
    step matches StepView::Ask(ActionView::Invoke { accounts: named, seeds: signed, .. }, _)
        && named == accounts && signed == seeds
}

/// The instruction that is sent.
pub open spec fn sent(step: StepView) -> InstructionView {
    step->Ask_0->instruction
}

/// An instruction to the system program, 32 zero bytes: the account `from`, signing
/// and writable, pays `lamports` for the account `to`, signing and writable, with
/// `space` bytes, that `owner` is to own.
pub open spec fn creates(
    i: InstructionView,
    from: Seq<u8>,
    to: Seq<u8>,
    lamports: u64,
    space: nat,
    owner: Seq<u8>,
) -> bool {
    &&& i.program_id.len() == 32
    &&& forall|j: int| 0 <= j < 32 ==> i.program_id[j] == 0
    &&& i.accounts.len() == 2
    &&& i.accounts[0] == (MetaView { key: from, is_signer: true, is_writable: true })
    &&& i.accounts[1] == (MetaView { key: to, is_signer: true, is_writable: true })
    &&& i.data.len() == 52
    &&& le_value(i.data.take(4)) == 0
    &&& le_value(i.data.subrange(4, 12)) == lamports
    &&& le_value(i.data.subrange(12, 20)) == space
    &&& i.data.skip(20) == owner
}

/// An instruction to the token program: mint `amount` from `mint` to `wallet`, on
/// the signature of `authority`.
pub open spec fn mints(
    i: InstructionView,
    mint: Seq<u8>,
    wallet: Seq<u8>,
    authority: Seq<u8>,
    amount: nat,
) -> bool {
    &&& i.program_id == token_program_key()
    &&& i.accounts.len() == 3
    &&& i.accounts[0] == (MetaView { key: mint, is_signer: false, is_writable: true })
    &&& i.accounts[1] == (MetaView { key: wallet, is_signer: false, is_writable: true })
    &&& i.accounts[2] == (MetaView { key: authority, is_signer: true, is_writable: false })
    &&& i.data.len() == 9
    &&& i.data[0] == 7
    &&& le_value(i.data.skip(1)) == amount
}

/// An instruction to the token program: set up `mint` with nine decimals, under
/// `authority` and without an authority to freeze.
pub open spec fn sets_up(i: InstructionView, mint: Seq<u8>, authority: Seq<u8>) -> bool {
    &&& i.program_id == token_program_key()
    &&& i.accounts.len() == 2
    &&& i.accounts[0] == (MetaView { key: mint, is_signer: false, is_writable: true })
    &&& !i.accounts[1].is_signer && !i.accounts[1].is_writable
    &&& i.data.len() == 35
    &&& i.data[0] == 0
    &&& i.data[1] == 9
    &&& i.data.subrange(2, 34) == authority
    &&& i.data[34] == 0
}

/// `after` is `before` with `bytes` at its front, as far as they go.
pub open spec fn over(before: Seq<u8>, after: Seq<u8>, bytes: Seq<u8>) -> bool {
    &&& after.len() == before.len()
    &&& forall|i: int|
        0 <= i < before.len() ==> after[i] == (if i < bytes.len() {
            bytes[i]
        } else {
            before[i]
        })
}

/// An account that holds `before` gets a review at its front, which is read back
/// from there where there is room for it.
pub open spec fn puts_review(
    step: StepView,
    account: usize,
    before: Seq<u8>,
    r: ReviewView,
) -> bool {
    step matches StepView::Ask(ActionView::Write { account: named, data: after }, _) && {
        let size = (52 - 6 + encode_utf8(r.discriminator).len() + encode_utf8(r.title).len()
            + encode_utf8(r.description).len()) as int;
        &&& named == account
        &&& over(before, after, encode_review(r).bytes)
        &&& encode_review(r).complete && size <= before.len() ==> decode_review(after.take(size))
            == Ok::<ReviewView, FaultView>(r)
    }
}

/// An account that holds `before` gets a counter at its front, which is read back
/// from there where there is room for it.
pub open spec fn puts_counter(
    step: StepView,
    account: usize,
    before: Seq<u8>,
    r: CounterView,
) -> bool {
    step matches StepView::Ask(ActionView::Write { account: named, data: after }, _) && {
        let size = (13 + encode_utf8(r.discriminator).len()) as int;
        &&& named == account
        &&& over(before, after, encode_counter(r).bytes)
        &&& encode_counter(r).complete && size <= before.len() ==> decode_counter(after.take(size))
            == Ok::<CounterView, FaultView>(r)
    }
}

/// An account that holds `before` gets a comment at its front, which is read back
/// from there where there is room for it.
pub open spec fn puts_comment(
    step: StepView,
    account: usize,
    before: Seq<u8>,
    r: CommentView,
) -> bool {
    step matches StepView::Ask(ActionView::Write { account: named, data: after }, _) && {
        let size = (73 + encode_utf8(r.discriminator).len() + encode_utf8(r.comment).len()) as int;
        &&& named == account
        &&& over(before, after, encode_comment(r).bytes)
        &&& encode_comment(r).complete && size <= before.len() ==> decode_comment(after.take(size))
            == Ok::<CommentView, FaultView>(r)
    }
}

// What the words rest on.

proof fn lemma_creates(i: InstructionView, lamports: u64, space: nat, owner: Seq<u8>)
    requires
        i.data == le_bytes(0, 4) + le_bytes(lamports as nat, 8) + le_bytes(space, 8) + owner,
        space <= u64::MAX,
        owner.len() == 32,
    ensures
        i.data.len() == 52,
        le_value(i.data.take(4)) == 0,
        le_value(i.data.subrange(4, 12)) == lamports,
        le_value(i.data.subrange(12, 20)) == space,
        i.data.skip(20) == owner,
{
    reveal_with_fuel(crate::codec::capacity, 9);
    lemma_le_bytes_len(0, 4);
    lemma_le_bytes_len(lamports as nat, 8);
    lemma_le_bytes_len(space, 8);
    lemma_le_value_of_bytes(0, 4);
    lemma_le_value_of_bytes(lamports as nat, 8);
    lemma_le_value_of_bytes(space, 8);
    assert(i.data.take(4) =~= le_bytes(0, 4));
    assert(i.data.subrange(4, 12) =~= le_bytes(lamports as nat, 8));
    assert(i.data.subrange(12, 20) =~= le_bytes(space, 8));
    assert(i.data.skip(20) =~= owner);
}

proof fn lemma_mints(i: InstructionView, amount: u64)
    requires
        i.data == seq![7u8] + le_bytes(amount as nat, 8),
    ensures
        i.data.len() == 9,
        i.data[0] == 7,
        le_value(i.data.skip(1)) == amount,
{
    reveal_with_fuel(crate::codec::capacity, 9);
    lemma_le_bytes_len(amount as nat, 8);
    lemma_le_value_of_bytes(amount as nat, 8);
    assert(i.data.skip(1) =~= le_bytes(amount as nat, 8));
}

proof fn lemma_puts_review(step: StepView, account: usize, before: Seq<u8>, r: ReviewView)
    requires
        r.reviewer.len() == 32,
        step is Ask,
        step->Ask_0 == (ActionView::Write {
            account,
            data: crate::state::overlay(before, encode_review(r).bytes),
        }),
    ensures
        puts_review(step, account, before, r),
{
    let bytes = encode_review(r).bytes;
    law_written_over(before, bytes);
    if encode_review(r).complete {
        law_review_layout(r);
        law_review_reads_back(r);
        if bytes.len() <= before.len() {
            assert(crate::state::overlay(before, bytes).take(bytes.len() as int) =~= bytes);
        }
    }
}

proof fn lemma_puts_counter(step: StepView, account: usize, before: Seq<u8>, r: CounterView)
    requires
        step is Ask,
        step->Ask_0 == (ActionView::Write {
            account,
            data: crate::state::overlay(before, encode_counter(r).bytes),
        }),
    ensures
        puts_counter(step, account, before, r),
{
    let bytes = encode_counter(r).bytes;
    law_written_over(before, bytes);
    if encode_counter(r).complete {
        law_counter_layout(r);
        law_counter_reads_back(r);
        if bytes.len() <= before.len() {
            assert(crate::state::overlay(before, bytes).take(bytes.len() as int) =~= bytes);
        }
    }
}

proof fn lemma_puts_comment(step: StepView, account: usize, before: Seq<u8>, r: CommentView)
    requires
        r.review.len() == 32,
        r.commenter.len() == 32,
        step is Ask,
        step->Ask_0 == (ActionView::Write {
            account,
            data: crate::state::overlay(before, encode_comment(r).bytes),
        }),
    ensures
        puts_comment(step, account, before, r),
{
    let bytes = encode_comment(r).bytes;
    law_written_over(before, bytes);
    if encode_comment(r).complete {
        law_comment_layout(r);
        law_comment_reads_back(r);
        if bytes.len() <= before.len() {
            assert(crate::state::overlay(before, bytes).take(bytes.len() as int) =~= bytes);
        }
    }
}

proof fn lemma_marks()
    ensures
        encode_utf8("review"@).len() == 6,
        encode_utf8("counter"@).len() == 7,
        encode_utf8("comment"@).len() == 7,
{
    reveal_strlit("review");
    reveal_strlit("counter");
    reveal_strlit("comment");
    is_ascii_chars_encode_utf8("review"@);
    is_ascii_chars_encode_utf8("counter"@);
    is_ascii_chars_encode_utf8("comment"@);
}

// A new review.

/// A new review is refused for the number of its accounts, a missing signature, an
/// account that is not at the address of its author and title, a rating that is not
/// one to five, and words that take more than a thousand bytes, in that order, and
/// for nothing else. Else the rent of a thousand bytes is asked for.
pub proof fn law_review_is_begun(
    program_id: Pubkey,
    accounts: Seq<Account>,
    title: Seq<char>,
    rating: u8,
    description: Seq<char>,
)
    requires
        accounts.len() >= 7 && accounts[0].is_signer ==> program_address(
            seq![accounts[0].key@, encode_utf8(title)],
            program_id@,
        ) is Some,
    ensures
        ({
            let step = begun(
                program_id,
                accounts,
                RequestView::AddMovieReview { title, rating, description },
            );
            let derived = program_address(
                seq![accounts[0].key@, encode_utf8(title)],
                program_id@,
            ).unwrap();
            let signed = accounts.len() >= 7 && accounts[0].is_signer;
            let stands = signed && derived.0 == accounts[1].key@;
            let rated = stands && 1 <= rating <= 5;
            let size = 52 + encode_utf8(title).len() + encode_utf8(description).len();
            &&& fails(step, ErrorView::NotEnoughAccountKeys) <==> accounts.len() < 7
            &&& fails(step, ErrorView::MissingRequiredSignature) <==> accounts.len() >= 7 && !signed
            &&& fails(step, ErrorView::Custom(1)) <==> signed && !stands
            &&& fails(step, ErrorView::Custom(3)) <==> stands && !rated
            &&& fails(step, ErrorView::Custom(2)) <==> rated && size > 1000
            &&& asks_rent(step, 1000) <==> rated && size <= 1000
        }),
{
}

/// The account of a new review is paid for by its author with exactly the rent that
/// the host has told for its thousand bytes, belongs to the program, and is signed
/// for as the address of author and title; then its data are asked for.
pub proof fn law_review_account_is_created(
    program_id: Pubkey,
    accounts: Seq<Account>,
    title: Seq<char>,
    rating: u8,
    description: Seq<char>,
    lamports: u64,
)
    requires
        program_address(seq![accounts[0].key@, encode_utf8(title)], program_id@) is Some,
        begun(
            program_id,
            accounts,
            RequestView::AddMovieReview { title, rating, description },
        ) is Ask,
    ensures
        ({
            let step = told(
                begun(
                    program_id,
                    accounts,
                    RequestView::AddMovieReview { title, rating, description },
                ),
                EventView::Rent(lamports),
            );
            let bump = program_address(
                seq![accounts[0].key@, encode_utf8(title)],
                program_id@,
            ).unwrap().1;
            &&& sends(
                step,
                seq![0, 1, 5],
                seq![accounts[0].key@, encode_utf8(title), seq![bump]],
            )
            &&& creates(
                sent(step),
                accounts[0].key@,
                accounts[1].key@,
                lamports,
                1000,
                program_id@,
            )
            &&& asks_data(told(step, EventView::Invoked), 1)
        }),
{
    let step = told(
        begun(program_id, accounts, RequestView::AddMovieReview { title, rating, description }),
        EventView::Rent(lamports),
    );
    lemma_creates(sent(step), lamports, 1000, program_id@);
}

/// What is kept of a new review is what was requested: its rating, its title, its
/// description, and its author. An account that is in use, or that cannot be read, is
/// left as it is; one that has no room ends the request; else the counter follows.
#[verifier::rlimit(50)]
pub proof fn law_review_is_kept_as_requested(
    program_id: Pubkey,
    accounts: Seq<Account>,
    title: Seq<char>,
    rating: u8,
    description: Seq<char>,
    lamports: u64,
    data: Seq<u8>,
)
    requires
        begun(
            program_id,
            accounts,
            RequestView::AddMovieReview { title, rating, description },
        ) is Ask,
    ensures
        ({
            let request = RequestView::AddMovieReview { title, rating, description };
            let step = told(
                told(
                    told(begun(program_id, accounts, request), EventView::Rent(lamports)),
                    EventView::Invoked,
                ),
                EventView::Data(data),
            );
            let after = told(step, EventView::Written);
            let size = 52 + encode_utf8(title).len() + encode_utf8(description).len();
            match decode_review(data) {
                Err(fault) => fails(step, ErrorView::BorshIoError(fault)),
                Ok(found) => if found.is_initialized {
                    fails(step, ErrorView::AccountAlreadyInitialized)
                } else {
                    &&& puts_review(
                        step,
                        1,
                        data,
                        ReviewView {
                            discriminator: "review"@,
                            is_initialized: true,
                            reviewer: accounts[0].key@,
                            rating,
                            title,
                            description,
                        },
                    )
                    &&& if size > data.len() {
                        fails(after, ErrorView::BorshIoError(FaultView::NoRoom))
                    } else {
                        after == counter_begun(program_id, accounts, accounts[1].key)
                    }
                },
            }
        }),
{
    let request = RequestView::AddMovieReview { title, rating, description };
    let step = told(
        told(
            told(begun(program_id, accounts, request), EventView::Rent(lamports)),
            EventView::Invoked,
        ),
        EventView::Data(data),
    );
    let r = ReviewView {
        discriminator: "review"@,
        is_initialized: true,
        reviewer: accounts[0].key@,
        rating,
        title,
        description,
    };
    lemma_marks();
    law_review_layout(r);
    if decode_review(data) is Ok && !decode_review(data)->Ok_0.is_initialized {
        lemma_puts_review(step, 1, data, r);
    }
}

// The counter of a new review.

/// The counter of a review wants three accounts, stands at the address of the review
/// and the word `comment`, and is paid for by the first account with exactly the rent
/// that the host has told for its twenty bytes. It starts at zero, in an account that
/// is not in use; one without room ends the request; else the review is paid for.
#[verifier::rlimit(50)]
pub proof fn law_counter_is_created(
    program_id: Pubkey,
    accounts: Seq<Account>,
    review: Pubkey,
    lamports: u64,
    data: Seq<u8>,
)
    requires
        program_address(seq![review@, encode_utf8("comment"@)], program_id@) is Some,
    ensures
        ({
            let step = counter_begun(program_id, accounts, review);
            let derived = program_address(
                seq![review@, encode_utf8("comment"@)],
                program_id@,
            ).unwrap();
            let created = told(step, EventView::Rent(lamports));
            let opened = told(created, EventView::Invoked);
            let put = told(opened, EventView::Data(data));
            let after = told(put, EventView::Written);
            &&& accounts.len() < 3 ==> fails(step, ErrorView::NotEnoughAccountKeys)
            &&& accounts.len() >= 3 ==> asks_rent(step, 20)
            &&& accounts.len() >= 3 && derived.0 != accounts[1].key@ ==> fails(
                created,
                ErrorView::InvalidArgument,
            )
            &&& accounts.len() >= 3 && derived.0 == accounts[1].key@ ==> {
                &&& sends(
                    created,
                    seq![0, 1, 2],
                    seq![review@, encode_utf8("comment"@), seq![derived.1]],
                )
                &&& creates(
                    sent(created),
                    accounts[0].key@,
                    accounts[1].key@,
                    lamports,
                    20,
                    program_id@,
                )
                &&& asks_data(opened, 1)
                &&& match decode_counter(data) {
                    Err(fault) => fails(put, ErrorView::BorshIoError(fault)),
                    Ok(found) => if found.is_initialized {
                        fails(put, ErrorView::AccountAlreadyInitialized)
                    } else {
                        &&& puts_counter(
                            put,
                            1,
                            data,
                            CounterView {
                                discriminator: "counter"@,
                                is_initialized: true,
                                counter: 0,
                            },
                        )
                        &&& if data.len() < 20 {
                            fails(after, ErrorView::BorshIoError(FaultView::NoRoom))
                        } else {
                            after == payment(
                                program_id,
                                accounts,
                                Places { mint: 2, authority: 3, wallet: 4, program: 6 },
                                10,
                            )
                        }
                    },
                }
            }
        }),
{
    let created = told(counter_begun(program_id, accounts, review), EventView::Rent(lamports));
    let put = told(told(created, EventView::Invoked), EventView::Data(data));
    let r = CounterView { discriminator: "counter"@, is_initialized: true, counter: 0 };
    lemma_marks();
    law_counter_layout(r);
    let derived = program_address(seq![review@, encode_utf8("comment"@)], program_id@).unwrap();
    if accounts.len() >= 3 && derived.0 == accounts[1].key@ {
        lemma_creates(sent(created), lamports, 20, program_id@);
        if decode_counter(data) is Ok && !decode_counter(data)->Ok_0.is_initialized {
            lemma_puts_counter(put, 1, data, r);
        }
    }
}

// The reward.

/// The token accounts of a payment are held against the derived mint, then against
/// the derived authority.
pub proof fn law_payment_accounts_are_checked(
    accounts: Seq<Account>,
    places: Places,
    mint: Seq<u8>,
    authority: Seq<u8>,
)
    ensures
        payment_refusal(accounts, places, mint, authority) is None <==> accounts[
            places.mint as int
        ].key@ == mint && accounts[places.authority as int].key@ == authority,
        payment_refusal(accounts, places, mint, authority) == Some(
            ReviewError::IncorrectAccountError,
        ) <==> accounts[places.mint as int].key@ != mint,
        payment_refusal(accounts, places, mint, authority) == Some(ReviewError::InvalidPDA)
            <==> accounts[places.mint as int].key@ == mint
            && accounts[places.authority as int].key@ != authority,
{
}

/// A payment goes to the token account that is derived, through the token program:
/// as many thousand millions as there are tokens, from the mint that is named, on the
/// word of the authority that is named, for which the program signs. Any other token
/// account or token program is refused.
#[verifier::rlimit(50)]
pub proof fn law_payment_is_sent(
    program_id: Pubkey,
    accounts: Seq<Account>,
    places: Places,
    tokens: u64,
    bump: u8,
    wallet: Seq<u8>,
)
    requires
        tokens * 1_000_000_000 <= u64::MAX,
    ensures
        ({
            let step = payment_to(program_id, accounts, places, tokens, bump, wallet);
            if accounts[places.wallet as int].key@ == wallet
                && accounts[places.program as int].key@ == token_program_key() {
                &&& sends(
                    step,
                    seq![places.mint, places.wallet, places.authority],
                    seq![encode_utf8("token_auth"@), seq![bump]],
                )
                &&& mints(
                    sent(step),
                    accounts[places.mint as int].key@,
                    wallet,
                    accounts[places.authority as int].key@,
                    (tokens * 1_000_000_000) as nat,
                )
                &&& succeeds(told(step, EventView::Invoked))
            } else {
                fails(step, ErrorView::Custom(4))
            }
        }),
{
    let step = payment_to(program_id, accounts, places, tokens, bump, wallet);
    if step is Ask {
        lemma_mints(sent(step), (tokens * 1_000_000_000) as u64);
    }
}

/// A reward is minted from the program's own mint, on the word of its own authority,
/// to the token account of the first account, and exactly where these three and the
/// token program are the accounts that are named.
#[verifier::rlimit(50)]
pub proof fn law_reward_is_paid(
    program_id: Pubkey,
    accounts: Seq<Account>,
    places: Places,
    tokens: u64,
)
    requires
        tokens * 1_000_000_000 <= u64::MAX,
        program_address(seq![encode_utf8("token_mint"@)], program_id@) is Some,
        program_address(seq![encode_utf8("token_auth"@)], program_id@) is Some,
        program_address(
            seq![accounts[0].key@, token_program_key(), accounts[places.mint as int].key@],
            associated_token_program_key(),
        ) is Some,
    ensures
        ({
            let step = payment(program_id, accounts, places, tokens);
            let mint = program_address(seq![encode_utf8("token_mint"@)], program_id@).unwrap().0;
            let authority = program_address(
                seq![encode_utf8("token_auth"@)],
                program_id@,
            ).unwrap();
            let wallet = program_address(
                seq![accounts[0].key@, token_program_key(), accounts[places.mint as int].key@],
                associated_token_program_key(),
            ).unwrap().0;
            let minted = accounts[places.mint as int].key@ == mint;
            let authorised = accounts[places.authority as int].key@ == authority.0;
            let held = accounts[places.wallet as int].key@ == wallet;
            let through = accounts[places.program as int].key@ == token_program_key();
            &&& fails(step, ErrorView::Custom(4)) <==> !minted || authorised && !(held && through)
            &&& fails(step, ErrorView::Custom(1)) <==> minted && !authorised
            &&& step is Ask <==> minted && authorised && held && through
            &&& step is Ask ==> {
                &&& sends(
                    step,
                    seq![places.mint, places.wallet, places.authority],
                    seq![encode_utf8("token_auth"@), seq![authority.1]],
                )
                &&& mints(
                    sent(step),
                    mint,
                    wallet,
                    authority.0,
                    (tokens * 1_000_000_000) as nat,
                )
                &&& succeeds(told(step, EventView::Invoked))
            }
        }),
{
    let step = payment(program_id, accounts, places, tokens);
    if step is Ask {
        lemma_mints(sent(step), (tokens * 1_000_000_000) as u64);
    }
}

// A changed review.

/// A change is refused for the number of its accounts, a review that is not the
/// program's, and a missing signature, in that order, and for nothing else. Else the
/// review is asked for.
pub proof fn law_update_is_begun(
    program_id: Pubkey,
    accounts: Seq<Account>,
    title: Seq<char>,
    rating: u8,
    description: Seq<char>,
)
    ensures
        ({
            let step = begun(
                program_id,
                accounts,
                RequestView::UpdateMovieReview { title, rating, description },
            );
            let named = accounts.len() >= 2;
            let owned = named && accounts[1].owner == program_id;
            &&& fails(step, ErrorView::NotEnoughAccountKeys) <==> !named
            &&& fails(step, ErrorView::IllegalOwner) <==> named && !owned
            &&& fails(step, ErrorView::MissingRequiredSignature) <==> owned
                && !accounts[0].is_signer
            &&& asks_data(step, 1) <==> owned && accounts[0].is_signer
        }),
{
}

/// What a review that was found becomes: it must stand at the address that is derived
/// for it and be in use, and the new rating must be one to five and the new words few
/// enough. Then it has the rating and the description that were requested, and all
/// else as it was; it is taken exactly where there is room for it.
#[verifier::rlimit(50)]
pub proof fn law_found_review_is_changed(
    program_id: Pubkey,
    accounts: Seq<Account>,
    words: crate::instruction::PayloadView,
    data: Seq<u8>,
    found: ReviewView,
    derived: Seq<u8>,
)
    requires
        found.reviewer.len() == 32,
        string_fits(found.discriminator),
        string_fits(found.title),
    ensures
        ({
            let step = update_at(program_id, accounts, words, data, found, derived);
            let after = told(step, EventView::Written);
            let stands = derived == accounts[1].key@;
            let used = stands && found.is_initialized;
            let rated = used && 1 <= words.rating <= 5;
            let size = 52 + encode_utf8(words.title).len() + encode_utf8(words.description).len();
            let room = 46 + encode_utf8(found.discriminator).len() + encode_utf8(found.title).len()
                + encode_utf8(words.description).len();
            &&& fails(step, ErrorView::Custom(1)) <==> !stands
            &&& fails(step, ErrorView::Custom(0)) <==> stands && !used
            &&& fails(step, ErrorView::Custom(3)) <==> used && !rated
            &&& fails(step, ErrorView::Custom(2)) <==> rated && size > 1000
            &&& step is Ask <==> rated && size <= 1000
            &&& step is Ask ==> {
                &&& puts_review(
                    step,
                    1,
                    data,
                    ReviewView {
                        discriminator: found.discriminator,
                        is_initialized: true,
                        reviewer: found.reviewer,
                        rating: words.rating,
                        title: found.title,
                        description: words.description,
                    },
                )
                &&& if room > data.len() {
                    fails(after, ErrorView::BorshIoError(FaultView::NoRoom))
                } else {
                    succeeds(after)
                }
            }
        }),
{
    let step = update_at(program_id, accounts, words, data, found, derived);
    let r = ReviewView {
        discriminator: found.discriminator,
        is_initialized: true,
        reviewer: found.reviewer,
        rating: words.rating,
        title: found.title,
        description: words.description,
    };
    if step is Ask {
        assert(crate::model::changed_review(found, words) == r);
        law_review_layout(r);
        lemma_puts_review(step, 1, data, r);
    }
}

/// From the request to the write: what is kept of a changed review has the rating and
/// the description of the request, and all else as it was read. A rating that is not
/// one to five is never written. The change is taken exactly where the description is
/// no longer than the one that stood there.
#[verifier::rlimit(50)]
pub proof fn law_review_is_changed_as_requested(
    program_id: Pubkey,
    accounts: Seq<Account>,
    title: Seq<char>,
    rating: u8,
    description: Seq<char>,
    data: Seq<u8>,
)
    requires
        begun(
            program_id,
            accounts,
            RequestView::UpdateMovieReview { title, rating, description },
        ) is Ask,
        decode_review(data) matches Ok(found) ==> program_address(
            seq![accounts[0].key@, encode_utf8(found.title)],
            program_id@,
        ) is Some,
    ensures
        ({
            let request = RequestView::UpdateMovieReview { title, rating, description };
            let step = told(begun(program_id, accounts, request), EventView::Data(data));
            let after = told(step, EventView::Written);
            match decode_review(data) {
                Err(fault) => fails(step, ErrorView::BorshIoError(fault)),
                Ok(found) => {
                    let derived = program_address(
                        seq![accounts[0].key@, encode_utf8(found.title)],
                        program_id@,
                    ).unwrap();
                    let stands = derived.0 == accounts[1].key@;
                    let used = stands && found.is_initialized;
                    let rated = used && 1 <= rating <= 5;
                    let size = 52 + encode_utf8(title).len() + encode_utf8(description).len();
                    &&& fails(step, ErrorView::Custom(1)) <==> !stands
                    &&& fails(step, ErrorView::Custom(0)) <==> stands && !used
                    &&& fails(step, ErrorView::Custom(3)) <==> used && !rated
                    &&& fails(step, ErrorView::Custom(2)) <==> rated && size > 1000
                    &&& step is Ask <==> rated && size <= 1000
                    &&& step is Ask ==> {
                        &&& puts_review(
                            step,
                            1,
                            data,
                            ReviewView {
                                discriminator: found.discriminator,
                                is_initialized: true,
                                reviewer: found.reviewer,
                                rating,
                                title: found.title,
                                description,
                            },
                        )
                        &&& if encode_utf8(description).len() > encode_utf8(
                            found.description,
                        ).len() {
                            fails(after, ErrorView::BorshIoError(FaultView::NoRoom))
                        } else {
                            succeeds(after)
                        }
                    }
                },
            }
        }),
{
    if decode_review(data) is Ok {
        let found = decode_review(data)->Ok_0;
        law_review_has_one_form(data);
        law_review_layout(found);
        law_found_review_is_changed(
            program_id,
            accounts,
            crate::instruction::PayloadView { title, rating, description },
            data,
            found,
            program_address(
                seq![accounts[0].key@, encode_utf8(found.title)],
                program_id@,
            ).unwrap().0,
        );
    }
}

// A comment.

/// A comment wants nine accounts. The counter is asked for, and for a counter that can
/// be read the rent of the comment's bytes.
pub proof fn law_comment_is_begun(
    program_id: Pubkey,
    accounts: Seq<Account>,
    comment: Seq<char>,
    counter_data: Seq<u8>,
)
    requires
        80 + encode_utf8(comment).len() <= usize::MAX,
    ensures
        ({
            let step = begun(program_id, accounts, RequestView::AddComment { comment });
            let counted = told(step, EventView::Data(counter_data));
            &&& fails(step, ErrorView::NotEnoughAccountKeys) <==> accounts.len() < 9
            &&& asks_data(step, 2) <==> accounts.len() >= 9
            &&& accounts.len() >= 9 ==> match decode_counter(counter_data) {
                Err(fault) => fails(counted, ErrorView::BorshIoError(fault)),
                Ok(_) => asks_rent(counted, 80 + encode_utf8(comment).len()),
            }
        }),
{
}

/// The account of a comment stands at the address of the review and of the number of
/// comments before it, highest byte first. It is paid for by the commenter with exactly
/// the rent that the host has told for its bytes, and belongs to the program.
#[verifier::rlimit(50)]
pub proof fn law_comment_account_is_created(
    program_id: Pubkey,
    accounts: Seq<Account>,
    comment: Seq<char>,
    counter_data: Seq<u8>,
    lamports: u64,
)
    requires
        80 + encode_utf8(comment).len() <= usize::MAX,
        accounts.len() >= 9,
        decode_counter(counter_data) is Ok,
        program_address(
            seq![
                accounts[1].key@,
                le_bytes(decode_counter(counter_data)->Ok_0.counter as nat, 8).reverse(),
            ],
            program_id@,
        ) is Some,
    ensures
        ({
            let step = told(
                told(
                    begun(program_id, accounts, RequestView::AddComment { comment }),
                    EventView::Data(counter_data),
                ),
                EventView::Rent(lamports),
            );
            let number = le_bytes(
                decode_counter(counter_data)->Ok_0.counter as nat,
                8,
            ).reverse();
            let derived = program_address(seq![accounts[1].key@, number], program_id@).unwrap();
            if derived.0 != accounts[3].key@ {
                fails(step, ErrorView::Custom(1))
            } else {
                &&& sends(
                    step,
                    seq![0, 3, 7],
                    seq![accounts[1].key@, number, seq![derived.1]],
                )
                &&& creates(
                    sent(step),
                    accounts[0].key@,
                    accounts[3].key@,
                    lamports,
                    80 + encode_utf8(comment).len(),
                    program_id@,
                )
                &&& asks_data(told(step, EventView::Invoked), 3)
            }
        }),
{
    let step = told(
        told(
            begun(program_id, accounts, RequestView::AddComment { comment }),
            EventView::Data(counter_data),
        ),
        EventView::Rent(lamports),
    );
    law_highest_byte_first(decode_counter(counter_data)->Ok_0.counter as nat, 8);
    if step is Ask {
        lemma_creates(sent(step), lamports, 80 + encode_utf8(comment).len(), program_id@);
    }
}

proof fn lemma_comment_run(
    program_id: Pubkey,
    accounts: Seq<Account>,
    comment: Seq<char>,
    counter_data: Seq<u8>,
    lamports: u64,
    data: Seq<u8>,
)
    requires
        told(
            told(
                begun(program_id, accounts, RequestView::AddComment { comment }),
                EventView::Data(counter_data),
            ),
            EventView::Rent(lamports),
        ) is Ask,
    ensures
        decode_counter(counter_data) is Ok,
        told(
            told(
                told(
                    told(
                        begun(program_id, accounts, RequestView::AddComment { comment }),
                        EventView::Data(counter_data),
                    ),
                    EventView::Rent(lamports),
                ),
                EventView::Invoked,
            ),
            EventView::Data(data),
        ) == comment_opened(
            program_id,
            accounts,
            comment,
            decode_counter(counter_data)->Ok_0,
            data,
        ),
{
}

#[verifier::rlimit(50)]
proof fn lemma_comment_kept(
    program_id: Pubkey,
    accounts: Seq<Account>,
    comment: Seq<char>,
    counter: CounterView,
    data: Seq<u8>,
)
    ensures
        ({
            let step = comment_opened(program_id, accounts, comment, counter, data);
            let after = told(step, EventView::Written);
            match decode_comment(data) {
                Err(fault) => fails(step, ErrorView::BorshIoError(fault)),
                Ok(found) => if found.is_initialized {
                    fails(step, ErrorView::AccountAlreadyInitialized)
                } else {
                    &&& puts_comment(
                        step,
                        3,
                        data,
                        CommentView {
                            discriminator: "comment"@,
                            is_initialized: true,
                            review: accounts[1].key@,
                            commenter: accounts[0].key@,
                            comment,
                        },
                    )
                    &&& if !string_fits(comment) {
                        if data.len() < 76 {
                            fails(after, ErrorView::BorshIoError(FaultView::NoRoom))
                        } else {
                            fails(after, ErrorView::BorshIoError(FaultView::TooLong))
                        }
                    } else if data.len() < 80 + encode_utf8(comment).len() {
                        fails(after, ErrorView::BorshIoError(FaultView::NoRoom))
                    } else {
                        asks_data(after, 2)
                    }
                },
            }
        }),
{
    let step = comment_opened(program_id, accounts, comment, counter, data);
    let r = CommentView {
        discriminator: "comment"@,
        is_initialized: true,
        review: accounts[1].key@,
        commenter: accounts[0].key@,
        comment,
    };
    lemma_marks();
    lemma_comment_length(r);
    if decode_comment(data) is Ok && !decode_comment(data)->Ok_0.is_initialized {
        lemma_puts_comment(step, 3, data, r);
    }
}

proof fn lemma_comment_length(r: CommentView)
    requires
        encode_utf8(r.discriminator).len() == 7,
        r.review.len() == 32,
        r.commenter.len() == 32,
    ensures
        encode_comment(r).complete <==> string_fits(r.comment),
        encode_comment(r).bytes.len() == if string_fits(r.comment) {
            80 + encode_utf8(r.comment).len()
        } else {
            76
        },
{
    law_comment_layout(r);
    lemma_le_bytes_len(7, 4);
}

/// What is kept of a comment is what was requested: its text, on the review that was
/// named, by the one who made the request. An account that is in use, or that cannot
/// be read, is left as it is; one that has no room ends the request; else the counter
/// is asked for again. A text that is too long for its length to be said is not kept.
#[verifier::rlimit(50)]
pub proof fn law_comment_is_kept_as_requested(
    program_id: Pubkey,
    accounts: Seq<Account>,
    comment: Seq<char>,
    counter_data: Seq<u8>,
    lamports: u64,
    data: Seq<u8>,
)
    requires
        80 + encode_utf8(comment).len() <= usize::MAX,
        told(
            told(
                begun(program_id, accounts, RequestView::AddComment { comment }),
                EventView::Data(counter_data),
            ),
            EventView::Rent(lamports),
        ) is Ask,
    ensures
        ({
            let step = told(
                told(
                    told(
                        told(
                            begun(program_id, accounts, RequestView::AddComment { comment }),
                            EventView::Data(counter_data),
                        ),
                        EventView::Rent(lamports),
                    ),
                    EventView::Invoked,
                ),
                EventView::Data(data),
            );
            let after = told(step, EventView::Written);
            match decode_comment(data) {
                Err(fault) => fails(step, ErrorView::BorshIoError(fault)),
                Ok(found) => if found.is_initialized {
                    fails(step, ErrorView::AccountAlreadyInitialized)
                } else {
                    &&& puts_comment(
                        step,
                        3,
                        data,
                        CommentView {
                            discriminator: "comment"@,
                            is_initialized: true,
                            review: accounts[1].key@,
                            commenter: accounts[0].key@,
                            comment,
                        },
                    )
                    &&& if !string_fits(comment) {
                        if data.len() < 76 {
                            fails(after, ErrorView::BorshIoError(FaultView::NoRoom))
                        } else {
                            fails(after, ErrorView::BorshIoError(FaultView::TooLong))
                        }
                    } else if data.len() < 80 + encode_utf8(comment).len() {
                        fails(after, ErrorView::BorshIoError(FaultView::NoRoom))
                    } else {
                        asks_data(after, 2)
                    }
                },
            }
        }),
{
    lemma_comment_run(program_id, accounts, comment, counter_data, lamports, data);
    lemma_comment_kept(
        program_id,
        accounts,
        comment,
        decode_counter(counter_data)->Ok_0,
        data,
    );
}

/// For a comment that is kept, the counter that was read for it goes up by one, in the
/// data that its account then holds; nothing else of it changes. Where there is room
/// for as many bytes as it was read from, the comment is paid for.
#[verifier::rlimit(50)]
pub proof fn law_comment_is_counted(
    program_id: Pubkey,
    accounts: Seq<Account>,
    comment: Seq<char>,
    counter_data: Seq<u8>,
    lamports: u64,
    data: Seq<u8>,
    counter_data_then: Seq<u8>,
)
    requires
        80 + encode_utf8(comment).len() <= usize::MAX,
        decode_counter(counter_data) is Ok,
        decode_counter(counter_data)->Ok_0.counter < u64::MAX,
        told(
            told(
                told(
                    told(
                        told(
                            begun(program_id, accounts, RequestView::AddComment { comment }),
                            EventView::Data(counter_data),
                        ),
                        EventView::Rent(lamports),
                    ),
                    EventView::Invoked,
                ),
                EventView::Data(data),
            ),
            EventView::Written,
        ) is Ask,
    ensures
        ({
            let step = told(
                told(
                    told(
                        told(
                            told(
                                told(
                                    begun(
                                        program_id,
                                        accounts,
                                        RequestView::AddComment { comment },
                                    ),
                                    EventView::Data(counter_data),
                                ),
                                EventView::Rent(lamports),
                            ),
                            EventView::Invoked,
                        ),
                        EventView::Data(data),
                    ),
                    EventView::Written,
                ),
                EventView::Data(counter_data_then),
            );
            let after = told(step, EventView::Written);
            let counter = decode_counter(counter_data)->Ok_0;
            &&& puts_counter(
                step,
                2,
                counter_data_then,
                CounterView {
                    discriminator: counter.discriminator,
                    is_initialized: counter.is_initialized,
                    counter: (counter.counter + 1) as u64,
                },
            )
            &&& if counter_data_then.len() < counter_data.len() {
                fails(after, ErrorView::BorshIoError(FaultView::NoRoom))
            } else {
                after == payment(
                    program_id,
                    accounts,
                    Places { mint: 4, authority: 5, wallet: 6, program: 8 },
                    5,
                )
            }
        }),
{
    let kept = told(
        told(
            told(
                told(
                    told(
                        begun(program_id, accounts, RequestView::AddComment { comment }),
                        EventView::Data(counter_data),
                    ),
                    EventView::Rent(lamports),
                ),
                EventView::Invoked,
            ),
            EventView::Data(data),
        ),
        EventView::Written,
    );
    let step = told(kept, EventView::Data(counter_data_then));
    let counter = decode_counter(counter_data)->Ok_0;
    let r = CounterView {
        discriminator: counter.discriminator,
        is_initialized: counter.is_initialized,
        counter: (counter.counter + 1) as u64,
    };
    law_counter_has_one_form(counter_data);
    law_counter_layout(counter);
    law_counter_layout(r);
    assert(crate::model::counted_up(counter) == r);
    lemma_puts_counter(step, 2, counter_data_then, r);
}

// The token mint.

/// The token mint is refused for the number of its accounts, and where the mint, its
/// authority or the token program is not the account that it has to be, and for
/// nothing else. Else the rent of eighty-two bytes is asked for.
pub proof fn law_mint_is_begun(program_id: Pubkey, accounts: Seq<Account>)
    requires
        program_address(seq![encode_utf8("token_mint"@)], program_id@) is Some,
        program_address(seq![encode_utf8("token_auth"@)], program_id@) is Some,
    ensures
        ({
            let step = begun(program_id, accounts, RequestView::InitializeMint);
            let mint = program_address(seq![encode_utf8("token_mint"@)], program_id@).unwrap().0;
            let authority = program_address(
                seq![encode_utf8("token_auth"@)],
                program_id@,
            ).unwrap().0;
            let right = accounts[1].key@ == mint && accounts[2].key@ == authority
                && accounts[4].key@ == token_program_key();
            &&& fails(step, ErrorView::NotEnoughAccountKeys) <==> accounts.len() < 6
            &&& fails(step, ErrorView::Custom(4)) <==> accounts.len() >= 6 && !right
            &&& asks_rent(step, 82) <==> accounts.len() >= 6 && right
        }),
{
}

#[verifier::rlimit(50)]
proof fn lemma_mint_run(program_id: Pubkey, accounts: Seq<Account>, lamports: u64)
    requires
        program_address(seq![encode_utf8("token_mint"@)], program_id@) is Some,
        begun(program_id, accounts, RequestView::InitializeMint) is Ask,
    ensures
        ({
            let step = told(
                begun(program_id, accounts, RequestView::InitializeMint),
                EventView::Rent(lamports),
            );
            let created = told(step, EventView::Invoked);
            let bump = program_address(seq![encode_utf8("token_mint"@)], program_id@).unwrap().1;
            &&& step == mint_priced(program_id, accounts, bump, lamports)
            &&& created == mint_opened(program_id, accounts, bump)
            &&& accounts[4].key@ == token_program_key()
            &&& succeeds(told(created, EventView::Invoked))
        }),
{
}

proof fn lemma_mint_instructions(
    program_id: Pubkey,
    accounts: Seq<Account>,
    bump: u8,
    lamports: u64,
)
    requires
        accounts[4].key@ == token_program_key(),
    ensures
        ({
            let step = mint_priced(program_id, accounts, bump, lamports);
            let created = mint_opened(program_id, accounts, bump);
            let seeds = seq![encode_utf8("token_mint"@), seq![bump]];
            &&& sends(step, seq![0, 1, 3], seeds)
            &&& creates(
                sent(step),
                accounts[0].key@,
                accounts[1].key@,
                lamports,
                82,
                token_program_key(),
            )
            &&& sends(created, seq![1, 5, 2], seeds)
            &&& sets_up(sent(created), accounts[1].key@, accounts[2].key@)
            &&& sent(created).accounts[1].key == crate::invoke::rent_sysvar_key()
        }),
{
    lemma_creates(
        sent(mint_priced(program_id, accounts, bump, lamports)),
        lamports,
        82,
        token_program_key(),
    );
    let data = mint_setup(accounts[1].key@, accounts[2].key@, None, 9).data;
    assert(data.subrange(2, 34) =~= accounts[2].key@);
}

/// The account of the token mint is paid for by the first account with exactly the
/// rent that the host has told for its eighty-two bytes, and belongs to the token
/// program. Then it is set up with nine decimals under the program's authority, and
/// the request has succeeded.
#[verifier::rlimit(50)]
pub proof fn law_mint_is_created(program_id: Pubkey, accounts: Seq<Account>, lamports: u64)
    requires
        program_address(seq![encode_utf8("token_mint"@)], program_id@) is Some,
        begun(program_id, accounts, RequestView::InitializeMint) is Ask,
    ensures
        ({
            let step = told(
                begun(program_id, accounts, RequestView::InitializeMint),
                EventView::Rent(lamports),
            );
            let created = told(step, EventView::Invoked);
            let bump = program_address(seq![encode_utf8("token_mint"@)], program_id@).unwrap().1;
            let seeds = seq![encode_utf8("token_mint"@), seq![bump]];
            &&& sends(step, seq![0, 1, 3], seeds)
            &&& creates(
                sent(step),
                accounts[0].key@,
                accounts[1].key@,
                lamports,
                82,
                token_program_key(),
            )
            &&& sends(created, seq![1, 5, 2], seeds)
            &&& sets_up(sent(created), accounts[1].key@, accounts[2].key@)
            &&& sent(created).accounts[1].key == crate::invoke::rent_sysvar_key()
            &&& succeeds(told(created, EventView::Invoked))
        }),
{
    let bump = program_address(seq![encode_utf8("token_mint"@)], program_id@).unwrap().1;
    lemma_mint_run(program_id, accounts, lamports);
    lemma_mint_instructions(program_id, accounts, bump, lamports);
}

// Whatever is requested.

proof fn lemma_creation_pays(
    from: Seq<u8>,
    to: Seq<u8>,
    lamports: u64,
    space: u64,
    owner: Seq<u8>,
)
    ensures
        ({
            let i = creation(from, to, lamports, space, owner);
            &&& i.program_id == Seq::new(32, |i: int| 0u8)
            &&& i.accounts[0].key == from
            &&& le_value(i.data.subrange(4, 12)) == lamports
        }),
{
    let i = creation(from, to, lamports, space, owner);
    lemma_le_bytes_len(0, 4);
    lemma_le_bytes_len(lamports as nat, 8);
    reveal_with_fuel(crate::codec::capacity, 9);
    lemma_le_value_of_bytes(lamports as nat, 8);
    assert(i.data.subrange(4, 12) =~= le_bytes(lamports as nat, 8));
}

/// Whoever is asked for the rent, the answer is what is paid: an account is created
/// only with the lamports with which the host has just answered, and by the first
/// account of the request. Nothing else is sent on such an answer.
#[verifier::rlimit(50)]
pub proof fn law_rent_is_what_is_paid(flow: FlowView, lamports: u64)
    requires
        EventView::Rent(lamports).answers(flow.stage.awaits()),
    ensures
        match next(flow, EventView::Rent(lamports)) {
            StepView::Done(result) => result is Err,
            StepView::Ask(action, _) => {
                &&& action is Invoke
                &&& action->instruction.program_id == Seq::new(32, |i: int| 0u8)
                &&& action->instruction.accounts[0].key == flow.accounts[0].key@
                &&& le_value(action->instruction.data.subrange(4, 12)) == lamports
            },
        },
{
    match flow.stage {
        StageView::ReviewRent { .. } => {
            lemma_creation_pays(
                flow.accounts[0].key@,
                flow.accounts[1].key@,
                lamports,
                1000,
                flow.program_id@,
            );
        },
        StageView::CounterRent { .. } => {
            lemma_creation_pays(
                flow.accounts[0].key@,
                flow.accounts[1].key@,
                lamports,
                20,
                flow.program_id@,
            );
        },
        StageView::CommentRent { comment, .. } => {
            lemma_creation_pays(
                flow.accounts[0].key@,
                flow.accounts[3].key@,
                lamports,
                crate::state::comment_size(comment) as u64,
                flow.program_id@,
            );
        },
        StageView::MintRent { .. } => {
            lemma_creation_pays(
                flow.accounts[0].key@,
                flow.accounts[1].key@,
                lamports,
                82,
                flow.accounts[4].key@,
            );
        },
        _ => {},
    }
}

} // verus!
