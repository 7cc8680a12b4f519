//! The form that requests and records have in bytes, field by field, and when a
//! request can be begun and gone on with.

use vstd::prelude::*;
use vstd::utf8::*;
use crate::codec::{
    be_bytes, bool_bytes, bool_front, key_front, le_bytes, lemma_bool_front_of_bytes,
    lemma_key_front_of_bytes, lemma_le_bytes_len, lemma_string_front_of_bytes,
    lemma_u64_front_of_bytes, lemma_u8_front_of_bytes, string_bytes, string_fits, string_front,
    u64_front, u8_front,
};
use crate::error::{fault_view, ErrorView, FaultView, IoFault, ProgramError, ReviewError};
use crate::instruction::{
    law_request_has_one_form, law_request_reads_back, payload_bytes, payload_front, request_of,
    MovieInstruction, MovieReviewPayload, PayloadView, RequestView,
};
use crate::invoke::Instruction;
use crate::model::{
    begin_derivable, begun, comment_begun, counted_up, mint_begun, next_derivable, processed,
    review_begun, update_begun,
};
use crate::processor::request_fits;
use crate::pubkey::{
    associated_token_program_key, holds, program_address, token_program_key, Account, Pubkey,
};
use crate::state::{
    comment_size, decode_comment, decode_counter, decode_review, encode_comment, encode_counter,
    encode_review, overlay, review_size, store_fault, whole, CommentView, CounterView, Encoded,
    MovieAccountState, MovieComment, MovieCommentCounter, ReviewView,
};
use crate::step::{Action, ActionView, Event, EventView, FlowView, StageView, Step, StepView};

verus! {

// Bytes.

/// The bytes of a number, highest first, are its bytes, lowest first, backwards.
pub proof fn law_highest_byte_first(value: nat, width: nat)
    ensures
        be_bytes(value, width) == le_bytes(value, width).reverse(),
        be_bytes(value, width).len() == width,
    decreases width,
{
    lemma_le_bytes_len(value, width);
    if width > 0 {
        law_highest_byte_first(value / 256, (width - 1) as nat);
        lemma_le_bytes_len(value / 256, (width - 1) as nat);
        assert(be_bytes(value, width) =~= le_bytes(value, width).reverse());
    } else {
        assert(be_bytes(value, width) =~= le_bytes(value, width).reverse());
    }
}

/// What is written to the data of an account replaces, byte for byte, what stood at
/// their front, as far as it and the data go; the rest stays.
pub proof fn law_written_over(data: Seq<u8>, bytes: Seq<u8>)
    ensures
        overlay(data, bytes).len() == data.len(),
        forall|i: int|
            0 <= i < data.len() ==> #[trigger] overlay(data, bytes)[i] == (if i < bytes.len() {
                bytes[i]
            } else {
                data[i]
            }),
{
}

/// A record that is longer than the data has no room; else one that is not whole is too
/// long; else it is written.
pub proof fn law_record_is_stored_whole_or_refused(room: nat, record: Encoded)
    ensures
        store_fault(room, record) == Some(FaultView::NoRoom) <==> record.bytes.len() > room,
        store_fault(room, record) == Some(FaultView::TooLong) <==> record.bytes.len() <= room
            && !record.complete,
        store_fault(room, record) is None <==> record.bytes.len() <= room && record.complete,
{
}

/// A review is its mark, its flag, the key of its author, its rating, its title and its
/// description, in this order. It is cut short only before a text that is too long.
pub proof fn law_review_layout(r: ReviewView)
    ensures
        encode_review(r).complete <==> string_fits(r.discriminator) && string_fits(r.title)
            && string_fits(r.description),
        encode_review(r).complete ==> encode_review(r).bytes == string_bytes(r.discriminator)
            + bool_bytes(r.is_initialized) + r.reviewer + seq![r.rating] + string_bytes(r.title)
            + string_bytes(r.description),
        encode_review(r).complete && r.reviewer.len() == 32 ==> encode_review(r).bytes.len() == 46
            + encode_utf8(r.discriminator).len() + encode_utf8(r.title).len() + encode_utf8(
            r.description,
        ).len(),
        !string_fits(r.discriminator) ==> encode_review(r).bytes == Seq::<u8>::empty(),
        string_fits(r.discriminator) && !string_fits(r.title) ==> encode_review(r).bytes
            == string_bytes(r.discriminator) + bool_bytes(r.is_initialized) + r.reviewer
            + seq![r.rating],
        string_fits(r.discriminator) && string_fits(r.title) && !string_fits(r.description)
            ==> encode_review(r).bytes == string_bytes(r.discriminator) + bool_bytes(
            r.is_initialized,
        ) + r.reviewer + seq![r.rating] + string_bytes(r.title),
{
    lemma_le_bytes_len(encode_utf8(r.discriminator).len(), 4);
    lemma_le_bytes_len(encode_utf8(r.title).len(), 4);
    lemma_le_bytes_len(encode_utf8(r.description).len(), 4);
    assert(Seq::<u8>::empty() + string_bytes(r.discriminator) =~= string_bytes(r.discriminator));
}

/// A counter is its mark, its flag and its number, in this order.
pub proof fn law_counter_layout(r: CounterView)
    ensures
        encode_counter(r).complete <==> string_fits(r.discriminator),
        encode_counter(r).complete ==> encode_counter(r).bytes == string_bytes(r.discriminator)
            + bool_bytes(r.is_initialized) + le_bytes(r.counter as nat, 8),
        encode_counter(r).complete ==> encode_counter(r).bytes.len() == 13 + encode_utf8(
            r.discriminator,
        ).len(),
        !encode_counter(r).complete ==> encode_counter(r).bytes == Seq::<u8>::empty(),
{
    lemma_le_bytes_len(encode_utf8(r.discriminator).len(), 4);
    lemma_le_bytes_len(r.counter as nat, 8);
    assert(Seq::<u8>::empty() + string_bytes(r.discriminator) =~= string_bytes(r.discriminator));
}

/// A comment is its mark, its flag, the key of the review, the key of the commenter and
/// its text, in this order. It is cut short only before a text that is too long.
pub proof fn law_comment_layout(r: CommentView)
    ensures
        encode_comment(r).complete <==> string_fits(r.discriminator) && string_fits(r.comment),
        encode_comment(r).complete ==> encode_comment(r).bytes == string_bytes(r.discriminator)
            + bool_bytes(r.is_initialized) + r.review + r.commenter + string_bytes(r.comment),
        encode_comment(r).complete && r.review.len() == 32 && r.commenter.len() == 32
            ==> encode_comment(r).bytes.len() == 73 + encode_utf8(r.discriminator).len()
            + encode_utf8(r.comment).len(),
        !string_fits(r.discriminator) ==> encode_comment(r).bytes == Seq::<u8>::empty(),
        string_fits(r.discriminator) && !string_fits(r.comment) ==> encode_comment(r).bytes
            == string_bytes(r.discriminator) + bool_bytes(r.is_initialized) + r.review
            + r.commenter,
{
    lemma_le_bytes_len(encode_utf8(r.discriminator).len(), 4);
    lemma_le_bytes_len(encode_utf8(r.comment).len(), 4);
    assert(Seq::<u8>::empty() + string_bytes(r.discriminator) =~= string_bytes(r.discriminator));
}

/// The sizes that are reckoned are fifty-two bytes and the words for a review, and
/// eighty bytes and the text for a comment; a request fits where they are sizes of the
/// machine.
pub proof fn law_sizes(title: Seq<char>, rating: u8, description: Seq<char>, comment: Seq<char>)
    ensures
        review_size(title, description) == 52 + encode_utf8(title).len() + encode_utf8(
            description,
        ).len(),
        comment_size(comment) == 80 + encode_utf8(comment).len(),
        MovieCommentCounter::SIZE == 20,
        request_fits(RequestView::AddMovieReview { title, rating, description }) <==> 52
            + encode_utf8(title).len() + encode_utf8(description).len() <= usize::MAX,
        request_fits(RequestView::UpdateMovieReview { title, rating, description }) <==> 52
            + encode_utf8(title).len() + encode_utf8(description).len() <= usize::MAX,
        request_fits(RequestView::AddComment { comment }) <==> 80 + encode_utf8(comment).len()
            <= usize::MAX,
        request_fits(RequestView::InitializeMint),
{
}

/// One more comment is one more, and nothing else of the counter changes.
pub proof fn law_count_goes_up(counter: CounterView)
    requires
        counter.counter < u64::MAX,
    ensures
        counted_up(counter).counter == counter.counter + 1,
        counted_up(counter).discriminator == counter.discriminator,
        counted_up(counter).is_initialized == counter.is_initialized,
{
}

proof fn lemma_review_stops_at_author(r: ReviewView, rest: Seq<u8>)
    requires
        string_fits(r.discriminator),
    ensures
        key_front(rest) matches Err(fault) ==> decode_review(
            string_bytes(r.discriminator) + (bool_bytes(r.is_initialized) + rest),
        ) == Err::<ReviewView, FaultView>(fault),
{
    lemma_string_front_of_bytes(r.discriminator, bool_bytes(r.is_initialized) + rest);
    lemma_bool_front_of_bytes(r.is_initialized, rest);
}

proof fn lemma_review_stops_at_rating(r: ReviewView, rest: Seq<u8>)
    requires
        string_fits(r.discriminator),
        r.reviewer.len() == 32,
    ensures
        u8_front(rest) matches Err(fault) ==> decode_review(
            string_bytes(r.discriminator) + (bool_bytes(r.is_initialized) + (r.reviewer + rest)),
        ) == Err::<ReviewView, FaultView>(fault),
{
    let input2 = r.reviewer + rest;
    let input1 = bool_bytes(r.is_initialized) + input2;
    lemma_string_front_of_bytes(r.discriminator, input1);
    lemma_bool_front_of_bytes(r.is_initialized, input2);
    lemma_key_front_of_bytes(r.reviewer, rest);
}

/// A review of which the mark, the flag, the author and the rating are read is refused
/// for its title.
proof fn lemma_title_fault(
    input: Seq<u8>,
    input1: Seq<u8>,
    input2: Seq<u8>,
    input3: Seq<u8>,
    input4: Seq<u8>,
    r: ReviewView,
)
    requires
        string_front(input) == Ok::<(Seq<char>, Seq<u8>), FaultView>((r.discriminator, input1)),
        bool_front(input1) == Ok::<(bool, Seq<u8>), FaultView>((r.is_initialized, input2)),
        key_front(input2) == Ok::<(Seq<u8>, Seq<u8>), FaultView>((r.reviewer, input3)),
        u8_front(input3) == Ok::<(u8, Seq<u8>), FaultView>((r.rating, input4)),
    ensures
        string_front(input4) matches Err(fault) ==> decode_review(input) == Err::<
            ReviewView,
            FaultView,
        >(fault),
        string_front(input4) matches Ok((title, input5)) ==> (string_front(
            input5,
        ) matches Err(fault) ==> decode_review(input) == Err::<ReviewView, FaultView>(fault)),
        string_front(input4) matches Ok((title, input5)) ==> (string_front(
            input5,
        ) matches Ok((description, rest)) ==> rest.len() > 0 ==> decode_review(input) == Err::<
            ReviewView,
            FaultView,
        >(FaultView::TrailingBytes)),
{
}

proof fn lemma_review_stops_at_title(r: ReviewView, rest: Seq<u8>)
    requires
        string_fits(r.discriminator),
        r.reviewer.len() == 32,
    ensures
        string_front(rest) matches Err(fault) ==> decode_review(
            string_bytes(r.discriminator) + (bool_bytes(r.is_initialized) + (r.reviewer + (
            seq![r.rating] + rest))),
        ) == Err::<ReviewView, FaultView>(fault),
{
    let input3 = seq![r.rating] + rest;
    let input2 = r.reviewer + input3;
    let input1 = bool_bytes(r.is_initialized) + input2;
    lemma_string_front_of_bytes(r.discriminator, input1);
    lemma_bool_front_of_bytes(r.is_initialized, input2);
    lemma_key_front_of_bytes(r.reviewer, input3);
    lemma_u8_front_of_bytes(r.rating, rest);
    lemma_title_fault(string_bytes(r.discriminator) + input1, input1, input2, input3, rest, r);
}

proof fn lemma_review_stops_at_description(r: ReviewView, rest: Seq<u8>)
    requires
        string_fits(r.discriminator),
        string_fits(r.title),
        r.reviewer.len() == 32,
    ensures
        string_front(rest) matches Err(fault) ==> decode_review(
            string_bytes(r.discriminator) + (bool_bytes(r.is_initialized) + (r.reviewer + (
            seq![r.rating] + (string_bytes(r.title) + rest)))),
        ) == Err::<ReviewView, FaultView>(fault),
{
    let input4 = string_bytes(r.title) + rest;
    let input3 = seq![r.rating] + input4;
    let input2 = r.reviewer + input3;
    let input1 = bool_bytes(r.is_initialized) + input2;
    lemma_string_front_of_bytes(r.discriminator, input1);
    lemma_bool_front_of_bytes(r.is_initialized, input2);
    lemma_key_front_of_bytes(r.reviewer, input3);
    lemma_u8_front_of_bytes(r.rating, input4);
    lemma_string_front_of_bytes(r.title, rest);
    lemma_title_fault(string_bytes(r.discriminator) + input1, input1, input2, input3, input4, r);
}

proof fn lemma_review_goes_on(r: ReviewView, rest: Seq<u8>)
    requires
        string_fits(r.discriminator),
        string_fits(r.title),
        string_fits(r.description),
        r.reviewer.len() == 32,
    ensures
        rest.len() > 0 ==> decode_review(
            string_bytes(r.discriminator) + (bool_bytes(r.is_initialized) + (r.reviewer + (
            seq![r.rating] + (string_bytes(r.title) + (string_bytes(r.description) + rest))))),
        ) == Err::<ReviewView, FaultView>(FaultView::TrailingBytes),
{
    let input5 = string_bytes(r.description) + rest;
    let input4 = string_bytes(r.title) + input5;
    let input3 = seq![r.rating] + input4;
    let input2 = r.reviewer + input3;
    let input1 = bool_bytes(r.is_initialized) + input2;
    lemma_string_front_of_bytes(r.discriminator, input1);
    lemma_bool_front_of_bytes(r.is_initialized, input2);
    lemma_key_front_of_bytes(r.reviewer, input3);
    lemma_u8_front_of_bytes(r.rating, input4);
    lemma_string_front_of_bytes(r.title, input5);
    lemma_string_front_of_bytes(r.description, rest);
    lemma_title_fault(string_bytes(r.discriminator) + input1, input1, input2, input3, input4, r);
}

/// A review is refused for the first of its fields that cannot be read, with the fault
/// of that field, and for what follows the last.
pub proof fn law_review_faults(r: ReviewView, rest: Seq<u8>)
    requires
        string_fits(r.discriminator),
        string_fits(r.title),
        string_fits(r.description),
        r.reviewer.len() == 32,
    ensures
        string_front(rest) matches Err(fault) ==> decode_review(rest) == Err::<
            ReviewView,
            FaultView,
        >(fault),
        bool_front(rest) matches Err(fault) ==> decode_review(string_bytes(r.discriminator) + rest)
            == Err::<ReviewView, FaultView>(fault),
        key_front(rest) matches Err(fault) ==> decode_review(
            string_bytes(r.discriminator) + (bool_bytes(r.is_initialized) + rest),
        ) == Err::<ReviewView, FaultView>(fault),
        u8_front(rest) matches Err(fault) ==> decode_review(
            string_bytes(r.discriminator) + (bool_bytes(r.is_initialized) + (r.reviewer + rest)),
        ) == Err::<ReviewView, FaultView>(fault),
        string_front(rest) matches Err(fault) ==> decode_review(
            string_bytes(r.discriminator) + (bool_bytes(r.is_initialized) + (r.reviewer + (
            seq![r.rating] + rest))),
        ) == Err::<ReviewView, FaultView>(fault),
        string_front(rest) matches Err(fault) ==> decode_review(
            string_bytes(r.discriminator) + (bool_bytes(r.is_initialized) + (r.reviewer + (
            seq![r.rating] + (string_bytes(r.title) + rest)))),
        ) == Err::<ReviewView, FaultView>(fault),
        rest.len() > 0 ==> decode_review(
            string_bytes(r.discriminator) + (bool_bytes(r.is_initialized) + (r.reviewer + (
            seq![r.rating] + (string_bytes(r.title) + (string_bytes(r.description) + rest))))),
        ) == Err::<ReviewView, FaultView>(FaultView::TrailingBytes),
{
    lemma_string_front_of_bytes(r.discriminator, rest);
    lemma_review_stops_at_author(r, rest);
    lemma_review_stops_at_rating(r, rest);
    lemma_review_stops_at_title(r, rest);
    lemma_review_stops_at_description(r, rest);
    lemma_review_goes_on(r, rest);
}

/// A counter is refused for the first of its fields that cannot be read, with the fault
/// of that field, and for what follows the last.
pub proof fn law_counter_faults(r: CounterView, rest: Seq<u8>)
    requires
        string_fits(r.discriminator),
    ensures
        string_front(rest) matches Err(fault) ==> decode_counter(rest) == Err::<
            CounterView,
            FaultView,
        >(fault),
        bool_front(rest) matches Err(fault) ==> decode_counter(
            string_bytes(r.discriminator) + rest,
        ) == Err::<CounterView, FaultView>(fault),
        u64_front(rest) matches Err(fault) ==> decode_counter(
            string_bytes(r.discriminator) + (bool_bytes(r.is_initialized) + rest),
        ) == Err::<CounterView, FaultView>(fault),
        rest.len() > 0 ==> decode_counter(
            string_bytes(r.discriminator) + (bool_bytes(r.is_initialized) + (le_bytes(
                r.counter as nat,
                8,
            ) + rest)),
        ) == Err::<CounterView, FaultView>(FaultView::TrailingBytes),
{
    lemma_string_front_of_bytes(r.discriminator, rest);
    lemma_string_front_of_bytes(r.discriminator, bool_bytes(r.is_initialized) + rest);
    lemma_bool_front_of_bytes(r.is_initialized, rest);
    let b2 = le_bytes(r.counter as nat, 8) + rest;
    lemma_string_front_of_bytes(r.discriminator, bool_bytes(r.is_initialized) + b2);
    lemma_bool_front_of_bytes(r.is_initialized, b2);
    lemma_u64_front_of_bytes(r.counter, rest);
}

proof fn lemma_comment_stops_at_review(r: CommentView, rest: Seq<u8>)
    requires
        string_fits(r.discriminator),
    ensures
        key_front(rest) matches Err(fault) ==> decode_comment(
            string_bytes(r.discriminator) + (bool_bytes(r.is_initialized) + rest),
        ) == Err::<CommentView, FaultView>(fault),
{
    lemma_string_front_of_bytes(r.discriminator, bool_bytes(r.is_initialized) + rest);
    lemma_bool_front_of_bytes(r.is_initialized, rest);
}

proof fn lemma_comment_stops_at_commenter(r: CommentView, rest: Seq<u8>)
    requires
        string_fits(r.discriminator),
        r.review.len() == 32,
    ensures
        key_front(rest) matches Err(fault) ==> decode_comment(
            string_bytes(r.discriminator) + (bool_bytes(r.is_initialized) + (r.review + rest)),
        ) == Err::<CommentView, FaultView>(fault),
{
    let input2 = r.review + rest;
    lemma_string_front_of_bytes(r.discriminator, bool_bytes(r.is_initialized) + input2);
    lemma_bool_front_of_bytes(r.is_initialized, input2);
    lemma_key_front_of_bytes(r.review, rest);
}

/// A comment of which the mark, the flag and the two keys are read is refused for its
/// text, or for what follows it.
proof fn lemma_text_fault(
    input: Seq<u8>,
    input1: Seq<u8>,
    input2: Seq<u8>,
    input3: Seq<u8>,
    input4: Seq<u8>,
    r: CommentView,
)
    requires
        string_front(input) == Ok::<(Seq<char>, Seq<u8>), FaultView>((r.discriminator, input1)),
        bool_front(input1) == Ok::<(bool, Seq<u8>), FaultView>((r.is_initialized, input2)),
        key_front(input2) == Ok::<(Seq<u8>, Seq<u8>), FaultView>((r.review, input3)),
        key_front(input3) == Ok::<(Seq<u8>, Seq<u8>), FaultView>((r.commenter, input4)),
    ensures
        string_front(input4) matches Err(fault) ==> decode_comment(input) == Err::<
            CommentView,
            FaultView,
        >(fault),
        string_front(input4) matches Ok((text, rest)) ==> rest.len() > 0 ==> decode_comment(input)
            == Err::<CommentView, FaultView>(FaultView::TrailingBytes),
{
}

proof fn lemma_comment_stops_at_text(r: CommentView, rest: Seq<u8>)
    requires
        string_fits(r.discriminator),
        r.review.len() == 32,
        r.commenter.len() == 32,
    ensures
        string_front(rest) matches Err(fault) ==> decode_comment(
            string_bytes(r.discriminator) + (bool_bytes(r.is_initialized) + (r.review + (
            r.commenter + rest))),
        ) == Err::<CommentView, FaultView>(fault),
{
    let input3 = r.commenter + rest;
    let input2 = r.review + input3;
    let input1 = bool_bytes(r.is_initialized) + input2;
    lemma_string_front_of_bytes(r.discriminator, input1);
    lemma_bool_front_of_bytes(r.is_initialized, input2);
    lemma_key_front_of_bytes(r.review, input3);
    lemma_key_front_of_bytes(r.commenter, rest);
    lemma_text_fault(string_bytes(r.discriminator) + input1, input1, input2, input3, rest, r);
}

proof fn lemma_comment_goes_on(r: CommentView, rest: Seq<u8>)
    requires
        string_fits(r.discriminator),
        string_fits(r.comment),
        r.review.len() == 32,
        r.commenter.len() == 32,
    ensures
        rest.len() > 0 ==> decode_comment(
            string_bytes(r.discriminator) + (bool_bytes(r.is_initialized) + (r.review + (
            r.commenter + (string_bytes(r.comment) + rest)))),
        ) == Err::<CommentView, FaultView>(FaultView::TrailingBytes),
{
    let input4 = string_bytes(r.comment) + rest;
    let input3 = r.commenter + input4;
    let input2 = r.review + input3;
    let input1 = bool_bytes(r.is_initialized) + input2;
    lemma_string_front_of_bytes(r.discriminator, input1);
    lemma_bool_front_of_bytes(r.is_initialized, input2);
    lemma_key_front_of_bytes(r.review, input3);
    lemma_key_front_of_bytes(r.commenter, input4);
    lemma_string_front_of_bytes(r.comment, rest);
    lemma_text_fault(string_bytes(r.discriminator) + input1, input1, input2, input3, input4, r);
}

/// A comment is refused for the first of its fields that cannot be read, with the fault
/// of that field, and for what follows the last.
pub proof fn law_comment_faults(r: CommentView, rest: Seq<u8>)
    requires
        string_fits(r.discriminator),
        string_fits(r.comment),
        r.review.len() == 32,
        r.commenter.len() == 32,
    ensures
        string_front(rest) matches Err(fault) ==> decode_comment(rest) == Err::<
            CommentView,
            FaultView,
        >(fault),
        bool_front(rest) matches Err(fault) ==> decode_comment(
            string_bytes(r.discriminator) + rest,
        ) == Err::<CommentView, FaultView>(fault),
        key_front(rest) matches Err(fault) ==> decode_comment(
            string_bytes(r.discriminator) + (bool_bytes(r.is_initialized) + rest),
        ) == Err::<CommentView, FaultView>(fault),
        key_front(rest) matches Err(fault) ==> decode_comment(
            string_bytes(r.discriminator) + (bool_bytes(r.is_initialized) + (r.review + rest)),
        ) == Err::<CommentView, FaultView>(fault),
        string_front(rest) matches Err(fault) ==> decode_comment(
            string_bytes(r.discriminator) + (bool_bytes(r.is_initialized) + (r.review + (
            r.commenter + rest))),
        ) == Err::<CommentView, FaultView>(fault),
        rest.len() > 0 ==> decode_comment(
            string_bytes(r.discriminator) + (bool_bytes(r.is_initialized) + (r.review + (
            r.commenter + (string_bytes(r.comment) + rest)))),
        ) == Err::<CommentView, FaultView>(FaultView::TrailingBytes),
{
    lemma_string_front_of_bytes(r.discriminator, rest);
    lemma_comment_stops_at_review(r, rest);
    lemma_comment_stops_at_commenter(r, rest);
    lemma_comment_stops_at_text(r, rest);
    lemma_comment_goes_on(r, rest);
}

/// The words of a review are read as they were said, and refused for the first of them
/// that cannot be read, with the fault of that one, and for what follows the last.
pub proof fn law_words_are_read(p: PayloadView, rest: Seq<u8>)
    requires
        string_fits(p.title),
        string_fits(p.description),
    ensures
        whole(payload_front(string_bytes(p.title) + (seq![p.rating] + string_bytes(p.description))))
            == Ok::<PayloadView, FaultView>(p),
        string_front(rest) matches Err(fault) ==> whole(payload_front(rest)) == Err::<
            PayloadView,
            FaultView,
        >(fault),
        u8_front(rest) matches Err(fault) ==> whole(payload_front(string_bytes(p.title) + rest))
            == Err::<PayloadView, FaultView>(fault),
        string_front(rest) matches Err(fault) ==> whole(
            payload_front(string_bytes(p.title) + (seq![p.rating] + rest)),
        ) == Err::<PayloadView, FaultView>(fault),
        rest.len() > 0 ==> whole(
            payload_front(
                string_bytes(p.title) + (seq![p.rating] + (string_bytes(p.description) + rest)),
            ),
        ) == Err::<PayloadView, FaultView>(FaultView::TrailingBytes),
{
    let last = string_bytes(p.description);
    lemma_string_front_of_bytes(p.title, seq![p.rating] + last);
    lemma_u8_front_of_bytes(p.rating, last);
    lemma_string_front_of_bytes(p.description, Seq::empty());
    assert(last + Seq::<u8>::empty() =~= last);
    lemma_string_front_of_bytes(p.title, rest);
    lemma_string_front_of_bytes(p.title, seq![p.rating] + rest);
    lemma_u8_front_of_bytes(p.rating, rest);
    lemma_string_front_of_bytes(p.title, seq![p.rating] + (last + rest));
    lemma_u8_front_of_bytes(p.rating, last + rest);
    lemma_string_front_of_bytes(p.description, rest);
}

// Requests.

/// A request in bytes is begun as the request that it says, with all the accounts that
/// are given: behind the byte 0 stand the words of a new review, behind the byte 1 those
/// of a changed one, and any other byte is refused.
pub proof fn law_request_in_bytes(
    program_id: Pubkey,
    accounts: Seq<Account>,
    tag: u8,
    title: Seq<char>,
    rating: u8,
    description: Seq<char>,
)
    requires
        string_fits(title),
        string_fits(description),
    ensures
        ({
            let input = seq![tag] + (string_bytes(title) + seq![rating] + string_bytes(
                description,
            ));
            processed(program_id, accounts, input) == (if tag == 0 {
                begun(
                    program_id,
                    accounts,
                    RequestView::AddMovieReview { title, rating, description },
                )
            } else if tag == 1 {
                begun(
                    program_id,
                    accounts,
                    RequestView::UpdateMovieReview { title, rating, description },
                )
            } else {
                StepView::Done(Err(ErrorView::InvalidInstructionData))
            })
        }),
{
    let p = PayloadView { title, rating, description };
    law_request_reads_back(tag, p);
    assert(payload_bytes(p) =~= string_bytes(title) + seq![rating] + string_bytes(description));
}

/// A change in bytes, with the two accounts that it names, the review the program's and
/// its author signing, has the review asked for, whatever its words.
pub proof fn law_update_in_bytes_wants_two_accounts(
    program_id: Pubkey,
    accounts: Seq<Account>,
    title: Seq<char>,
    rating: u8,
    description: Seq<char>,
)
    requires
        string_fits(title),
        string_fits(description),
        accounts.len() >= 2,
        accounts[1].owner == program_id,
        accounts[0].is_signer,
    ensures
        ({
            let input = seq![1u8] + (string_bytes(title) + seq![rating] + string_bytes(
                description,
            ));
            let step = processed(program_id, accounts, input);
            &&& step matches StepView::Ask(ActionView::Read { account }, flow) && account == 1
                && flow.program_id == program_id && flow.accounts == accounts
            &&& step->Ask_1.stage matches StageView::UpdateRead { words } && words.title == title
                && words.rating == rating && words.description == description
        }),
{
    law_request_in_bytes(program_id, accounts, 1, title, rating, description);
}

/// Bytes that make no request are refused, whatever the accounts.
pub proof fn law_no_request_in_bytes(program_id: Pubkey, accounts: Seq<Account>, input: Seq<u8>)
    requires
        !exists|title: Seq<char>, rating: u8, description: Seq<char>|
            #![trigger string_bytes(title), string_bytes(description), seq![rating]]
            string_fits(title) && string_fits(description) && (input == seq![0u8] + (string_bytes(
                title,
            ) + seq![rating] + string_bytes(description)) || input == seq![1u8] + (string_bytes(
                title,
            ) + seq![rating] + string_bytes(description))),
    ensures
        request_of(input) == Err::<RequestView, ErrorView>(ErrorView::InvalidInstructionData),
        processed(program_id, accounts, input) == StepView::Done(
            Err(ErrorView::InvalidInstructionData),
        ),
{
    if request_of(input) is Ok {
        law_request_has_one_form(input);
        lemma_words_fit(input);
        let p = whole(payload_front(input.skip(1)))->Ok_0;
        assert(payload_bytes(p) =~= string_bytes(p.title) + seq![p.rating] + string_bytes(
            p.description,
        ));
    }
}

proof fn lemma_words_fit(input: Seq<u8>)
    requires
        request_of(input) is Ok,
    ensures
        string_fits(whole(payload_front(input.skip(1)))->Ok_0.title),
        string_fits(whole(payload_front(input.skip(1)))->Ok_0.description),
{
    let words = input.skip(1);
    crate::codec::lemma_string_bytes_of_front(words);
    crate::codec::lemma_string_bytes_of_front(u8_front(string_front(words)->Ok_0.1)->Ok_0.1);
}

/// A request comes to the same whether it is made in one or by its own name.
pub proof fn law_requests_by_name(
    program_id: Pubkey,
    accounts: Seq<Account>,
    title: Seq<char>,
    rating: u8,
    description: Seq<char>,
    comment: Seq<char>,
)
    ensures
        begun(program_id, accounts, RequestView::AddMovieReview { title, rating, description })
            == review_begun(program_id, accounts, PayloadView { title, rating, description }),
        begun(program_id, accounts, RequestView::UpdateMovieReview { title, rating, description })
            == update_begun(program_id, accounts, PayloadView { title, rating, description }),
        begun(program_id, accounts, RequestView::AddComment { comment }) == comment_begun(
            program_id,
            accounts,
            comment,
        ),
        begun(program_id, accounts, RequestView::InitializeMint) == mint_begun(
            program_id,
            accounts,
        ),
{
}

// When a request can be begun and gone on with.

/// A request can be begun unless it is a new review, signed and with its accounts, that
/// has no address, or the token mint, with its accounts, and it or its authority has
/// none.
pub proof fn law_when_a_request_can_begin(
    program_id: Pubkey,
    accounts: Seq<Account>,
    request: RequestView,
)
    ensures
        begin_derivable(program_id, accounts, request) <==> !{
            ||| request is AddMovieReview && accounts.len() >= 7 && accounts[0].is_signer
                && program_address(
                seq![accounts[0].key@, encode_utf8(request->AddMovieReview_title)],
                program_id@,
            ) is None
            ||| request is InitializeMint && accounts.len() >= 6 && (program_address(
                seq![encode_utf8("token_mint"@)],
                program_id@,
            ) is None || program_address(seq![encode_utf8("token_auth"@)], program_id@) is None)
        },
{
}

/// Whether a payment to the first account lacks an address: the mint, its authority, or,
/// where these two are the accounts that are named, the token account.
pub open spec fn lacks_address(
    program_id: Pubkey,
    accounts: Seq<Account>,
    mint: int,
    authority: int,
) -> bool {
    let own_mint = program_address(seq![encode_utf8("token_mint"@)], program_id@);
    let own_authority = program_address(seq![encode_utf8("token_auth"@)], program_id@);
    ||| own_mint is None
    ||| own_authority is None
    ||| own_mint.unwrap().0 == accounts[mint].key@ && own_authority.unwrap().0
        == accounts[authority].key@ && program_address(
        seq![accounts[0].key@, token_program_key(), accounts[mint].key@],
        associated_token_program_key(),
    ) is None
}

/// The program can go on with an answer unless the address of the counter, of the stored
/// review, of the comment or of the payment is wanting, or the counter is full.
pub proof fn law_when_a_request_can_go_on(flow: FlowView, event: EventView)
    requires
        event.answers(flow.stage.awaits()),
    ensures
        next_derivable(flow, event) <==> match (flow.stage, event) {
            (StageView::CounterRent { review }, EventView::Rent(_)) => program_address(
                seq![review@, encode_utf8("comment"@)],
                flow.program_id@,
            ) is Some,
            (StageView::CounterWrite { fault: None }, _) => !lacks_address(
                flow.program_id,
                flow.accounts,
                2,
                3,
            ),
            (StageView::UpdateRead { .. }, EventView::Data(data)) => decode_review(
                data,
            ) matches Ok(found) ==> program_address(
                seq![flow.accounts[0].key@, encode_utf8(found.title)],
                flow.program_id@,
            ) is Some,
            (StageView::CommentRent { counter, .. }, EventView::Rent(_)) => program_address(
                seq![flow.accounts[1].key@, le_bytes(counter.counter as nat, 8).reverse()],
                flow.program_id@,
            ) is Some,
            (StageView::CommentWrite { counter, fault: None }, _) => counter.counter < u64::MAX,
            (StageView::CountWrite { fault: None }, _) => !lacks_address(
                flow.program_id,
                flow.accounts,
                4,
                5,
            ),
            (_, _) => true,
        },
{
    if flow.stage is CommentRent {
        law_highest_byte_first(flow.stage->CommentRent_counter.counter as nat, 8);
    }
}

/// The host may answer each question in full: any rent, any data, and, where the rent
/// or an instruction was asked for, any error.
pub proof fn law_every_answer_is_taken(step: StepView, n: u64, data: Seq<u8>)
    requires
        step is Ask,
        step.wf(),
    ensures
        ({
            let awaited = step->Ask_1.stage.awaits();
            match step->Ask_0 {
                ActionView::Rent { .. } => EventView::Rent(n).answers(awaited)
                    && EventView::Failed(n).answers(awaited),
                ActionView::Invoke { .. } => EventView::Invoked.answers(awaited)
                    && EventView::Failed(n).answers(awaited),
                ActionView::Read { .. } => EventView::Data(data).answers(awaited),
                ActionView::Write { .. } => EventView::Written.answers(awaited),
            }
        }),
{
}

// What values stand for.

/// The program's own errors have the numbers zero to four.
pub proof fn law_error_numbers()
    ensures
        ReviewError::UninitializedAccount.spec_code() == 0,
        ReviewError::InvalidPDA.spec_code() == 1,
        ReviewError::InvalidDataLength.spec_code() == 2,
        ReviewError::InvalidRating.spec_code() == 3,
        ReviewError::IncorrectAccountError.spec_code() == 4,
{
}

/// An address that is found is the derived one, with its bump seed, and there is none
/// only where none is derived.
pub proof fn law_found_is_derived(r: Option<(Pubkey, u8)>, derived: Option<(Seq<u8>, u8)>)
    ensures
        holds(r, derived) <==> (r is Some <==> derived is Some) && (r is Some ==> r.unwrap().0@
            == derived.unwrap().0 && r.unwrap().1 == derived.unwrap().1),
{
}

/// A record stands for its fields as they are.
pub proof fn law_records_stand_for_their_fields(
    review: MovieAccountState,
    counter: MovieCommentCounter,
    comment: MovieComment,
    words: MovieReviewPayload,
)
    ensures
        review@.discriminator == review.discriminator@,
        review@.is_initialized == review.is_initialized,
        review@.reviewer == review.reviewer.bytes@,
        review@.rating == review.rating,
        review@.title == review.title@,
        review@.description == review.description@,
        counter@.discriminator == counter.discriminator@,
        counter@.is_initialized == counter.is_initialized,
        counter@.counter == counter.counter,
        comment@.discriminator == comment.discriminator@,
        comment@.is_initialized == comment.is_initialized,
        comment@.review == comment.review.bytes@,
        comment@.commenter == comment.commenter.bytes@,
        comment@.comment == comment.comment@,
        words@.title == words.title@,
        words@.rating == words.rating,
        words@.description == words.description@,
{
}

/// A request stands for its words as they are.
pub proof fn law_request_stands_for_its_words(request: MovieInstruction)
    ensures
        match request {
            MovieInstruction::AddMovieReview { title, rating, description } => request@
                matches RequestView::AddMovieReview { title: t, rating: r, description: d } && t
                == title@ && r == rating && d == description@,
            MovieInstruction::UpdateMovieReview { title, rating, description } => request@
                matches RequestView::UpdateMovieReview { title: t, rating: r, description: d } && t
                == title@ && r == rating && d == description@,
            MovieInstruction::AddComment { comment } => request@ matches RequestView::AddComment {
                comment: c,
            } && c == comment@,
            MovieInstruction::InitializeMint => request@ is InitializeMint,
        },
{
}

/// What is asked of the host, and what it answers, stand for what they hold.
pub proof fn law_questions_and_answers_stand_for_what_they_hold(action: Action, event: Event)
    ensures
        match action {
            Action::Rent { space } => action@ == (ActionView::Rent { space }),
            Action::Invoke { instruction, accounts, seeds } => action@ matches ActionView::Invoke {
                instruction: i,
                accounts: a,
                seeds: s,
            } && i == instruction@ && a == accounts@ && s.len() == seeds@.len() && forall|j: int|
                0 <= j < s.len() ==> #[trigger] s[j] == seeds@[j]@,
            Action::Read { account } => action@ == (ActionView::Read { account }),
            Action::Write { account, data } => action@ matches ActionView::Write {
                account: a,
                data: d,
            } && a == account && d == data@,
        },
        match event {
            Event::Rent(lamports) => event@ == EventView::Rent(lamports),
            Event::Invoked => event@ is Invoked,
            Event::Data(data) => event@ == EventView::Data(data@),
            Event::Written => event@ is Written,
            Event::Failed(code) => event@ == EventView::Failed(code),
        },
{
}

/// An instruction stands for its program, its accounts in order, and its data.
pub proof fn law_instruction_stands_for_what_it_holds(i: Instruction)
    ensures
        i@.program_id == i.program_id.bytes@,
        i@.data == i.data@,
        i@.accounts.len() == i.accounts@.len(),
        forall|j: int|
            0 <= j < i.accounts@.len() ==> (#[trigger] i@.accounts[j]).key
                == i.accounts@[j].pubkey.bytes@ && i@.accounts[j].is_signer
                == i.accounts@[j].is_signer && i@.accounts[j].is_writable
                == i.accounts@[j].is_writable,
{
}

/// A step stands for its result, or for what is asked and the accounts and program it is
/// asked for.
pub proof fn law_step_stands_for_what_it_holds(step: Step)
    ensures
        match step {
            Step::Done(Ok(())) => step@ == StepView::Done(Ok(())),
            Step::Done(Err(error)) => step@ == StepView::Done(Err(error@)),
            Step::Ask(action, flow) => step@ matches StepView::Ask(a, f) && a == action@
                && f.program_id == flow.program_id && f.accounts == flow.accounts@ && f.stage
                == flow.stage@,
        },
{
}

/// An error stands for itself, with the words that it holds.
pub proof fn law_error_stands_for_itself(error: ProgramError, fault: IoFault)
    ensures
        match error {
            ProgramError::Custom(code) => error@ == ErrorView::Custom(code),
            ProgramError::InvalidArgument => error@ is InvalidArgument,
            ProgramError::InvalidInstructionData => error@ is InvalidInstructionData,
            ProgramError::MissingRequiredSignature => error@ is MissingRequiredSignature,
            ProgramError::AccountAlreadyInitialized => error@ is AccountAlreadyInitialized,
            ProgramError::NotEnoughAccountKeys => error@ is NotEnoughAccountKeys,
            ProgramError::BorshIoError(fault) => error@ == ErrorView::BorshIoError(fault@),
            ProgramError::IllegalOwner => error@ is IllegalOwner,
            ProgramError::Runtime(code) => error@ == ErrorView::Runtime(code),
        },
        match fault {
            IoFault::Unreadable(words) => fault@ == FaultView::Unreadable(words@),
            IoFault::TrailingBytes => fault@ is TrailingBytes,
            IoFault::TooLong => fault@ is TooLong,
            IoFault::NoRoom => fault@ is NoRoom,
        },
        fault_view(Some(fault)) == Some(fault@),
        fault_view(None) is None,
{
}

} // verus!
