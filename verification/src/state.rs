//! The records that the program keeps in the data of its accounts.

use vstd::prelude::*;
use vstd::utf8::*;
use crate::codec::{
    bool_bytes, bool_front, borsh_write_bool, borsh_write_key, borsh_write_string, borsh_write_u64,
    borsh_write_u8, key_front, le_bytes, lemma_bool_front_of_bytes, lemma_key_front_of_bytes,
    lemma_le_bytes_len, lemma_string_bytes_of_front, lemma_string_front_of_bytes,
    lemma_u64_bytes_of_front, lemma_u64_front_of_bytes, lemma_u8_front_of_bytes, read_bool,
    read_key, read_string, read_u64, read_u8, string_bytes, string_fits, string_front, u64_front,
    u8_front,
};
use crate::error::{fault_view, FaultView, IoFault};
use crate::pubkey::Pubkey;

verus! {

/// A review of a film.
#[derive(Debug, PartialEq, Eq)]
pub struct MovieAccountState {
    pub discriminator: String,
    pub is_initialized: bool,
    pub reviewer: Pubkey,
    pub rating: u8,
    pub title: String,
    pub description: String,
}

/// What [`MovieAccountState`] stands for.
pub struct ReviewView {
    pub discriminator: Seq<char>,
    pub is_initialized: bool,
    pub reviewer: Seq<u8>,
    pub rating: u8,
    pub title: Seq<char>,
    pub description: Seq<char>,
}

impl View for MovieAccountState {
    type V = ReviewView;

    open spec fn view(&self) -> ReviewView {
        ReviewView {
            discriminator: self.discriminator@,
            is_initialized: self.is_initialized,
            reviewer: self.reviewer@,
            rating: self.rating,
            title: self.title@,
            description: self.description@,
        }
    }
}

/// The number of comments on a review.
#[derive(Debug, PartialEq, Eq)]
pub struct MovieCommentCounter {
    pub discriminator: String,
    pub is_initialized: bool,
    pub counter: u64,
}

/// What [`MovieCommentCounter`] stands for.
pub struct CounterView {
    pub discriminator: Seq<char>,
    pub is_initialized: bool,
    pub counter: u64,
}

impl View for MovieCommentCounter {
    type V = CounterView;

    open spec fn view(&self) -> CounterView {
        CounterView {
            discriminator: self.discriminator@,
            is_initialized: self.is_initialized,
            counter: self.counter,
        }
    }
}

/// A comment on a review.
#[derive(Debug, PartialEq, Eq)]
pub struct MovieComment {
    pub discriminator: String,
    pub is_initialized: bool,
    pub review: Pubkey,
    pub commenter: Pubkey,
    pub comment: String,
}

/// What [`MovieComment`] stands for.
pub struct CommentView {
    pub discriminator: Seq<char>,
    pub is_initialized: bool,
    pub review: Seq<u8>,
    pub commenter: Seq<u8>,
    pub comment: Seq<char>,
}

impl View for MovieComment {
    type V = CommentView;

    open spec fn view(&self) -> CommentView {
        CommentView {
            discriminator: self.discriminator@,
            is_initialized: self.is_initialized,
            review: self.review@,
            commenter: self.commenter@,
            comment: self.comment@,
        }
    }
}

/// A record as bytes. Where a string is too long for its length to be said,
/// `complete` is false and `bytes` is what comes before that string.
pub struct Encoded {
    pub bytes: Seq<u8>,
    pub complete: bool,
}

/// Appends a text, unless the bytes are cut short already.
pub open spec fn then_string(before: Encoded, text: Seq<char>) -> Encoded {
    if before.complete && string_fits(text) {
        Encoded { bytes: before.bytes + string_bytes(text), complete: true }
    } else {
        Encoded { bytes: before.bytes, complete: false }
    }
}

/// Appends bytes, unless the bytes are cut short already.
pub open spec fn then_bytes(before: Encoded, bytes: Seq<u8>) -> Encoded {
    if before.complete {
        Encoded { bytes: before.bytes + bytes, complete: true }
    } else {
        before
    }
}

/// No bytes yet.
pub open spec fn nothing() -> Encoded {
    Encoded { bytes: Seq::empty(), complete: true }
}

/// A review as bytes: its fields in order.
pub open spec fn encode_review(r: ReviewView) -> Encoded {
    then_string(
        then_string(
            then_bytes(
                then_bytes(
                    then_bytes(then_string(nothing(), r.discriminator), bool_bytes(r.is_initialized)),
                    r.reviewer,
                ),
                seq![r.rating],
            ),
            r.title,
        ),
        r.description,
    )
}

/// A counter as bytes: its fields in order.
pub open spec fn encode_counter(r: CounterView) -> Encoded {
    then_bytes(
        then_bytes(then_string(nothing(), r.discriminator), bool_bytes(r.is_initialized)),
        le_bytes(r.counter as nat, 8),
    )
}

/// A comment as bytes: its fields in order.
pub open spec fn encode_comment(r: CommentView) -> Encoded {
    then_string(
        then_bytes(
            then_bytes(
                then_bytes(then_string(nothing(), r.discriminator), bool_bytes(r.is_initialized)),
                r.review,
            ),
            r.commenter,
        ),
        r.comment,
    )
}

/// Bytes that were written, and whether they are the whole record.
#[derive(Debug, PartialEq, Eq)]
pub struct Buffer {
    pub bytes: Vec<u8>,
    pub complete: bool,
}

impl View for Buffer {
    type V = Encoded;

    open spec fn view(&self) -> Encoded {
        Encoded { bytes: self.bytes@, complete: self.complete }
    }
}

impl Buffer {
    fn new() -> (r: Buffer)
        ensures
            r@ == nothing(),
    {
        Buffer { bytes: Vec::new(), complete: true }
    }

    fn string(self, text: &String) -> (r: Buffer)
        ensures
            r@ == then_string(self@, text@),
    {
        let mut bytes: Vec<u8> = self.bytes;
        let mut complete: bool = self.complete;
        if complete {
            complete = borsh_write_string(&mut bytes, text);
        }
        Buffer { bytes, complete }
    }

    fn flag(self, value: bool) -> (r: Buffer)
        ensures
            r@ == then_bytes(self@, bool_bytes(value)),
    {
        let mut bytes: Vec<u8> = self.bytes;
        if self.complete {
            borsh_write_bool(&mut bytes, value);
        }
        Buffer { bytes, complete: self.complete }
    }

    fn byte(self, value: u8) -> (r: Buffer)
        ensures
            r@ == then_bytes(self@, seq![value]),
    {
        let mut bytes: Vec<u8> = self.bytes;
        if self.complete {
            borsh_write_u8(&mut bytes, value);
            assert(bytes@ =~= self.bytes@ + seq![value]);
        }
        Buffer { bytes, complete: self.complete }
    }

    fn number(self, value: u64) -> (r: Buffer)
        ensures
            r@ == then_bytes(self@, le_bytes(value as nat, 8)),
    {
        let mut bytes: Vec<u8> = self.bytes;
        if self.complete {
            borsh_write_u64(&mut bytes, value);
        }
        Buffer { bytes, complete: self.complete }
    }

    fn key(self, value: &Pubkey) -> (r: Buffer)
        ensures
            r@ == then_bytes(self@, value@),
    {
        let mut bytes: Vec<u8> = self.bytes;
        if self.complete {
            borsh_write_key(&mut bytes, &value.bytes);
        }
        Buffer { bytes, complete: self.complete }
    }
}

/// What a value that fills the whole input is: the value at its front, with
/// nothing after it.
pub open spec fn whole<T>(front: Result<(T, Seq<u8>), FaultView>) -> Result<T, FaultView> {
    match front {
        Err(fault) => Err(fault),
        Ok((value, rest)) => if rest.len() == 0 {
            Ok(value)
        } else {
            Err(FaultView::TrailingBytes)
        },
    }
}

/// The review at the front of `input`, and what follows it.
pub open spec fn review_front(input: Seq<u8>) -> Result<(ReviewView, Seq<u8>), FaultView> {
    match string_front(input) {
        Err(fault) => Err(fault),
        Ok((discriminator, input1)) => match bool_front(input1) {
            Err(fault) => Err(fault),
            Ok((is_initialized, input2)) => match key_front(input2) {
                Err(fault) => Err(fault),
                Ok((reviewer, input3)) => match u8_front(input3) {
                    Err(fault) => Err(fault),
                    Ok((rating, input4)) => match string_front(input4) {
                        Err(fault) => Err(fault),
                        Ok((title, input5)) => match string_front(input5) {
                            Err(fault) => Err(fault),
                            Ok((description, rest)) => Ok(
                                (
                                    ReviewView {
                                        discriminator,
                                        is_initialized,
                                        reviewer,
                                        rating,
                                        title,
                                        description,
                                    },
                                    rest,
                                ),
                            ),
                        },
                    },
                },
            },
        },
    }
}

/// The counter at the front of `input`, and what follows it.
pub open spec fn counter_front(input: Seq<u8>) -> Result<(CounterView, Seq<u8>), FaultView> {
    match string_front(input) {
        Err(fault) => Err(fault),
        Ok((discriminator, input1)) => match bool_front(input1) {
            Err(fault) => Err(fault),
            Ok((is_initialized, input2)) => match u64_front(input2) {
                Err(fault) => Err(fault),
                Ok((counter, rest)) => Ok(
                    (CounterView { discriminator, is_initialized, counter: counter as u64 }, rest),
                ),
            },
        },
    }
}

/// The comment at the front of `input`, and what follows it.
pub open spec fn comment_front(input: Seq<u8>) -> Result<(CommentView, Seq<u8>), FaultView> {
    match string_front(input) {
        Err(fault) => Err(fault),
        Ok((discriminator, input1)) => match bool_front(input1) {
            Err(fault) => Err(fault),
            Ok((is_initialized, input2)) => match key_front(input2) {
                Err(fault) => Err(fault),
                Ok((review, input3)) => match key_front(input3) {
                    Err(fault) => Err(fault),
                    Ok((commenter, input4)) => match string_front(input4) {
                        Err(fault) => Err(fault),
                        Ok((comment, rest)) => Ok(
                            (
                                CommentView {
                                    discriminator,
                                    is_initialized,
                                    review,
                                    commenter,
                                    comment,
                                },
                                rest,
                            ),
                        ),
                    },
                },
            },
        },
    }
}

/// The review that fills `data`.
pub open spec fn decode_review(data: Seq<u8>) -> Result<ReviewView, FaultView> {
    whole(review_front(data))
}

/// The counter that fills `data`.
pub open spec fn decode_counter(data: Seq<u8>) -> Result<CounterView, FaultView> {
    whole(counter_front(data))
}

/// The comment that fills `data`.
pub open spec fn decode_comment(data: Seq<u8>) -> Result<CommentView, FaultView> {
    whole(comment_front(data))
}

/// The bytes that a review takes.
pub open spec fn review_size(title: Seq<char>, description: Seq<char>) -> nat {
    52 + encode_utf8(title).len() + encode_utf8(description).len()
}

/// The bytes that a comment takes.
pub open spec fn comment_size(comment: Seq<char>) -> nat {
    80 + encode_utf8(comment).len()
}

impl MovieAccountState {
    pub const DISCRIMINATOR: &'static str = "review";

    /// The bytes that a review with this title and description takes.
    pub fn get_account_size(title: &String, description: &String) -> (r: usize)
        requires
            review_size(title@, description@) <= usize::MAX,
        ensures
            r == review_size(title@, description@),
    {
        let name: usize = title.as_str().as_bytes().len();
        let text: usize = description.as_str().as_bytes().len();
        52 + name + text
    }

    pub fn is_initialized(&self) -> (r: bool)
        ensures
            r == self@.is_initialized,
    {
        self.is_initialized
    }

    /// Reads the review that fills the data of an account.
    pub fn try_from_slice(data: &[u8]) -> (r: Result<MovieAccountState, IoFault>)
        ensures
            match r {
                Ok(record) => decode_review(data@) is Ok && decode_review(data@)->Ok_0 == record@,
                Err(fault) => decode_review(data@) is Err && decode_review(data@)->Err_0 == fault@,
            },
    {
        let (discriminator, data) = read_string(data)?;
        let (is_initialized, data) = read_bool(data)?;
        let (reviewer, data) = read_key(data)?;
        let (rating, data) = read_u8(data)?;
        let (title, data) = read_string(data)?;
        let (description, data) = read_string(data)?;
        if data.len() != 0 {
            return Err(IoFault::TrailingBytes);
        }
        Ok(
            MovieAccountState {
                discriminator,
                is_initialized,
                reviewer: Pubkey { bytes: reviewer },
                rating,
                title,
                description,
            },
        )
    }

    /// The review as bytes.
    pub fn serialize(&self) -> (r: Buffer)
        ensures
            r@ == encode_review(self@),
    {
        Buffer::new().string(&self.discriminator).flag(self.is_initialized).key(
            &self.reviewer,
        ).byte(self.rating).string(&self.title).string(&self.description)
    }
}

impl MovieCommentCounter {
    pub const DISCRIMINATOR: &'static str = "counter";

    /// The bytes that a counter takes.
    pub const SIZE: usize = 20;

    pub fn is_initialized(&self) -> (r: bool)
        ensures
            r == self@.is_initialized,
    {
        self.is_initialized
    }

    /// Reads the counter that fills the data of an account.
    pub fn try_from_slice(data: &[u8]) -> (r: Result<MovieCommentCounter, IoFault>)
        ensures
            match r {
                Ok(record) => decode_counter(data@) is Ok && decode_counter(data@)->Ok_0 == record@,
                Err(fault) => decode_counter(data@) is Err && decode_counter(data@)->Err_0 == fault@,
            },
    {
        let (discriminator, data) = read_string(data)?;
        let (is_initialized, data) = read_bool(data)?;
        let (counter, data) = read_u64(data)?;
        if data.len() != 0 {
            return Err(IoFault::TrailingBytes);
        }
        Ok(MovieCommentCounter { discriminator, is_initialized, counter })
    }

    /// The counter as bytes.
    pub fn serialize(&self) -> (r: Buffer)
        ensures
            r@ == encode_counter(self@),
    {
        Buffer::new().string(&self.discriminator).flag(self.is_initialized).number(self.counter)
    }
}

impl MovieComment {
    pub const DISCRIMINATOR: &'static str = "comment";

    /// The bytes that this comment takes.
    pub fn get_account_size(comment: &String) -> (r: usize)
        requires
            comment_size(comment@) <= usize::MAX,
        ensures
            r == comment_size(comment@),
    {
        let text: usize = comment.as_str().as_bytes().len();
        80 + text
    }

    pub fn is_initialized(&self) -> (r: bool)
        ensures
            r == self@.is_initialized,
    {
        self.is_initialized
    }

    /// Reads the comment that fills the data of an account.
    pub fn try_from_slice(data: &[u8]) -> (r: Result<MovieComment, IoFault>)
        ensures
            match r {
                Ok(record) => decode_comment(data@) is Ok && decode_comment(data@)->Ok_0 == record@,
                Err(fault) => decode_comment(data@) is Err && decode_comment(data@)->Err_0 == fault@,
            },
    {
        let (discriminator, data) = read_string(data)?;
        let (is_initialized, data) = read_bool(data)?;
        let (review, data) = read_key(data)?;
        let (commenter, data) = read_key(data)?;
        let (comment, data) = read_string(data)?;
        if data.len() != 0 {
            return Err(IoFault::TrailingBytes);
        }
        Ok(
            MovieComment {
                discriminator,
                is_initialized,
                review: Pubkey { bytes: review },
                commenter: Pubkey { bytes: commenter },
                comment,
            },
        )
    }

    /// The comment as bytes.
    pub fn serialize(&self) -> (r: Buffer)
        ensures
            r@ == encode_comment(self@),
    {
        Buffer::new().string(&self.discriminator).flag(self.is_initialized).key(&self.review).key(
            &self.commenter,
        ).string(&self.comment)
    }
}

/// The data of an account after bytes were written to its front: as many of them
/// as there is room for, then what stood there before.
pub open spec fn overlay(data: Seq<u8>, bytes: Seq<u8>) -> Seq<u8> {
    if bytes.len() <= data.len() {
        bytes + data.skip(bytes.len() as int)
    } else {
        bytes.take(data.len() as int)
    }
}

/// Why a record could not be written whole to an account with `room` bytes of
/// data.
pub open spec fn store_fault(room: nat, record: Encoded) -> Option<FaultView> {
    if record.bytes.len() > room {
        Some(FaultView::NoRoom)
    } else if !record.complete {
        Some(FaultView::TooLong)
    } else {
        None
    }
}

/// Writes a record to the front of the data of an account.
pub fn store(data: Vec<u8>, record: &Buffer) -> (r: (Vec<u8>, Option<IoFault>))
    ensures
        r.0@ == overlay(data@, record@.bytes),
        fault_view(r.1) == store_fault(data@.len(), record@),
{
    let ghost before = data@;
    let mut data: Vec<u8> = data;
    let room: usize = data.len();
    let mut i: usize = 0;
    while i < room && i < record.bytes.len()
        invariant
            i <= room,
            i <= record.bytes@.len(),
            room == before.len(),
            data@ == record.bytes@.take(i as int) + before.skip(i as int),
        decreases room - i,
    {
        data.set(i, record.bytes[i]);
        i = i + 1;
        assert(data@ =~= record.bytes@.take(i as int) + before.skip(i as int));
    }
    proof {
        if record.bytes@.len() <= room {
            assert(record.bytes@.take(i as int) =~= record.bytes@);
        } else {
            assert(before.skip(i as int) =~= Seq::empty());
            assert(data@ =~= record.bytes@.take(room as int));
        }
    }
    if record.bytes.len() > room {
        (data, Some(IoFault::NoRoom))
    } else if !record.complete {
        (data, Some(IoFault::TooLong))
    } else {
        (data, None)
    }
}

proof fn lemma_six_parts(
    a: Seq<u8>,
    b: Seq<u8>,
    c: Seq<u8>,
    d: Seq<u8>,
    e: Seq<u8>,
    f: Seq<u8>,
    rest: Seq<u8>,
)
    ensures
        a + (b + (c + (d + (e + (f + rest))))) == (Seq::<u8>::empty() + a + b + c + d + e + f)
            + rest,
{
    assert(a + (b + (c + (d + (e + (f + rest))))) =~= (Seq::<u8>::empty() + a + b + c + d + e + f)
        + rest);
}

/// A review is at the front of the input where its fields are, one after the
/// other.
proof fn lemma_review_front_of_fields(
    r: ReviewView,
    input: Seq<u8>,
    input1: Seq<u8>,
    input2: Seq<u8>,
    input3: Seq<u8>,
    input4: Seq<u8>,
    input5: Seq<u8>,
    rest: Seq<u8>,
)
    requires
        string_front(input) == Ok::<(Seq<char>, Seq<u8>), FaultView>((r.discriminator, input1)),
        bool_front(input1) == Ok::<(bool, Seq<u8>), FaultView>((r.is_initialized, input2)),
        key_front(input2) == Ok::<(Seq<u8>, Seq<u8>), FaultView>((r.reviewer, input3)),
        u8_front(input3) == Ok::<(u8, Seq<u8>), FaultView>((r.rating, input4)),
        string_front(input4) == Ok::<(Seq<char>, Seq<u8>), FaultView>((r.title, input5)),
        string_front(input5) == Ok::<(Seq<char>, Seq<u8>), FaultView>((r.description, rest)),
    ensures
        review_front(input) == Ok::<(ReviewView, Seq<u8>), FaultView>((r, rest)),
{
}

/// The bytes of a review, its fields one after the other.
proof fn lemma_review_bytes(r: ReviewView, rest: Seq<u8>)
    requires
        encode_review(r).complete,
    ensures
        string_fits(r.discriminator),
        string_fits(r.title),
        string_fits(r.description),
        encode_review(r).bytes + rest == string_bytes(r.discriminator) + (bool_bytes(
            r.is_initialized,
        ) + (r.reviewer + (seq![r.rating] + (string_bytes(r.title) + (string_bytes(r.description)
            + rest))))),
{
    lemma_six_parts(
        string_bytes(r.discriminator),
        bool_bytes(r.is_initialized),
        r.reviewer,
        seq![r.rating],
        string_bytes(r.title),
        string_bytes(r.description),
        rest,
    );
}

/// A review that was written whole is read back from its bytes, whatever follows
/// them.
proof fn lemma_review_front_of_bytes(r: ReviewView, rest: Seq<u8>)
    requires
        r.reviewer.len() == 32,
        encode_review(r).complete,
    ensures
        review_front(encode_review(r).bytes + rest) == Ok::<(ReviewView, Seq<u8>), FaultView>(
            (r, rest),
        ),
{
    let input5 = string_bytes(r.description) + rest;
    let input4 = string_bytes(r.title) + input5;
    let input3 = seq![r.rating] + input4;
    let input2 = r.reviewer + input3;
    let input1 = bool_bytes(r.is_initialized) + input2;
    lemma_review_bytes(r, rest);
    lemma_string_front_of_bytes(r.discriminator, input1);
    lemma_bool_front_of_bytes(r.is_initialized, input2);
    lemma_key_front_of_bytes(r.reviewer, input3);
    lemma_u8_front_of_bytes(r.rating, input4);
    lemma_string_front_of_bytes(r.title, input5);
    lemma_string_front_of_bytes(r.description, rest);
    lemma_review_front_of_fields(
        r,
        encode_review(r).bytes + rest,
        input1,
        input2,
        input3,
        input4,
        input5,
        rest,
    );
}

proof fn lemma_counter_front_of_bytes(r: CounterView, rest: Seq<u8>)
    requires
        encode_counter(r).complete,
    ensures
        counter_front(encode_counter(r).bytes + rest) == Ok::<(CounterView, Seq<u8>), FaultView>(
            (r, rest),
        ),
{
    let e2 = le_bytes(r.counter as nat, 8) + rest;
    let e1 = bool_bytes(r.is_initialized) + e2;
    lemma_string_front_of_bytes(r.discriminator, e1);
    lemma_bool_front_of_bytes(r.is_initialized, e2);
    lemma_u64_front_of_bytes(r.counter, rest);
    assert(encode_counter(r).bytes + rest =~= string_bytes(r.discriminator) + e1);
}

proof fn lemma_comment_front_of_bytes(r: CommentView, rest: Seq<u8>)
    requires
        r.review.len() == 32,
        r.commenter.len() == 32,
        encode_comment(r).complete,
    ensures
        comment_front(encode_comment(r).bytes + rest) == Ok::<(CommentView, Seq<u8>), FaultView>(
            (r, rest),
        ),
{
    let e4 = string_bytes(r.comment) + rest;
    let e3 = r.commenter + e4;
    let e2 = r.review + e3;
    let e1 = bool_bytes(r.is_initialized) + e2;
    lemma_string_front_of_bytes(r.discriminator, e1);
    lemma_bool_front_of_bytes(r.is_initialized, e2);
    lemma_key_front_of_bytes(r.review, e3);
    lemma_key_front_of_bytes(r.commenter, e4);
    lemma_string_front_of_bytes(r.comment, rest);
    assert(encode_comment(r).bytes + rest =~= string_bytes(r.discriminator) + e1);
}

/// What was written of a review is what is read of it: the bytes of a review,
/// filling the data, are read as that review.
pub proof fn law_review_reads_back(r: ReviewView)
    requires
        r.reviewer.len() == 32,
        encode_review(r).complete,
    ensures
        decode_review(encode_review(r).bytes) == Ok::<ReviewView, FaultView>(r),
{
    lemma_review_front_of_bytes(r, Seq::empty());
    assert(encode_review(r).bytes + Seq::<u8>::empty() =~= encode_review(r).bytes);
}

/// The bytes of a counter, filling the data, are read as that counter.
pub proof fn law_counter_reads_back(r: CounterView)
    requires
        encode_counter(r).complete,
    ensures
        decode_counter(encode_counter(r).bytes) == Ok::<CounterView, FaultView>(r),
{
    lemma_counter_front_of_bytes(r, Seq::empty());
    assert(encode_counter(r).bytes + Seq::<u8>::empty() =~= encode_counter(r).bytes);
}

/// The bytes of a comment, filling the data, are read as that comment.
pub proof fn law_comment_reads_back(r: CommentView)
    requires
        r.review.len() == 32,
        r.commenter.len() == 32,
        encode_comment(r).complete,
    ensures
        decode_comment(encode_comment(r).bytes) == Ok::<CommentView, FaultView>(r),
{
    lemma_comment_front_of_bytes(r, Seq::empty());
    assert(encode_comment(r).bytes + Seq::<u8>::empty() =~= encode_comment(r).bytes);
}

/// A review that was read has one form: written again it is the same bytes.
pub proof fn law_review_has_one_form(data: Seq<u8>)
    requires
        decode_review(data) is Ok,
    ensures
        encode_review(decode_review(data)->Ok_0) == (Encoded { bytes: data, complete: true }),
        decode_review(data)->Ok_0.reviewer.len() == 32,
{
    let r = decode_review(data)->Ok_0;
    lemma_string_bytes_of_front(data);
    let input1 = string_front(data)->Ok_0.1;
    let input2 = bool_front(input1)->Ok_0.1;
    let input3 = key_front(input2)->Ok_0.1;
    let input4 = u8_front(input3)->Ok_0.1;
    let input5 = string_front(input4)->Ok_0.1;
    assert(input1 =~= bool_bytes(r.is_initialized) + input2);
    assert(input2 =~= r.reviewer + input3);
    assert(input3 =~= seq![r.rating] + input4);
    lemma_string_bytes_of_front(input4);
    lemma_string_bytes_of_front(input5);
    assert(string_front(input5)->Ok_0.1 =~= Seq::empty());
    lemma_six_parts(
        string_bytes(r.discriminator),
        bool_bytes(r.is_initialized),
        r.reviewer,
        seq![r.rating],
        string_bytes(r.title),
        string_bytes(r.description),
        Seq::empty(),
    );
    assert(encode_review(r).bytes + Seq::<u8>::empty() =~= encode_review(r).bytes);
}

/// A counter that was read has one form: written again it is the same bytes.
pub proof fn law_counter_has_one_form(data: Seq<u8>)
    requires
        decode_counter(data) is Ok,
    ensures
        encode_counter(decode_counter(data)->Ok_0) == (Encoded { bytes: data, complete: true }),
{
    let r = decode_counter(data)->Ok_0;
    lemma_string_bytes_of_front(data);
    let input1 = string_front(data)->Ok_0.1;
    let input2 = bool_front(input1)->Ok_0.1;
    assert(input1 =~= bool_bytes(r.is_initialized) + input2);
    lemma_u64_bytes_of_front(input2);
    assert(u64_front(input2)->Ok_0.1 =~= Seq::empty());
    assert(encode_counter(r).bytes =~= data);
}

/// A comment that was read has one form: written again it is the same bytes.
pub proof fn law_comment_has_one_form(data: Seq<u8>)
    requires
        decode_comment(data) is Ok,
    ensures
        encode_comment(decode_comment(data)->Ok_0) == (Encoded { bytes: data, complete: true }),
        decode_comment(data)->Ok_0.review.len() == 32,
        decode_comment(data)->Ok_0.commenter.len() == 32,
{
    let r = decode_comment(data)->Ok_0;
    lemma_string_bytes_of_front(data);
    let input1 = string_front(data)->Ok_0.1;
    let input2 = bool_front(input1)->Ok_0.1;
    let input3 = key_front(input2)->Ok_0.1;
    let input4 = key_front(input3)->Ok_0.1;
    assert(input1 =~= bool_bytes(r.is_initialized) + input2);
    assert(input2 =~= r.review + input3);
    assert(input3 =~= r.commenter + input4);
    lemma_string_bytes_of_front(input4);
    assert(string_front(input4)->Ok_0.1 =~= Seq::empty());
    assert(encode_comment(r).bytes =~= data);
}

proof fn lemma_discriminator_lengths()
    ensures
        encode_utf8("review"@).len() == 6,
        encode_utf8("counter"@).len() == 7,
        encode_utf8("comment"@).len() == 7,
{
    reveal_strlit("review");
    reveal_strlit("counter");
    reveal_strlit("comment");
    is_ascii_chars_encode_utf8("review"@);
    is_ascii_chars_encode_utf8("counter"@);
    is_ascii_chars_encode_utf8("comment"@);
}

/// The size that is reckoned for a review is the number of bytes it is written
/// in.
pub proof fn law_review_size(r: ReviewView)
    requires
        r.discriminator == "review"@,
        r.reviewer.len() == 32,
        encode_review(r).complete,
    ensures
        encode_review(r).bytes.len() == review_size(r.title, r.description),
{
    lemma_discriminator_lengths();
    lemma_le_bytes_len(6, 4);
    lemma_le_bytes_len(encode_utf8(r.title).len(), 4);
    lemma_le_bytes_len(encode_utf8(r.description).len(), 4);
}

/// The size that is reckoned for a counter is the number of bytes it is written
/// in.
pub proof fn law_counter_size(r: CounterView)
    requires
        r.discriminator == "counter"@,
    ensures
        encode_counter(r).complete,
        encode_counter(r).bytes.len() == MovieCommentCounter::SIZE,
{
    lemma_discriminator_lengths();
    lemma_le_bytes_len(7, 4);
    lemma_le_bytes_len(r.counter as nat, 8);
}

/// The size that is reckoned for a comment is the number of bytes it is written
/// in.
pub proof fn law_comment_size(r: CommentView)
    requires
        r.discriminator == "comment"@,
        r.review.len() == 32,
        r.commenter.len() == 32,
        encode_comment(r).complete,
    ensures
        encode_comment(r).bytes.len() == comment_size(r.comment),
{
    lemma_discriminator_lengths();
    lemma_le_bytes_len(7, 4);
    lemma_le_bytes_len(encode_utf8(r.comment).len(), 4);
}

/// Writing a record keeps the size of an account.
pub proof fn law_store_keeps_length(data: Seq<u8>, bytes: Seq<u8>)
    ensures
        overlay(data, bytes).len() == data.len(),
{
}

/// A review is read back from an account exactly where it fills the account: an
/// account with bytes to spare is refused for its trailing bytes.
pub proof fn law_stored_review_reads_back_where_it_fills(data: Seq<u8>, r: ReviewView)
    requires
        r.reviewer.len() == 32,
        store_fault(data.len(), encode_review(r)) is None,
    ensures
        decode_review(overlay(data, encode_review(r).bytes)) == (if encode_review(r).bytes.len()
            == data.len() {
            Ok::<ReviewView, FaultView>(r)
        } else {
            Err::<ReviewView, FaultView>(FaultView::TrailingBytes)
        }),
{
    let bytes = encode_review(r).bytes;
    lemma_review_front_of_bytes(r, data.skip(bytes.len() as int));
}

/// A counter is read back from an account exactly where it fills the account.
pub proof fn law_stored_counter_reads_back_where_it_fills(data: Seq<u8>, r: CounterView)
    requires
        store_fault(data.len(), encode_counter(r)) is None,
    ensures
        decode_counter(overlay(data, encode_counter(r).bytes)) == (if encode_counter(r).bytes.len()
            == data.len() {
            Ok::<CounterView, FaultView>(r)
        } else {
            Err::<CounterView, FaultView>(FaultView::TrailingBytes)
        }),
{
    let bytes = encode_counter(r).bytes;
    lemma_counter_front_of_bytes(r, data.skip(bytes.len() as int));
}

/// A comment is read back from an account exactly where it fills the account.
pub proof fn law_stored_comment_reads_back_where_it_fills(data: Seq<u8>, r: CommentView)
    requires
        r.review.len() == 32,
        r.commenter.len() == 32,
        store_fault(data.len(), encode_comment(r)) is None,
    ensures
        decode_comment(overlay(data, encode_comment(r).bytes)) == (if encode_comment(r).bytes.len()
            == data.len() {
            Ok::<CommentView, FaultView>(r)
        } else {
            Err::<CommentView, FaultView>(FaultView::TrailingBytes)
        }),
{
    let bytes = encode_comment(r).bytes;
    lemma_comment_front_of_bytes(r, data.skip(bytes.len() as int));
}

} // verus!
