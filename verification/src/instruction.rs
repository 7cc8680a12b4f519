//! What a request asks of the program.

use vstd::prelude::*;
use crate::codec::{
    lemma_string_bytes_of_front, lemma_string_front_of_bytes, lemma_u8_front_of_bytes, read_string,
    read_u8, string_bytes, string_fits, string_front, u8_front,
};
use crate::error::{ErrorView, FaultView, IoFault, ProgramError};
use crate::state::whole;

verus! {

/// A request.
#[derive(Debug, PartialEq, Eq)]
pub enum MovieInstruction {
    AddMovieReview { title: String, rating: u8, description: String },
    UpdateMovieReview { title: String, rating: u8, description: String },
    AddComment { comment: String },
    InitializeMint,
}

/// What [`MovieInstruction`] stands for.
pub enum RequestView {
    AddMovieReview { title: Seq<char>, rating: u8, description: Seq<char> },
    UpdateMovieReview { title: Seq<char>, rating: u8, description: Seq<char> },
    AddComment { comment: Seq<char> },
    InitializeMint,
}

impl View for MovieInstruction {
    type V = RequestView;

    open spec fn view(&self) -> RequestView {
        match self {
            MovieInstruction::AddMovieReview { title, rating, description } =>
                RequestView::AddMovieReview {
                    title: title@,
                    rating: *rating,
                    description: description@,
                },
            MovieInstruction::UpdateMovieReview { title, rating, description } =>
                RequestView::UpdateMovieReview {
                    title: title@,
                    rating: *rating,
                    description: description@,
                },
            MovieInstruction::AddComment { comment } => RequestView::AddComment {
                comment: comment@,
            },
            MovieInstruction::InitializeMint => RequestView::InitializeMint,
        }
    }
}

/// The words of a review: a title, a rating and a description.
#[derive(Debug, PartialEq, Eq)]
pub struct MovieReviewPayload {
    pub title: String,
    pub rating: u8,
    pub description: String,
}

/// What [`MovieReviewPayload`] stands for.
pub struct PayloadView {
    pub title: Seq<char>,
    pub rating: u8,
    pub description: Seq<char>,
}

impl View for MovieReviewPayload {
    type V = PayloadView;

    open spec fn view(&self) -> PayloadView {
        PayloadView {
            title: self.title@,
            rating: self.rating,
            description: self.description@,
        }
    }
}

/// The words of a review at the front of `input`, and what follows them.
pub open spec fn payload_front(input: Seq<u8>) -> Result<(PayloadView, Seq<u8>), FaultView> {
    match string_front(input) {
        Err(fault) => Err(fault),
        Ok((title, input1)) => match u8_front(input1) {
            Err(fault) => Err(fault),
            Ok((rating, input2)) => match string_front(input2) {
                Err(fault) => Err(fault),
                Ok((description, rest)) => Ok((PayloadView { title, rating, description }, rest)),
            },
        },
    }
}

/// The words of a review as bytes.
pub open spec fn payload_bytes(p: PayloadView) -> Seq<u8> {
    string_bytes(p.title) + seq![p.rating] + string_bytes(p.description)
}

/// The request that `input` makes: a byte that says which, 0 for a new review and
/// 1 for a changed one, then the words of the review and nothing more.
pub open spec fn request_of(input: Seq<u8>) -> Result<RequestView, ErrorView> {
    if input.len() < 1 {
        Err(ErrorView::InvalidInstructionData)
    } else {
        match whole(payload_front(input.skip(1))) {
            Err(_) => Err(ErrorView::InvalidInstructionData),
            Ok(p) => if input[0] == 0 {
                Ok(
                    RequestView::AddMovieReview {
                        title: p.title,
                        rating: p.rating,
                        description: p.description,
                    },
                )
            } else if input[0] == 1 {
                Ok(
                    RequestView::UpdateMovieReview {
                        title: p.title,
                        rating: p.rating,
                        description: p.description,
                    },
                )
            } else {
                Err(ErrorView::InvalidInstructionData)
            },
        }
    }
}

impl MovieReviewPayload {
    /// Reads the words of a review that fill the input.
    pub fn try_from_slice(input: &[u8]) -> (r: Result<MovieReviewPayload, IoFault>)
        ensures
            match r {
                Ok(p) => whole(payload_front(input@)) is Ok && whole(payload_front(input@))->Ok_0
                    == p@,
                Err(fault) => whole(payload_front(input@)) is Err && whole(
                    payload_front(input@),
                )->Err_0 == fault@,
            },
    {
        let (title, input) = read_string(input)?;
        let (rating, input) = read_u8(input)?;
        let (description, input) = read_string(input)?;
        if input.len() != 0 {
            return Err(IoFault::TrailingBytes);
        }
        Ok(MovieReviewPayload { title, rating, description })
    }
}

impl MovieInstruction {
    pub const INSTRUCTION_DISCRIMINATOR_SIZE: usize = 1;

    /// Reads a request.
    pub fn unpack(input: &[u8]) -> (r: Result<MovieInstruction, ProgramError>)
        ensures
            match r {
                Ok(request) => request_of(input@) is Ok && request_of(input@)->Ok_0 == request@,
                Err(error) => request_of(input@) is Err && request_of(input@)->Err_0 == error@,
            },
    {
        if input.len() < Self::INSTRUCTION_DISCRIMINATOR_SIZE {
            return Err(ProgramError::InvalidInstructionData);
        }
        let (discriminator, rest) = input.split_at(Self::INSTRUCTION_DISCRIMINATOR_SIZE);
        assert(rest@ =~= input@.skip(1));
        assert(discriminator@[0] == input@[0]);
        let payload: MovieReviewPayload = match MovieReviewPayload::try_from_slice(rest) {
            Ok(payload) => payload,
            Err(_) => return Err(ProgramError::InvalidInstructionData),
        };
        match discriminator[0] {
            0 => Ok(
                MovieInstruction::AddMovieReview {
                    title: payload.title,
                    rating: payload.rating,
                    description: payload.description,
                },
            ),
            1 => Ok(
                MovieInstruction::UpdateMovieReview {
                    title: payload.title,
                    rating: payload.rating,
                    description: payload.description,
                },
            ),
            _ => Err(ProgramError::InvalidInstructionData),
        }
    }
}

/// A request is read as it was made: a byte 0 or 1 before the words of a review
/// asks for that review to be added or changed, and any other byte is refused.
pub proof fn law_request_reads_back(tag: u8, p: PayloadView)
    requires
        string_fits(p.title),
        string_fits(p.description),
    ensures
        request_of(seq![tag] + payload_bytes(p)) == (if tag == 0 {
            Ok::<RequestView, ErrorView>(
                RequestView::AddMovieReview {
                    title: p.title,
                    rating: p.rating,
                    description: p.description,
                },
            )
        } else if tag == 1 {
            Ok::<RequestView, ErrorView>(
                RequestView::UpdateMovieReview {
                    title: p.title,
                    rating: p.rating,
                    description: p.description,
                },
            )
        } else {
            Err::<RequestView, ErrorView>(ErrorView::InvalidInstructionData)
        }),
{
    let input = seq![tag] + payload_bytes(p);
    assert(input.skip(1) =~= payload_bytes(p));
    lemma_payload_front_of_bytes(p, Seq::empty());
    assert(payload_bytes(p) + Seq::<u8>::empty() =~= payload_bytes(p));
}

/// A request that is accepted asks for a review to be added or changed, and is
/// the bytes in which that is said, in the one form that they have.
pub proof fn law_request_has_one_form(input: Seq<u8>)
    requires
        request_of(input) is Ok,
    ensures
        match request_of(input)->Ok_0 {
            RequestView::AddMovieReview { title, rating, description } => input == seq![0u8]
                + payload_bytes(PayloadView { title, rating, description }),
            RequestView::UpdateMovieReview { title, rating, description } => input == seq![1u8]
                + payload_bytes(PayloadView { title, rating, description }),
            _ => false,
        },
{
    let words = input.skip(1);
    lemma_string_bytes_of_front(words);
    let input1 = string_front(words)->Ok_0.1;
    let input2 = u8_front(input1)->Ok_0.1;
    lemma_string_bytes_of_front(input2);
    let p = whole(payload_front(words))->Ok_0;
    assert(string_front(input2)->Ok_0.1 =~= Seq::empty());
    assert(input1 =~= seq![p.rating] + input2);
    assert(words =~= payload_bytes(p));
    assert(input =~= seq![input[0]] + words);
}

/// A request with bytes after its words is refused.
pub proof fn law_request_with_more_bytes_is_refused(tag: u8, p: PayloadView, more: Seq<u8>)
    requires
        string_fits(p.title),
        string_fits(p.description),
        more.len() > 0,
    ensures
        request_of(seq![tag] + payload_bytes(p) + more) == Err::<RequestView, ErrorView>(
            ErrorView::InvalidInstructionData,
        ),
{
    let input = seq![tag] + payload_bytes(p) + more;
    assert(input.skip(1) =~= payload_bytes(p) + more);
    lemma_payload_front_of_bytes(p, more);
}

proof fn lemma_payload_front_of_bytes(p: PayloadView, rest: Seq<u8>)
    requires
        string_fits(p.title),
        string_fits(p.description),
    ensures
        payload_front(payload_bytes(p) + rest) == Ok::<(PayloadView, Seq<u8>), FaultView>((p, rest)),
{
    let e2 = string_bytes(p.description) + rest;
    let e1 = seq![p.rating] + e2;
    lemma_string_front_of_bytes(p.title, e1);
    lemma_u8_front_of_bytes(p.rating, e2);
    lemma_string_front_of_bytes(p.description, rest);
    assert(payload_bytes(p) + rest =~= string_bytes(p.title) + e1);
}

} // verus!
