use movie_review::error::{IoFault, ProgramError, ReviewError};
use movie_review::instruction::{MovieInstruction, MovieReviewPayload};

fn payload(title: &str, rating: u8, description: &str) -> Vec<u8> {
    borsh::to_vec(&(title.to_string(), rating, description.to_string())).unwrap()
}

fn request(tag: u8, title: &str, rating: u8, description: &str) -> Vec<u8> {
    let mut bytes = vec![tag];
    bytes.extend_from_slice(&payload(title, rating, description));
    bytes
}

fn short() -> IoFault {
    IoFault::Unreadable("Unexpected length of input".to_string())
}

const REFUSED: Result<MovieInstruction, ProgramError> = Err(ProgramError::InvalidInstructionData);

#[test]
fn an_empty_request_is_refused() {
    assert_eq!(MovieInstruction::unpack(&[]), REFUSED);
}

#[test]
fn a_request_to_add_a_review_is_read() {
    let bytes = [
        0, 4, 0, 0, 0, b'H', b'e', b'a', b't', 5, 3, 0, 0, 0, b'b', b'i', b'g',
    ];
    assert_eq!(
        MovieInstruction::unpack(&bytes),
        Ok(MovieInstruction::AddMovieReview {
            title: "Heat".to_string(),
            rating: 5,
            description: "big".to_string(),
        })
    );
}

#[test]
fn a_request_to_change_a_review_is_read() {
    assert_eq!(
        MovieInstruction::unpack(&request(1, "Amélie", 4, "sweet")),
        Ok(MovieInstruction::UpdateMovieReview {
            title: "Amélie".to_string(),
            rating: 4,
            description: "sweet".to_string(),
        })
    );
}

#[test]
fn an_unknown_request_is_refused() {
    for tag in 2..=255u8 {
        assert_eq!(MovieInstruction::unpack(&request(tag, "Heat", 5, "big")), REFUSED);
    }
}

#[test]
fn a_request_without_words_is_refused() {
    assert_eq!(MovieInstruction::unpack(&[0]), REFUSED);
    assert_eq!(MovieInstruction::unpack(&[3]), REFUSED);
}

#[test]
fn a_request_cut_short_is_refused() {
    let bytes = request(0, "Heat", 5, "big");
    for length in 0..bytes.len() {
        assert_eq!(MovieInstruction::unpack(&bytes[..length]), REFUSED);
    }
}

#[test]
fn a_request_with_more_bytes_is_refused() {
    let mut bytes = request(0, "Heat", 5, "big");
    bytes.push(0);
    assert_eq!(MovieInstruction::unpack(&bytes), REFUSED);
}

#[test]
fn a_request_that_is_not_utf8_is_refused() {
    assert_eq!(MovieInstruction::unpack(&[0, 1, 0, 0, 0, 0xff, 5, 0, 0, 0, 0]), REFUSED);
}

#[test]
fn a_rating_is_read_as_it_is() {
    assert_eq!(
        MovieInstruction::unpack(&request(0, "", 200, "")),
        Ok(MovieInstruction::AddMovieReview {
            title: String::new(),
            rating: 200,
            description: String::new(),
        })
    );
}

#[test]
fn words_are_read_with_their_faults() {
    assert_eq!(
        MovieReviewPayload::try_from_slice(&payload("Heat", 5, "big")),
        Ok(MovieReviewPayload {
            title: "Heat".to_string(),
            rating: 5,
            description: "big".to_string(),
        })
    );
    assert_eq!(MovieReviewPayload::try_from_slice(&[9]), Err(short()));
    assert_eq!(
        MovieReviewPayload::try_from_slice(&[1, 0, 0, 0, 0x80, 5, 0, 0, 0, 0]),
        Err(IoFault::Unreadable(
            "invalid utf-8 sequence of 1 bytes from index 0".to_string()
        ))
    );
    let mut longer = payload("Heat", 5, "big");
    longer.push(7);
    assert_eq!(MovieReviewPayload::try_from_slice(&longer), Err(IoFault::TrailingBytes));
}

#[test]
fn errors_of_the_program_have_their_numbers() {
    let errors = [
        ReviewError::UninitializedAccount,
        ReviewError::InvalidPDA,
        ReviewError::InvalidDataLength,
        ReviewError::InvalidRating,
        ReviewError::IncorrectAccountError,
    ];
    for (number, error) in errors.iter().enumerate() {
        assert_eq!(error.code(), number as u32);
        assert_eq!(ProgramError::from(*error), ProgramError::Custom(number as u32));
    }
}
