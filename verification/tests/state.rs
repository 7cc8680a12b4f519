use movie_review::codec::{read_bool, read_key, read_string, read_u64, read_u8, u64_be_bytes};
use movie_review::error::IoFault;
use movie_review::pubkey::Pubkey;
use movie_review::state::{store, Buffer, MovieAccountState, MovieComment, MovieCommentCounter};

fn short() -> IoFault {
    IoFault::Unreadable("Unexpected length of input".to_string())
}

fn not_a_flag(byte: &str) -> IoFault {
    IoFault::Unreadable(format!("Invalid bool representation: {byte}"))
}

fn key(byte: u8) -> Pubkey {
    Pubkey { bytes: [byte; 32] }
}

fn review(title: &str, description: &str) -> MovieAccountState {
    MovieAccountState {
        discriminator: "review".to_string(),
        is_initialized: true,
        reviewer: key(7),
        rating: 4,
        title: title.to_string(),
        description: description.to_string(),
    }
}

fn counter(count: u64) -> MovieCommentCounter {
    MovieCommentCounter {
        discriminator: "counter".to_string(),
        is_initialized: true,
        counter: count,
    }
}

fn comment(text: &str) -> MovieComment {
    MovieComment {
        discriminator: "comment".to_string(),
        is_initialized: true,
        review: key(1),
        commenter: key(2),
        comment: text.to_string(),
    }
}

#[test]
fn a_review_is_written_field_by_field() {
    let record = review("Heat", "Ein großer Film");
    let expected = borsh::to_vec(&(
        "review".to_string(),
        true,
        [7u8; 32],
        4u8,
        "Heat".to_string(),
        "Ein großer Film".to_string(),
    ))
    .unwrap();
    assert_eq!(record.serialize(), Buffer { bytes: expected, complete: true });
}

#[test]
fn a_counter_is_written_field_by_field() {
    let mut expected = vec![7, 0, 0, 0];
    expected.extend_from_slice(b"counter");
    expected.push(1);
    expected.extend_from_slice(&[0x08, 0x07, 0x06, 0x05, 0x04, 0x03, 0x02, 0x01]);
    assert_eq!(
        counter(0x0102_0304_0506_0708).serialize(),
        Buffer { bytes: expected, complete: true }
    );
}

#[test]
fn a_comment_is_written_field_by_field() {
    let expected = borsh::to_vec(&(
        "comment".to_string(),
        true,
        [1u8; 32],
        [2u8; 32],
        "yes".to_string(),
    ))
    .unwrap();
    assert_eq!(comment("yes").serialize(), Buffer { bytes: expected, complete: true });
}

#[test]
fn records_read_back_from_their_bytes() {
    let r = review("Amélie", "sweet");
    assert_eq!(MovieAccountState::try_from_slice(&r.serialize().bytes), Ok(r));
    let c = counter(u64::MAX);
    assert_eq!(MovieCommentCounter::try_from_slice(&c.serialize().bytes), Ok(c));
    let m = comment("日本");
    assert_eq!(MovieComment::try_from_slice(&m.serialize().bytes), Ok(m));
}

#[test]
fn records_that_were_read_have_one_form() {
    let bytes = review("Heat", "big").serialize().bytes;
    assert_eq!(MovieAccountState::try_from_slice(&bytes).unwrap().serialize().bytes, bytes);
    let bytes = counter(12).serialize().bytes;
    assert_eq!(MovieCommentCounter::try_from_slice(&bytes).unwrap().serialize().bytes, bytes);
    let bytes = comment("no").serialize().bytes;
    assert_eq!(MovieComment::try_from_slice(&bytes).unwrap().serialize().bytes, bytes);
}

#[test]
fn sizes_are_the_bytes_written() {
    for (title, description) in [("", ""), ("Heat", "big"), ("Amélie", "süß")] {
        let record = review(title, description);
        let size = MovieAccountState::get_account_size(&record.title, &record.description);
        assert_eq!(size, record.serialize().bytes.len());
    }
    assert_eq!(MovieAccountState::get_account_size(&"é".to_string(), &"x".to_string()), 55);
    let text = "gut".to_string();
    assert_eq!(MovieComment::get_account_size(&text), 83);
    assert_eq!(comment("gut").serialize().bytes.len(), 83);
    assert_eq!(MovieCommentCounter::SIZE, 20);
    assert_eq!(counter(3).serialize().bytes.len(), 20);
}

#[test]
fn data_cut_short_are_refused() {
    let bytes = review("Heat", "big").serialize().bytes;
    for length in 0..bytes.len() {
        assert_eq!(
            MovieAccountState::try_from_slice(&bytes[..length]),
            Err(short())
        );
    }
    let bytes = counter(3).serialize().bytes;
    for length in 0..bytes.len() {
        assert_eq!(
            MovieCommentCounter::try_from_slice(&bytes[..length]),
            Err(short())
        );
    }
    let bytes = comment("no").serialize().bytes;
    for length in 0..bytes.len() {
        assert_eq!(MovieComment::try_from_slice(&bytes[..length]), Err(short()));
    }
}

#[test]
fn data_that_go_on_are_refused() {
    let mut bytes = review("Heat", "big").serialize().bytes;
    bytes.push(0);
    assert_eq!(MovieAccountState::try_from_slice(&bytes), Err(IoFault::TrailingBytes));
}

#[test]
fn blank_accounts_are_refused() {
    assert_eq!(MovieAccountState::try_from_slice(&[0; 1000]), Err(IoFault::TrailingBytes));
    assert_eq!(MovieCommentCounter::try_from_slice(&[0; 20]), Err(IoFault::TrailingBytes));
    assert_eq!(MovieComment::try_from_slice(&[0; 83]), Err(IoFault::TrailingBytes));
}

#[test]
fn empty_records_fill_as_many_zeros() {
    let found = MovieAccountState::try_from_slice(&[0; 46]).unwrap();
    assert!(!found.is_initialized());
    assert_eq!(found.title, "");
    assert!(!MovieCommentCounter::try_from_slice(&[0; 13]).unwrap().is_initialized());
    assert!(!MovieComment::try_from_slice(&[0; 73]).unwrap().is_initialized());
}

#[test]
fn a_flag_is_zero_or_one() {
    let mut bytes = counter(3).serialize().bytes;
    bytes[11] = 2;
    assert_eq!(MovieCommentCounter::try_from_slice(&bytes), Err(not_a_flag("2")));
    bytes[11] = 0;
    assert!(!MovieCommentCounter::try_from_slice(&bytes).unwrap().is_initialized());
}

#[test]
fn a_text_is_utf8() {
    let mut bytes = comment("no").serialize().bytes;
    let last = bytes.len() - 1;
    bytes[last] = 0xc3;
    assert_eq!(
        MovieComment::try_from_slice(&bytes),
        Err(IoFault::Unreadable("incomplete utf-8 byte sequence from index 1".to_string()))
    );
    for body in [[0x80, b'a', b'b'], [b'a', 0xff, b'b'], [b'a', 0xe2, 0x82], [0xe2, 0x82, b'c']] {
        let words = String::from_utf8(body.to_vec()).unwrap_err().to_string();
        let input = [3, 0, 0, 0, body[0], body[1], body[2], 7];
        assert_eq!(read_string(&input), Err(IoFault::Unreadable(words)));
    }
}

#[test]
fn values_are_taken_off_the_front() {
    assert_eq!(
        read_string(&[2, 0, 0, 0, b'o', b'k', 9]),
        Ok(("ok".to_string(), [9u8].as_slice()))
    );
    assert_eq!(read_string(&[0xff, 0xff, 0xff, 0xff, 1]), Err(short()));
    assert_eq!(read_string(&[0, 0, 0]), Err(short()));
    assert_eq!(read_u8(&[5, 6]), Ok((5, [6u8].as_slice())));
    assert_eq!(read_u8(&[]), Err(short()));
    assert_eq!(read_bool(&[1]), Ok((true, [].as_slice())));
    assert_eq!(read_bool(&[0, 3]), Ok((false, [3u8].as_slice())));
    assert_eq!(read_bool(&[10]), Err(not_a_flag("10")));
    assert_eq!(read_bool(&[255]), Err(not_a_flag("255")));
    assert_eq!(read_bool(&[]), Err(short()));
    assert_eq!(read_u64(&[1, 2, 0, 0, 0, 0, 0, 0, 4]), Ok((513, [4u8].as_slice())));
    assert_eq!(read_u64(&[0; 7]), Err(short()));
    assert_eq!(read_key(&[8; 33]), Ok(([8; 32], [8u8].as_slice())));
    assert_eq!(read_key(&[8; 31]), Err(short()));
}

#[test]
fn a_number_is_said_highest_byte_first() {
    assert_eq!(u64_be_bytes(0x0102_0304_0506_0708), vec![1, 2, 3, 4, 5, 6, 7, 8]);
    for value in [0, 1, 255, 256, u64::MAX, 1 << 63] {
        assert_eq!(u64_be_bytes(value), value.to_be_bytes().to_vec());
    }
}

#[test]
fn a_record_is_written_over_the_front() {
    let record = Buffer { bytes: vec![1, 2, 3], complete: true };
    assert_eq!(store(vec![9; 5], &record), (vec![1, 2, 3, 9, 9], None));
    assert_eq!(store(vec![9; 3], &record), (vec![1, 2, 3], None));
}

#[test]
fn a_record_without_room_is_cut() {
    let record = Buffer { bytes: vec![1, 2, 3], complete: true };
    assert_eq!(store(vec![9; 2], &record), (vec![1, 2], Some(IoFault::NoRoom)));
    assert_eq!(store(vec![], &record), (vec![], Some(IoFault::NoRoom)));
}

#[test]
fn a_record_that_is_not_whole_is_a_fault() {
    let record = Buffer { bytes: vec![1, 2], complete: false };
    assert_eq!(store(vec![9; 3], &record), (vec![1, 2, 9], Some(IoFault::TooLong)));
    assert_eq!(store(vec![9; 1], &record), (vec![1], Some(IoFault::NoRoom)));
}

#[test]
fn a_stored_record_reads_back_where_it_fills() {
    let record = review("Heat", "big");
    let size = record.serialize().bytes.len();
    let (data, fault) = store(vec![0; size], &record.serialize());
    assert_eq!(fault, None);
    assert_eq!(MovieAccountState::try_from_slice(&data), Ok(review("Heat", "big")));
    let (data, fault) = store(vec![0; size + 1], &record.serialize());
    assert_eq!(fault, None);
    assert_eq!(MovieAccountState::try_from_slice(&data), Err(IoFault::TrailingBytes));
    let (data, _) = store(vec![0; 20], &counter(6).serialize());
    assert_eq!(MovieCommentCounter::try_from_slice(&data), Ok(counter(6)));
    let (data, _) = store(vec![0; 82], &comment("no").serialize());
    assert_eq!(MovieComment::try_from_slice(&data), Ok(comment("no")));
}
