use miniterm::try_read::{decode_chunk, Feeder, Forwarded, Polled, TryReader, SCRATCH_SIZE};
use std::sync::Arc;

#[test]
fn scratch_buffer_is_sixty_four_kibibytes() {
    assert_eq!(SCRATCH_SIZE, 64 * 1024);
}

#[test]
fn a_poll_hands_out_the_chunk_it_found_and_nothing_else() {
    assert_eq!(
        Polled::Chunk(String::from("text")).into_chunk(),
        Some(String::from("text"))
    );
    assert_eq!(Polled::Chunk(String::new()).into_chunk(), Some(String::new()));
    assert_eq!(Polled::Empty.into_chunk(), None);
    assert_eq!(Polled::Closed.into_chunk(), None);
}

#[test]
fn fifo_ordering() {
    let (reader, feeder) = TryReader::new();
    assert_eq!(feeder.forward(b"A", Some(1)), Forwarded::Queued);
    assert_eq!(feeder.forward(b"BC", Some(2)), Forwarded::Queued);
    assert_eq!(feeder.forward(b"D", Some(1)), Forwarded::Queued);
    assert_eq!(reader.try_read(), Some(String::from("A")));
    assert_eq!(reader.try_read(), Some(String::from("BC")));
    assert_eq!(reader.try_read(), Some(String::from("D")));
    assert_eq!(reader.try_read(), None);
}

#[test]
fn poll_of_an_empty_queue_is_empty() {
    let (reader, _feeder) = TryReader::new();
    assert_eq!(reader.try_read(), None);
    assert_eq!(reader.try_read(), None);
}

#[test]
fn poll_after_the_feeder_is_gone_drains_and_then_is_empty() {
    let (reader, feeder) = TryReader::new();
    assert_eq!(feeder.forward(b"last", Some(4)), Forwarded::Queued);
    drop(feeder);
    assert_eq!(reader.try_read(), Some(String::from("last")));
    assert_eq!(reader.try_read(), None);
}

#[test]
fn polls_and_pushes_interleave_in_order() {
    let (reader, feeder) = TryReader::new();
    assert_eq!(feeder.forward(b"one", Some(3)), Forwarded::Queued);
    assert_eq!(reader.try_read(), Some(String::from("one")));
    assert_eq!(reader.try_read(), None);
    assert_eq!(feeder.forward(b"two", Some(3)), Forwarded::Queued);
    assert_eq!(feeder.forward(b"three", Some(5)), Forwarded::Queued);
    assert_eq!(reader.try_read(), Some(String::from("two")));
    assert_eq!(feeder.forward(b"four", Some(4)), Forwarded::Queued);
    assert_eq!(reader.try_read(), Some(String::from("three")));
    assert_eq!(reader.try_read(), Some(String::from("four")));
    assert_eq!(reader.try_read(), None);
}

#[test]
fn only_the_bytes_that_were_read_are_decoded() {
    let (reader, feeder) = TryReader::new();
    assert_eq!(feeder.forward(b"hello, stale bytes", Some(5)), Forwarded::Queued);
    assert_eq!(reader.try_read(), Some(String::from("hello")));
}

#[test]
fn a_read_of_nothing_pushes_nothing() {
    let (reader, feeder) = TryReader::new();
    assert_eq!(feeder.forward(b"stale", Some(0)), Forwarded::Nothing);
    assert_eq!(reader.try_read(), None);
}

#[test]
fn a_failed_read_pushes_nothing() {
    let (reader, feeder) = TryReader::new();
    assert_eq!(feeder.forward(b"stale", None), Forwarded::Nothing);
    assert_eq!(reader.try_read(), None);
}

#[test]
fn the_worker_goes_on_while_the_handle_lives() {
    let (reader, _feeder) = TryReader::new();
    let token = Arc::downgrade(reader.keep_alive());
    assert_eq!(token.strong_count(), 1);
    assert!(Feeder::should_continue(token.strong_count()));
    assert!(Feeder::should_continue(7));
}

#[test]
fn graceful_shutdown() {
    let (reader, feeder) = TryReader::new();
    let token = Arc::downgrade(reader.keep_alive());
    assert_eq!(feeder.forward(b"before", Some(6)), Forwarded::Queued);
    drop(reader);
    assert_eq!(token.strong_count(), 0);
    assert!(!Feeder::should_continue(token.strong_count()));
    assert!(!Feeder::should_continue(0));
}

#[test]
fn a_chunk_for_a_consumer_that_is_gone_is_dropped() {
    let (reader, feeder) = TryReader::new();
    drop(reader);
    assert_eq!(
        feeder.forward(b"late", Some(4)),
        Forwarded::Dropped(String::from("late"))
    );
    assert_eq!(
        feeder.forward(b"later", Some(5)),
        Forwarded::Dropped(String::from("later"))
    );
    assert_eq!(feeder.forward(b"later", Some(0)), Forwarded::Nothing);
}

#[test]
fn lossy_decode() {
    let bytes: [u8; 7] = [b'a', b'b', b'c', 0xff, b'd', b'e', b'f'];
    let chunk = decode_chunk(&bytes, Some(7));
    assert_eq!(chunk, Some(String::from("abc\u{fffd}def")));
    let text = chunk.unwrap();
    assert_eq!(text.chars().filter(|c| *c == '\u{fffd}').count(), 1);
    assert_eq!(text.chars().position(|c| c == '\u{fffd}'), Some(3));
}

#[test]
fn lossy_decode_through_the_queue() {
    let (reader, feeder) = TryReader::new();
    let bytes: [u8; 5] = [b'o', b'k', 0x80, b'g', b'o'];
    assert_eq!(feeder.forward(&bytes, Some(5)), Forwarded::Queued);
    assert_eq!(reader.try_read(), Some(String::from("ok\u{fffd}go")));
}

#[test]
fn valid_text_decodes_to_itself() {
    let text = "héllo wörld \u{1F600}";
    let chunk = decode_chunk(text.as_bytes(), Some(text.len()));
    assert_eq!(chunk, Some(String::from(text)));
}

#[test]
fn a_sequence_cut_short_is_replaced() {
    let bytes: [u8; 3] = [b'a', 0xe2, 0x82];
    assert_eq!(decode_chunk(&bytes, Some(3)), Some(String::from("a\u{fffd}")));
    assert_eq!(decode_chunk(&bytes, Some(1)), Some(String::from("a")));
}

#[test]
fn decode_chunk_of_no_bytes_or_a_failed_read_is_none() {
    assert_eq!(decode_chunk(b"abc", Some(0)), None);
    assert_eq!(decode_chunk(b"abc", None), None);
    assert_eq!(decode_chunk(b"", Some(0)), None);
}

#[test]
fn a_full_scratch_buffer_is_one_chunk() {
    let scratch: Vec<u8> = vec![b'x'; SCRATCH_SIZE];
    let chunk = decode_chunk(&scratch, Some(SCRATCH_SIZE)).unwrap();
    assert_eq!(chunk.len(), SCRATCH_SIZE);
    assert!(chunk.bytes().all(|b| b == b'x'));
}
