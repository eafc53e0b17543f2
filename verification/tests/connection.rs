use omnipaxos_kv::connection::{FeedFailure, ForwardFailure, Reader, ReaderStep, Writer, WriterStep};

#[test]
fn reader_hands_on_in_order_and_passes_over_what_it_cannot_read() {
    let mut reader = Reader::of_peer(3);
    assert_eq!(reader.next(), ReaderStep::NextChunk);
    reader.arrived(vec![None, Some("a"), None, None, Some("b"), None]);
    assert_eq!(reader.next(), ReaderStep::Forward(3, "a"));
    assert_eq!(reader.next(), ReaderStep::Forward(3, "b"));
    assert_eq!(reader.next(), ReaderStep::NextChunk);
    reader.arrived(vec![Some("c")]);
    assert_eq!(reader.next(), ReaderStep::Forward(3, "c"));
    assert_eq!(reader.next(), ReaderStep::NextChunk);
}

#[test]
fn reader_drops_the_chunk_when_a_message_cannot_be_handed_on() {
    let mut reader = Reader::of_peer(3);
    reader.arrived(vec![Some("a"), Some("b")]);
    assert_eq!(reader.next(), ReaderStep::Forward(3, "a"));
    reader.forward_failed();
    assert_eq!(reader.next(), ReaderStep::NextChunk);
    reader.arrived(vec![Some("c")]);
    assert_eq!(reader.next(), ReaderStep::Forward(3, "c"));
}

#[test]
fn reader_of_a_client_ends_when_a_message_cannot_be_handed_on() {
    let mut reader = Reader::of_client(3);
    reader.arrived(vec![Some("a"), Some("b")]);
    assert_eq!(reader.next(), ReaderStep::Forward(3, "a"));
    reader.forward_failed();
    assert_eq!(reader.next(), ReaderStep::End);
    reader.arrived(vec![Some("c")]);
    assert_eq!(reader.next(), ReaderStep::End);
    let mut reader: Reader<u8> = Reader::new(3, ForwardFailure::End);
    assert_eq!(reader.next(), ReaderStep::NextChunk);
}

#[test]
fn writer_sends_a_batch_and_waits() {
    let mut writer = Writer::to_peer();
    assert_eq!(writer.next(), WriterStep::Receive);
    writer.received(vec!["a", "b", "c"]);
    assert_eq!(writer.next(), WriterStep::Feed("a"));
    assert_eq!(writer.next(), WriterStep::Feed("b"));
    assert_eq!(writer.next(), WriterStep::Feed("c"));
    assert_eq!(writer.next(), WriterStep::Flush);
    writer.flushed(true);
    assert_eq!(writer.next(), WriterStep::Receive);
    writer.received(vec![]);
    assert_eq!(writer.next(), WriterStep::Close);
    assert_eq!(writer.next(), WriterStep::Close);
}

#[test]
fn writer_to_a_peer_flushes_after_a_failed_write() {
    let mut writer = Writer::to_peer();
    writer.received(vec!["a", "b", "c"]);
    assert_eq!(writer.next(), WriterStep::Feed("a"));
    writer.feed_failed();
    assert_eq!(writer.next(), WriterStep::Flush);
    writer.flushed(true);
    assert_eq!(writer.next(), WriterStep::Receive);
}

#[test]
fn writer_to_a_client_closes_after_a_failed_write() {
    let mut writer = Writer::to_client();
    writer.received(vec!["a", "b"]);
    assert_eq!(writer.next(), WriterStep::Feed("a"));
    writer.feed_failed();
    assert_eq!(writer.next(), WriterStep::Close);
}

#[test]
fn writer_closes_after_a_failed_flush() {
    let mut writer = Writer::new(FeedFailure::Flush);
    writer.received(vec!["a"]);
    assert_eq!(writer.next(), WriterStep::Feed("a"));
    assert_eq!(writer.next(), WriterStep::Flush);
    writer.flushed(false);
    assert_eq!(writer.next(), WriterStep::Close);
}
