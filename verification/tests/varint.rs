//! The VarInt, size and identifier decoders: round trips, resumability,
//! malformed leading bytes, and the unknown-size sentinel.

use video_metadata::formats::webm::varint::FeedOutcome;
use video_metadata::formats::webm::varint::IdParser;
use video_metadata::formats::webm::varint::SizeParser;
use video_metadata::formats::webm::varint::VarIntParser;
use video_metadata::formats::webm::varint::UNKNOWN_ELEMENT_SIZE;
use video_metadata::formats::webm::varint::get_leading_zeros;

#[test]
fn leading_zeros_counts() {
    assert_eq!(get_leading_zeros(0x80), 0);
    assert_eq!(get_leading_zeros(0xFF), 0);
    assert_eq!(get_leading_zeros(0x40), 1);
    assert_eq!(get_leading_zeros(0x20), 2);
    assert_eq!(get_leading_zeros(0x10), 3);
    assert_eq!(get_leading_zeros(0x01), 7);
    assert_eq!(get_leading_zeros(0x00), 8);
}

#[test]
fn varint_one_byte_round_trip() {
    let mut p = VarIntParser::new();
    assert_eq!(p.feed(&[0x80]), FeedOutcome::Consumed(1));
    assert_eq!(p.value(), 0);
    assert_eq!(p.encoded_length(), 1);

    let mut p = VarIntParser::new();
    assert_eq!(p.feed(&[0xFF]), FeedOutcome::Consumed(1));
    assert_eq!(p.value(), 0x7F);
    assert_eq!(p.encoded_length(), 1);
}

#[test]
fn varint_two_byte_round_trip() {
    // 300 in canonical minimal form: 0x40 + high byte, then low byte.
    let mut p = VarIntParser::new();
    assert_eq!(p.feed(&[0x41, 0x2C]), FeedOutcome::Consumed(2));
    assert_eq!(p.value(), 300);
    assert_eq!(p.encoded_length(), 2);
}

#[test]
fn varint_four_byte_round_trip() {
    // The largest encodable value: four bytes, all data bits set.
    let mut p = VarIntParser::new();
    assert_eq!(p.feed(&[0x1F, 0xFF, 0xFF, 0xFF]), FeedOutcome::Consumed(4));
    assert_eq!(p.value(), 0x0FFF_FFFF);
    assert_eq!(p.encoded_length(), 4);
}

#[test]
fn varint_resumable_across_chunks() {
    // Feeding byte by byte reaches the same value as feeding at once.
    let mut p = VarIntParser::new();
    assert_eq!(p.feed(&[]), FeedOutcome::NeedMoreBytes);
    assert_eq!(p.feed(&[0x21]), FeedOutcome::NeedMoreBytes);
    assert_eq!(p.feed(&[0x12]), FeedOutcome::NeedMoreBytes);
    assert_eq!(p.feed(&[0x34]), FeedOutcome::Consumed(1));
    let mut q = VarIntParser::new();
    assert_eq!(q.feed(&[0x21, 0x12, 0x34]), FeedOutcome::Consumed(3));
    assert_eq!(p.value(), q.value());
    assert_eq!(p.value(), 0x011234);
}

#[test]
fn varint_stops_consuming_when_done() {
    let mut p = VarIntParser::new();
    // Only the first byte belongs to the value; the tail is left alone.
    assert_eq!(p.feed(&[0x81, 0xFF, 0xFF]), FeedOutcome::Consumed(1));
    assert_eq!(p.value(), 1);
}

#[test]
fn varint_malformed_leading_byte() {
    // A first byte with an all-zero top nibble cannot encode a length —
    // except the all-zero byte, which opens the maximum-length form.
    for b in 0x01u8..0x10u8 {
        let mut p = VarIntParser::new();
        assert_eq!(p.feed(&[b]), FeedOutcome::Malformed);
    }
    let mut p = VarIntParser::new();
    assert_eq!(p.feed(&[0x00]), FeedOutcome::NeedMoreBytes);
}

#[test]
fn varint_eight_byte_round_trip() {
    // An all-zero first byte signals the maximum (eight-byte) length.
    let mut p = VarIntParser::new();
    assert_eq!(
        p.feed(&[0x00, 0, 0, 0, 0, 0, 0, 0x2A]),
        FeedOutcome::Consumed(8)
    );
    assert_eq!(p.value(), 0x2A);
    assert_eq!(p.encoded_length(), 8);

    let mut p = VarIntParser::new();
    assert_eq!(
        p.feed(&[0x00, 0x01, 0x02, 0x03, 0x04, 0x05, 0x06, 0x07]),
        FeedOutcome::Consumed(8)
    );
    assert_eq!(p.value(), 0x0102_0304_0506_07);
    assert_eq!(p.encoded_length(), 8);
}

#[test]
fn size_parser_plain_and_sentinel() {
    let mut s = SizeParser::new();
    assert_eq!(s.feed(&[0x81]), FeedOutcome::Consumed(1));
    assert_eq!(s.size(), 1);

    // All data bits set is the reserved "unknown size" pattern.
    let mut s = SizeParser::new();
    assert_eq!(s.feed(&[0xFF]), FeedOutcome::Consumed(1));
    assert_eq!(s.size(), UNKNOWN_ELEMENT_SIZE);

    let mut s = SizeParser::new();
    assert_eq!(s.feed(&[0x7F, 0xFF]), FeedOutcome::Consumed(2));
    assert_eq!(s.size(), UNKNOWN_ELEMENT_SIZE);

    // The same value in a longer encoding is an ordinary size.
    let mut s = SizeParser::new();
    assert_eq!(s.feed(&[0x40, 0x7F]), FeedOutcome::Consumed(2));
    assert_eq!(s.size(), 0x7F);

    // The eight-byte form has its own all-ones pattern...
    let mut s = SizeParser::new();
    assert_eq!(
        s.feed(&[0x00, 0xFF, 0xFF, 0xFF, 0xFF, 0xFF, 0xFF, 0xFF]),
        FeedOutcome::Consumed(8)
    );
    assert_eq!(s.size(), UNKNOWN_ELEMENT_SIZE);

    // ... and carries ordinary sizes otherwise.
    let mut s = SizeParser::new();
    assert_eq!(
        s.feed(&[0x00, 0, 0, 0, 0, 0, 0x12, 0x34]),
        FeedOutcome::Consumed(8)
    );
    assert_eq!(s.size(), 0x1234);
}

#[test]
fn id_parser_keeps_marker_bits() {
    let mut p = IdParser::new();
    assert_eq!(p.feed(&[0x1A, 0x45, 0xDF, 0xA3]), FeedOutcome::Consumed(4));
    assert_eq!(p.id(), 0x1A45DFA3);

    let mut p = IdParser::new();
    assert_eq!(p.feed(&[0xEC]), FeedOutcome::Consumed(1));
    assert_eq!(p.id(), 0xEC);

    let mut p = IdParser::new();
    assert_eq!(p.feed(&[0x42, 0x82]), FeedOutcome::Consumed(2));
    assert_eq!(p.id(), 0x4282);
}
