//! The WebM traversal machine: classification of whole files, truncated
//! prefixes, corrupt headers, skipping, unknown sizes, and resumability.

use video_metadata::KnownTypes;
use video_metadata::enums::SniffOutcome;
use video_metadata::formats::webm::WebmParser;
use video_metadata::formats::webm::get_information;
use video_metadata::formats::webm::model::ParseErrorKind;

/// A small, well-formed file of this container format: an EBML header with
/// a `webm` document type, then a segment with one video track (V_VP8,
/// 560x320) and one audio track (A_VORBIS).
fn sample_file() -> Vec<u8> {
    let mut f = Vec::new();
    // EBML header, 7 bytes of content: DocType "webm".
    f.extend_from_slice(&[0x1A, 0x45, 0xDF, 0xA3, 0x87]);
    f.extend_from_slice(&[0x42, 0x82, 0x84, b'w', b'e', b'b', b'm']);
    // Segment, 42 bytes of content.
    f.extend_from_slice(&[0x18, 0x53, 0x80, 0x67, 0xAA]);
    // Tracks, 37 bytes of content.
    f.extend_from_slice(&[0x16, 0x54, 0xAE, 0x6B, 0xA5]);
    // Track entry one (video), 20 bytes of content.
    f.extend_from_slice(&[0xAE, 0x94]);
    f.extend_from_slice(&[0x83, 0x81, 0x01]); // TrackType: video
    f.extend_from_slice(&[0x86, 0x85, b'V', b'_', b'V', b'P', b'8']); // CodecID
    f.extend_from_slice(&[0xE0, 0x88]); // Video settings, 8 bytes
    f.extend_from_slice(&[0xB0, 0x82, 0x02, 0x30]); // PixelWidth 560
    f.extend_from_slice(&[0xBA, 0x82, 0x01, 0x40]); // PixelHeight 320
    // Track entry two (audio), 13 bytes of content.
    f.extend_from_slice(&[0xAE, 0x8D]);
    f.extend_from_slice(&[0x83, 0x81, 0x02]); // TrackType: audio
    f.extend_from_slice(&[0x86, 0x88]); // CodecID
    f.extend_from_slice(b"A_VORBIS");
    assert_eq!(f.len(), 59);
    f
}

#[test]
fn full_known_good_file_is_complete() {
    let file = sample_file();
    match get_information(&file) {
        SniffOutcome::Complete(meta) => {
            assert_eq!(meta.format, KnownTypes::WebM);
            assert_eq!(format!("{}x{}", meta.size.width, meta.size.height), "560x320");
            assert_eq!(&meta.video, "V_VP8");
            assert_eq!(meta.audio, Some("A_VORBIS".to_owned()));
            assert_eq!(meta.duration, None);
        },
        other => panic!("expected Complete, got {:?}", other),
    }
}

#[test]
fn truncated_known_good_file_is_not_unknown() {
    let file = sample_file();
    let fifth = &file[..file.len() / 5];
    match get_information(fifth) {
        SniffOutcome::Incomplete(candidates) => {
            assert_eq!(candidates, vec![KnownTypes::WebM]);
        },
        SniffOutcome::Complete(_) => {},
        SniffOutcome::Unknown => panic!("a truncated good file must not be Unknown"),
    }
}

#[test]
fn every_prefix_of_good_file_is_not_unknown() {
    let file = sample_file();
    for n in 4..=file.len() {
        match get_information(&file[..n]) {
            SniffOutcome::Unknown => panic!("prefix of {} bytes was Unknown", n),
            _ => {},
        }
    }
}

#[test]
fn signature_only_prefix_is_incomplete() {
    let sig = [0x1Au8, 0x45, 0xDF, 0xA3];
    match get_information(&sig) {
        SniffOutcome::Incomplete(candidates) => {
            assert_eq!(candidates, vec![KnownTypes::WebM]);
        },
        other => panic!("expected Incomplete, got {:?}", other),
    }
}

#[test]
fn corrupt_leading_byte_is_unknown() {
    for b in 0x01u8..0x10u8 {
        assert_eq!(get_information(&[b, 0xFF, 0xFF]), SniffOutcome::Unknown);
    }
    let mut p = WebmParser::new();
    p.feed(&[0x05]);
    assert_eq!(p.fault(), Some((ParseErrorKind::MalformedVarInt, 0)));
    // The all-zero byte is not malformed: it opens an eight-byte
    // identifier, which here is merely incomplete (and no signature).
    let mut p = WebmParser::new();
    p.feed(&[0x00, 0xFF, 0xFF]);
    assert_eq!(p.fault(), None);
    assert_eq!(p.outcome(), SniffOutcome::Unknown);
}

#[test]
fn eight_byte_identifier_is_not_the_signature() {
    // A full eight-byte identifier fits no registry entry; as the first
    // element of the stream it fails the signature check.
    let mut p = WebmParser::new();
    p.feed(&[0x00, 0, 0, 0, 0x1A, 0x45, 0xDF, 0xA3]);
    assert_eq!(p.outcome(), SniffOutcome::Unknown);
    assert_eq!(p.fault(), Some((ParseErrorKind::UnrecognizedSignature, 7)));
}

#[test]
fn empty_codec_identifier_is_not_complete() {
    // A zero-length CodecID names nothing: the probe must not report
    // Complete with an empty video identifier.
    let mut f = Vec::new();
    f.extend_from_slice(&[0x1A, 0x45, 0xDF, 0xA3, 0x80]); // EBML header, empty
    f.extend_from_slice(&[0x18, 0x53, 0x80, 0x67, 0xFF]); // Segment, unknown size
    f.extend_from_slice(&[0x16, 0x54, 0xAE, 0x6B, 0x91]); // Tracks, 17 bytes
    f.extend_from_slice(&[0xAE, 0x8F]); // Track entry, 15 bytes
    f.extend_from_slice(&[0x83, 0x81, 0x01]); // TrackType: video
    f.extend_from_slice(&[0x86, 0x80]); // CodecID, zero length
    f.extend_from_slice(&[0xE0, 0x88]);
    f.extend_from_slice(&[0xB0, 0x82, 0x02, 0x30]);
    f.extend_from_slice(&[0xBA, 0x82, 0x01, 0x40]);
    match get_information(&f) {
        SniffOutcome::Incomplete(candidates) => {
            assert_eq!(candidates, vec![KnownTypes::WebM]);
        },
        other => panic!("expected Incomplete, got {:?}", other),
    }
}

#[test]
fn empty_codec_does_not_block_a_later_track() {
    // An empty codec identifier commits nothing, so a later video track
    // still fills the slot.
    let mut f = Vec::new();
    f.extend_from_slice(&[0x1A, 0x45, 0xDF, 0xA3, 0x80]); // EBML header, empty
    f.extend_from_slice(&[0x18, 0x53, 0x80, 0x67, 0xFF]); // Segment, unknown size
    f.extend_from_slice(&[0x16, 0x54, 0xAE, 0x6B, 0x9D]); // Tracks, 29 bytes
    f.extend_from_slice(&[0xAE, 0x8F]); // Track entry one, 15 bytes
    f.extend_from_slice(&[0x83, 0x81, 0x01]);
    f.extend_from_slice(&[0x86, 0x80]); // CodecID, zero length
    f.extend_from_slice(&[0xE0, 0x88]);
    f.extend_from_slice(&[0xB0, 0x82, 0x02, 0x30]);
    f.extend_from_slice(&[0xBA, 0x82, 0x01, 0x40]);
    f.extend_from_slice(&[0xAE, 0x8A]); // Track entry two, 10 bytes
    f.extend_from_slice(&[0x83, 0x81, 0x01]);
    f.extend_from_slice(&[0x86, 0x85, b'V', b'_', b'V', b'P', b'8']);
    match get_information(&f) {
        SniffOutcome::Complete(meta) => {
            assert_eq!(&meta.video, "V_VP8");
            assert_eq!(meta.size.width, 560);
            assert_eq!(meta.size.height, 320);
        },
        other => panic!("expected Complete, got {:?}", other),
    }
}

#[test]
fn empty_input_is_unknown() {
    assert_eq!(get_information(&[]), SniffOutcome::Unknown);
}

#[test]
fn wrong_signature_is_unknown() {
    // A valid one-byte element identifier that is not the signature.
    let mut p = WebmParser::new();
    p.feed(&[0xEC, 0x80]);
    assert_eq!(p.outcome(), SniffOutcome::Unknown);
    assert_eq!(p.fault(), Some((ParseErrorKind::UnrecognizedSignature, 0)));
}

#[test]
fn resumability_all_split_points() {
    let file = sample_file();
    let whole = get_information(&file);
    for k in 0..=file.len() {
        let mut p = WebmParser::new();
        p.feed(&file[..k]);
        p.feed(&file[k..]);
        assert_eq!(p.outcome(), whole, "split at {} diverged", k);
    }
}

#[test]
fn resumability_byte_at_a_time() {
    let file = sample_file();
    let whole = get_information(&file);
    let mut p = WebmParser::new();
    for b in file.iter() {
        p.feed(&[*b]);
    }
    assert_eq!(p.outcome(), whole);
}

#[test]
fn exact_skip_of_unrecognized_element() {
    // The same file with a Void element inserted inside the video track
    // entry: the skip must consume exactly its declared size, leaving
    // everything after it aligned.
    let mut f = Vec::new();
    f.extend_from_slice(&[0x1A, 0x45, 0xDF, 0xA3, 0x87]);
    f.extend_from_slice(&[0x42, 0x82, 0x84, b'w', b'e', b'b', b'm']);
    f.extend_from_slice(&[0x18, 0x53, 0x80, 0x67, 0xAE]); // Segment, 46
    f.extend_from_slice(&[0x16, 0x54, 0xAE, 0x6B, 0xA9]); // Tracks, 41
    f.extend_from_slice(&[0xAE, 0x98]); // Track entry one, 24
    f.extend_from_slice(&[0xEC, 0x82, 0xAA, 0xBB]); // Void, 2 payload bytes
    f.extend_from_slice(&[0x83, 0x81, 0x01]);
    f.extend_from_slice(&[0x86, 0x85, b'V', b'_', b'V', b'P', b'8']);
    f.extend_from_slice(&[0xE0, 0x88]);
    f.extend_from_slice(&[0xB0, 0x82, 0x02, 0x30]);
    f.extend_from_slice(&[0xBA, 0x82, 0x01, 0x40]);
    f.extend_from_slice(&[0xAE, 0x8D]);
    f.extend_from_slice(&[0x83, 0x81, 0x02]);
    f.extend_from_slice(&[0x86, 0x88]);
    f.extend_from_slice(b"A_VORBIS");
    match get_information(&f) {
        SniffOutcome::Complete(meta) => {
            assert_eq!(meta.size.width, 560);
            assert_eq!(meta.size.height, 320);
            assert_eq!(&meta.video, "V_VP8");
            assert_eq!(meta.audio, Some("A_VORBIS".to_owned()));
        },
        other => panic!("expected Complete, got {:?}", other),
    }
}

#[test]
fn unknown_size_container_extends_to_parent() {
    // The segment declares no size (the reserved all-ones pattern): it
    // extends to the end of the stream, and its children still parse.
    let mut f = Vec::new();
    f.extend_from_slice(&[0x1A, 0x45, 0xDF, 0xA3, 0x87]);
    f.extend_from_slice(&[0x42, 0x82, 0x84, b'w', b'e', b'b', b'm']);
    f.extend_from_slice(&[0x18, 0x53, 0x80, 0x67, 0xFF]); // Segment, unknown size
    f.extend_from_slice(&[0x16, 0x54, 0xAE, 0x6B, 0xA5]);
    f.extend_from_slice(&[0xAE, 0x94]);
    f.extend_from_slice(&[0x83, 0x81, 0x01]);
    f.extend_from_slice(&[0x86, 0x85, b'V', b'_', b'V', b'P', b'8']);
    f.extend_from_slice(&[0xE0, 0x88]);
    f.extend_from_slice(&[0xB0, 0x82, 0x02, 0x30]);
    f.extend_from_slice(&[0xBA, 0x82, 0x01, 0x40]);
    f.extend_from_slice(&[0xAE, 0x8D]);
    f.extend_from_slice(&[0x83, 0x81, 0x02]);
    f.extend_from_slice(&[0x86, 0x88]);
    f.extend_from_slice(b"A_VORBIS");
    match get_information(&f) {
        SniffOutcome::Complete(meta) => {
            assert_eq!(meta.size.width, 560);
            assert_eq!(&meta.video, "V_VP8");
        },
        other => panic!("expected Complete, got {:?}", other),
    }
}

#[test]
fn unknown_size_on_leaf_is_an_error() {
    // A document-type leaf declaring the unknown-size sentinel: the skip
    // distance would be undefined, so this is a structural error.
    let f = [0x1Au8, 0x45, 0xDF, 0xA3, 0x87, 0x42, 0x82, 0xFF];
    let mut p = WebmParser::new();
    p.feed(&f);
    assert_eq!(p.outcome(), SniffOutcome::Unknown);
    assert_eq!(p.fault(), Some((ParseErrorKind::UnknownSizeOnNonContainer, 8)));
}

#[test]
fn child_exceeding_parent_bound_is_an_error() {
    // The EBML header declares two bytes of content, but its child's
    // header alone runs past that bound.
    let f = [0x1Au8, 0x45, 0xDF, 0xA3, 0x82, 0x42, 0x82, 0x84];
    let mut p = WebmParser::new();
    p.feed(&f);
    assert_eq!(p.outcome(), SniffOutcome::Unknown);
    assert_eq!(p.fault(), Some((ParseErrorKind::SizeOverflow, 7)));
}

#[test]
fn oversized_dimension_saturates() {
    // A pixel width wider than the metadata field: clamped to the
    // largest representable value, and reported as such.
    let mut f = Vec::new();
    f.extend_from_slice(&[0x1A, 0x45, 0xDF, 0xA3, 0x80]); // EBML header, empty
    f.extend_from_slice(&[0x18, 0x53, 0x80, 0x67, 0xFF]); // Segment, unknown size
    f.extend_from_slice(&[0xAE, 0x95]); // Track entry, 21 bytes
    f.extend_from_slice(&[0x83, 0x81, 0x01]);
    f.extend_from_slice(&[0x86, 0x85, b'V', b'_', b'V', b'P', b'8']);
    f.extend_from_slice(&[0xB0, 0x85, 0x01, 0x00, 0x00, 0x00, 0x00]); // width 2^32
    f.extend_from_slice(&[0xBA, 0x82, 0x01, 0x40]); // height 320
    match get_information(&f) {
        SniffOutcome::Complete(meta) => {
            assert_eq!(meta.size.width, u32::MAX);
            assert_eq!(meta.size.height, 320);
        },
        other => panic!("expected Complete, got {:?}", other),
    }
}
