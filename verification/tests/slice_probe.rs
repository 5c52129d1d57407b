//! The delegated container probes (`get_format_from_slice`, through the
//! MP4 and Ogg reader crates) and the format dispatcher.

use video_metadata::KnownTypes;
use video_metadata::Error;
use video_metadata::enums::SniffOutcome;
use video_metadata::formats::get_format;
use video_metadata::get_format_from_slice;
use video_metadata::video_metadata::check_mp4;
use video_metadata::video_metadata::check_ogg;
use video_metadata::video_metadata::ogg_meta_from;
use video_metadata::video_metadata::OggTrack;

/// The page checksum of the Ogg container: a 32-bit CRC, most significant
/// bit first, polynomial 0x04C11DB7, zero-initialized, computed with the
/// checksum field itself zeroed.
fn ogg_page_crc(data: &[u8]) -> u32 {
    let mut crc: u32 = 0;
    for b in data {
        crc ^= (*b as u32) << 24;
        let mut k = 0;
        while k < 8 {
            if crc & 0x8000_0000 != 0 {
                crc = (crc << 1) ^ 0x04C1_1DB7;
            } else {
                crc <<= 1;
            }
            k += 1;
        }
    }
    crc
}

/// One beginning-of-stream Ogg page holding a Theora identification
/// header for a 560x320 picture.
fn theora_ogg_page() -> Vec<u8> {
    let mut payload = Vec::new();
    payload.extend_from_slice(&[0x80]);
    payload.extend_from_slice(b"theora");
    payload.extend_from_slice(&[3, 2, 1]); // version
    payload.extend_from_slice(&[0x00, 0x23]); // frame width in macro blocks
    payload.extend_from_slice(&[0x00, 0x14]); // frame height in macro blocks
    payload.extend_from_slice(&[0x00, 0x02, 0x30]); // picture width: 560
    payload.extend_from_slice(&[0x00, 0x01, 0x40]); // picture height: 320

    let mut page = Vec::new();
    page.extend_from_slice(b"OggS");
    page.push(0); // stream structure version
    page.push(0x02); // header type: beginning of stream
    page.extend_from_slice(&[0; 8]); // granule position
    page.extend_from_slice(&[0x11, 0x22, 0x33, 0x44]); // stream serial
    page.extend_from_slice(&[0; 4]); // page sequence number
    page.extend_from_slice(&[0; 4]); // checksum, zero while computing
    page.push(1); // one segment
    page.push(payload.len() as u8);
    page.extend_from_slice(&payload);

    let crc = ogg_page_crc(&page);
    page[22..26].copy_from_slice(&crc.to_le_bytes());
    page
}

#[test]
fn ogg_theora_page_yields_metadata() {
    let page = theora_ogg_page();
    match get_format_from_slice(&page) {
        Ok(meta) => {
            assert_eq!(format!("{}x{}", meta.size.width, meta.size.height), "560x320");
            assert_eq!(meta.format, KnownTypes::Ogg);
            assert_eq!(&meta.video, "Theora");
            assert_eq!(meta.audio, None);
        },
        Err(err) => panic!("this doesn't work, got error: {}", err.error_description()),
    }
}

#[test]
fn ogg_check_rejects_corrupted_page() {
    let mut page = theora_ogg_page();
    // Corrupt the checksum: the reader rejects the page.
    page[22] ^= 0xFF;
    assert_eq!(check_ogg(&page), Err(Error::UnknownFormat));
}

/// A box of the ISO-BMFF container: a 32-bit big-endian size that counts
/// the eight header bytes too, a four-character name, then the content.
fn mp4_box(name: &[u8; 4], content: &[u8]) -> Vec<u8> {
    let mut b = Vec::new();
    b.extend_from_slice(&((content.len() as u32 + 8).to_be_bytes()));
    b.extend_from_slice(name);
    b.extend_from_slice(content);
    b
}

/// A minimal MP4 movie box holding one AVC video track of 560x320.
fn minimal_mp4() -> Vec<u8> {
    // Codec configuration: content is stashed, not parsed.
    let avcc = mp4_box(b"avcC", &[0x01, 0x42]);
    // Visual sample entry: reserved fields, then width and height.
    let mut avc1_content = Vec::new();
    avc1_content.extend_from_slice(&[0; 6]);
    avc1_content.extend_from_slice(&1u16.to_be_bytes()); // data reference index
    avc1_content.extend_from_slice(&[0; 16]);
    avc1_content.extend_from_slice(&560u16.to_be_bytes());
    avc1_content.extend_from_slice(&320u16.to_be_bytes());
    avc1_content.extend_from_slice(&[0; 14]);
    avc1_content.extend_from_slice(&[0; 32]); // compressor name, empty
    avc1_content.extend_from_slice(&[0; 4]);
    avc1_content.extend_from_slice(&avcc);
    let avc1 = mp4_box(b"avc1", &avc1_content);

    let mut stsd_content = Vec::new();
    stsd_content.extend_from_slice(&[0; 4]); // version and flags
    stsd_content.extend_from_slice(&1u32.to_be_bytes()); // one description
    stsd_content.extend_from_slice(&avc1);
    let stsd = mp4_box(b"stsd", &stsd_content);
    let stbl = mp4_box(b"stbl", &stsd);
    let minf = mp4_box(b"minf", &stbl);

    let mut hdlr_content = Vec::new();
    hdlr_content.extend_from_slice(&[0; 4]); // version and flags
    hdlr_content.extend_from_slice(&[0; 4]);
    hdlr_content.extend_from_slice(b"vide");
    hdlr_content.extend_from_slice(&[0; 12]);
    let hdlr = mp4_box(b"hdlr", &hdlr_content);

    let mut mdia_content = hdlr;
    mdia_content.extend_from_slice(&minf);
    let mdia = mp4_box(b"mdia", &mdia_content);
    let trak = mp4_box(b"trak", &mdia);
    mp4_box(b"moov", &trak)
}

#[test]
fn mp4_video_track_yields_metadata() {
    let file = minimal_mp4();
    match get_format_from_slice(&file) {
        Ok(meta) => {
            assert_eq!(format!("{}x{}", meta.size.width, meta.size.height), "560x320");
            assert_eq!(meta.format, KnownTypes::MP4);
            assert_eq!(&meta.video, "AVC");
            assert_eq!(meta.audio, None);
        },
        Err(err) => panic!("this doesn't work, got error: {}", err.error_description()),
    }
}

#[test]
fn mp4_without_video_track_is_rejected() {
    // The same movie box with the handler naming no video track: the
    // sample entry is unknown and the probe fails.
    let mut file = minimal_mp4();
    // Patch the handler type from "vide" to "meta".
    let pos = file.windows(4).position(|w| w == b"vide").unwrap();
    file[pos..pos + 4].copy_from_slice(b"meta");
    assert_eq!(check_mp4(&file), Err(Error::UnknownFormat));
}

/// One beginning-and-end-of-stream Ogg page holding an Opus
/// identification header whose pre-skip exceeds the (zero) final granule.
fn opus_ogg_page() -> Vec<u8> {
    let mut payload = Vec::new();
    payload.extend_from_slice(b"OpusHead");
    payload.push(1); // version
    payload.push(1); // output channels
    payload.extend_from_slice(&[0xFF, 0xFF]); // pre-skip, little endian
    payload.extend_from_slice(&[0x80, 0xBB, 0x00, 0x00]); // input sample rate
    payload.extend_from_slice(&[0, 0]); // output gain
    payload.push(0); // channel mapping family

    let mut page = Vec::new();
    page.extend_from_slice(b"OggS");
    page.push(0); // stream structure version
    page.push(0x06); // header type: beginning and end of stream
    page.extend_from_slice(&[0; 8]); // granule position: zero
    page.extend_from_slice(&[0x55, 0x66, 0x77, 0x88]); // stream serial
    page.extend_from_slice(&[0; 4]); // page sequence number
    page.extend_from_slice(&[0; 4]); // checksum, zero while computing
    page.push(1); // one segment
    page.push(payload.len() as u8);
    page.extend_from_slice(&payload);

    let crc = ogg_page_crc(&page);
    page[22..26].copy_from_slice(&crc.to_le_bytes());
    page
}

#[test]
fn opus_streams_are_declined() {
    // A buffer holding the Opus stream magic never reaches the Ogg
    // reader: this page's pre-skip exceeds its final granule position,
    // which would abort inside the reader's subtraction; the probe
    // declines it instead.
    let page = opus_ogg_page();
    assert_eq!(check_ogg(&page), Err(Error::UnknownFormat));
    assert_eq!(get_format_from_slice(&page), Err(Error::UnknownFormat));
    // The screen is byte-level: any occurrence of the magic declines.
    assert_eq!(check_ogg(b"xxOpusHeadxx"), Err(Error::UnknownFormat));
}

#[test]
fn ogg_fold_over_returned_list() {
    // The verified fold over one concrete stream list.
    let tracks = vec![
        OggTrack::Theora { width: 560, height: 320 },
        OggTrack::Vorbis { duration: None },
    ];
    match ogg_meta_from(&tracks) {
        Ok(meta) => {
            assert_eq!(meta.format, KnownTypes::Ogg);
            assert_eq!(meta.size.width, 560);
            assert_eq!(meta.size.height, 320);
            assert_eq!(&meta.video, "Theora");
            assert_eq!(meta.audio, Some("Vorbis".to_owned()));
        },
        Err(err) => panic!("this doesn't work, got error: {}", err.error_description()),
    }
    let no_video = vec![OggTrack::Vorbis { duration: None }, OggTrack::Speex];
    assert!(ogg_meta_from(&no_video).is_err());
}

#[test]
fn garbage_is_unknown_format() {
    let garbage = b"this is not a media file at all, only text";
    assert_eq!(get_format_from_slice(garbage), Err(Error::UnknownFormat));
    assert_eq!(check_ogg(garbage), Err(Error::UnknownFormat));
    assert_eq!(check_mp4(garbage), Err(Error::UnknownFormat));
}

#[test]
fn empty_slice_is_unknown_format() {
    assert_eq!(get_format_from_slice(&[]), Err(Error::UnknownFormat));
}

#[test]
fn dispatcher_complete_on_good_file() {
    // The dispatcher tries the self-implemented parsers: a full good
    // WebM file wins as Complete.
    let mut f = Vec::new();
    f.extend_from_slice(&[0x1A, 0x45, 0xDF, 0xA3, 0x87]);
    f.extend_from_slice(&[0x42, 0x82, 0x84, b'w', b'e', b'b', b'm']);
    f.extend_from_slice(&[0x18, 0x53, 0x80, 0x67, 0xFF]);
    f.extend_from_slice(&[0xAE, 0x94]);
    f.extend_from_slice(&[0x83, 0x81, 0x01]);
    f.extend_from_slice(&[0x86, 0x85, b'V', b'_', b'V', b'P', b'8']);
    f.extend_from_slice(&[0xE0, 0x88]);
    f.extend_from_slice(&[0xB0, 0x82, 0x02, 0x30]);
    f.extend_from_slice(&[0xBA, 0x82, 0x01, 0x40]);
    match get_format(&f) {
        SniffOutcome::Complete(meta) => {
            assert_eq!(meta.format, KnownTypes::WebM);
            assert_eq!(&meta.video, "V_VP8");
        },
        other => panic!("expected Complete, got {:?}", other),
    }
}

#[test]
fn dispatcher_incomplete_on_signature() {
    match get_format(&[0x1A, 0x45, 0xDF, 0xA3]) {
        SniffOutcome::Incomplete(candidates) => {
            assert_eq!(candidates, vec![KnownTypes::WebM]);
        },
        other => panic!("expected Incomplete, got {:?}", other),
    }
}

#[test]
fn dispatcher_unknown_on_garbage() {
    assert_eq!(get_format(b"zzzz"), SniffOutcome::Unknown);
}
