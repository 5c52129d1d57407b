//! Probing of MP4 and Ogg containers through their specialized reader
//! crates, and the top-level probe over one byte buffer.
//!
//! The readers themselves are outside code: each is reached through a
//! trusted wrapper whose contract names its result, and everything that
//! maps the returned stream descriptions into a [`Metadata`] record is
//! verified against that name.
//!
//! The Ogg reader assembles part of its stream list from a hash map, so
//! the **order** of the list it returns is not a function of the input
//! bytes; only the collection of stream descriptions is.  Its trusted
//! contract therefore names a multiset, and [`ogg_meta_from`] — a verified
//! function over whatever sequence actually came back — does the folding.
//!
//! One family of inputs never reaches the Ogg reader at all: buffers that
//! contain the `OpusHead` stream magic.  The reader's Opus arm performs an
//! unchecked subtraction on header fields, so such a buffer could abort
//! the process; [`check_ogg`] screens it out with the verified substring
//! search and declines the probe instead (see [`ogg_read`]'s contract).

use vstd::prelude::*;
use vstd::multiset::Multiset;
use mp4parse::SampleEntry;
use mp4parse::AudioCodecSpecific::ALACSpecificBox;
use mp4parse::AudioCodecSpecific::ES_Descriptor;
use mp4parse::AudioCodecSpecific::FLACSpecificBox;
use mp4parse::AudioCodecSpecific::LPCM;
use mp4parse::AudioCodecSpecific::MP3;
use mp4parse::AudioCodecSpecific::OpusSpecificBox;
use mp4parse::VideoCodecSpecific::AV1Config;
use mp4parse::VideoCodecSpecific::AVCConfig;
use mp4parse::VideoCodecSpecific::ESDSConfig;
use mp4parse::VideoCodecSpecific::H263Config;
use mp4parse::VideoCodecSpecific::VPxConfig;
use ogg_metadata::AudioMetadata;
use ogg_metadata::OggFormat;
use crate::enums::KnownTypes;
use crate::enums::contains_bytes;
use crate::enums::find_bytes;
use crate::types::Error;
use crate::types::ErrorView;
use crate::types::MediaTime;
use crate::types::Metadata;
use crate::types::MetadataView;
use crate::types::Size;

verus! {

/// The outside parse-context type of the MP4 reader, declared so that its
/// values can be carried through signatures; it is opaque here.
#[verifier::external_type_specification]
#[verifier::external_body]
pub struct ExMediaContext(mp4parse::MediaContext);

/// The outside stream-description type of the Ogg reader, declared so that
/// its values can be carried through signatures; it is opaque here.
#[verifier::external_type_specification]
#[verifier::external_body]
pub struct ExOggFormat(ogg_metadata::OggFormat);

/// What this crate reads out of one MP4 track: the variant of its first
/// sample description, with the plain values the metadata record needs.
#[derive(Clone, Copy, Debug, PartialEq, Eq, Structural)]
pub enum Mp4Track {
    Video { width: u16, height: u16, codec: Mp4VideoCodec },
    Audio { codec: Mp4AudioCodec },
    Other,
}

#[derive(Clone, Copy, Debug, PartialEq, Eq, Structural)]
pub enum Mp4VideoCodec {
    Avc,
    Vpx,
    Av1,
    Mp4v,
    H263,
}

#[derive(Clone, Copy, Debug, PartialEq, Eq, Structural)]
pub enum Mp4AudioCodec {
    Es,
    Flac,
    Opus,
    Alac,
    Mp3,
    Lpcm,
}

/// What this crate reads out of one Ogg logical stream.
#[derive(Clone, Copy, Debug, PartialEq, Eq, Structural)]
pub enum OggTrack {
    Theora { width: u32, height: u32 },
    Vorbis { duration: Option<MediaTime> },
    Opus { duration: Option<MediaTime> },
    Speex,
    Skeleton,
    Unknown,
}

/// The track list that `mp4parse::read_mp4` finds in a byte buffer, with
/// each track reduced to its [`Mp4Track`] description; `None` when the
/// reader rejects the buffer.  The reader walks the box tree in input
/// order, so this is a function of the bytes alone.  Uninterpreted: the
/// wrappers below are its only source of facts.
pub uninterp spec fn mp4_tracks_of(bytes: Seq<u8>) -> Option<Seq<Mp4Track>>;

/// The [`Mp4Track`] descriptions of the tracks a returned parse context
/// holds, in the context's own order.
pub uninterp spec fn mp4_ctx_tracks(ctx: mp4parse::MediaContext) -> Seq<Mp4Track>;

/// The collection of logical streams that `ogg_metadata::read_format`
/// finds in a byte buffer, with each stream reduced to its [`OggTrack`]
/// description; `None` when the reader rejects the buffer.  A multiset:
/// which streams come back is a function of the bytes, the order of the
/// returned list is not (part of it is drawn from a hash map).
pub uninterp spec fn ogg_streams_of(bytes: Seq<u8>) -> Option<Multiset<OggTrack>>;

/// The [`OggTrack`] description of one outside stream value.
pub uninterp spec fn ogg_format_desc(f: ogg_metadata::OggFormat) -> OggTrack;

/// The stream magic that opens an Opus identification packet.
pub open spec fn opus_head_magic() -> Seq<u8> {
    seq![
        'O' as u8,
        'p' as u8,
        'u' as u8,
        's' as u8,
        'H' as u8,
        'e' as u8,
        'a' as u8,
        'd' as u8,
    ]
}

/// The Ogg probe declines a buffer in which the Opus stream magic occurs,
/// without consulting the reader; see [`ogg_read`] for why.
pub open spec fn ogg_probe_declined(bytes: Seq<u8>) -> bool {
    contains_bytes(bytes, opus_head_magic())
}

/// Relies on `mp4parse::read_mp4`: it parses an ISO-BMFF container from
/// the bytes alone and returns a context with the tracks it finds; a
/// malformed or unrecognized buffer is reported as `Err`.
#[verifier::external_body]
fn mp4_read(content: &[u8]) -> (r: Option<mp4parse::MediaContext>)
    ensures
        r is Some <==> mp4_tracks_of(content@) is Some,
        r matches Some(ctx) ==> mp4_tracks_of(content@) == Some(mp4_ctx_tracks(ctx)),
{
    match mp4parse::read_mp4(&mut std::io::Cursor::new(content)) {
        Ok(ctx) => Some(ctx),
        Err(_) => None,
    }
}

/// Relies on `mp4parse`'s `MediaContext` shape: `tracks` is the list of
/// tracks the reader found.
#[verifier::external_body]
fn mp4_track_count(ctx: &mp4parse::MediaContext) -> (n: usize)
    ensures
        n == mp4_ctx_tracks(*ctx).len(),
{
    ctx.tracks.len()
}

/// Relies on `mp4parse`'s `Track` shape: the first entry of `stsd` is the
/// track's sample description, whose variant and codec-specific payload
/// distinguish video, audio and codec; one arm each, moving the plain
/// fields only.
#[verifier::external_body]
fn mp4_describe(ctx: &mp4parse::MediaContext, i: usize) -> (r: Mp4Track)
    requires
        i < mp4_ctx_tracks(*ctx).len(),
    ensures
        r == mp4_ctx_tracks(*ctx)[i as int],
{
    match ctx.tracks[i].stsd.as_ref().and_then(|stsd| stsd.descriptions.first()) {
        Some(SampleEntry::Video(v)) => Mp4Track::Video {
            width: v.width,
            height: v.height,
            codec: match v.codec_specific { AVCConfig(_) => Mp4VideoCodec::Avc, VPxConfig(_) => Mp4VideoCodec::Vpx, AV1Config(_) => Mp4VideoCodec::Av1, ESDSConfig(_) => Mp4VideoCodec::Mp4v, H263Config(_) => Mp4VideoCodec::H263 },
        },
        Some(SampleEntry::Audio(a)) => Mp4Track::Audio {
            codec: match a.codec_specific { ES_Descriptor(_) => Mp4AudioCodec::Es, FLACSpecificBox(_) => Mp4AudioCodec::Flac, OpusSpecificBox(_) => Mp4AudioCodec::Opus, ALACSpecificBox(_) => Mp4AudioCodec::Alac, MP3 => Mp4AudioCodec::Mp3, LPCM => Mp4AudioCodec::Lpcm },
        },
        _ => Mp4Track::Other,
    }
}

/// Relies on `ogg_metadata::read_format`: it identifies the logical
/// streams of an Ogg container; `Err` means the buffer was rejected.
/// Which stream descriptions come back depends on the bytes alone; their
/// order does not (see the module note), so only their multiset is named.
///
/// The `requires` excludes the one way the reader can abort instead of
/// returning: its Opus arm subtracts a stream's pre-skip from the final
/// granule position in plain `u64` arithmetic, which overflows on crafted
/// headers.  That arm is reached only for a packet identified as Opus, and
/// identification demands that the packet begin with the eight-byte
/// `OpusHead` magic.  A lacing value below 255 ends an Ogg packet, so the
/// first eight bytes of any packet at least that long sit inside a single
/// page's payload — contiguous in the buffer.  A buffer without a
/// contiguous `OpusHead` therefore never reaches the Opus arm, whatever
/// its page structure.  Callers establish the condition with the verified
/// substring search.
#[verifier::external_body]
fn ogg_read(content: &[u8]) -> (r: Option<Vec<ogg_metadata::OggFormat>>)
    requires
        !contains_bytes(content@, opus_head_magic()),
    ensures
        r is Some <==> ogg_streams_of(content@) is Some,
        r matches Some(v) ==> ogg_streams_of(content@) == Some(
            v@.map_values(|f: ogg_metadata::OggFormat| ogg_format_desc(f)).to_multiset(),
        ),
{
    match ogg_metadata::read_format(&mut std::io::Cursor::new(content)) {
        Ok(v) => Some(v),
        Err(_) => None,
    }
}

/// Relies on `ogg_metadata`'s `OggFormat` variants and on
/// `AudioMetadata::get_duration`, whose result depends on the stream's
/// header fields alone; one arm per variant, moving the plain fields only.
#[verifier::external_body]
fn ogg_describe(f: &ogg_metadata::OggFormat) -> (r: OggTrack)
    ensures
        r == ogg_format_desc(*f),
{
    let parts = |d: std::time::Duration| MediaTime { secs: d.as_secs(), nanos: d.subsec_nanos() };
    match f {
        OggFormat::Theora(t) => OggTrack::Theora { width: t.pixels_width, height: t.pixels_height },
        OggFormat::Vorbis(m) => OggTrack::Vorbis { duration: m.get_duration().map(parts) },
        OggFormat::Opus(m) => OggTrack::Opus { duration: m.get_duration().map(parts) },
        OggFormat::Speex => OggTrack::Speex,
        OggFormat::Skeleton => OggTrack::Skeleton,
        OggFormat::Unknown => OggTrack::Unknown,
    }
}

/// A `Result` with both sides replaced by their mathematical images.
pub open spec fn result_view(r: Result<Metadata, Error>) -> Result<MetadataView, ErrorView> {
    match r {
        Ok(m) => Ok(m@),
        Err(e) => Err(e@),
    }
}

/// The last video track of an MP4 track list, if any: in the order the
/// reader returns tracks, a later video track overwrites an earlier one.
pub open spec fn mp4_last_video(tracks: Seq<Mp4Track>) -> Option<Mp4Track>
    decreases tracks.len(),
{
    if tracks.len() == 0 {
        None
    } else if tracks.last() is Video {
        Some(tracks.last())
    } else {
        mp4_last_video(tracks.drop_last())
    }
}

/// The last audio track of an MP4 track list, if any.
pub open spec fn mp4_last_audio(tracks: Seq<Mp4Track>) -> Option<Mp4Track>
    decreases tracks.len(),
{
    if tracks.len() == 0 {
        None
    } else if tracks.last() is Audio {
        Some(tracks.last())
    } else {
        mp4_last_audio(tracks.drop_last())
    }
}

/// The identifier this crate reports for an MP4 video codec.
pub open spec fn mp4_video_name(c: Mp4VideoCodec) -> Seq<char> {
    match c {
        Mp4VideoCodec::Avc => "AVC"@,
        Mp4VideoCodec::Vpx => "VPx"@,
        Mp4VideoCodec::Av1 => "AV1"@,
        Mp4VideoCodec::Mp4v => "MP4V"@,
        Mp4VideoCodec::H263 => "H263"@,
    }
}

/// The identifier this crate reports for an MP4 audio codec.
pub open spec fn mp4_audio_name(c: Mp4AudioCodec) -> Seq<char> {
    match c {
        Mp4AudioCodec::Es => "ES"@,
        Mp4AudioCodec::Flac => "FLAC"@,
        Mp4AudioCodec::Opus => "Opus"@,
        Mp4AudioCodec::Alac => "ALAC"@,
        Mp4AudioCodec::Mp3 => "MP3"@,
        Mp4AudioCodec::Lpcm => "LPCM"@,
    }
}

/// What [`check_mp4`] returns, over the named result of the MP4 reader:
/// `Ok` exactly when a video track is present, with dimensions and codec
/// of the last video track and the codec of the last audio track.
pub open spec fn spec_check_mp4(bytes: Seq<u8>) -> Result<MetadataView, ErrorView> {
    match mp4_tracks_of(bytes) {
        None => Err(ErrorView::UnknownFormat),
        Some(tracks) => match mp4_last_video(tracks) {
            Some(Mp4Track::Video { width, height, codec }) => Ok(
                MetadataView {
                    format: KnownTypes::MP4,
                    duration: None,
                    size: Size { width: width as u32, height: height as u32 },
                    video: mp4_video_name(codec),
                    audio: match mp4_last_audio(tracks) {
                        Some(Mp4Track::Audio { codec: a }) => Some(mp4_audio_name(a)),
                        _ => None,
                    },
                },
            ),
            _ => Err(ErrorView::UnknownFormat),
        },
    }
}

/// An MP4 buffer the reader accepts and that holds a video track.
pub open spec fn mp4_has_video(bytes: Seq<u8>) -> bool {
    mp4_tracks_of(bytes) matches Some(ts) && exists|i: int| 0 <= i < ts.len() && ts[i] is Video
}

/// Probes the buffer as an MP4 container.
///
/// Succeeds if and only if the reader accepts the buffer and it holds a
/// video track.
pub fn check_mp4(content: &[u8]) -> (r: Result<Metadata, Error>)
    ensures
        result_view(r) == spec_check_mp4(content@),
        r is Ok <==> mp4_has_video(content@),
{
    let ctx = match mp4_read(content) {
        Some(c) => c,
        None => {
            return Err(Error::UnknownFormat);
        },
    };
    let ghost ts = mp4_tracks_of(content@).unwrap();
    let n = mp4_track_count(&ctx);
    let mut video: Option<(u16, u16, Mp4VideoCodec)> = None;
    let mut audio: Option<Mp4AudioCodec> = None;
    let mut i: usize = 0;
    proof {
        assert(ts.take(0) =~= Seq::<Mp4Track>::empty());
    }
    while i < n
        invariant
            ts == mp4_ctx_tracks(ctx),
            n == ts.len(),
            i <= n,
            (match mp4_last_video(ts.take(i as int)) {
                Some(Mp4Track::Video { width, height, codec }) => video == Some(
                    (width, height, codec),
                ),
                _ => video is None,
            }),
            (match mp4_last_audio(ts.take(i as int)) {
                Some(Mp4Track::Audio { codec }) => audio == Some(codec),
                _ => audio is None,
            }),
        decreases n - i,
    {
        let desc = mp4_describe(&ctx, i);
        proof {
            assert(ts.take(i + 1).drop_last() =~= ts.take(i as int));
            assert(ts.take(i + 1).last() == ts[i as int]);
        }
        match desc {
            Mp4Track::Video { width, height, codec } => {
                video = Some((width, height, codec));
            },
            Mp4Track::Audio { codec } => {
                audio = Some(codec);
            },
            Mp4Track::Other => {},
        }
        i += 1;
    }
    proof {
        assert(ts.take(n as int) =~= ts);
        lemma_mp4_last_video_exists(ts);
    }
    match video {
        Some((w, h, codec)) => {
            let video_name = match codec {
                Mp4VideoCodec::Avc => "AVC".to_owned(),
                Mp4VideoCodec::Vpx => "VPx".to_owned(),
                Mp4VideoCodec::Av1 => "AV1".to_owned(),
                Mp4VideoCodec::Mp4v => "MP4V".to_owned(),
                Mp4VideoCodec::H263 => "H263".to_owned(),
            };
            let audio_name = match audio {
                Some(Mp4AudioCodec::Es) => Some("ES".to_owned()),
                Some(Mp4AudioCodec::Flac) => Some("FLAC".to_owned()),
                Some(Mp4AudioCodec::Opus) => Some("Opus".to_owned()),
                Some(Mp4AudioCodec::Alac) => Some("ALAC".to_owned()),
                Some(Mp4AudioCodec::Mp3) => Some("MP3".to_owned()),
                Some(Mp4AudioCodec::Lpcm) => Some("LPCM".to_owned()),
                None => None,
            };
            Ok(
                Metadata {
                    format: KnownTypes::MP4,
                    duration: None,
                    size: Size { width: w as u32, height: h as u32 },
                    video: video_name,
                    audio: audio_name,
                },
            )
        },
        None => Err(Error::UnknownFormat),
    }
}

/// A video track exists exactly when a last video track exists.
proof fn lemma_mp4_last_video_exists(tracks: Seq<Mp4Track>)
    ensures
        mp4_last_video(tracks) is Some <==> exists|i: int|
            0 <= i < tracks.len() && tracks[i] is Video,
        mp4_last_video(tracks) matches Some(t) ==> t is Video,
    decreases tracks.len(),
{
    if tracks.len() > 0 {
        lemma_mp4_last_video_exists(tracks.drop_last());
        if tracks.last() is Video {
            assert(tracks[tracks.len() - 1] is Video);
        } else {
            if exists|i: int| 0 <= i < tracks.drop_last().len() && tracks.drop_last()[i] is Video {
                let i = choose|i: int|
                    0 <= i < tracks.drop_last().len() && tracks.drop_last()[i] is Video;
                assert(tracks[i] is Video);
            }
            if exists|i: int| 0 <= i < tracks.len() && tracks[i] is Video {
                let i = choose|i: int| 0 <= i < tracks.len() && tracks[i] is Video;
                assert(tracks.drop_last()[i] is Video);
            }
        }
    }
}

/// The running state of the Ogg fold: what the scan of a stream list has
/// decided so far.
pub struct OggAcc {
    pub width: u32,
    pub height: u32,
    pub video: Seq<char>,
    pub audio: Option<Seq<char>>,
    pub duration: Option<MediaTime>,
}

impl OggAcc {
    pub open spec fn init() -> OggAcc {
        OggAcc { width: 0, height: 0, video: Seq::empty(), audio: None, duration: None }
    }
}

/// One Ogg stream updates the fold: a Theora stream sets the dimensions
/// and the video identifier; Vorbis and Opus set the audio identifier and
/// the duration; Speex and Skeleton set the audio identifier only.
pub open spec fn ogg_apply(acc: OggAcc, t: OggTrack) -> OggAcc {
    match t {
        OggTrack::Theora { width, height } => OggAcc {
            width,
            height,
            video: "Theora"@,
            ..acc
        },
        OggTrack::Vorbis { duration } => OggAcc {
            audio: Some("Vorbis"@),
            duration,
            ..acc
        },
        OggTrack::Opus { duration } => OggAcc { audio: Some("Opus"@), duration, ..acc },
        OggTrack::Speex => OggAcc { audio: Some("Speex"@), ..acc },
        OggTrack::Skeleton => OggAcc { audio: Some("Skeleton"@), ..acc },
        OggTrack::Unknown => acc,
    }
}

pub open spec fn ogg_fold(tracks: Seq<OggTrack>) -> OggAcc
    decreases tracks.len(),
{
    if tracks.len() == 0 {
        OggAcc::init()
    } else {
        ogg_apply(ogg_fold(tracks.drop_last()), tracks.last())
    }
}

/// What [`ogg_meta_from`] returns for one stream list: `Ok` exactly when a
/// Theora stream made the video identifier non-empty.
pub open spec fn spec_ogg_meta(tracks: Seq<OggTrack>) -> Result<MetadataView, ErrorView> {
    let a = ogg_fold(tracks);
    if a.video.len() > 0 {
        Ok(
            MetadataView {
                format: KnownTypes::Ogg,
                duration: a.duration,
                size: Size { width: a.width, height: a.height },
                video: a.video,
                audio: a.audio,
            },
        )
    } else {
        Err(ErrorView::UnknownFormat)
    }
}

/// Folds one list of Ogg stream descriptions into a metadata record.
///
/// This is the verified half of the Ogg probe: the reader's list order is
/// not pinned by its contract, so this function takes whatever list came
/// back and is exact for every value of it.  Succeeds if and only if the
/// list holds a Theora stream.
pub fn ogg_meta_from(tracks: &Vec<OggTrack>) -> (r: Result<Metadata, Error>)
    ensures
        result_view(r) == spec_ogg_meta(tracks@),
        r is Ok <==> exists|i: int| 0 <= i < tracks@.len() && tracks@[i] is Theora,
{
    let ghost ts = tracks@;
    let mut width: u32 = 0;
    let mut height: u32 = 0;
    let mut has_video = false;
    let mut audio: Option<String> = None;
    let mut duration: Option<MediaTime> = None;
    let mut i: usize = 0;
    proof {
        reveal_strlit("Theora");
        assert(ts.take(0) =~= Seq::<OggTrack>::empty());
    }
    while i < tracks.len()
        invariant
            ts == tracks@,
            i <= ts.len(),
            ogg_fold(ts.take(i as int)).width == width,
            ogg_fold(ts.take(i as int)).height == height,
            ogg_fold(ts.take(i as int)).video == (if has_video {
                "Theora"@
            } else {
                Seq::<char>::empty()
            }),
            (match ogg_fold(ts.take(i as int)).audio {
                Some(s) => audio matches Some(x) && x@ == s,
                None => audio is None,
            }),
            ogg_fold(ts.take(i as int)).duration == duration,
        decreases ts.len() - i,
    {
        let desc = tracks[i];
        proof {
            assert(ts.take(i + 1).drop_last() =~= ts.take(i as int));
            assert(ts.take(i + 1).last() == ts[i as int]);
        }
        match desc {
            OggTrack::Theora { width: w, height: h } => {
                width = w;
                height = h;
                has_video = true;
            },
            OggTrack::Vorbis { duration: d } => {
                audio = Some("Vorbis".to_owned());
                duration = d;
            },
            OggTrack::Opus { duration: d } => {
                audio = Some("Opus".to_owned());
                duration = d;
            },
            OggTrack::Speex => {
                audio = Some("Speex".to_owned());
            },
            OggTrack::Skeleton => {
                audio = Some("Skeleton".to_owned());
            },
            OggTrack::Unknown => {},
        }
        i += 1;
    }
    proof {
        assert(ts.take(ts.len() as int) =~= ts);
        lemma_ogg_video_exists(ts);
        reveal_strlit("Theora");
    }
    if has_video {
        Ok(
            Metadata {
                format: KnownTypes::Ogg,
                duration,
                size: Size { width, height },
                video: "Theora".to_owned(),
                audio,
            },
        )
    } else {
        Err(Error::UnknownFormat)
    }
}

/// The folded video identifier is non-empty exactly when a Theora stream
/// exists.
proof fn lemma_ogg_video_exists(tracks: Seq<OggTrack>)
    ensures
        ogg_fold(tracks).video.len() > 0 <==> exists|i: int|
            0 <= i < tracks.len() && tracks[i] is Theora,
    decreases tracks.len(),
{
    reveal_strlit("Theora");
    if tracks.len() > 0 {
        lemma_ogg_video_exists(tracks.drop_last());
        if tracks.last() is Theora {
            assert(tracks[tracks.len() - 1] is Theora);
        } else {
            if exists|i: int| 0 <= i < tracks.drop_last().len() && tracks.drop_last()[i] is Theora {
                let i = choose|i: int|
                    0 <= i < tracks.drop_last().len() && tracks.drop_last()[i] is Theora;
                assert(tracks[i] is Theora);
            }
            if exists|i: int| 0 <= i < tracks.len() && tracks[i] is Theora {
                let i = choose|i: int| 0 <= i < tracks.len() && tracks[i] is Theora;
                assert(tracks.drop_last()[i] is Theora);
            }
        }
    }
}

/// An Ogg buffer the reader accepts and that holds a Theora stream.
pub open spec fn ogg_has_theora(bytes: Seq<u8>) -> bool {
    ogg_streams_of(bytes) matches Some(ms) && exists|t: OggTrack| ms.count(t) > 0 && t is Theora
}

/// The Ogg probe succeeds: the buffer is not screened out, the reader
/// accepts it, and it holds a Theora stream.
pub open spec fn ogg_accepts(bytes: Seq<u8>) -> bool {
    !ogg_probe_declined(bytes) && ogg_has_theora(bytes)
}

/// Probes the buffer as an Ogg container.
///
/// A buffer holding the Opus stream magic is declined up front (see
/// [`ogg_read`]).  Otherwise the probe succeeds if and only if the reader
/// accepts the buffer and it holds a Theora video stream; the result is
/// the fold of *some* ordering of the named stream multiset — the
/// ordering the reader returned.
pub fn check_ogg(content: &[u8]) -> (r: Result<Metadata, Error>)
    ensures
        ogg_probe_declined(content@) ==> result_view(r) == Err::<MetadataView, _>(
            ErrorView::UnknownFormat,
        ),
        !ogg_probe_declined(content@) ==> (ogg_streams_of(content@) is None ==> result_view(r)
            == Err::<MetadataView, _>(ErrorView::UnknownFormat)),
        !ogg_probe_declined(content@) ==> (ogg_streams_of(content@) matches Some(ms)
            ==> exists|s: Seq<OggTrack>| s.to_multiset() == ms && result_view(r)
            == spec_ogg_meta(s)),
        r is Ok <==> ogg_accepts(content@),
{
    broadcast use vstd::seq_lib::group_to_multiset_ensures;

    let magic: Vec<u8> = vec![
        'O' as u8,
        'p' as u8,
        'u' as u8,
        's' as u8,
        'H' as u8,
        'e' as u8,
        'a' as u8,
        'd' as u8,
    ];
    proof {
        assert(magic@ =~= opus_head_magic());
    }
    if find_bytes(content, magic.as_slice()) {
        return Err(Error::UnknownFormat);
    }
    let formats = match ogg_read(content) {
        Some(v) => v,
        None => {
            return Err(Error::UnknownFormat);
        },
    };
    let ghost mapped = formats@.map_values(|f: ogg_metadata::OggFormat| ogg_format_desc(f));
    let mut descs: Vec<OggTrack> = Vec::new();
    let mut i: usize = 0;
    while i < formats.len()
        invariant
            mapped == formats@.map_values(|f: ogg_metadata::OggFormat| ogg_format_desc(f)),
            i <= formats@.len(),
            descs@ == mapped.take(i as int),
        decreases formats@.len() - i,
    {
        let d = ogg_describe(&formats[i]);
        descs.push(d);
        proof {
            assert(mapped.take(i + 1) =~= mapped.take(i as int).push(mapped[i as int]));
        }
        i += 1;
    }
    proof {
        assert(mapped.take(formats@.len() as int) =~= mapped);
    }
    let r = ogg_meta_from(&descs);
    proof {
        let ms = ogg_streams_of(content@).unwrap();
        assert(descs@.to_multiset() == ms);
        if r is Ok {
            let i = choose|i: int| 0 <= i < descs@.len() && descs@[i] is Theora;
            assert(descs@.contains(descs@[i]));
            assert(ms.count(descs@[i]) > 0);
        }
        if ogg_has_theora(content@) {
            let t = choose|t: OggTrack| ms.count(t) > 0 && t is Theora;
            assert(descs@.contains(t));
            let i = choose|i: int| 0 <= i < descs@.len() && descs@[i] == t;
            assert(descs@[i] is Theora);
        }
    }
    r
}

/// What the MP4 leg of [`get_format_from_slice`] contributes when the Ogg
/// probe has failed.
pub open spec fn spec_from_slice_rest(bytes: Seq<u8>) -> Result<MetadataView, ErrorView> {
    if spec_check_mp4(bytes) is Ok {
        spec_check_mp4(bytes)
    } else {
        Err(ErrorView::UnknownFormat)
    }
}

/// Probes one buffer against the delegated container formats, Ogg first,
/// then MP4.
pub fn get_format_from_slice(content: &[u8]) -> (r: Result<Metadata, Error>)
    ensures
        ogg_accepts(content@) ==> (ogg_streams_of(content@) matches Some(ms)
            && exists|s: Seq<OggTrack>| s.to_multiset() == ms && result_view(r) == spec_ogg_meta(
            s,
        )),
        !ogg_accepts(content@) ==> result_view(r) == spec_from_slice_rest(content@),
        r is Ok <==> ogg_accepts(content@) || mp4_has_video(content@),
{
    match check_ogg(content) {
        Ok(meta) => Ok(meta),
        Err(_) => match check_mp4(content) {
            Ok(meta) => Ok(meta),
            Err(_) => Err(Error::UnknownFormat),
        },
    }
}

} // verus!
