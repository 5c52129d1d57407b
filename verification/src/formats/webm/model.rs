//! Mathematical model of the traversal state machine: a byte-at-a-time
//! transition function over an explicit state, folded over the input.  The
//! executable parser in the parent module is proved to compute exactly this
//! fold, and the testable laws of the parser are theorems about it.

use vstd::prelude::*;
use crate::enums::KnownTypes;
use crate::enums::SniffView;
use crate::formats::webm::registry::ElementKind;
use crate::formats::webm::registry::StrDest;
use crate::formats::webm::registry::UintDest;
use crate::formats::webm::registry::K_EBML;
use crate::formats::webm::registry::K_TRACK_ENTRY;
use crate::formats::webm::registry::spec_classify;
use crate::formats::webm::varint::DecodeModel;
use crate::formats::webm::varint::UNKNOWN_ELEMENT_SIZE;
use crate::formats::webm::varint::raw_id;
use crate::formats::webm::varint::spec_size;
use crate::formats::webm::varint::vstep;
use crate::types::MetadataView;
use crate::types::Size;

verus! {

/// The error taxonomy of the traversal.  Every error is reported as a
/// value; the parser never aborts.
#[derive(Clone, Copy, Debug, PartialEq, Eq, Structural)]
pub enum ParseErrorKind {
    /// A VarInt leading byte violates the length rule.
    MalformedVarInt,
    /// A child's declared extent would exceed its parent's remaining bound.
    SizeOverflow,
    /// An open-ended size was declared on a non-container element.
    UnknownSizeOnNonContainer,
    /// The first element of the stream is not the format signature.
    UnrecognizedSignature,
}

/// An active container being traversed.  `bound` is the absolute offset at
/// which the container's body ends — for a container of undeclared extent
/// it is inherited from the parent, so such a container extends to its
/// parent's end (or to the end of the stream at root level).
#[derive(Clone, Copy, Debug, PartialEq, Eq, Structural)]
pub struct Frame {
    pub id: u32,
    pub bound: Option<u64>,
}

/// The metadata accumulator: progressively filled while scanning, plus the
/// per-track-entry fields that are committed when the track entry closes.
pub struct AccModel {
    pub width: Option<u64>,
    pub height: Option<u64>,
    pub video_codec: Option<Seq<u8>>,
    pub audio_codec: Option<Seq<u8>>,
    pub pending_track_type: Option<u64>,
    pub pending_codec: Option<Seq<u8>>,
}

/// What the machine is reading at the moment.
pub enum MPhase {
    /// Reading an element identifier.
    ReadId(DecodeModel),
    /// The identifier is complete; reading the element size.
    ReadSize(u32, DecodeModel),
    /// Reading the payload of a big-endian unsigned integer leaf.
    LeafUint { dest: UintDest, remaining: nat, acc: nat },
    /// Reading the payload of a string leaf.
    LeafString { dest: StrDest, remaining: nat, bytes: Seq<u8> },
    /// Advancing the cursor over an element without reading it.
    Skip { remaining: nat },
    /// A structural error was detected at the given offset; the machine
    /// absorbs all further input.
    Failed { kind: ParseErrorKind, offset: nat },
}

/// The full machine state.
pub struct ParserModel {
    pub phase: MPhase,
    /// Absolute offset of the next byte to consume.
    pub pos: nat,
    /// Active containers, innermost last.
    pub stack: Seq<Frame>,
    pub acc: AccModel,
    /// The first element's identifier has been checked.
    pub seen_first: bool,
    /// The stream opened with the format signature.
    pub saw_signature: bool,
}

/// A byte sequence that is entirely ASCII.
pub open spec fn ascii_seq(s: Seq<u8>) -> bool {
    forall|i: int| 0 <= i < s.len() ==> s[i] < 0x80
}

/// The characters spelled by a sequence of ASCII bytes.
pub open spec fn chars_of(s: Seq<u8>) -> Seq<char> {
    s.map_values(|b: u8| b as char)
}

pub open spec fn opt_ascii(o: Option<Seq<u8>>) -> bool {
    match o {
        Some(s) => ascii_seq(s),
        None => true,
    }
}

/// Strict upper bound on the accumulated value of an integer leaf with
/// `remaining` payload bytes still to come: the payload is at most eight
/// bytes, so the value always fits in 64 bits.
pub open spec fn uint_cap(remaining: nat) -> nat {
    if remaining >= 8 { 1 } else if remaining == 7 { 0x100 } else if remaining == 6 {
        0x10000
    } else if remaining == 5 { 0x1000000 } else if remaining == 4 { 0x100000000 } else if remaining
        == 3 { 0x10000000000 } else if remaining == 2 { 0x1000000000000 } else {
        0x100000000000000
    }
}

impl AccModel {
    pub open spec fn init() -> AccModel {
        AccModel {
            width: None,
            height: None,
            video_codec: None,
            audio_codec: None,
            pending_track_type: None,
            pending_codec: None,
        }
    }

    pub open spec fn wf(self) -> bool {
        opt_ascii(self.video_codec) && opt_ascii(self.audio_codec) && opt_ascii(
            self.pending_codec,
        )
    }
}

impl ParserModel {
    /// The machine before any input.
    pub open spec fn init() -> ParserModel {
        ParserModel {
            phase: MPhase::ReadId(DecodeModel::Fresh),
            pos: 0,
            stack: Seq::empty(),
            acc: AccModel::init(),
            seen_first: false,
            saw_signature: false,
        }
    }

    /// Structural soundness of a reachable machine state.
    pub open spec fn wf(self) -> bool {
        &&& self.pos <= u64::MAX
        &&& self.acc.wf()
        &&& match self.phase {
            MPhase::ReadId(d) => d.wf() && !d.is_terminal(),
            MPhase::ReadSize(_, d) => d.wf() && !d.is_terminal(),
            MPhase::LeafUint { remaining, acc, .. } => 1 <= remaining <= 8 && acc < uint_cap(
                remaining,
            ),
            MPhase::LeafString { remaining, .. } => 1 <= remaining,
            MPhase::Skip { remaining } => 1 <= remaining,
            MPhase::Failed { .. } => true,
        }
    }
}

/// The bound of the innermost active container.
pub open spec fn inner_bound(stack: Seq<Frame>) -> Option<u64> {
    if stack.len() == 0 {
        None
    } else {
        stack.last().bound
    }
}

/// The machine enters its absorbing error state.
pub open spec fn fail(m: ParserModel, kind: ParseErrorKind, offset: nat) -> ParserModel {
    ParserModel { phase: MPhase::Failed { kind, offset }, ..m }
}

/// When a track entry closes, its pending codec identifier is committed to
/// the video or audio slot its track type selects; the first track of each
/// kind wins.  A pending identifier that is absent or empty commits
/// nothing — a later track of the same kind can still fill the slot — so a
/// committed codec identifier is never the empty string.  The pending
/// fields are cleared either way.
pub open spec fn commit_track(acc: AccModel) -> AccModel {
    let committed = if acc.pending_track_type == Some(1u64) && acc.video_codec is None && (
    acc.pending_codec matches Some(c) && c.len() > 0) {
        AccModel { video_codec: acc.pending_codec, ..acc }
    } else if acc.pending_track_type == Some(2u64) && acc.audio_codec is None && (
    acc.pending_codec matches Some(c) && c.len() > 0) {
        AccModel { audio_codec: acc.pending_codec, ..acc }
    } else {
        acc
    };
    AccModel { pending_track_type: None, pending_codec: None, ..committed }
}

/// A completed integer leaf writes its value into the accumulator.
pub open spec fn commit_uint(acc: AccModel, dest: UintDest, v: u64) -> AccModel {
    match dest {
        UintDest::PixelWidth => AccModel { width: Some(v), ..acc },
        UintDest::PixelHeight => AccModel { height: Some(v), ..acc },
        UintDest::TrackType => AccModel { pending_track_type: Some(v), ..acc },
    }
}

/// A completed string leaf writes its bytes into the accumulator.  The
/// string payloads this parser extracts are codec identifiers, whose
/// repertoire in this container format is ASCII.  This is a deliberate
/// restriction: a payload with bytes outside ASCII is treated as absent,
/// not decoded.
pub open spec fn commit_str(acc: AccModel, dest: StrDest, bytes: Seq<u8>) -> AccModel {
    if ascii_seq(bytes) {
        match dest {
            StrDest::CodecId => AccModel { pending_codec: Some(bytes), ..acc },
        }
    } else {
        acc
    }
}

/// Every frame whose bound the cursor has reached is popped, innermost
/// first; popping a track entry commits its pending fields.
pub open spec fn pop_frames(m: ParserModel) -> ParserModel
    decreases m.stack.len(),
{
    if m.stack.len() > 0 && m.stack.last().bound == Some(m.pos as u64) {
        let f = m.stack.last();
        let acc2 = if f.id == K_TRACK_ENTRY {
            commit_track(m.acc)
        } else {
            m.acc
        };
        pop_frames(ParserModel { stack: m.stack.drop_last(), acc: acc2, ..m })
    } else {
        m
    }
}

/// A header (identifier and size) is complete: classify the element and
/// descend, start extracting, skip, or fail.  `m.pos` is the offset of the
/// element's body; `size` may be the unknown-size sentinel.
pub open spec fn start_element(m: ParserModel, id: u32, size: u64) -> ParserModel {
    let kind = spec_classify(id);
    if size == UNKNOWN_ELEMENT_SIZE {
        if kind is Container {
            // Extends to the parent's end: inherit the parent's bound.
            let frame = Frame { id, bound: inner_bound(m.stack) };
            pop_frames(
                ParserModel {
                    phase: MPhase::ReadId(DecodeModel::Fresh),
                    stack: m.stack.push(frame),
                    ..m
                },
            )
        } else {
            fail(m, ParseErrorKind::UnknownSizeOnNonContainer, m.pos)
        }
    } else if m.pos + size > u64::MAX {
        // An extent beyond the addressable range cannot lie inside any
        // input this machine can be fed.
        fail(m, ParseErrorKind::SizeOverflow, m.pos)
    } else if inner_bound(m.stack) matches Some(e) && m.pos + size > e {
        fail(m, ParseErrorKind::SizeOverflow, m.pos)
    } else {
        match kind {
            ElementKind::Container => {
                let frame = Frame { id, bound: Some((m.pos + size) as u64) };
                pop_frames(
                    ParserModel {
                        phase: MPhase::ReadId(DecodeModel::Fresh),
                        stack: m.stack.push(frame),
                        ..m
                    },
                )
            },
            ElementKind::UintValue(dest) => {
                if size == 0 {
                    pop_frames(
                        ParserModel {
                            phase: MPhase::ReadId(DecodeModel::Fresh),
                            acc: commit_uint(m.acc, dest, 0),
                            ..m
                        },
                    )
                } else if size > 8 {
                    // Wider than the value type: no useful value; treated
                    // as opaque.
                    ParserModel { phase: MPhase::Skip { remaining: size as nat }, ..m }
                } else {
                    ParserModel {
                        phase: MPhase::LeafUint { dest, remaining: size as nat, acc: 0 },
                        ..m
                    }
                }
            },
            ElementKind::StringValue(dest) => {
                if size == 0 {
                    pop_frames(
                        ParserModel {
                            phase: MPhase::ReadId(DecodeModel::Fresh),
                            acc: commit_str(m.acc, dest, Seq::empty()),
                            ..m
                        },
                    )
                } else {
                    ParserModel {
                        phase: MPhase::LeafString {
                            dest,
                            remaining: size as nat,
                            bytes: Seq::empty(),
                        },
                        ..m
                    }
                }
            },
            ElementKind::Opaque => {
                if size == 0 {
                    pop_frames(ParserModel { phase: MPhase::ReadId(DecodeModel::Fresh), ..m })
                } else {
                    ParserModel { phase: MPhase::Skip { remaining: size as nat }, ..m }
                }
            },
        }
    }
}

/// One byte of input advances the machine.  The error phase absorbs.
pub open spec fn mstep(m: ParserModel, b: u8) -> ParserModel {
    match m.phase {
        MPhase::Failed { .. } => m,
        MPhase::ReadId(d) => {
            if inner_bound(m.stack) == Some(m.pos as u64) {
                // The element's header would straddle its parent's end.
                fail(m, ParseErrorKind::SizeOverflow, m.pos)
            } else {
                let d2 = vstep(d, b);
                let m2 = ParserModel { pos: m.pos + 1, ..m };
                match d2 {
                    DecodeModel::Failed => fail(m2, ParseErrorKind::MalformedVarInt, m.pos),
                    DecodeModel::Done { extra, value } => {
                        // Identifiers longer than four bytes fit no
                        // registry entry; they carry the null identifier,
                        // which classifies as unrecognized.
                        let id = if extra <= 3 {
                            raw_id(extra, value) as u32
                        } else {
                            0u32
                        };
                        if !m2.seen_first {
                            if id == K_EBML {
                                ParserModel {
                                    phase: MPhase::ReadSize(id, DecodeModel::Fresh),
                                    seen_first: true,
                                    saw_signature: true,
                                    ..m2
                                }
                            } else {
                                fail(
                                    ParserModel { seen_first: true, ..m2 },
                                    ParseErrorKind::UnrecognizedSignature,
                                    m.pos,
                                )
                            }
                        } else {
                            ParserModel { phase: MPhase::ReadSize(id, DecodeModel::Fresh), ..m2 }
                        }
                    },
                    _ => ParserModel { phase: MPhase::ReadId(d2), ..m2 },
                }
            }
        },
        MPhase::ReadSize(id, d) => {
            if inner_bound(m.stack) == Some(m.pos as u64) {
                fail(m, ParseErrorKind::SizeOverflow, m.pos)
            } else {
                let d2 = vstep(d, b);
                let m2 = ParserModel { pos: m.pos + 1, ..m };
                match d2 {
                    DecodeModel::Failed => fail(m2, ParseErrorKind::MalformedVarInt, m.pos),
                    DecodeModel::Done { extra, value } => start_element(
                        m2,
                        id,
                        spec_size(extra, value),
                    ),
                    _ => ParserModel { phase: MPhase::ReadSize(id, d2), ..m2 },
                }
            }
        },
        MPhase::LeafUint { dest, remaining, acc } => {
            let acc2 = acc * 256 + b;
            let m2 = ParserModel { pos: m.pos + 1, ..m };
            if remaining == 1 {
                pop_frames(
                    ParserModel {
                        phase: MPhase::ReadId(DecodeModel::Fresh),
                        acc: commit_uint(m.acc, dest, acc2 as u64),
                        ..m2
                    },
                )
            } else {
                ParserModel {
                    phase: MPhase::LeafUint {
                        dest,
                        remaining: (remaining - 1) as nat,
                        acc: acc2 as nat,
                    },
                    ..m2
                }
            }
        },
        MPhase::LeafString { dest, remaining, bytes } => {
            let bytes2 = bytes.push(b);
            let m2 = ParserModel { pos: m.pos + 1, ..m };
            if remaining == 1 {
                pop_frames(
                    ParserModel {
                        phase: MPhase::ReadId(DecodeModel::Fresh),
                        acc: commit_str(m.acc, dest, bytes2),
                        ..m2
                    },
                )
            } else {
                ParserModel {
                    phase: MPhase::LeafString {
                        dest,
                        remaining: (remaining - 1) as nat,
                        bytes: bytes2,
                    },
                    ..m2
                }
            }
        },
        MPhase::Skip { remaining } => {
            let m2 = ParserModel { pos: m.pos + 1, ..m };
            if remaining == 1 {
                pop_frames(ParserModel { phase: MPhase::ReadId(DecodeModel::Fresh), ..m2 })
            } else {
                ParserModel { phase: MPhase::Skip { remaining: (remaining - 1) as nat }, ..m2 }
            }
        },
    }
}

/// The machine state after an entire byte sequence.
pub open spec fn mfold(m: ParserModel, input: Seq<u8>) -> ParserModel
    decreases input.len(),
{
    if input.len() == 0 {
        m
    } else {
        mfold(mstep(m, input.first()), input.drop_first())
    }
}

/// All required fields were discovered: the pixel dimensions, and a video
/// codec identifier that names a codec (a `Complete` probe never carries
/// an empty video identifier).
pub open spec fn required_done(acc: AccModel) -> bool {
    acc.width is Some && acc.height is Some && (acc.video_codec matches Some(c) && c.len() > 0)
}

pub open spec fn opt_u64(o: Option<u64>, default: u64) -> u64 {
    match o {
        Some(v) => v,
        None => default,
    }
}

/// A width or height clamped into the metadata record's value range.
pub open spec fn sat32(v: u64) -> u32 {
    if v > u32::MAX {
        u32::MAX
    } else {
        v as u32
    }
}

/// The metadata record a finished accumulator yields.  The duration of this
/// container family is written in an encoding outside the registry's value
/// encodings, so this parser leaves it unset.
pub open spec fn meta_of(acc: AccModel) -> MetadataView {
    MetadataView {
        format: KnownTypes::WebM,
        duration: None,
        size: Size {
            width: sat32(opt_u64(acc.width, 0)),
            height: sat32(opt_u64(acc.height, 0)),
        },
        video: match acc.video_codec {
            Some(bytes) => chars_of(bytes),
            None => Seq::empty(),
        },
        audio: match acc.audio_codec {
            Some(bytes) => Some(chars_of(bytes)),
            None => None,
        },
    }
}

/// Terminal classification once the caller has no more input to offer:
/// a structural error or a missing signature is `Unknown`; with the
/// required fields discovered the probe is `Complete`; otherwise the
/// signature alone makes the stream a recognized-but-incomplete candidate.
pub open spec fn moutcome(m: ParserModel) -> SniffView {
    if m.phase is Failed {
        SniffView::Unknown
    } else if !m.saw_signature {
        SniffView::Unknown
    } else if required_done(m.acc) {
        SniffView::Complete(meta_of(m.acc))
    } else {
        SniffView::Incomplete(seq![KnownTypes::WebM])
    }
}

/// What probing a whole buffer from scratch yields.
pub open spec fn spec_get_information(input: Seq<u8>) -> SniffView {
    moutcome(mfold(ParserModel::init(), input))
}

/// Popping frames touches neither phase nor position, and keeps the
/// accumulator well-formed.
pub proof fn lemma_pop_frames_wf(m: ParserModel)
    requires
        m.acc.wf(),
    ensures
        pop_frames(m).phase == m.phase,
        pop_frames(m).pos == m.pos,
        pop_frames(m).seen_first == m.seen_first,
        pop_frames(m).saw_signature == m.saw_signature,
        pop_frames(m).acc.wf(),
    decreases m.stack.len(),
{
    if m.stack.len() > 0 && m.stack.last().bound == Some(m.pos as u64) {
        let f = m.stack.last();
        let acc2 = if f.id == K_TRACK_ENTRY {
            commit_track(m.acc)
        } else {
            m.acc
        };
        lemma_pop_frames_wf(ParserModel { stack: m.stack.drop_last(), acc: acc2, ..m });
    }
}

/// A step preserves well-formedness.
pub proof fn lemma_mstep_wf(m: ParserModel, b: u8)
    requires
        m.wf(),
        m.pos < u64::MAX || m.phase is Failed,
    ensures
        mstep(m, b).wf(),
{
    match m.phase {
        MPhase::Failed { .. } => {},
        MPhase::ReadId(d) => {
            if inner_bound(m.stack) != Some(m.pos as u64) {
                let d2 = vstep(d, b);
                let m2 = ParserModel { pos: m.pos + 1, ..m };
                if d2 is Done && !m2.seen_first {
                } else {
                }
            }
        },
        MPhase::ReadSize(id, d) => {
            if inner_bound(m.stack) != Some(m.pos as u64) {
                let d2 = vstep(d, b);
                let m2 = ParserModel { pos: m.pos + 1, ..m };
                match d2 {
                    DecodeModel::Done { extra, value } => {
                        lemma_start_element_wf(m2, id, spec_size(extra, value));
                    },
                    _ => {},
                }
            }
        },
        MPhase::LeafUint { dest, remaining, acc } => {
            let m2 = ParserModel { pos: m.pos + 1, ..m };
            if remaining == 1 {
                lemma_pop_frames_wf(
                    ParserModel {
                        phase: MPhase::ReadId(DecodeModel::Fresh),
                        acc: commit_uint(m.acc, dest, (acc * 256 + b) as u64),
                        ..m2
                    },
                );
            }
        },
        MPhase::LeafString { dest, remaining, bytes } => {
            let m2 = ParserModel { pos: m.pos + 1, ..m };
            if remaining == 1 {
                lemma_pop_frames_wf(
                    ParserModel {
                        phase: MPhase::ReadId(DecodeModel::Fresh),
                        acc: commit_str(m.acc, dest, bytes.push(b)),
                        ..m2
                    },
                );
            }
        },
        MPhase::Skip { remaining } => {
            let m2 = ParserModel { pos: m.pos + 1, ..m };
            if remaining == 1 {
                lemma_pop_frames_wf(ParserModel { phase: MPhase::ReadId(DecodeModel::Fresh), ..m2 });
            }
        },
    }
}

/// Classifying a completed header preserves well-formedness.
pub proof fn lemma_start_element_wf(m: ParserModel, id: u32, size: u64)
    requires
        m.pos <= u64::MAX,
        m.acc.wf(),
    ensures
        start_element(m, id, size).wf(),
{
    let kind = spec_classify(id);
    if size == UNKNOWN_ELEMENT_SIZE {
        if kind is Container {
            lemma_pop_frames_wf(
                ParserModel {
                    phase: MPhase::ReadId(DecodeModel::Fresh),
                    stack: m.stack.push(Frame { id, bound: inner_bound(m.stack) }),
                    ..m
                },
            );
        }
    } else if m.pos + size > u64::MAX {
    } else if inner_bound(m.stack) matches Some(e) && m.pos + size > e {
    } else {
        match kind {
            ElementKind::Container => {
                lemma_pop_frames_wf(
                    ParserModel {
                        phase: MPhase::ReadId(DecodeModel::Fresh),
                        stack: m.stack.push(Frame { id, bound: Some((m.pos + size) as u64) }),
                        ..m
                    },
                );
            },
            ElementKind::UintValue(dest) => {
                if size == 0 {
                    lemma_pop_frames_wf(
                        ParserModel {
                            phase: MPhase::ReadId(DecodeModel::Fresh),
                            acc: commit_uint(m.acc, dest, 0),
                            ..m
                        },
                    );
                }
            },
            ElementKind::StringValue(dest) => {
                if size == 0 {
                    lemma_pop_frames_wf(
                        ParserModel {
                            phase: MPhase::ReadId(DecodeModel::Fresh),
                            acc: commit_str(m.acc, dest, Seq::empty()),
                            ..m
                        },
                    );
                }
            },
            ElementKind::Opaque => {
                if size == 0 {
                    lemma_pop_frames_wf(
                        ParserModel { phase: MPhase::ReadId(DecodeModel::Fresh), ..m },
                    );
                }
            },
        }
    }
}


/// Popping frames never moves the cursor.
pub proof fn lemma_pop_frames_pos(m: ParserModel)
    ensures
        pop_frames(m).pos == m.pos,
        pop_frames(m).phase == m.phase,
    decreases m.stack.len(),
{
    if m.stack.len() > 0 && m.stack.last().bound == Some(m.pos as u64) {
        let f = m.stack.last();
        let acc2 = if f.id == K_TRACK_ENTRY {
            commit_track(m.acc)
        } else {
            m.acc
        };
        lemma_pop_frames_pos(ParserModel { stack: m.stack.drop_last(), acc: acc2, ..m });
    }
}

/// Classifying a header never moves the cursor.
pub proof fn lemma_start_element_pos(m: ParserModel, id: u32, size: u64)
    ensures
        start_element(m, id, size).pos == m.pos,
{
    let kind = spec_classify(id);
    if size == UNKNOWN_ELEMENT_SIZE {
        if kind is Container {
            lemma_pop_frames_pos(
                ParserModel {
                    phase: MPhase::ReadId(DecodeModel::Fresh),
                    stack: m.stack.push(Frame { id, bound: inner_bound(m.stack) }),
                    ..m
                },
            );
        }
    } else if m.pos + size > u64::MAX {
    } else if inner_bound(m.stack) matches Some(e) && m.pos + size > e {
    } else {
        match kind {
            ElementKind::Container => {
                lemma_pop_frames_pos(
                    ParserModel {
                        phase: MPhase::ReadId(DecodeModel::Fresh),
                        stack: m.stack.push(Frame { id, bound: Some((m.pos + size) as u64) }),
                        ..m
                    },
                );
            },
            ElementKind::UintValue(dest) => {
                if size == 0 {
                    lemma_pop_frames_pos(
                        ParserModel {
                            phase: MPhase::ReadId(DecodeModel::Fresh),
                            acc: commit_uint(m.acc, dest, 0),
                            ..m
                        },
                    );
                }
            },
            ElementKind::StringValue(dest) => {
                if size == 0 {
                    lemma_pop_frames_pos(
                        ParserModel {
                            phase: MPhase::ReadId(DecodeModel::Fresh),
                            acc: commit_str(m.acc, dest, Seq::empty()),
                            ..m
                        },
                    );
                }
            },
            ElementKind::Opaque => {
                if size == 0 {
                    lemma_pop_frames_pos(
                        ParserModel { phase: MPhase::ReadId(DecodeModel::Fresh), ..m },
                    );
                }
            },
        }
    }
}

/// A step advances the cursor by at most one byte.
pub proof fn lemma_mstep_pos(m: ParserModel, b: u8)
    ensures
        m.pos <= mstep(m, b).pos <= m.pos + 1,
{
    match m.phase {
        MPhase::Failed { .. } => {},
        MPhase::ReadId(d) => {
            if inner_bound(m.stack) != Some(m.pos as u64) {
                let d2 = vstep(d, b);
                let m2 = ParserModel { pos: m.pos + 1, ..m };
            }
        },
        MPhase::ReadSize(id, d) => {
            if inner_bound(m.stack) != Some(m.pos as u64) {
                let d2 = vstep(d, b);
                let m2 = ParserModel { pos: m.pos + 1, ..m };
                match d2 {
                    DecodeModel::Done { extra, value } => {
                        lemma_start_element_pos(m2, id, spec_size(extra, value));
                    },
                    _ => {},
                }
            }
        },
        MPhase::LeafUint { dest, remaining, acc } => {
            let m2 = ParserModel { pos: m.pos + 1, ..m };
            if remaining == 1 {
                lemma_pop_frames_pos(
                    ParserModel {
                        phase: MPhase::ReadId(DecodeModel::Fresh),
                        acc: commit_uint(m.acc, dest, (acc * 256 + b) as u64),
                        ..m2
                    },
                );
            }
        },
        MPhase::LeafString { dest, remaining, bytes } => {
            let m2 = ParserModel { pos: m.pos + 1, ..m };
            if remaining == 1 {
                lemma_pop_frames_pos(
                    ParserModel {
                        phase: MPhase::ReadId(DecodeModel::Fresh),
                        acc: commit_str(m.acc, dest, bytes.push(b)),
                        ..m2
                    },
                );
            }
        },
        MPhase::Skip { remaining } => {
            let m2 = ParserModel { pos: m.pos + 1, ..m };
            if remaining == 1 {
                lemma_pop_frames_pos(
                    ParserModel { phase: MPhase::ReadId(DecodeModel::Fresh), ..m2 },
                );
            }
        },
    }
}

/// Appending one byte to the input folds one more step.
pub proof fn lemma_mfold_snoc(m: ParserModel, input: Seq<u8>, b: u8)
    ensures
        mfold(m, input.push(b)) == mstep(mfold(m, input), b),
    decreases input.len(),
{
    if input.len() == 0 {
        assert(input.push(b).first() == b);
        assert(input.push(b).drop_first() =~= input);
    } else {
        assert(input.push(b).first() == input.first());
        assert(input.push(b).drop_first() =~= input.drop_first().push(b));
        lemma_mfold_snoc(mstep(m, input.first()), input.drop_first(), b);
        assert(mfold(m, input.push(b))
            == mfold(mstep(m, input.push(b).first()), input.push(b).drop_first()));
        assert(mfold(m, input) == mfold(mstep(m, input.first()), input.drop_first()));
    }
}

} // verus!
