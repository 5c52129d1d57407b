//! A resumable, streaming parser for the EBML-style container format of
//! WebM: it classifies a byte stream and extracts header-level metadata even
//! when only a short prefix of the file is available.
//!
//! The executable parser below is proved to compute exactly the byte-fold
//! of the mathematical machine in [`model`]; the laws stated in [`laws`]
//! are theorems about that fold.

pub mod laws;
pub mod model;
pub mod registry;
pub mod varint;

use vstd::prelude::*;
use crate::enums::KnownTypes;
use crate::enums::SniffOutcome;
use crate::types::Metadata;
use crate::types::Size;
use crate::formats::webm::model::AccModel;
use crate::formats::webm::model::Frame;
use crate::formats::webm::model::MPhase;
use crate::formats::webm::model::ParseErrorKind;
use crate::formats::webm::model::ParserModel;
use crate::formats::webm::model::ascii_seq;
use crate::formats::webm::model::chars_of;
use crate::formats::webm::model::commit_str;
use crate::formats::webm::model::commit_track;
use crate::formats::webm::model::commit_uint;
use crate::formats::webm::model::inner_bound;
use crate::formats::webm::model::lemma_mfold_snoc;
use crate::formats::webm::model::lemma_mstep_pos;
use crate::formats::webm::model::lemma_mstep_wf;
use crate::formats::webm::model::mfold;
use crate::formats::webm::model::moutcome;
use crate::formats::webm::model::mstep;
use crate::formats::webm::model::pop_frames;
use crate::formats::webm::model::sat32;
use crate::formats::webm::model::spec_get_information;
use crate::formats::webm::model::start_element;
use crate::formats::webm::registry::ElementKind;
use crate::formats::webm::registry::StrDest;
use crate::formats::webm::registry::UintDest;
use crate::formats::webm::registry::classify;
use crate::formats::webm::registry::K_EBML;
use crate::formats::webm::registry::K_TRACK_ENTRY;
use crate::formats::webm::varint::IdParser;
use crate::formats::webm::varint::SizeParser;
use crate::formats::webm::varint::UNKNOWN_ELEMENT_SIZE;

verus! {

/// Relies on `String::from_utf8`: decoding bytes that are all ASCII yields
/// a string whose characters are exactly those bytes.
#[verifier::external_body]
fn ascii_bytes_to_string(bytes: &Vec<u8>) -> (r: String)
    requires
        ascii_seq(bytes@),
    ensures
        r@ == chars_of(bytes@),
{
    String::from_utf8(bytes.clone()).unwrap_or_default()
}

/// Is every byte ASCII?
fn is_ascii_vec(v: &Vec<u8>) -> (r: bool)
    ensures
        r == ascii_seq(v@),
{
    let mut i: usize = 0;
    while i < v.len()
        invariant
            i <= v@.len(),
            forall|j: int| 0 <= j < i ==> v@[j] < 0x80,
        decreases v@.len() - i,
    {
        if v[i] >= 0x80 {
            return false;
        }
        i += 1;
    }
    true
}

/// Clamps a width or height into the metadata record\'s value range.
fn sat32_exec(v: u64) -> (r: u32)
    ensures
        r == sat32(v),
{
    if v > 0xFFFF_FFFF {
        0xFFFF_FFFF
    } else {
        v as u32
    }
}

/// The executable metadata accumulator; see [`AccModel`].
struct Accumulator {
    width: Option<u64>,
    height: Option<u64>,
    video_codec: Option<Vec<u8>>,
    audio_codec: Option<Vec<u8>>,
    pending_track_type: Option<u64>,
    pending_codec: Option<Vec<u8>>,
}

impl View for Accumulator {
    type V = AccModel;

    closed spec fn view(&self) -> AccModel {
        AccModel {
            width: self.width,
            height: self.height,
            video_codec: match self.video_codec {
                Some(ref v) => Some(v@),
                None => None,
            },
            audio_codec: match self.audio_codec {
                Some(ref v) => Some(v@),
                None => None,
            },
            pending_track_type: self.pending_track_type,
            pending_codec: match self.pending_codec {
                Some(ref v) => Some(v@),
                None => None,
            },
        }
    }
}

/// What the parser is reading at the moment; see [`MPhase`].  The bytes of
/// a string payload live in the parser\'s `str_buf`.
#[derive(Clone, Copy)]
enum Phase {
    ReadId,
    ReadSize,
    LeafUint { dest: UintDest, remaining: u64, acc: u64 },
    LeafString { dest: StrDest, remaining: u64 },
    Skip { remaining: u64 },
    Failed { kind: ParseErrorKind, offset: u64 },
}

/// The resumable traversal state machine.  Deliver input in chunks of any
/// size with [`WebmParser::feed`]; ask for the terminal classification with
/// [`WebmParser::outcome`] once no more input will arrive.
pub struct WebmParser {
    phase: Phase,
    id_parser: IdParser,
    size_parser: SizeParser,
    cur_id: u32,
    pos: u64,
    /// Active containers, innermost last.  Nesting depth is naturally
    /// bounded: every open container costs at least two header bytes of
    /// input, so the stack never outgrows half the bytes consumed.
    stack: Vec<Frame>,
    str_buf: Vec<u8>,
    acc: Accumulator,
    seen_first: bool,
    saw_signature: bool,
}

impl View for WebmParser {
    type V = ParserModel;

    closed spec fn view(&self) -> ParserModel {
        ParserModel {
            phase: match self.phase {
                Phase::ReadId => MPhase::ReadId(self.id_parser@),
                Phase::ReadSize => MPhase::ReadSize(self.cur_id, self.size_parser@),
                Phase::LeafUint { dest, remaining, acc } => MPhase::LeafUint {
                    dest,
                    remaining: remaining as nat,
                    acc: acc as nat,
                },
                Phase::LeafString { dest, remaining } => MPhase::LeafString {
                    dest,
                    remaining: remaining as nat,
                    bytes: self.str_buf@,
                },
                Phase::Skip { remaining } => MPhase::Skip { remaining: remaining as nat },
                Phase::Failed { kind, offset } => MPhase::Failed { kind, offset: offset as nat },
            },
            pos: self.pos as nat,
            stack: self.stack@,
            acc: self.acc@,
            seen_first: self.seen_first,
            saw_signature: self.saw_signature,
        }
    }
}

impl WebmParser {
    pub fn new() -> (r: WebmParser)
        ensures
            r@ == ParserModel::init(),
            r@.wf(),
    {
        let r = WebmParser {
            phase: Phase::ReadId,
            id_parser: IdParser::new(),
            size_parser: SizeParser::new(),
            cur_id: 0,
            pos: 0,
            stack: Vec::new(),
            str_buf: Vec::new(),
            acc: Accumulator {
                width: None,
                height: None,
                video_codec: None,
                audio_codec: None,
                pending_track_type: None,
                pending_codec: None,
            },
            seen_first: false,
            saw_signature: false,
        };
        proof {
            assert(r@.stack =~= ParserModel::init().stack);
        }
        r
    }

    /// The bound of the innermost active container.
    fn inner_bound_exec(&self) -> (r: Option<u64>)
        ensures
            r == inner_bound(self@.stack),
    {
        if self.stack.len() == 0 {
            None
        } else {
            self.stack[self.stack.len() - 1].bound
        }
    }

    /// Commits the pending per-track fields; see `commit_track`.
    fn commit_pending_track(&mut self)
        ensures
            final(self)@ == (ParserModel { acc: commit_track(old(self)@.acc), ..old(self)@ }),
    {
        let tt = self.acc.pending_track_type;
        let pc = self.acc.pending_codec.take();
        let named = match &pc {
            Some(v) => v.len() > 0,
            None => false,
        };
        match tt {
            Some(t) => {
                if t == 1 {
                    if self.acc.video_codec.is_none() && named {
                        self.acc.video_codec = pc;
                    }
                } else if t == 2 {
                    if self.acc.audio_codec.is_none() && named {
                        self.acc.audio_codec = pc;
                    }
                }
            },
            None => {},
        }
        self.acc.pending_track_type = None;
    }

    /// Pops every frame whose bound the cursor has reached; see
    /// `pop_frames`.
    fn do_pops(&mut self)
        ensures
            final(self)@ == pop_frames(old(self)@),
    {
        let mut go = true;
        while go
            invariant
                pop_frames(self@) == pop_frames(old(self)@),
                !go ==> pop_frames(self@) == self@,
            decreases self@.stack.len(), (if go { 1int } else { 0int }),
        {
            if self.stack.len() == 0 {
                go = false;
            } else {
                let top = self.stack[self.stack.len() - 1];
                let at_end = match top.bound {
                    Some(e) => e == self.pos,
                    None => false,
                };
                if at_end {
                    let popped = self.stack.pop().unwrap();
                    if popped.id == K_TRACK_ENTRY {
                        self.commit_pending_track();
                    }
                } else {
                    go = false;
                }
            }
        }
    }

    /// Writes a completed integer leaf into the accumulator.
    fn commit_uint_exec(&mut self, dest: UintDest, v: u64)
        ensures
            final(self)@ == (ParserModel { acc: commit_uint(old(self)@.acc, dest, v), ..old(self)@ }),
    {
        match dest {
            UintDest::PixelWidth => {
                self.acc.width = Some(v);
            },
            UintDest::PixelHeight => {
                self.acc.height = Some(v);
            },
            UintDest::TrackType => {
                self.acc.pending_track_type = Some(v);
            },
        }
    }

    /// Writes a completed string leaf into the accumulator.
    fn commit_str_exec(&mut self, dest: StrDest, bytes: Vec<u8>)
        ensures
            final(self)@ == (ParserModel {
                acc: commit_str(old(self)@.acc, dest, bytes@),
                ..old(self)@
            }),
    {
        if is_ascii_vec(&bytes) {
            match dest {
                StrDest::CodecId => {
                    self.acc.pending_codec = Some(bytes);
                },
            }
        }
    }

    /// A header is complete: classify the element and descend, start
    /// extracting, skip, or fail; see `start_element`.
    fn begin_element(&mut self, id: u32, size: u64)
        ensures
            final(self)@ == start_element(old(self)@, id, size),
    {
        let kind = classify(id);
        if size == UNKNOWN_ELEMENT_SIZE {
            match kind {
                ElementKind::Container => {
                    let inherited = self.inner_bound_exec();
                    self.stack.push(Frame { id, bound: inherited });
                    self.phase = Phase::ReadId;
                    self.id_parser = IdParser::new();
                    self.do_pops();
                },
                _ => {
                    self.phase = Phase::Failed {
                        kind: ParseErrorKind::UnknownSizeOnNonContainer,
                        offset: self.pos,
                    };
                },
            }
        } else if size > u64::MAX - self.pos {
            self.phase = Phase::Failed { kind: ParseErrorKind::SizeOverflow, offset: self.pos };
        } else {
            let end = self.pos + size;
            let crosses = match self.inner_bound_exec() {
                Some(e) => end > e,
                None => false,
            };
            if crosses {
                self.phase = Phase::Failed { kind: ParseErrorKind::SizeOverflow, offset: self.pos };
            } else {
                match kind {
                    ElementKind::Container => {
                        self.stack.push(Frame { id, bound: Some(end) });
                        self.phase = Phase::ReadId;
                        self.id_parser = IdParser::new();
                        self.do_pops();
                    },
                    ElementKind::UintValue(dest) => {
                        if size == 0 {
                            self.commit_uint_exec(dest, 0);
                            self.phase = Phase::ReadId;
                            self.id_parser = IdParser::new();
                            self.do_pops();
                        } else if size > 8 {
                            self.phase = Phase::Skip { remaining: size };
                        } else {
                            self.phase = Phase::LeafUint { dest, remaining: size, acc: 0 };
                        }
                    },
                    ElementKind::StringValue(dest) => {
                        if size == 0 {
                            self.commit_str_exec(dest, Vec::new());
                            self.phase = Phase::ReadId;
                            self.id_parser = IdParser::new();
                            self.do_pops();
                        } else {
                            self.str_buf = Vec::new();
                            self.phase = Phase::LeafString { dest, remaining: size };
                        }
                    },
                    ElementKind::Opaque => {
                        if size == 0 {
                            self.phase = Phase::ReadId;
                            self.id_parser = IdParser::new();
                            self.do_pops();
                        } else {
                            self.phase = Phase::Skip { remaining: size };
                        }
                    },
                }
            }
        }
    }

    /// Advances the machine by one byte of input; see `mstep`.
    fn step_byte(&mut self, b: u8)
        requires
            old(self)@.wf(),
            old(self)@.pos < u64::MAX,
        ensures
            final(self)@ == mstep(old(self)@, b),
            final(self)@.wf(),
    {
        proof {
            lemma_mstep_wf(old(self)@, b);
        }
        match self.phase {
            Phase::Failed { .. } => {},
            Phase::ReadId => {
                let cross = match self.inner_bound_exec() {
                    Some(e) => e == self.pos,
                    None => false,
                };
                if cross {
                    self.phase = Phase::Failed {
                        kind: ParseErrorKind::SizeOverflow,
                        offset: self.pos,
                    };
                    return;
                }
                let at = self.pos;
                self.id_parser.feed_byte(b);
                self.pos = self.pos + 1;
                if self.id_parser.is_failed() {
                    self.phase = Phase::Failed { kind: ParseErrorKind::MalformedVarInt, offset: at };
                    return;
                }
                if self.id_parser.is_done() {
                    let id = if self.id_parser.encoded_length() <= 4 {
                        self.id_parser.id()
                    } else {
                        0
                    };
                    if !self.seen_first {
                        self.seen_first = true;
                        if id == K_EBML {
                            self.saw_signature = true;
                            self.cur_id = id;
                            self.size_parser = SizeParser::new();
                            self.phase = Phase::ReadSize;
                        } else {
                            self.phase = Phase::Failed {
                                kind: ParseErrorKind::UnrecognizedSignature,
                                offset: at,
                            };
                        }
                    } else {
                        self.cur_id = id;
                        self.size_parser = SizeParser::new();
                        self.phase = Phase::ReadSize;
                    }
                }
            },
            Phase::ReadSize => {
                let cross = match self.inner_bound_exec() {
                    Some(e) => e == self.pos,
                    None => false,
                };
                if cross {
                    self.phase = Phase::Failed {
                        kind: ParseErrorKind::SizeOverflow,
                        offset: self.pos,
                    };
                    return;
                }
                let at = self.pos;
                self.size_parser.feed_byte(b);
                self.pos = self.pos + 1;
                if self.size_parser.is_failed() {
                    self.phase = Phase::Failed { kind: ParseErrorKind::MalformedVarInt, offset: at };
                    return;
                }
                if self.size_parser.is_done() {
                    let size = self.size_parser.size();
                    let id = self.cur_id;
                    self.begin_element(id, size);
                }
            },
            Phase::LeafUint { dest, remaining, acc } => {
                let acc2 = acc * 256 + (b as u64);
                self.pos = self.pos + 1;
                if remaining == 1 {
                    self.commit_uint_exec(dest, acc2);
                    self.phase = Phase::ReadId;
                    self.id_parser = IdParser::new();
                    self.do_pops();
                } else {
                    self.phase = Phase::LeafUint { dest, remaining: remaining - 1, acc: acc2 };
                }
            },
            Phase::LeafString { dest, remaining } => {
                self.str_buf.push(b);
                self.pos = self.pos + 1;
                if remaining == 1 {
                    let mut bytes: Vec<u8> = Vec::new();
                    core::mem::swap(&mut bytes, &mut self.str_buf);
                    self.commit_str_exec(dest, bytes);
                    self.phase = Phase::ReadId;
                    self.id_parser = IdParser::new();
                    self.do_pops();
                } else {
                    self.phase = Phase::LeafString { dest, remaining: remaining - 1 };
                }
            },
            Phase::Skip { remaining } => {
                self.pos = self.pos + 1;
                if remaining == 1 {
                    self.phase = Phase::ReadId;
                    self.id_parser = IdParser::new();
                    self.do_pops();
                } else {
                    self.phase = Phase::Skip { remaining: remaining - 1 };
                }
            },
        }
    }

    /// Feeds one chunk of input.  The machine serializes all its progress,
    /// so chunk boundaries are irrelevant: feeding a buffer whole or in any
    /// consecutive pieces reaches the same state.
    pub fn feed(&mut self, i: &[u8])
        requires
            old(self)@.wf(),
            old(self)@.pos + i@.len() <= u64::MAX,
        ensures
            final(self)@ == mfold(old(self)@, i@),
            final(self)@.wf(),
    {
        let ghost s0 = self@;
        let n = i.len();
        let mut idx: usize = 0;
        proof {
            assert(i@.take(0) =~= Seq::<u8>::empty());
        }
        while idx < n
            invariant
                n == i@.len(),
                idx <= n,
                s0.pos + n <= u64::MAX,
                self@ == mfold(s0, i@.take(idx as int)),
                self@.wf(),
                self@.pos <= s0.pos + idx,
            decreases n - idx,
        {
            let b = i[idx];
            proof {
                assert(i@.take(idx as int).push(b) =~= i@.take(idx + 1));
                lemma_mfold_snoc(s0, i@.take(idx as int), b);
                lemma_mstep_pos(self@, b);
            }
            self.step_byte(b);
            idx += 1;
        }
        proof {
            assert(i@.take(n as int) =~= i@);
        }
    }

    /// Terminal classification of everything fed so far, assuming no more
    /// input will arrive; see `moutcome`.
    pub fn outcome(&self) -> (r: SniffOutcome)
        requires
            self@.wf(),
        ensures
            r@ == moutcome(self@),
    {
        match self.phase {
            Phase::Failed { .. } => {
                return SniffOutcome::Unknown;
            },
            _ => {},
        }
        if !self.saw_signature {
            return SniffOutcome::Unknown;
        }
        let video_named = match &self.acc.video_codec {
            Some(v) => v.len() > 0,
            None => false,
        };
        if self.acc.width.is_some() && self.acc.height.is_some() && video_named {
            let w = sat32_exec(self.acc.width.unwrap());
            let h = sat32_exec(self.acc.height.unwrap());
            let video = match &self.acc.video_codec {
                Some(v) => ascii_bytes_to_string(v),
                None => {
                    proof {
                        assert(false);
                    }
                    String::new()
                },
            };
            let audio = match &self.acc.audio_codec {
                Some(v) => Some(ascii_bytes_to_string(v)),
                None => None,
            };
            SniffOutcome::Complete(
                Metadata {
                    format: KnownTypes::WebM,
                    duration: None,
                    size: Size { width: w, height: h },
                    video,
                    audio,
                },
            )
        } else {
            let mut candidates: Vec<KnownTypes> = Vec::new();
            candidates.push(KnownTypes::WebM);
            proof {
                assert(candidates@ =~= seq![KnownTypes::WebM]);
            }
            SniffOutcome::Incomplete(candidates)
        }
    }

    /// The specific error and the byte offset where it was detected, if the
    /// machine has failed (the verbose counterpart of an `Unknown`
    /// outcome).
    pub fn fault(&self) -> (r: Option<(ParseErrorKind, u64)>)
        ensures
            self@.phase matches MPhase::Failed { kind, offset } ==> r == Some(
                (kind, offset as u64),
            ),
            !(self@.phase is Failed) ==> r is None,
    {
        match self.phase {
            Phase::Failed { kind, offset } => Some((kind, offset)),
            _ => None,
        }
    }
}

/// Probes one whole buffer: classifies the stream and extracts what
/// metadata its headers carry.
pub fn get_information(i: &[u8]) -> (r: SniffOutcome)
    ensures
        r@ == spec_get_information(i@),
{
    let mut parser = WebmParser::new();
    proof {
        broadcast use vstd::slice::axiom_spec_len;

        assert(vstd::slice::spec_slice_len(i) == i@.len());
        assert(i@.len() <= u64::MAX);
    }
    parser.feed(i);
    parser.outcome()
}

} // verus!
