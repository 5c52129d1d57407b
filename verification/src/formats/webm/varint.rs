//! Resumable decoders for the self-describing variable-length integers of
//! the EBML container family.
//!
//! A VarInt announces its total length in its first byte: the number of
//! leading zero bits gives the count of payload bytes that follow when the
//! marker bit lies inside the top nibble (one to four bytes in all), and an
//! all-zero first byte signals the maximum, eight-byte length (seven
//! payload bytes).  Any other first byte with an all-zero top nibble cannot
//! encode a valid length and is malformed.  Payload bytes accumulate
//! big-endian; the marker bit is not part of the decoded value.
//!
//! Each decoder is a value-like state machine advanced by `feed`, so a
//! caller may deliver input in arbitrarily sized chunks; feeding a buffer in
//! one call or in any split into consecutive chunks reaches the same state
//! (see [`lemma_feed_split`]).

use vstd::prelude::*;

verus! {

/// Outcome of feeding one chunk of input to a decoder.
#[derive(Clone, Copy, Debug, PartialEq, Eq, Structural)]
pub enum FeedOutcome {
    /// The value is complete; it became complete after the given number of
    /// bytes of this chunk (the rest of the chunk was not consumed).
    Consumed(usize),
    /// The whole chunk was consumed and the value is still incomplete.
    NeedMoreBytes,
    /// The leading byte cannot encode a valid length.
    Malformed,
}

/// Mathematical state of a VarInt decoder.
pub enum DecodeModel {
    /// No byte seen yet.
    Fresh,
    /// The first byte announced `extra` payload bytes; `remaining` of them
    /// are still to come; `value` holds the bits accumulated so far, marker
    /// stripped.
    Busy { extra: nat, remaining: nat, value: nat },
    /// The value is complete.
    Done { extra: nat, value: nat },
    /// A malformed leading byte was seen.
    Failed,
}

/// Number of leading zero bits of `b`, as a mathematical function.
pub open spec fn spec_leading_zeros(b: u8) -> nat {
    if b >= 0x80 { 0 } else if b >= 0x40 { 1 } else if b >= 0x20 { 2 } else if b >= 0x10 { 3 }
    else if b >= 0x08 { 4 } else if b >= 0x04 { 5 } else if b >= 0x02 { 6 } else if b >= 0x01 { 7 }
    else { 8 }
}

/// The value contributed by the marker bit of a leading byte with `extra`
/// payload bytes, for the top-nibble forms (the all-zero first byte of the
/// eight-byte form contributes no data bits at all).
pub open spec fn spec_marker(extra: nat) -> nat {
    if extra == 0 { 0x80 } else if extra == 1 { 0x40 } else if extra == 2 { 0x20 } else { 0x10 }
}

/// Strict upper bound on the accumulated value of a busy decoder.
pub open spec fn busy_cap(extra: nat, remaining: nat) -> nat {
    if extra == 1 { 0x40 }
    else if extra == 2 { if remaining == 2 { 0x20 } else { 0x2000 } }
    else if extra == 3 {
        if remaining == 3 { 0x10 } else if remaining == 2 { 0x1000 } else { 0x100000 }
    }
    else {
        if remaining == 7 { 1 } else if remaining == 6 { 0x100 } else if remaining == 5 {
            0x10000
        } else if remaining == 4 { 0x1000000 } else if remaining == 3 { 0x100000000 }
        else if remaining == 2 { 0x10000000000 } else { 0x1000000000000 }
    }
}

/// Strict upper bound on a completed value: the number of data bits the
/// encoded length admits.
pub open spec fn done_cap(extra: nat) -> nat {
    if extra == 0 { 0x80 } else if extra == 1 { 0x4000 } else if extra == 2 { 0x200000 }
    else if extra == 3 { 0x10000000 } else { 0x100000000000000 }
}

impl DecodeModel {
    /// Structural soundness: a reachable decoder state always satisfies
    /// this, and it bounds the accumulated value.
    pub open spec fn wf(self) -> bool {
        match self {
            DecodeModel::Fresh => true,
            DecodeModel::Failed => true,
            DecodeModel::Busy { extra, remaining, value } => 1 <= remaining <= extra && (extra
                <= 3 || extra == 7) && value < busy_cap(extra, remaining),
            DecodeModel::Done { extra, value } => (extra <= 3 || extra == 7) && value < done_cap(
                extra,
            ),
        }
    }

    pub open spec fn is_terminal(self) -> bool {
        self is Done || self is Failed
    }
}

/// One byte of input advances the decoder state.  Terminal states absorb.
pub open spec fn vstep(s: DecodeModel, b: u8) -> DecodeModel {
    match s {
        DecodeModel::Fresh => {
            if b == 0 {
                DecodeModel::Busy { extra: 7, remaining: 7, value: 0 }
            } else if b < 0x10 {
                DecodeModel::Failed
            } else {
                let extra = spec_leading_zeros(b);
                let data = (b - spec_marker(extra)) as nat;
                if extra == 0 {
                    DecodeModel::Done { extra: 0, value: data }
                } else {
                    DecodeModel::Busy { extra, remaining: extra, value: data }
                }
            }
        },
        DecodeModel::Busy { extra, remaining, value } => {
            if remaining == 1 {
                DecodeModel::Done { extra, value: (value * 256 + b) as nat }
            } else {
                DecodeModel::Busy { extra, remaining: (remaining - 1) as nat, value: (value * 256 + b) as nat }
            }
        },
        DecodeModel::Done { .. } => s,
        DecodeModel::Failed => s,
    }
}

/// The decoder state after an entire byte sequence.
pub open spec fn vfold(s: DecodeModel, input: Seq<u8>) -> DecodeModel
    decreases input.len(),
{
    if input.len() == 0 {
        s
    } else {
        vfold(vstep(s, input.first()), input.drop_first())
    }
}

/// How many bytes of `input` a decoder starting at `s` consumes: it stops
/// consuming once the value is complete or malformed.
pub open spec fn vconsumed(s: DecodeModel, input: Seq<u8>) -> nat
    decreases input.len(),
{
    if input.len() == 0 || s.is_terminal() {
        0
    } else {
        1 + vconsumed(vstep(s, input.first()), input.drop_first())
    }
}

/// Appending one byte to the input folds one more step.
pub proof fn lemma_vfold_snoc(s: DecodeModel, input: Seq<u8>, b: u8)
    ensures
        vfold(s, input.push(b)) == vstep(vfold(s, input), b),
    decreases input.len(),
{
    if input.len() == 0 {
        assert(input.push(b).first() == b);
        assert(input.push(b).drop_first() =~= input);
    } else {
        assert(input.push(b).first() == input.first());
        assert(input.push(b).drop_first() =~= input.drop_first().push(b));
        lemma_vfold_snoc(vstep(s, input.first()), input.drop_first(), b);
        assert(vfold(s, input.push(b))
            == vfold(vstep(s, input.push(b).first()), input.push(b).drop_first()));
        assert(vfold(vstep(s, input.first()), input.drop_first().push(b))
            == vstep(vfold(vstep(s, input.first()), input.drop_first()), b));
        assert(vfold(s, input) == vfold(vstep(s, input.first()), input.drop_first()));
    }
}

/// A terminal state absorbs all further input.
pub proof fn lemma_vfold_terminal(s: DecodeModel, input: Seq<u8>)
    requires
        s.is_terminal(),
    ensures
        vfold(s, input) == s,
    decreases input.len(),
{
    if input.len() > 0 {
        lemma_vfold_terminal(vstep(s, input.first()), input.drop_first());
    }
}

/// The companion of [`lemma_vfold_snoc`] for the consumed-byte count.
pub proof fn lemma_vconsumed_snoc(s: DecodeModel, input: Seq<u8>, b: u8)
    ensures
        vconsumed(s, input.push(b)) == vconsumed(s, input)
            + (if vfold(s, input).is_terminal() { 0int } else { 1int }),
    decreases input.len(),
{
    if s.is_terminal() {
        lemma_vfold_terminal(s, input);
        assert(vconsumed(s, input.push(b)) == 0);
        assert(vconsumed(s, input) == 0);
    } else if input.len() == 0 {
        assert(input.push(b).first() == b);
        assert(input.push(b).drop_first() =~= input);
        assert(vconsumed(s, input.push(b))
            == 1 + vconsumed(vstep(s, b), input.push(b).drop_first()));
        assert(vconsumed(vstep(s, b), Seq::<u8>::empty()) == 0);
    } else {
        assert(input.push(b).first() == input.first());
        assert(input.push(b).drop_first() =~= input.drop_first().push(b));
        lemma_vconsumed_snoc(vstep(s, input.first()), input.drop_first(), b);
        assert(vconsumed(s, input.push(b))
            == 1 + vconsumed(vstep(s, input.first()), input.drop_first().push(b)));
        assert(vconsumed(s, input)
            == 1 + vconsumed(vstep(s, input.first()), input.drop_first()));
        assert(vfold(s, input) == vfold(vstep(s, input.first()), input.drop_first()));
    }
}

/// A decoder never consumes more bytes than it was given.
pub proof fn lemma_vconsumed_le(s: DecodeModel, input: Seq<u8>)
    ensures
        vconsumed(s, input) <= input.len(),
    decreases input.len(),
{
    if input.len() > 0 && !s.is_terminal() {
        lemma_vconsumed_le(vstep(s, input.first()), input.drop_first());
    }
}

/// Resumability of the decoders: feeding a buffer in one piece and feeding
/// its two halves one after the other reach the same state, for every split
/// point.
pub proof fn lemma_feed_split(s: DecodeModel, a: Seq<u8>, b: Seq<u8>)
    ensures
        vfold(s, a + b) == vfold(vfold(s, a), b),
    decreases a.len(),
{
    if a.len() == 0 {
        assert(a + b =~= b);
    } else {
        assert((a + b).first() == a.first());
        assert((a + b).drop_first() =~= a.drop_first() + b);
        lemma_feed_split(vstep(s, a.first()), a.drop_first(), b);
    }
}

/// Number of leading zero bits of `value`; 8 for an all-zero byte.
pub fn get_leading_zeros(value: u8) -> (r: usize)
    ensures
        r == spec_leading_zeros(value),
{
    if value >= 0x80 { 0 } else if value >= 0x40 { 1 } else if value >= 0x20 { 2 }
    else if value >= 0x10 { 3 } else if value >= 0x08 { 4 } else if value >= 0x04 { 5 }
    else if value >= 0x02 { 6 } else if value >= 0x01 { 7 } else { 8 }
}

/// Resumable decoder for a VarInt value with the marker bit stripped.
pub struct VarIntParser {
    /// `None`: no byte seen yet.  `Some(k)`: `k` payload bytes still to come.
    bytes_remaining: Option<u8>,
    /// Payload bytes after the first, as the first byte announced.
    total_data_bytes: u8,
    /// Value accumulated so far, marker bit stripped.
    value: u64,
    /// A malformed leading byte was seen.
    failed: bool,
}

impl View for VarIntParser {
    type V = DecodeModel;

    closed spec fn view(&self) -> DecodeModel {
        if self.failed {
            DecodeModel::Failed
        } else {
            match self.bytes_remaining {
                None => DecodeModel::Fresh,
                Some(k) => {
                    if k == 0 {
                        DecodeModel::Done {
                            extra: self.total_data_bytes as nat,
                            value: self.value as nat,
                        }
                    } else {
                        DecodeModel::Busy {
                            extra: self.total_data_bytes as nat,
                            remaining: k as nat,
                            value: self.value as nat,
                        }
                    }
                },
            }
        }
    }
}

impl VarIntParser {
    pub fn new() -> (r: VarIntParser)
        ensures
            r@ == DecodeModel::Fresh,
    {
        VarIntParser { bytes_remaining: None, total_data_bytes: 0, value: 0, failed: false }
    }

    /// Advances the decoder by one byte; terminal states ignore it.  Returns
    /// whether the byte was consumed.
    pub fn feed_byte(&mut self, b: u8) -> (used: bool)
        requires
            old(self)@.wf(),
        ensures
            final(self)@ == vstep(old(self)@, b),
            final(self)@.wf(),
            used == !old(self)@.is_terminal(),
    {
        if self.failed {
            return false;
        }
        match self.bytes_remaining {
            None => {
                if b == 0 {
                    self.total_data_bytes = 7;
                    self.value = 0;
                    self.bytes_remaining = Some(7);
                    return true;
                }
                if b < 0x10 {
                    self.failed = true;
                    return true;
                }
                let lz = get_leading_zeros(b);
                let marker: u8 = if lz == 0 { 0x80 } else if lz == 1 { 0x40 } else if lz == 2 {
                    0x20
                } else {
                    0x10
                };
                self.total_data_bytes = lz as u8;
                self.value = (b - marker) as u64;
                self.bytes_remaining = Some(lz as u8);
                true
            },
            Some(k) => {
                if k == 0 {
                    false
                } else {
                    self.value = self.value * 256 + (b as u64);
                    self.bytes_remaining = Some(k - 1);
                    true
                }
            },
        }
    }

    /// Feeds a chunk of input.  Consumption stops as soon as the value is
    /// complete, so the chunk's tail after a [`FeedOutcome::Consumed`]
    /// prefix is untouched and available to the caller for what follows.
    pub fn feed(&mut self, i: &[u8]) -> (r: FeedOutcome)
        requires
            old(self)@.wf(),
        ensures
            final(self)@ == vfold(old(self)@, i@),
            final(self)@.wf(),
            r == (match vfold(old(self)@, i@) {
                DecodeModel::Done { .. } => FeedOutcome::Consumed(
                    vconsumed(old(self)@, i@) as usize,
                ),
                DecodeModel::Failed => FeedOutcome::Malformed,
                _ => FeedOutcome::NeedMoreBytes,
            }),
    {
        let ghost s0 = self@;
        let n = i.len();
        let mut idx: usize = 0;
        let mut consumed: usize = 0;
        proof {
            assert(i@.take(0) =~= Seq::<u8>::empty());
        }
        while idx < n
            invariant
                n == i@.len(),
                idx <= n,
                consumed <= idx,
                s0.wf(),
                self@ == vfold(s0, i@.take(idx as int)),
                self@.wf(),
                consumed == vconsumed(s0, i@.take(idx as int)),
            decreases n - idx,
        {
            let b = i[idx];
            proof {
                assert(i@.take(idx as int).push(b) =~= i@.take(idx + 1));
                lemma_vfold_snoc(s0, i@.take(idx as int), b);
                lemma_vconsumed_snoc(s0, i@.take(idx as int), b);
                lemma_vconsumed_le(s0, i@.take(idx as int));
            }
            let used = self.feed_byte(b);
            if used {
                consumed += 1;
            }
            idx += 1;
        }
        proof {
            assert(i@.take(n as int) =~= i@);
        }
        match self.bytes_remaining {
            _ if self.failed => FeedOutcome::Malformed,
            Some(k) if k == 0 => FeedOutcome::Consumed(consumed),
            _ => FeedOutcome::NeedMoreBytes,
        }
    }

    /// Total encoded length announced by the first byte, in bytes.
    pub fn encoded_length(&self) -> (r: usize)
        ensures
            self@ matches DecodeModel::Busy { extra, .. } ==> r == extra + 1,
            self@ matches DecodeModel::Done { extra, .. } ==> r == extra + 1,
    {
        self.total_data_bytes as usize + 1
    }

    /// The completed value.
    pub fn value(&self) -> (r: u64)
        requires
            self@ is Done,
        ensures
            self@ matches DecodeModel::Done { value, .. } ==> r == value,
    {
        self.value
    }

    /// Is the value complete?
    pub fn is_done(&self) -> (r: bool)
        ensures
            r == (self@ is Done),
    {
        match self.bytes_remaining {
            Some(k) => !self.failed && k == 0,
            None => false,
        }
    }

    /// Was a malformed leading byte seen?
    pub fn is_failed(&self) -> (r: bool)
        ensures
            r == (self@ is Failed),
    {
        self.failed
    }
}


/// The sentinel that [`SizeParser::size`] returns for the reserved
/// "unknown size" encoding.
pub const UNKNOWN_ELEMENT_SIZE: u64 = u64::MAX;

/// All data bits set for a VarInt with `extra` payload bytes: the reserved
/// "unknown size" bit pattern.
pub open spec fn unknown_size_marker(extra: nat) -> nat {
    (done_cap(extra) - 1) as nat
}

/// Interpretation of a completed size decode: the all-ones pattern means
/// "extent not declared" and maps to the sentinel.
pub open spec fn spec_size(extra: nat, value: nat) -> u64 {
    if value == unknown_size_marker(extra) {
        UNKNOWN_ELEMENT_SIZE
    } else {
        value as u64
    }
}

/// Resumable decoder for an element size: a VarInt whose marker bits are
/// stripped and whose all-ones pattern is the "unknown size" sentinel.
pub struct SizeParser {
    uint_parser: VarIntParser,
}

impl View for SizeParser {
    type V = DecodeModel;

    closed spec fn view(&self) -> DecodeModel {
        self.uint_parser@
    }
}

impl SizeParser {
    pub fn new() -> (r: SizeParser)
        ensures
            r@ == DecodeModel::Fresh,
    {
        SizeParser { uint_parser: VarIntParser::new() }
    }

    /// Feeds a chunk of input; see [`VarIntParser::feed`].
    pub fn feed(&mut self, i: &[u8]) -> (r: FeedOutcome)
        requires
            old(self)@.wf(),
        ensures
            final(self)@ == vfold(old(self)@, i@),
            final(self)@.wf(),
            r == (match vfold(old(self)@, i@) {
                DecodeModel::Done { .. } => FeedOutcome::Consumed(
                    vconsumed(old(self)@, i@) as usize,
                ),
                DecodeModel::Failed => FeedOutcome::Malformed,
                _ => FeedOutcome::NeedMoreBytes,
            }),
    {
        self.uint_parser.feed(i)
    }

    /// Advances the decoder by one byte; see [`VarIntParser::feed_byte`].
    pub fn feed_byte(&mut self, b: u8) -> (used: bool)
        requires
            old(self)@.wf(),
        ensures
            final(self)@ == vstep(old(self)@, b),
            final(self)@.wf(),
            used == !old(self)@.is_terminal(),
    {
        self.uint_parser.feed_byte(b)
    }

    /// Is the size complete?
    pub fn is_done(&self) -> (r: bool)
        ensures
            r == (self@ is Done),
    {
        self.uint_parser.is_done()
    }

    /// Was a malformed leading byte seen?
    pub fn is_failed(&self) -> (r: bool)
        ensures
            r == (self@ is Failed),
    {
        self.uint_parser.is_failed()
    }

    /// The completed size, with the all-ones pattern mapped to
    /// [`UNKNOWN_ELEMENT_SIZE`].
    pub fn size(&self) -> (r: u64)
        requires
            self@ is Done,
        ensures
            self@ matches DecodeModel::Done { extra, value } ==> r == spec_size(extra, value),
    {
        let t = self.uint_parser.encoded_length() - 1;
        let data_bits: u64 = if t == 0 { 0x7f } else if t == 1 { 0x3fff } else if t == 2 {
            0x1fffff
        } else if t == 3 {
            0xfffffff
        } else {
            0xffffffffffffff
        };
        let v = self.uint_parser.value();
        if v == data_bits {
            UNKNOWN_ELEMENT_SIZE
        } else {
            v
        }
    }
}

/// The raw identifier encoded by a completed VarInt decode with marker bits
/// kept: the marker bit contributes `2 ^ (7 * (extra + 1))`.
pub open spec fn raw_id(extra: nat, value: nat) -> nat {
    value + done_cap(extra)
}

/// Resumable decoder for an element identifier: the same byte-consumption
/// algorithm, but the reported identifier keeps the length-marker bits, as
/// the element registry stores identifiers in raw encoded form.
pub struct IdParser {
    uint_parser: VarIntParser,
}

impl View for IdParser {
    type V = DecodeModel;

    closed spec fn view(&self) -> DecodeModel {
        self.uint_parser@
    }
}

impl IdParser {
    pub fn new() -> (r: IdParser)
        ensures
            r@ == DecodeModel::Fresh,
    {
        IdParser { uint_parser: VarIntParser::new() }
    }

    /// Advances the decoder by one byte; see [`VarIntParser::feed_byte`].
    pub fn feed_byte(&mut self, b: u8) -> (used: bool)
        requires
            old(self)@.wf(),
        ensures
            final(self)@ == vstep(old(self)@, b),
            final(self)@.wf(),
            used == !old(self)@.is_terminal(),
    {
        self.uint_parser.feed_byte(b)
    }

    /// Feeds a chunk of input; see [`VarIntParser::feed`].
    pub fn feed(&mut self, i: &[u8]) -> (r: FeedOutcome)
        requires
            old(self)@.wf(),
        ensures
            final(self)@ == vfold(old(self)@, i@),
            final(self)@.wf(),
            r == (match vfold(old(self)@, i@) {
                DecodeModel::Done { .. } => FeedOutcome::Consumed(
                    vconsumed(old(self)@, i@) as usize,
                ),
                DecodeModel::Failed => FeedOutcome::Malformed,
                _ => FeedOutcome::NeedMoreBytes,
            }),
    {
        self.uint_parser.feed(i)
    }

    /// The completed raw identifier, marker bits kept.  Only the one- to
    /// four-byte forms fit the identifier type; the caller checks the
    /// encoded length first.
    pub fn id(&self) -> (r: u32)
        requires
            self@.wf(),
            self@ matches DecodeModel::Done { extra, .. } && extra <= 3,
        ensures
            self@ matches DecodeModel::Done { extra, value } ==> r == raw_id(extra, value),
    {
        let t = self.uint_parser.encoded_length() - 1;
        let marker: u32 = if t == 0 { 0x80 } else if t == 1 { 0x4000 } else if t == 2 {
            0x200000
        } else {
            0x10000000
        };
        (self.uint_parser.value() as u32) + marker
    }

    /// Total encoded length announced by the first byte, in bytes.
    pub fn encoded_length(&self) -> (r: usize)
        ensures
            self@ matches DecodeModel::Busy { extra, .. } ==> r == extra + 1,
            self@ matches DecodeModel::Done { extra, .. } ==> r == extra + 1,
    {
        self.uint_parser.encoded_length()
    }

    /// Is the identifier complete?
    pub fn is_done(&self) -> (r: bool)
        ensures
            r == (self@ is Done),
    {
        self.uint_parser.is_done()
    }

    /// Was a malformed leading byte seen?
    pub fn is_failed(&self) -> (r: bool)
        ensures
            r == (self@ is Failed),
    {
        self.uint_parser.is_failed()
    }
}

/// Number of payload bytes of the canonical (minimal) encoding of `v`:
/// the top-nibble forms where they fit, else the eight-byte form.
pub open spec fn min_extra(v: nat) -> nat {
    if v < 0x80 { 0 } else if v < 0x4000 { 1 } else if v < 0x200000 { 2 } else if v < 0x10000000 {
        3
    } else {
        7
    }
}

/// The canonical minimal VarInt encoding of `v`, defined for `v < 2^56`.
pub open spec fn encode_varint(v: nat) -> Seq<u8> {
    let e = min_extra(v);
    if e == 0 {
        seq![(0x80 + v) as u8]
    } else if e == 1 {
        seq![(0x40 + v / 0x100) as u8, (v % 0x100) as u8]
    } else if e == 2 {
        seq![(0x20 + v / 0x10000) as u8, ((v / 0x100) % 0x100) as u8, (v % 0x100) as u8]
    } else if e == 3 {
        seq![
            (0x10 + v / 0x1000000) as u8,
            ((v / 0x10000) % 0x100) as u8,
            ((v / 0x100) % 0x100) as u8,
            (v % 0x100) as u8,
        ]
    } else {
        seq![
            0u8,
            ((v / 0x1000000000000) % 0x100) as u8,
            ((v / 0x10000000000) % 0x100) as u8,
            ((v / 0x100000000) % 0x100) as u8,
            ((v / 0x1000000) % 0x100) as u8,
            ((v / 0x10000) % 0x100) as u8,
            ((v / 0x100) % 0x100) as u8,
            (v % 0x100) as u8,
        ]
    }
}

/// One big-endian accumulation step: shifting the quotient by one more
/// byte and adding that byte of `v` reconstructs the coarser quotient.
proof fn lemma_peel(v: nat, lo: nat)
    requires
        1 <= lo,
    ensures
        (v / (lo * 0x100)) * 0x100 + (v / lo) % 0x100 == v / lo,
{
    vstd::arithmetic::div_mod::lemma_div_denominator(v as int, lo as int, 0x100);
    vstd::arithmetic::div_mod::lemma_fundamental_div_mod(v as int / lo as int, 0x100);
}

/// Round-trip law: decoding a value written in canonical minimal VarInt
/// form returns exactly that value, and the announced encoded length equals
/// the number of bytes written.  It covers every value the format can
/// encode: the eight-byte form carries seven payload bytes, so values
/// below `2^56` are exactly those with an encoding.
#[verifier::rlimit(100)]
pub proof fn lemma_varint_round_trip(v: nat)
    requires
        v < 0x100000000000000,
    ensures
        vfold(DecodeModel::Fresh, encode_varint(v))
            == (DecodeModel::Done { extra: min_extra(v), value: v }),
        encode_varint(v).len() == min_extra(v) + 1,
{
    broadcast use vstd::arithmetic::div_mod::lemma_fundamental_div_mod;
    broadcast use vstd::arithmetic::div_mod::lemma_mod_bound;

    reveal_with_fuel(vfold, 6);

    let e = min_extra(v);
    let s = encode_varint(v);
    if e == 0 {
        let b0 = (0x80 + v) as u8;
        assert(s.first() == b0 && s.drop_first() =~= Seq::<u8>::empty());
        assert(vstep(DecodeModel::Fresh, b0) == (DecodeModel::Done { extra: 0, value: v }));
    } else if e == 1 {
        let hi = v / 0x100;
        let lo = v % 0x100;
        assert(v == 0x100 * hi + lo && 0 <= lo < 0x100);
        assert(hi < 0x40);
        let b0 = (0x40 + hi) as u8;
        let b1 = lo as u8;
        assert(s == seq![b0, b1]);
        let s1 = vstep(DecodeModel::Fresh, b0);
        assert(s1 == (DecodeModel::Busy { extra: 1, remaining: 1, value: hi as nat }));
        let s2 = vstep(s1, b1);
        assert(s2 == (DecodeModel::Done { extra: 1, value: v }));
        assert(s.drop_first() =~= seq![b1]);
        assert(seq![b1].drop_first() =~= Seq::<u8>::empty());
        assert(vfold(DecodeModel::Fresh, s) == s2);
    } else if e == 2 {
        let h2 = v / 0x10000;
        let h1 = (v / 0x100) % 0x100;
        let lo = v % 0x100;
        assert(v / 0x100 == 0x100 * h2 + h1) by {
            vstd::arithmetic::div_mod::lemma_div_denominator(v as int, 0x100, 0x100);
        }
        assert(v == 0x100 * (v / 0x100) + lo);
        assert(v == 0x10000 * h2 + 0x100 * h1 + lo) by (nonlinear_arith)
            requires v / 0x100 == 0x100 * h2 + h1 && v == 0x100 * (v / 0x100) + lo;
        assert(h2 < 0x20);
        assert(0 <= h1 < 0x100 && 0 <= lo < 0x100);
        let b0 = (0x20 + h2) as u8;
        let b1 = h1 as u8;
        let b2 = lo as u8;
        assert(s == seq![b0, b1, b2]);
        let s1 = vstep(DecodeModel::Fresh, b0);
        assert(s1 == (DecodeModel::Busy { extra: 2, remaining: 2, value: h2 as nat }));
        let s2 = vstep(s1, b1);
        assert(s2 == (DecodeModel::Busy { extra: 2, remaining: 1, value: (h2 * 0x100 + h1) as nat }));
        let s3 = vstep(s2, b2);
        assert(s3 == (DecodeModel::Done { extra: 2, value: v }));
        assert(s.drop_first() =~= seq![b1, b2]);
        assert(seq![b1, b2].drop_first() =~= seq![b2]);
        assert(seq![b2].drop_first() =~= Seq::<u8>::empty());
        assert(vfold(DecodeModel::Fresh, s) == s3);
    } else if e == 3 {
        let h3 = v / 0x1000000;
        let h2 = (v / 0x10000) % 0x100;
        let h1 = (v / 0x100) % 0x100;
        let lo = v % 0x100;
        assert(v / 0x10000 == 0x100 * h3 + h2) by {
            vstd::arithmetic::div_mod::lemma_div_denominator(v as int, 0x10000, 0x100);
        }
        assert(v / 0x100 == 0x100 * (v / 0x10000) + h1) by {
            vstd::arithmetic::div_mod::lemma_div_denominator(v as int, 0x100, 0x100);
        }
        assert(v == 0x100 * (v / 0x100) + lo);
        assert(v / 0x100 == 0x10000 * h3 + 0x100 * h2 + h1) by (nonlinear_arith)
            requires
                v / 0x10000 == 0x100 * h3 + h2,
                v / 0x100 == 0x100 * (v / 0x10000) + h1;
        assert(v == 0x1000000 * h3 + 0x10000 * h2 + 0x100 * h1 + lo) by (nonlinear_arith)
            requires
                v / 0x100 == 0x10000 * h3 + 0x100 * h2 + h1,
                v == 0x100 * (v / 0x100) + lo;
        assert(h3 < 0x10);
        assert(0 <= h2 < 0x100 && 0 <= h1 < 0x100 && 0 <= lo < 0x100);
        let b0 = (0x10 + h3) as u8;
        let b1 = h2 as u8;
        let b2 = h1 as u8;
        let b3 = lo as u8;
        assert(s == seq![b0, b1, b2, b3]);
        let s1 = vstep(DecodeModel::Fresh, b0);
        assert(s1 == (DecodeModel::Busy { extra: 3, remaining: 3, value: h3 as nat }));
        let s2 = vstep(s1, b1);
        assert(s2 == (DecodeModel::Busy { extra: 3, remaining: 2, value: (h3 * 0x100 + h2) as nat }));
        let s3 = vstep(s2, b2);
        assert(s3 == (DecodeModel::Busy {
            extra: 3,
            remaining: 1,
            value: ((h3 * 0x100 + h2) * 0x100 + h1) as nat,
        }));
        let s4 = vstep(s3, b3);
        assert(s4 == (DecodeModel::Done { extra: 3, value: v }));
        assert(s.drop_first() =~= seq![b1, b2, b3]);
        assert(seq![b1, b2, b3].drop_first() =~= seq![b2, b3]);
        assert(seq![b2, b3].drop_first() =~= seq![b3]);
        assert(seq![b3].drop_first() =~= Seq::<u8>::empty());
        assert(vfold(DecodeModel::Fresh, s) == s4);
    } else {
        lemma_varint_round_trip_long(v);
    }
}



/// The eight-byte case of the round-trip law.
#[verifier::rlimit(100)]
#[verifier::spinoff_prover]
proof fn lemma_varint_round_trip_long(v: nat)
    requires
        0x10000000 <= v < 0x100000000000000,
    ensures
        vfold(DecodeModel::Fresh, encode_varint(v)) == (DecodeModel::Done { extra: 7, value: v }),
        encode_varint(v).len() == 8,
{
    broadcast use vstd::arithmetic::div_mod::lemma_fundamental_div_mod;
    broadcast use vstd::arithmetic::div_mod::lemma_mod_bound;

    reveal_with_fuel(vfold, 10);

    let s = encode_varint(v);
        // The eight-byte form: an all-zero first byte, then the seven
        // bytes of the value, most significant first.  After each payload
        // byte the accumulated value is a quotient of `v`.
        reveal_with_fuel(vfold, 10);
        let q6 = v / 0x1000000000000;
        let q5 = v / 0x10000000000;
        let q4 = v / 0x100000000;
        let q3 = v / 0x1000000;
        let q2 = v / 0x10000;
        let q1 = v / 0x100;
        let b1 = ((v / 0x1000000000000) % 0x100) as u8;
        let b2 = ((v / 0x10000000000) % 0x100) as u8;
        let b3 = ((v / 0x100000000) % 0x100) as u8;
        let b4 = ((v / 0x1000000) % 0x100) as u8;
        let b5 = ((v / 0x10000) % 0x100) as u8;
        let b6 = ((v / 0x100) % 0x100) as u8;
        let b7 = (v % 0x100) as u8;
        assert(s == seq![0u8, b1, b2, b3, b4, b5, b6, b7]);
        assert(q6 < 0x100) by {
            vstd::arithmetic::div_mod::lemma_fundamental_div_mod(v as int, 0x1000000000000);
        }
        assert(0 * 0x100 + b1 == q6) by {
            vstd::arithmetic::div_mod::lemma_small_mod(q6, 0x100);
        }
        assert(q6 * 0x100 + b2 == q5) by {
            lemma_peel(v, 0x10000000000);
        }
        assert(q5 * 0x100 + b3 == q4) by {
            lemma_peel(v, 0x100000000);
        }
        assert(q4 * 0x100 + b4 == q3) by {
            lemma_peel(v, 0x1000000);
        }
        assert(q3 * 0x100 + b5 == q2) by {
            lemma_peel(v, 0x10000);
        }
        assert(q2 * 0x100 + b6 == q1) by {
            lemma_peel(v, 0x100);
        }
        assert(q1 * 0x100 + b7 == v) by {
            vstd::arithmetic::div_mod::lemma_fundamental_div_mod(v as int, 0x100);
        }
        let s1 = vstep(DecodeModel::Fresh, 0u8);
        assert(s1 == (DecodeModel::Busy { extra: 7, remaining: 7, value: 0 }));
        let s2 = vstep(s1, b1);
        assert(s2 == (DecodeModel::Busy { extra: 7, remaining: 6, value: q6 }));
        let s3 = vstep(s2, b2);
        assert(s3 == (DecodeModel::Busy { extra: 7, remaining: 5, value: q5 }));
        let s4 = vstep(s3, b3);
        assert(s4 == (DecodeModel::Busy { extra: 7, remaining: 4, value: q4 }));
        let s5 = vstep(s4, b4);
        assert(s5 == (DecodeModel::Busy { extra: 7, remaining: 3, value: q3 }));
        let s6 = vstep(s5, b5);
        assert(s6 == (DecodeModel::Busy { extra: 7, remaining: 2, value: q2 }));
        let s7 = vstep(s6, b6);
        assert(s7 == (DecodeModel::Busy { extra: 7, remaining: 1, value: q1 }));
        let s8 = vstep(s7, b7);
        assert(s8 == (DecodeModel::Done { extra: 7, value: v }));
        assert(s.drop_first() =~= seq![b1, b2, b3, b4, b5, b6, b7]);
        assert(seq![b1, b2, b3, b4, b5, b6, b7].drop_first() =~= seq![b2, b3, b4, b5, b6, b7]);
        assert(seq![b2, b3, b4, b5, b6, b7].drop_first() =~= seq![b3, b4, b5, b6, b7]);
        assert(seq![b3, b4, b5, b6, b7].drop_first() =~= seq![b4, b5, b6, b7]);
        assert(seq![b4, b5, b6, b7].drop_first() =~= seq![b5, b6, b7]);
        assert(seq![b5, b6, b7].drop_first() =~= seq![b6, b7]);
        assert(seq![b6, b7].drop_first() =~= seq![b7]);
        assert(seq![b7].drop_first() =~= Seq::<u8>::empty());
        assert(vfold(DecodeModel::Fresh, s) == s8);
}

} // verus!
