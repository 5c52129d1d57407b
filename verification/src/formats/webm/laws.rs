//! The laws of the traversal machine, stated and proved over the
//! mathematical fold of `model`.  The executable parser computes exactly
//! that fold, so each law holds of the running code as well.

use vstd::prelude::*;
use crate::enums::KnownTypes;
use crate::enums::SniffView;
use crate::formats::webm::model::Frame;
use crate::formats::webm::model::MPhase;
use crate::formats::webm::model::commit_str;
use crate::formats::webm::model::commit_uint;
use crate::formats::webm::model::inner_bound;
use crate::formats::webm::model::ParseErrorKind;
use crate::formats::webm::model::ParserModel;
use crate::formats::webm::model::fail;
use crate::formats::webm::model::lemma_pop_frames_pos;
use crate::formats::webm::model::mfold;
use crate::formats::webm::model::moutcome;
use crate::formats::webm::model::mstep;
use crate::formats::webm::model::pop_frames;
use crate::formats::webm::model::spec_get_information;
use crate::formats::webm::model::start_element;
use crate::formats::webm::registry::ElementKind;
use crate::formats::webm::registry::spec_classify;
use crate::formats::webm::varint::DecodeModel;
use crate::formats::webm::varint::UNKNOWN_ELEMENT_SIZE;

verus! {

/// Resumability: feeding a buffer in one piece and feeding its two halves
/// one after the other reach the same machine state, for every split
/// point.
pub proof fn lemma_machine_feed_split(m: ParserModel, a: Seq<u8>, b: Seq<u8>)
    ensures
        mfold(m, a + b) == mfold(mfold(m, a), b),
    decreases a.len(),
{
    if a.len() == 0 {
        assert(a + b =~= b);
    } else {
        assert((a + b).first() == a.first());
        assert((a + b).drop_first() =~= a.drop_first() + b);
        lemma_machine_feed_split(mstep(m, a.first()), a.drop_first(), b);
        assert(mfold(m, a + b) == mfold(mstep(m, (a + b).first()), (a + b).drop_first()));
        assert(mfold(m, a) == mfold(mstep(m, a.first()), a.drop_first()));
    }
}

/// The corollary for the terminal classification: splitting the input
/// changes nothing about the outcome either.
pub proof fn lemma_sniff_resumable(a: Seq<u8>, b: Seq<u8>)
    ensures
        moutcome(mfold(ParserModel::init(), a + b))
            == moutcome(mfold(mfold(ParserModel::init(), a), b)),
{
    lemma_machine_feed_split(ParserModel::init(), a, b);
}

/// A machine that has failed absorbs all further input.
pub proof fn lemma_mfold_failed(m: ParserModel, input: Seq<u8>)
    requires
        m.phase is Failed,
    ensures
        mfold(m, input) == m,
    decreases input.len(),
{
    if input.len() > 0 {
        lemma_mfold_failed(mstep(m, input.first()), input.drop_first());
    }
}

/// Corrupt header: an input whose first byte violates the VarInt length
/// rule — an all-zero top nibble, other than the all-zero byte that opens
/// the maximum-length form — is classified `Unknown`; no partial metadata
/// is ever produced from it.
pub proof fn lemma_corrupt_header(input: Seq<u8>)
    requires
        input.len() > 0,
        input.first() & 0xF0 == 0,
        input.first() != 0,
    ensures
        spec_get_information(input) == SniffView::Unknown,
{
    let b0 = input.first();
    assert(b0 < 0x10) by (bit_vector)
        requires
            b0 & 0xF0 == 0,
    ;
    let m0 = ParserModel::init();
    let m1 = mstep(m0, input.first());
    assert(m1.phase is Failed);
    lemma_mfold_failed(m1, input.drop_first());
    assert(mfold(m0, input) == mfold(m1, input.drop_first()));
}

/// The root signature bytes of this container format.
pub open spec fn signature_bytes() -> Seq<u8> {
    seq![0x1Au8, 0x45u8, 0xDFu8, 0xA3u8]
}

/// Signature-only prefix: a buffer holding exactly the root signature is
/// classified `Incomplete` with this format as the candidate — never
/// `Unknown`, never `Complete`.
pub proof fn lemma_signature_only_prefix()
    ensures
        spec_get_information(signature_bytes())
            == SniffView::Incomplete(seq![KnownTypes::WebM]),
{
    reveal_with_fuel(mfold, 6);
    let s = signature_bytes();
    let m0 = ParserModel::init();
    let m1 = mstep(m0, 0x1A);
    assert(m1.phase == MPhase::ReadId(
        DecodeModel::Busy { extra: 3, remaining: 3, value: 0x0A },
    ));
    let m2 = mstep(m1, 0x45);
    assert(m2.phase == MPhase::ReadId(
        DecodeModel::Busy { extra: 3, remaining: 2, value: 0x0A45 },
    ));
    let m3 = mstep(m2, 0xDF);
    assert(m3.phase == MPhase::ReadId(
        DecodeModel::Busy { extra: 3, remaining: 1, value: 0x0A45DF },
    ));
    let m4 = mstep(m3, 0xA3);
    assert(m4.saw_signature);
    assert(m4.phase == MPhase::ReadSize(0x1A45DFA3, DecodeModel::Fresh));
    assert(s.first() == 0x1A && s.drop_first() =~= seq![0x45u8, 0xDFu8, 0xA3u8]);
    assert(seq![0x45u8, 0xDFu8, 0xA3u8].drop_first() =~= seq![0xDFu8, 0xA3u8]);
    assert(seq![0xDFu8, 0xA3u8].drop_first() =~= seq![0xA3u8]);
    assert(seq![0xA3u8].drop_first() =~= Seq::<u8>::empty());
    assert(mfold(m0, s) == m4);
}

/// Exact skip, while the element lasts: each input byte consumed during a
/// skip advances the cursor by exactly one byte and shortens the remaining
/// skip by exactly one; stack and accumulator are untouched.
pub proof fn lemma_skip_partial(m: ParserModel, n: nat, input: Seq<u8>)
    requires
        m.phase == (MPhase::Skip { remaining: n }),
        input.len() < n,
    ensures
        mfold(m, input) == (ParserModel {
            phase: MPhase::Skip { remaining: (n - input.len()) as nat },
            pos: m.pos + input.len(),
            ..m
        }),
    decreases input.len(),
{
    if input.len() == 0 {
        assert(mfold(m, input) == m);
        assert((ParserModel {
            phase: MPhase::Skip { remaining: (n - 0) as nat },
            pos: m.pos + 0,
            ..m
        }) == m);
    } else {
        let m2 = mstep(m, input.first());
        assert(m2 == (ParserModel {
            phase: MPhase::Skip { remaining: (n - 1) as nat },
            pos: m.pos + 1,
            ..m
        }));
        lemma_skip_partial(m2, (n - 1) as nat, input.drop_first());
    }
}

/// Exact skip, at the end: consuming exactly the declared size ends the
/// skip — the cursor lands exactly `size` bytes after the element's body
/// start, never more or less, and scanning resumes after the frames whose
/// end was reached are popped.
pub proof fn lemma_skip_exact(m: ParserModel, n: nat, input: Seq<u8>)
    requires
        m.phase == (MPhase::Skip { remaining: n }),
        1 <= n,
        input.len() == n,
    ensures
        mfold(m, input) == pop_frames(
            ParserModel {
                phase: MPhase::ReadId(DecodeModel::Fresh),
                pos: m.pos + n,
                ..m
            },
        ),
    decreases input.len(),
{
    let m2 = mstep(m, input.first());
    if n == 1 {
        assert(m2 == pop_frames(
            ParserModel { phase: MPhase::ReadId(DecodeModel::Fresh), pos: m.pos + 1, ..m },
        ));
        lemma_mfold_pop_is_target(m2, input.drop_first());
    } else {
        assert(m2 == (ParserModel {
            phase: MPhase::Skip { remaining: (n - 1) as nat },
            pos: m.pos + 1,
            ..m
        }));
        lemma_skip_exact(m2, (n - 1) as nat, input.drop_first());
    }
}

/// Helper: after the last skipped byte there is no input left, so the fold
/// is already at its target.
proof fn lemma_mfold_pop_is_target(m: ParserModel, input: Seq<u8>)
    requires
        input.len() == 0,
    ensures
        mfold(m, input) == m,
{
}

/// An element carrying the unknown-size sentinel is never skipped: if its
/// type is not a container the machine fails with the dedicated error, and
/// a skip is only ever begun with the element's known, declared size.
pub proof fn lemma_unknown_size_never_skipped(m: ParserModel, id: u32, size: u64)
    ensures
        size == UNKNOWN_ELEMENT_SIZE && !(spec_classify(id) is Container) ==> start_element(
            m,
            id,
            size,
        ) == fail(m, ParseErrorKind::UnknownSizeOnNonContainer, m.pos),
        size == UNKNOWN_ELEMENT_SIZE ==> !(start_element(m, id, size).phase is Skip),
        forall|k: nat|
            start_element(m, id, size).phase == (MPhase::Skip { remaining: k }) ==> k == size
                && size != UNKNOWN_ELEMENT_SIZE,
{
    let r = start_element(m, id, size);
    if size == UNKNOWN_ELEMENT_SIZE && spec_classify(id) is Container {
        lemma_pop_frames_pos(
            ParserModel {
                phase: MPhase::ReadId(DecodeModel::Fresh),
                stack: m.stack.push(
                    Frame {
                        id,
                        bound: inner_bound(m.stack),
                    },
                ),
                ..m
            },
        );
    }
    if size != UNKNOWN_ELEMENT_SIZE && !(m.pos + size > u64::MAX) && !(
    inner_bound(m.stack) matches Some(e) && m.pos + size > e) {
        match spec_classify(id) {
            ElementKind::Container => {
                lemma_pop_frames_pos(
                    ParserModel {
                        phase: MPhase::ReadId(DecodeModel::Fresh),
                        stack: m.stack.push(
                            Frame {
                                id,
                                bound: Some((m.pos + size) as u64),
                            },
                        ),
                        ..m
                    },
                );
            },
            ElementKind::UintValue(dest) => {
                if size == 0 {
                    lemma_pop_frames_pos(
                        ParserModel {
                            phase: MPhase::ReadId(DecodeModel::Fresh),
                            acc: commit_uint(m.acc, dest, 0),
                            ..m
                        },
                    );
                }
            },
            ElementKind::StringValue(dest) => {
                if size == 0 {
                    lemma_pop_frames_pos(
                        ParserModel {
                            phase: MPhase::ReadId(DecodeModel::Fresh),
                            acc: commit_str(m.acc, dest, Seq::empty()),
                            ..m
                        },
                    );
                }
            },
            ElementKind::Opaque => {
                if size == 0 {
                    lemma_pop_frames_pos(
                        ParserModel { phase: MPhase::ReadId(DecodeModel::Fresh), ..m },
                    );
                }
            },
        }
    }
}

} // verus!
