//! The recognized container formats, the three-way outcome of a probe, and
//! format recognition from a free-form name such as a file name.

use vstd::prelude::*;
use crate::types::Metadata;
use crate::types::MetadataView;

verus! {

/// The container formats this crate recognizes.
#[derive(Clone, Copy, Debug, PartialEq, Eq, Structural)]
pub enum KnownTypes {
    WebM,
    MP4,
    Ogg,
}

/// Terminal outcome of probing one byte buffer.
///
/// `Complete` carries fully extracted metadata; `Incomplete` means the input
/// ended too early for extraction but a format signature was recognized, and
/// names the candidate formats; `Unknown` means no recognized signature, or a
/// structural invariant of the container was violated.
#[derive(Clone, Debug, PartialEq)]
pub enum SniffOutcome {
    Complete(Metadata),
    Incomplete(Vec<KnownTypes>),
    Unknown,
}

/// Mathematical image of a [`SniffOutcome`].
pub enum SniffView {
    Complete(MetadataView),
    Incomplete(Seq<KnownTypes>),
    Unknown,
}

impl View for SniffOutcome {
    type V = SniffView;

    open spec fn view(&self) -> SniffView {
        match self {
            SniffOutcome::Complete(m) => SniffView::Complete(m@),
            SniffOutcome::Incomplete(v) => SniffView::Incomplete(v@),
            SniffOutcome::Unknown => SniffView::Unknown,
        }
    }
}

/// The UTF-8 bytes of the lowercase image of a character sequence, as
/// `str::to_lowercase` computes it.  Uninterpreted: the trusted wrapper
/// below is its only source of facts.
pub uninterp spec fn lower_bytes_of(s: Seq<char>) -> Seq<u8>;

/// Relies on `str::to_lowercase` (with `String::into_bytes`): the lowercase
/// image depends on the characters alone, and its UTF-8 bytes are returned.
#[verifier::external_body]
fn lowercase_bytes(s: &str) -> (r: Vec<u8>)
    ensures
        r@ == lower_bytes_of(s@),
{
    s.to_lowercase().into_bytes()
}

/// `needle` occurs in `hay` starting at position `k`.
pub open spec fn match_at(hay: Seq<u8>, needle: Seq<u8>, k: int) -> bool {
    forall|j: int| 0 <= j < needle.len() ==> hay[k + j] == needle[j]
}

/// `needle` occurs somewhere in `hay`.
pub open spec fn contains_bytes(hay: Seq<u8>, needle: Seq<u8>) -> bool {
    exists|k: int| 0 <= k && k + needle.len() <= hay.len() && match_at(hay, needle, k)
}

/// Does `needle` occur in `hay` at exactly position `k`?
fn matches_at(hay: &[u8], needle: &[u8], k: usize) -> (r: bool)
    requires
        k + needle@.len() <= hay@.len(),
        hay@.len() <= usize::MAX,
    ensures
        r == match_at(hay@, needle@, k as int),
{
    let mut j: usize = 0;
    while j < needle.len()
        invariant
            k + needle@.len() <= hay@.len(),
            hay@.len() <= usize::MAX,
            j <= needle@.len(),
            forall|j2: int| 0 <= j2 < j ==> hay@[k + j2] == needle@[j2],
        decreases needle@.len() - j,
    {
        if hay[k + j] != needle[j] {
            assert(!match_at(hay@, needle@, k as int));
            return false;
        }
        j += 1;
    }
    true
}

/// Naive substring search over bytes.
pub fn find_bytes(hay: &[u8], needle: &[u8]) -> (r: bool)
    ensures
        r == contains_bytes(hay@, needle@),
{
    if needle.len() > hay.len() {
        return false;
    }
    let mut k: usize = 0;
    while k <= hay.len() - needle.len()
        invariant
            needle@.len() <= hay@.len(),
            hay@.len() <= usize::MAX,
            k <= hay@.len() - needle@.len() + 1,
            forall|k2: int| 0 <= k2 < k ==> !match_at(hay@, needle@, k2),
        decreases hay@.len() - needle@.len() + 1 - k,
    {
        if matches_at(hay, needle, k) {
            return true;
        }
        k += 1;
    }
    assert(forall|k2: int| 0 <= k2 && k2 + needle@.len() <= hay@.len()
        ==> !match_at(hay@, needle@, k2));
    false
}

/// The key bytes that [`KnownTypes::maybe_from`] searches for.
pub open spec fn webm_key() -> Seq<u8> {
    seq!['w' as u8, 'e' as u8, 'b' as u8, 'm' as u8]
}

pub open spec fn mp4_key() -> Seq<u8> {
    seq!['m' as u8, 'p' as u8, '4' as u8]
}

pub open spec fn ogg_key() -> Seq<u8> {
    seq!['o' as u8, 'g' as u8, 'g' as u8]
}

/// What [`KnownTypes::maybe_from`] returns: the first format whose key
/// occurs in the lowercase image of the name.
pub open spec fn spec_maybe_from(s: Seq<char>) -> Option<KnownTypes> {
    if contains_bytes(lower_bytes_of(s), webm_key()) {
        Some(KnownTypes::WebM)
    } else if contains_bytes(lower_bytes_of(s), mp4_key()) {
        Some(KnownTypes::MP4)
    } else if contains_bytes(lower_bytes_of(s), ogg_key()) {
        Some(KnownTypes::Ogg)
    } else {
        None
    }
}

impl KnownTypes {
    /// Guesses a container format from a free-form name (case-insensitive
    /// substring match), trying `webm`, then `mp4`, then `ogg`.
    pub fn maybe_from(s: &str) -> (r: Option<KnownTypes>)
        ensures
            r == spec_maybe_from(s@),
    {
        let lowered = lowercase_bytes(s);
        let webm: Vec<u8> = vec!['w' as u8, 'e' as u8, 'b' as u8, 'm' as u8];
        let mp4: Vec<u8> = vec!['m' as u8, 'p' as u8, '4' as u8];
        let ogg: Vec<u8> = vec!['o' as u8, 'g' as u8, 'g' as u8];
        assert(webm@ =~= webm_key());
        assert(mp4@ =~= mp4_key());
        assert(ogg@ =~= ogg_key());
        if find_bytes(lowered.as_slice(), webm.as_slice()) {
            Some(KnownTypes::WebM)
        } else if find_bytes(lowered.as_slice(), mp4.as_slice()) {
            Some(KnownTypes::MP4)
        } else if find_bytes(lowered.as_slice(), ogg.as_slice()) {
            Some(KnownTypes::Ogg)
        } else {
            None
        }
    }
}

} // verus!
