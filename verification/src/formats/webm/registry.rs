//! The element registry: a static mapping from a numeric element identifier
//! (in raw encoded form, marker bits kept) to how the traversal treats the
//! element — descend into it, extract its payload, or skip it.

use vstd::prelude::*;

verus! {

// Container (master) element identifiers.
pub const K_EBML: u32 = 0x1A45DFA3;
pub const K_SEGMENT: u32 = 0x18538067;
pub const K_SEEK_HEAD: u32 = 0x114D9B74;
pub const K_SEEK: u32 = 0x4DBB;
pub const K_INFO: u32 = 0x1549A966;
pub const K_CLUSTER: u32 = 0x1F43B675;
pub const K_BLOCK_GROUP: u32 = 0xA0;
pub const K_BLOCK_ADDITIONS: u32 = 0x75A1;
pub const K_BLOCK_MORE: u32 = 0xA6;
pub const K_SLICES: u32 = 0x8E;
pub const K_TIME_SLICE: u32 = 0xE8;
pub const K_TRACKS: u32 = 0x1654AE6B;
pub const K_TRACK_ENTRY: u32 = 0xAE;
pub const K_VIDEO: u32 = 0xE0;
pub const K_COLOUR: u32 = 0x55B0;
pub const K_MASTERING_METADATA: u32 = 0x55D0;
pub const K_AUDIO: u32 = 0xE1;
pub const K_CONTENT_ENCODINGS: u32 = 0x6D80;
pub const K_CONTENT_ENCODING: u32 = 0x6240;
pub const K_CONTENT_ENCRYPTION: u32 = 0x5035;
pub const K_CONTENT_ENC_AES_SETTINGS: u32 = 0x47E7;
pub const K_CUES: u32 = 0x1C53BB6B;
pub const K_CUE_POINT: u32 = 0xBB;
pub const K_CUE_TRACK_POSITIONS: u32 = 0xB7;
pub const K_CHAPTERS: u32 = 0x1043A770;
pub const K_EDITION_ENTRY: u32 = 0x45B9;
pub const K_CHAPTER_ATOM: u32 = 0xB6;
pub const K_CHAPTER_DISPLAY: u32 = 0x80;
pub const K_TAGS: u32 = 0x1254C367;
pub const K_TAG: u32 = 0x7373;
pub const K_TARGETS: u32 = 0x63C0;
pub const K_SIMPLE_TAG: u32 = 0x67C8;

// Leaf elements whose payload feeds the metadata accumulator.
pub const K_PIXEL_WIDTH: u32 = 0xB0;
pub const K_PIXEL_HEIGHT: u32 = 0xBA;
pub const K_TRACK_TYPE: u32 = 0x83;
pub const K_CODEC_ID: u32 = 0x86;

/// Which accumulator field an unsigned-integer payload feeds.
#[derive(Clone, Copy, Debug, PartialEq, Eq, Structural)]
pub enum UintDest {
    PixelWidth,
    PixelHeight,
    TrackType,
}

/// Which accumulator field a string payload feeds.
#[derive(Clone, Copy, Debug, PartialEq, Eq, Structural)]
pub enum StrDest {
    CodecId,
}

/// How the traversal treats an element of a given identifier.
#[derive(Clone, Copy, Debug, PartialEq, Eq, Structural)]
pub enum ElementKind {
    /// A container: push a frame and scan its children.
    Container,
    /// A leaf carrying a big-endian unsigned integer of `size` bytes.
    UintValue(UintDest),
    /// A leaf carrying a string of `size` bytes.
    StringValue(StrDest),
    /// A recognized element without a useful value, or an unrecognized
    /// element: advance the cursor by exactly `size` bytes.
    Opaque,
}

/// The registry as a mathematical function.
pub open spec fn spec_classify(id: u32) -> ElementKind {
    if id == K_EBML || id == K_SEGMENT || id == K_SEEK_HEAD || id == K_SEEK || id == K_INFO
        || id == K_CLUSTER || id == K_BLOCK_GROUP || id == K_BLOCK_ADDITIONS || id == K_BLOCK_MORE
        || id == K_SLICES || id == K_TIME_SLICE || id == K_TRACKS || id == K_TRACK_ENTRY
        || id == K_VIDEO || id == K_COLOUR || id == K_MASTERING_METADATA || id == K_AUDIO
        || id == K_CONTENT_ENCODINGS || id == K_CONTENT_ENCODING || id == K_CONTENT_ENCRYPTION
        || id == K_CONTENT_ENC_AES_SETTINGS || id == K_CUES || id == K_CUE_POINT
        || id == K_CUE_TRACK_POSITIONS || id == K_CHAPTERS || id == K_EDITION_ENTRY
        || id == K_CHAPTER_ATOM || id == K_CHAPTER_DISPLAY || id == K_TAGS || id == K_TAG
        || id == K_TARGETS || id == K_SIMPLE_TAG {
        ElementKind::Container
    } else if id == K_PIXEL_WIDTH {
        ElementKind::UintValue(UintDest::PixelWidth)
    } else if id == K_PIXEL_HEIGHT {
        ElementKind::UintValue(UintDest::PixelHeight)
    } else if id == K_TRACK_TYPE {
        ElementKind::UintValue(UintDest::TrackType)
    } else if id == K_CODEC_ID {
        ElementKind::StringValue(StrDest::CodecId)
    } else {
        ElementKind::Opaque
    }
}

/// Looks an element identifier up in the registry.
pub fn classify(id: u32) -> (r: ElementKind)
    ensures
        r == spec_classify(id),
{
    if id == K_EBML || id == K_SEGMENT || id == K_SEEK_HEAD || id == K_SEEK || id == K_INFO
        || id == K_CLUSTER || id == K_BLOCK_GROUP || id == K_BLOCK_ADDITIONS || id == K_BLOCK_MORE
        || id == K_SLICES || id == K_TIME_SLICE || id == K_TRACKS || id == K_TRACK_ENTRY
        || id == K_VIDEO || id == K_COLOUR || id == K_MASTERING_METADATA || id == K_AUDIO
        || id == K_CONTENT_ENCODINGS || id == K_CONTENT_ENCODING || id == K_CONTENT_ENCRYPTION
        || id == K_CONTENT_ENC_AES_SETTINGS || id == K_CUES || id == K_CUE_POINT
        || id == K_CUE_TRACK_POSITIONS || id == K_CHAPTERS || id == K_EDITION_ENTRY
        || id == K_CHAPTER_ATOM || id == K_CHAPTER_DISPLAY || id == K_TAGS || id == K_TAG
        || id == K_TARGETS || id == K_SIMPLE_TAG {
        ElementKind::Container
    } else if id == K_PIXEL_WIDTH {
        ElementKind::UintValue(UintDest::PixelWidth)
    } else if id == K_PIXEL_HEIGHT {
        ElementKind::UintValue(UintDest::PixelHeight)
    } else if id == K_TRACK_TYPE {
        ElementKind::UintValue(UintDest::TrackType)
    } else if id == K_CODEC_ID {
        ElementKind::StringValue(StrDest::CodecId)
    } else {
        ElementKind::Opaque
    }
}

} // verus!
