//! Header-level media metadata extraction.
//!
//! The crate inspects container-level headers of media byte streams — never
//! the audio or video samples themselves — and reports the container format,
//! pixel dimensions, duration and codec identifiers.  The core is a
//! resumable, streaming parser for the EBML-style (tag-length-value)
//! container family used by WebM; MP4 and Ogg containers are delegated to
//! specialized libraries at the crate's boundary.

pub mod enums;
pub mod formats;
pub mod types;
pub mod video_metadata;

pub use enums::KnownTypes;
pub use types::Error;
pub use types::Metadata;
pub use types::Size;
pub use video_metadata::get_format_from_slice;
