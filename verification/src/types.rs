//! Common data types: pixel dimensions, durations, errors and the metadata
//! record that a successful probe fills in.

use vstd::prelude::*;
use crate::enums::KnownTypes;

verus! {

/// Pixel dimensions of a video stream.
#[derive(Clone, Copy, Debug, PartialEq, Eq, Structural)]
pub struct Size {
    pub width: u32,
    pub height: u32,
}

/// A time span in fixed units: whole seconds plus a nanosecond remainder.
#[derive(Clone, Copy, Debug, PartialEq, Eq, Structural)]
pub struct MediaTime {
    pub secs: u64,
    pub nanos: u32,
}

/// Why a probe failed.
#[derive(Clone, Debug, PartialEq)]
pub enum Error {
    FileError,
    UnknownFormat,
    CostumError(String),
}

/// Mathematical image of an [`Error`]: the carried string becomes a
/// sequence of characters.
pub enum ErrorView {
    FileError,
    UnknownFormat,
    CostumError(Seq<char>),
}

impl View for Error {
    type V = ErrorView;

    open spec fn view(&self) -> ErrorView {
        match self {
            Error::FileError => ErrorView::FileError,
            Error::UnknownFormat => ErrorView::UnknownFormat,
            Error::CostumError(s) => ErrorView::CostumError(s@),
        }
    }
}

impl Error {
    /// A short, human-readable name for the error.
    pub fn error_description(&self) -> (r: String)
        ensures
            r@ == (match self@ {
                ErrorView::FileError => "FileError"@,
                ErrorView::UnknownFormat => "UnknownFormat"@,
                ErrorView::CostumError(e) => e,
            }),
    {
        match self {
            Error::FileError => "FileError".to_owned(),
            Error::UnknownFormat => "UnknownFormat".to_owned(),
            Error::CostumError(e) => e.clone(),
        }
    }
}

/// Everything a probe learns about a media file from its headers alone.
#[derive(Clone, Debug, PartialEq)]
pub struct Metadata {
    pub format: KnownTypes,
    pub duration: Option<MediaTime>,
    pub size: Size,
    pub video: String,
    pub audio: Option<String>,
}

/// Mathematical image of a [`Metadata`] record: codec identifiers become
/// sequences of characters.
pub struct MetadataView {
    pub format: KnownTypes,
    pub duration: Option<MediaTime>,
    pub size: Size,
    pub video: Seq<char>,
    pub audio: Option<Seq<char>>,
}

impl View for Metadata {
    type V = MetadataView;

    open spec fn view(&self) -> MetadataView {
        MetadataView {
            format: self.format,
            duration: self.duration,
            size: self.size,
            video: self.video@,
            audio: match self.audio {
                Some(s) => Some(s@),
                None => None,
            },
        }
    }
}

} // verus!
