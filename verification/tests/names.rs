//! Format recognition from free-form names, and error descriptions.

use video_metadata::Error;
use video_metadata::KnownTypes;

#[test]
fn maybe_from_matches_case_insensitively() {
    assert_eq!(KnownTypes::maybe_from("WEBM"), Some(KnownTypes::WebM));
    assert_eq!(KnownTypes::maybe_from("trailer.webm"), Some(KnownTypes::WebM));
    assert_eq!(KnownTypes::maybe_from("video.MP4"), Some(KnownTypes::MP4));
    assert_eq!(KnownTypes::maybe_from("My.OGG.file"), Some(KnownTypes::Ogg));
}

#[test]
fn maybe_from_rejects_other_names() {
    assert_eq!(KnownTypes::maybe_from("movie.avi"), None);
    assert_eq!(KnownTypes::maybe_from(""), None);
    assert_eq!(KnownTypes::maybe_from("web"), None);
}

#[test]
fn maybe_from_prefers_webm_over_ogg() {
    // The keys are tried in a fixed order: webm, then mp4, then ogg.
    assert_eq!(KnownTypes::maybe_from("ogg.webm"), Some(KnownTypes::WebM));
    assert_eq!(KnownTypes::maybe_from("webm.mp4"), Some(KnownTypes::WebM));
}

#[test]
fn error_descriptions() {
    assert_eq!(Error::FileError.error_description(), "FileError");
    assert_eq!(Error::UnknownFormat.error_description(), "UnknownFormat");
    assert_eq!(
        Error::CostumError("something odd".to_owned()).error_description(),
        "something odd"
    );
}
