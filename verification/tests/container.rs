use muco::error::MucoErrorKind;
use muco::media::Container;

#[test]
fn classify_known_extensions() {
    assert_eq!(Container::try_from("flac"), Ok(Container::Flac));
    assert_eq!(Container::try_from("mp3"), Ok(Container::Mp3));
    assert_eq!(Container::try_from("webm"), Ok(Container::Webm));
}

#[test]
fn classify_is_case_insensitive() {
    assert_eq!(Container::try_from("FLAC"), Ok(Container::Flac));
    assert_eq!(Container::try_from("Mp3"), Ok(Container::Mp3));
    assert_eq!(Container::try_from("WeBm"), Ok(Container::Webm));
}

#[test]
fn classify_unknown_extension_is_an_error() {
    assert_eq!(Container::try_from("ogg"), Err(MucoErrorKind::Unknown));
    assert_eq!(Container::try_from(""), Err(MucoErrorKind::Unknown));
    assert_eq!(Container::try_from("mp33"), Err(MucoErrorKind::Unknown));
    assert_eq!(Container::try_from("fla"), Err(MucoErrorKind::Unknown));
}

#[test]
fn canonical_extensions() {
    assert_eq!(Container::Flac.extension(), "flac");
    assert_eq!(Container::Mp3.extension(), "mp3");
    assert_eq!(Container::Webm.extension(), "webm");
}

#[test]
fn error_kinds_have_messages() {
    assert_eq!(MucoErrorKind::Unknown.message(), "unknown failure");
    assert_eq!(MucoErrorKind::Nonexistant.message(), "resource does not exist");
    assert_eq!(MucoErrorKind::DuplicateLibrary.message(), "duplicate library");
    assert_eq!(MucoErrorKind::DuplicateDevice.message(), "duplicate device");
    assert_eq!(
        MucoErrorKind::ConfigurationFile.message(),
        "cannot read or write the configuration"
    );
    assert_eq!(MucoErrorKind::Serde.message(), "malformed persisted content");
    assert_eq!(MucoErrorKind::Transcode.message(), "transcoding error");
}
