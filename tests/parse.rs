use origin_key_upload::key_id::{parse_key_file, KeyVersion, ParseError};

#[test]
fn public_key_file_parses() {
    let id = parse_key_file("core-20160810182414.pub", KeyVersion::PublicSig).unwrap();
    assert_eq!(id.name, "core");
    assert_eq!(id.revision, "20160810182414");
}

#[test]
fn secret_key_file_parses() {
    let id = parse_key_file("/hab/cache/keys/core-20160810182414.sig.key", KeyVersion::SecretSig)
        .unwrap();
    assert_eq!(id.name, "core");
    assert_eq!(id.revision, "20160810182414");
}

#[test]
fn name_may_hold_dashes() {
    let id = parse_key_file("keys/my-origin-20200101000000.pub", KeyVersion::PublicSig).unwrap();
    assert_eq!(id.name, "my-origin");
    assert_eq!(id.revision, "20200101000000");
}

#[test]
fn parse_round_trip_rebuilds_token() {
    let id = parse_key_file("/tmp/x/acme-web-20191231235959.pub", KeyVersion::PublicSig).unwrap();
    assert!(!id.name.is_empty());
    assert!(!id.revision.is_empty());
    assert_eq!(format!("{}-{}", id.name, id.revision), "acme-web-20191231235959");
}

#[test]
fn secret_file_refused_as_public() {
    let r = parse_key_file("core-20160810182414.sig.key", KeyVersion::PublicSig);
    assert_eq!(r.unwrap_err(), ParseError::VersionMismatch);
}

#[test]
fn public_file_refused_as_secret() {
    let r = parse_key_file("core-20160810182414.pub", KeyVersion::SecretSig);
    assert_eq!(r.unwrap_err(), ParseError::VersionMismatch);
}

#[test]
fn missing_separator_refused() {
    let r = parse_key_file("core20160810182414.pub", KeyVersion::PublicSig);
    assert_eq!(r.unwrap_err(), ParseError::MissingSeparator);
}

#[test]
fn empty_name_refused() {
    let r = parse_key_file("/keys/-20160810182414.pub", KeyVersion::PublicSig);
    assert_eq!(r.unwrap_err(), ParseError::EmptyName);
}

#[test]
fn empty_revision_refused() {
    let r = parse_key_file("core-.pub", KeyVersion::PublicSig);
    assert_eq!(r.unwrap_err(), ParseError::InvalidRevision);
}

#[test]
fn non_digit_revision_refused() {
    let r = parse_key_file("core-2016x.pub", KeyVersion::PublicSig);
    assert_eq!(r.unwrap_err(), ParseError::InvalidRevision);
}

#[test]
fn directory_separator_is_not_part_of_name() {
    let r = parse_key_file("dir-1/core.pub", KeyVersion::PublicSig);
    assert_eq!(r.unwrap_err(), ParseError::MissingSeparator);
}

#[test]
fn empty_path_refused() {
    let r = parse_key_file("", KeyVersion::PublicSig);
    assert_eq!(r.unwrap_err(), ParseError::VersionMismatch);
}

#[test]
fn suffixes_by_version() {
    assert_eq!(KeyVersion::PublicSig.file_suffix(), ".pub");
    assert_eq!(KeyVersion::SecretSig.file_suffix(), ".sig.key");
}
