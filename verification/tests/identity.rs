use ccm_dsm::identity::parse_dsm_uuid;
use ccm_dsm::key_uuid::KeyUuid;
use ccm_dsm::resource_uri::{ResourceUri, ResourceUriError};

fn uri(s: &str) -> ResourceUri {
    ResourceUri::try_from(s).unwrap_or_else(|e| panic!("bad test URI '{s}': {}", e.to_text()))
}

#[test]
fn valid_uri_returns_the_uuid() {
    let rid = uri("kbs:///dsm/key/550e8400-e29b-41d4-a716-446655440000");
    let got = parse_dsm_uuid(&rid).unwrap();
    assert_eq!(got.to_text(), "550e8400-e29b-41d4-a716-446655440000");
}

#[test]
fn wrong_repo_is_rejected() {
    let rid = uri("kbs:///notdsm/key/550e8400-e29b-41d4-a716-446655440000");
    let err = parse_dsm_uuid(&rid).unwrap_err().to_text();
    assert!(err.contains("repository must be 'dsm'"), "{err}");
    assert_eq!(
        err,
        "ccm_kbc: invalid resource uri \
         'kbs:///notdsm/key/550e8400-e29b-41d4-a716-446655440000': \
         repository must be 'dsm', got 'notdsm'; expected kbs:///dsm/key/<uuid>"
    );
}

#[test]
fn wrong_type_is_rejected() {
    let rid = uri("kbs:///dsm/notkey/550e8400-e29b-41d4-a716-446655440000");
    let err = parse_dsm_uuid(&rid).unwrap_err().to_text();
    assert!(err.contains("type must be 'key'"), "{err}");
}

#[test]
fn malformed_uuid_is_rejected() {
    let rid = uri("kbs:///dsm/key/not-a-uuid");
    let err = parse_dsm_uuid(&rid).unwrap_err().to_text();
    assert!(err.contains("not a valid UUID"), "{err}");
}

#[test]
fn wrong_segment_count_is_rejected() {
    let rid = uri("kbs:///dsm/key/550e8400-e29b-41d4-a716-446655440000/extra");
    assert!(parse_dsm_uuid(&rid).is_err());
    assert!(parse_dsm_uuid(&uri("kbs:///dsm/key")).is_err());
    assert!(parse_dsm_uuid(&uri("kbs:///dsm")).is_err());
}

#[test]
fn address_does_not_matter() {
    let rid = uri("kbs://broker.example:8080/dsm/key/550e8400-e29b-41d4-a716-446655440000");
    assert_eq!(rid.kbs_addr, "broker.example:8080");
    assert_eq!(
        parse_dsm_uuid(&rid).unwrap().to_text(),
        "550e8400-e29b-41d4-a716-446655440000"
    );
}

#[test]
fn uri_needs_scheme_and_path() {
    assert_eq!(ResourceUri::try_from("http:///dsm/key/1").unwrap_err(), ResourceUriError::Scheme);
    assert_eq!(ResourceUri::try_from("kbs://broker").unwrap_err(), ResourceUriError::Path);
    assert_eq!(ResourceUriError::Scheme.to_text(), "scheme must be kbs");
    assert_eq!(ResourceUriError::Path.to_text(), "resource uri has no path");
    assert_eq!(
        ResourceUriError::Segments.to_text(),
        "path must be <repository>/<type>/<tag>"
    );
}

#[test]
fn parsed_uri_is_written_back() {
    for text in ["kbs:///a/b/c", "kbs://host/", "kbs://host:1/a//b"] {
        assert_eq!(uri(text).whole_uri(), text);
    }
}

#[test]
fn uuid_forms() {
    let bytes = [
        0x55, 0x0e, 0x84, 0x00, 0xe2, 0x9b, 0x41, 0xd4, 0xa7, 0x16, 0x44, 0x66, 0x55, 0x44, 0x00,
        0x00,
    ];
    for text in [
        "550e8400-e29b-41d4-a716-446655440000",
        "550E8400-E29B-41D4-A716-446655440000",
        "550e8400e29b41d4a716446655440000",
        "{550e8400-e29b-41d4-a716-446655440000}",
        "urn:uuid:550e8400-e29b-41d4-a716-446655440000",
        "URN:UUID:550e8400-e29b-41d4-a716-446655440000",
    ] {
        let uuid = KeyUuid::parse(text).unwrap();
        assert_eq!(uuid, KeyUuid { bytes });
        assert_eq!(uuid.to_text(), "550e8400-e29b-41d4-a716-446655440000");
    }
    for text in ["", "550e8400", "{550e8400e29b41d4a716446655440000}", "550e8400-e29b-41d4-a716-44665544000g"] {
        assert!(KeyUuid::parse(text).is_err());
    }
}

#[test]
fn random_uuids_differ() {
    assert_ne!(KeyUuid::random(), KeyUuid::random());
}
