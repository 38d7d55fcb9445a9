use ccm_dsm::dsm::DsmError;
use ccm_dsm::kek::{choose_kek, parse_dsm_kid, parse_keyid, Kek, KekChoice, KekMode, KID_PREFIX};
use ccm_dsm::key_uuid::KeyUuid;
use ccm_dsm::resource_uri::{ResourcePluginPath, ResourceUri};

const UUID: &str = "9a4f5bd3-d3d2-4e88-98c7-eedd9f04eefd";

#[test]
fn parse_dsm_kid_accepts_both_forms() {
    for (keyid, expected) in [
        ("kbs:///dsm/key/9a4f5bd3-d3d2-4e88-98c7-eedd9f04eefd", Some(UUID)),
        ("kbs:///dsm/9a4f5bd3-d3d2-4e88-98c7-eedd9f04eefd", Some(UUID)),
        ("kbs:///default/key/1", None),
        ("my-kek", None),
    ] {
        assert_eq!(parse_dsm_kid(keyid), expected);
    }
}

#[test]
fn emitted_kid_is_a_valid_resource_uri() {
    let kid = format!("{KID_PREFIX}{UUID}");
    let uri = ResourceUri::try_from(&kid[..]).expect("kid must parse as a KBS resource URI");
    let path = ResourcePluginPath::try_from(&uri).expect("kid must have three segments");
    assert_eq!(path.repo, "dsm");
    assert_eq!(path.resource_type, "key");
    assert_eq!(path.tag, UUID);
    let kek = Kek::new(KeyUuid::parse(UUID).unwrap());
    assert_eq!(kek.kid(), kid);
}

#[test]
fn legacy_kid_is_not_a_valid_resource_uri() {
    let uri = ResourceUri::try_from("kbs:///dsm/9a4f5bd3-d3d2-4e88-98c7-eedd9f04eefd")
        .expect("two-segment form still parses as a ResourceUri");
    assert!(ResourcePluginPath::try_from(&uri).is_err());
}

#[test]
fn keyid_is_the_first_field_of_that_name() {
    assert_eq!(parse_keyid("keyid=a"), Some("a".to_string()));
    assert_eq!(parse_keyid("x=1::keyid=a::keyid=b"), Some("a".to_string()));
    assert_eq!(parse_keyid("keyid::keyid=a=b"), Some("a=b".to_string()));
    assert_eq!(parse_keyid("keyid="), Some(String::new()));
    assert_eq!(parse_keyid("keyid=kbs:///dsm/key/1"), Some("kbs:///dsm/key/1".to_string()));
    assert_eq!(parse_keyid("keyid=a:::x"), Some("a".to_string()));
    assert_eq!(parse_keyid("KEYID=a"), None);
    assert_eq!(parse_keyid(" keyid=a"), None);
    assert_eq!(parse_keyid(""), None);
}

fn choice_for(param: &str, name: Option<&str>) -> Result<KekChoice, DsmError> {
    choose_kek(&vec![param.to_string()], &name.map(str::to_owned))
}

#[test]
fn named_kek_is_used() {
    for kid in ["kbs:///dsm/key/", "kbs:///dsm/"] {
        let choice = choice_for(&format!("keyid={kid}{UUID}"), Some("name")).unwrap();
        assert_eq!(choice, KekChoice::Existing(Kek::new(KeyUuid::parse(UUID).unwrap())));
    }
}

#[test]
fn wanted_name_comes_before_configured_name() {
    let new = |name: Option<&str>| Ok(KekChoice::New(name.map(str::to_owned)));
    assert_eq!(choice_for("keyid=mine", Some("name")), new(Some("mine")));
    assert_eq!(choice_for("keyid=", Some("name")), new(Some("name")));
    assert_eq!(choice_for("other=1", Some("name")), new(Some("name")));
    assert_eq!(choice_for("keyid=", None), new(None));
    assert_eq!(choose_kek(&vec![], &Some("name".to_string())), new(Some("name")));
    let second = vec!["other=1".to_string(), "keyid=mine".to_string()];
    assert_eq!(choose_kek(&second, &None), new(None));
}

#[test]
fn kid_without_uuid_is_refused() {
    let error = choice_for("keyid=kbs:///dsm/key/nonsense", None).unwrap_err();
    assert_eq!(error.to_text(), "invalid UUID in 'kbs:///dsm/key/nonsense'");
    assert!(error.cause().is_some());
    assert!(matches!(error, DsmError::InvalidUuid { .. }));
    let legacy_with_key = format!("keyid=kbs:///dsm/key/key/{UUID}");
    assert!(choice_for(&legacy_with_key, None).is_err());
}

#[test]
fn resource_outside_dsm_is_refused() {
    let error = choice_for("keyid=kbs:///default/key/1", None).unwrap_err();
    assert_eq!(
        error,
        DsmError::KbsStyleKeyId { keyid: "kbs:///default/key/1".to_string() }
    );
    assert_eq!(
        error.to_text(),
        "DSM endpoint configured but keyid is KBS-style: 'kbs:///default/key/1'. \
         Use 'kbs:///dsm/key/<uuid>' to reference an existing DSM KEK, \
         or omit keyid to auto-create."
    );
    assert_eq!(error.cause(), None);
}

#[test]
fn one_kek_per_layer_is_the_default() {
    assert_eq!(KekMode::default(), KekMode::PerLayer);
}
