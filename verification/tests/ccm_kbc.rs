use ccm_dsm::ccm_kbc::{
    decrypt_key, no_credential, parse_app_id, unwrap_key, CcmKbc, CcmKbcConfig,
};
use ccm_dsm::error::Error;
use ccm_dsm::resource_uri::ResourceUri;
use serde_json::Value;

const UUID: &str = "550e8400-e29b-41d4-a716-446655440000";

fn config(endpoint: Option<&str>, app_id: Option<&str>) -> CcmKbcConfig {
    CcmKbcConfig {
        dsm_endpoint: endpoint.map(str::to_owned),
        dsm_app_id: app_id.map(str::to_owned),
    }
}

fn kbc(uri: &str, endpoint: Option<&str>) -> CcmKbc {
    CcmKbc::new(uri, "unix:///run/aa.sock", config(endpoint, Some("app"))).unwrap()
}

fn rid(path: &str) -> ResourceUri {
    ResourceUri::try_from(&format!("kbs:///{path}")).unwrap()
}

fn key() -> ResourceUri {
    rid(&format!("dsm/key/{UUID}"))
}

fn object(fields: &[(&str, Value)]) -> serde_json::Map<String, Value> {
    fields.iter().map(|(name, value)| (name.to_string(), value.clone())).collect()
}

#[test]
fn endpoint_of_the_uri_comes_first() {
    for (uri, configured, expected) in [
        (" https://dsm.example// ", Some("https://other"), "https://dsm.example"),
        ("https://dsm.example", None, "https://dsm.example"),
        (" // ", Some("https://other/"), "https://other/"),
        ("", Some("https://other"), "https://other"),
    ] {
        let kbc = kbc(uri, configured);
        let request = kbc.get_resource(&key()).unwrap();
        assert_eq!(request.endpoint, expected);
        assert_eq!(request.app_id, "app");
        assert_eq!(request.key.to_text(), UUID);
        assert_eq!(kbc.aa_socket(), "unix:///run/aa.sock");
    }
}

#[test]
fn endpoint_and_app_id_are_needed() {
    let error = CcmKbc::new("/", "s", config(None, None)).unwrap_err();
    assert_eq!(
        error.to_text(),
        "ccm_kbc: no DSM endpoint configured - set [kbc].url in cdh.toml (delivered via \
         initdata), or pass ccm.kbc_dsm_endpoint= on the kernel cmdline"
    );
    let error = CcmKbc::new("https://dsm", "s", config(None, None)).unwrap_err();
    assert_eq!(
        error.to_text(),
        "ccm_kbc: no DSM app id configured - set cdh.toml [kbc_configs.ccm_kbc].dsm_app_id, \
         CCM_KBC_APP_ID, or ccm.kbc_app_id="
    );
}

#[test]
fn resource_has_to_be_a_dsm_key() {
    let kbc = kbc("https://dsm", None);
    let error = kbc.get_resource(&rid("default/key/1")).unwrap_err();
    assert_eq!(
        error,
        Error::KbsClientError(
            "ccm_kbc: invalid resource uri 'kbs:///default/key/1': repository must be 'dsm', \
             got 'default'; expected kbs:///dsm/key/<uuid>"
                .to_string()
        )
    );
    assert!(kbc.decrypt_with_kek(&rid("default/key/1"), vec![], &serde_json::Map::new()).is_err());
}

fn complaint(fields: &[(&str, Value)]) -> String {
    kbc("https://dsm", None)
        .decrypt_with_kek(&key(), vec![1], &object(fields))
        .unwrap_err()
        .to_text()
}

#[test]
fn annotations_need_iv_and_tag() {
    let text = |text: &str| Value::String(text.to_string());
    let missing = "ccm_kbc: annotation is missing the iv/tag needed to decrypt in DSM: ";
    assert_eq!(
        complaint(&[]),
        format!("{missing}Error(\"missing field `iv`\", line: 0, column: 0)")
    );
    assert_eq!(
        complaint(&[("iv", text("AA=="))]),
        format!("{missing}Error(\"missing field `tag`\", line: 0, column: 0)")
    );
    assert_eq!(
        complaint(&[("iv", Value::from(7))]),
        format!(
            "{missing}Error(\"invalid type: integer `7`, expected a string\", line: 0, column: 0)"
        )
    );
    assert_eq!(
        complaint(&[("tag", Value::Null)]),
        format!("{missing}Error(\"invalid type: null, expected a string\", line: 0, column: 0)")
    );
    assert_eq!(
        complaint(&[("iv", text("A")), ("tag", text("!"))]),
        "ccm_kbc: annotation iv is not valid base64: InvalidLength(1)"
    );
    assert_eq!(
        complaint(&[("iv", text("AA==")), ("tag", text("!AAA"))]),
        "ccm_kbc: annotation tag is not valid base64: InvalidByte(0, 33)"
    );
}

#[test]
fn decryption_is_asked_of_dsm() {
    let fields = [
        ("iv", Value::String("AQI=".to_string())),
        ("tag", Value::String("AwQ=".to_string())),
        ("more", Value::from(1)),
    ];
    let request = kbc("https://dsm", None)
        .decrypt_with_kek(&key(), vec![5, 6], &object(&fields))
        .unwrap();
    assert_eq!(request.endpoint, "https://dsm");
    assert_eq!(request.app_id, "app");
    assert_eq!(request.key.to_text(), UUID);
    assert_eq!(request.cipher, vec![5, 6]);
    assert_eq!(request.iv, vec![1, 2]);
    assert_eq!(request.tag, vec![3, 4]);
    assert_eq!(request.ad, None);
}

#[test]
fn replies_of_dsm() {
    let failure = |reason: &str| Err(Error::KbsClientError(reason.to_string()));
    assert_eq!(unwrap_key(Ok(Some(vec![1]))), Ok(vec![1]));
    assert_eq!(
        unwrap_key(Ok(None)),
        failure("ccm_kbc: DSM key export: DSM export returned no key material")
    );
    assert_eq!(unwrap_key(Err("down".to_string())), failure("ccm_kbc: DSM key export: down"));
    assert_eq!(decrypt_key(Ok(vec![1])), Ok(vec![1]));
    assert_eq!(decrypt_key(Err("down".to_string())), failure("ccm_kbc: DSM decrypt: down"));
    assert_eq!(no_credential("down").to_text(), "ccm_kbc: down");
}

#[test]
fn app_id_is_a_uuid() {
    assert_eq!(parse_app_id(UUID).unwrap().to_text(), UUID);
    let error = parse_app_id("not-a-uuid").unwrap_err();
    assert_eq!(error.app_id, "not-a-uuid");
    assert_eq!(error.to_text(), "DSM app id is not a valid UUID: not-a-uuid");
    assert!(error.cause.contains("invalid character"), "{}", error.cause);
}
