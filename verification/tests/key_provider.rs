use ccm_dsm::dsm::DsmError;
use ccm_dsm::kek::KekMode;
use ccm_dsm::key_provider::{
    decode_input, read_api_key, read_auth_key, read_request, Code, Ec, KeyProvider, KeyWrapParams,
    Status, WrapError, WrapStep,
};
use ccm_dsm::key_uuid::KeyUuid;
use ccm_dsm::wrap::LayerStep;
use jwt_simple::prelude::Ed25519KeyPair;

fn text(text: &str) -> Option<String> {
    Some(text.to_string())
}

// "keyid=image", and bytes that are not UTF-8, in base64.
const KEYID_IMAGE: &str = "a2V5aWQ9aW1hZ2U=";
const NOT_UTF8: &str = "/w==";

fn params(parameters: &[&str]) -> KeyWrapParams {
    let parameters = parameters.iter().map(|p| p.to_string()).collect();
    KeyWrapParams {
        ec: Some(Ec {
            parameters: vec![
                ("other".to_string(), vec!["b3RoZXI=".to_string()]),
                ("attestation-agent".to_string(), parameters),
            ],
        }),
        optsdata: text("AQID"),
    }
}

fn input(parameters: &[&str]) -> Result<KeyWrapParams, String> {
    Ok(params(parameters))
}

fn with_dsm(mode: KekMode) -> KeyProvider {
    KeyProvider::new(None, None, text("https://dsm.example"), text("secret"), mode, None)
        .unwrap()
}

#[test]
fn dsm_wraps_where_it_is_configured() {
    let mut provider = with_dsm(KekMode::PerLayer);
    match provider.wrap_key(input(&[KEYID_IMAGE])).unwrap() {
        WrapStep::Dsm {
            endpoint,
            api_key,
            legacy_keyid,
            step: LayerStep::CreateKek(pending, request),
        } => {
            assert_eq!(legacy_keyid, None);
            assert_eq!(endpoint, "https://dsm.example/");
            assert_eq!(api_key, "secret");
            assert_eq!(request.name, "image-0");
            let uuid = KeyUuid { bytes: [4; 16] };
            let (_, request) = provider.kek_created(pending, Some(uuid)).unwrap();
            assert_eq!(request.key, uuid);
            assert_eq!(request.plain, vec![1, 2, 3]);
        }
        other => panic!("DSM has to create a KEK: {other:?}"),
    }
}

fn dsm_step(step: WrapStep) -> LayerStep {
    match step {
        WrapStep::Dsm { step, .. } => step,
        other => panic!("DSM has to wrap: {other:?}"),
    }
}

#[test]
fn shared_kek_is_waited_for() {
    let mut provider = with_dsm(KekMode::Shared);
    let first = dsm_step(provider.wrap_key(input(&[])).unwrap());
    assert!(matches!(first, LayerStep::CreateKek(..)));
    let second = match dsm_step(provider.wrap_key(input(&[])).unwrap()) {
        LayerStep::Wait(waiting) => waiting,
        other => panic!("a KEK is being created: {other:?}"),
    };
    provider.creation_failed();
    assert!(matches!(provider.resume(second), LayerStep::CreateKek(..)));
}

#[test]
fn kid_of_two_segments_is_pointed_out() {
    // "keyid=kbs:///dsm/550e8400-e29b-41d4-a716-446655440000" and the same with "key/".
    let two = "a2V5aWQ9a2JzOi8vL2RzbS81NTBlODQwMC1lMjliLTQxZDQtYTcxNi00NDY2NTU0NDAwMDA=";
    let three = "a2V5aWQ9a2JzOi8vL2RzbS9rZXkvNTUwZTg0MDAtZTI5Yi00MWQ0LWE3MTYtNDQ2NjU1NDQwMDAw";
    let mut provider = with_dsm(KekMode::Shared);
    for (parameter, legacy) in [
        (two, text("kbs:///dsm/550e8400-e29b-41d4-a716-446655440000")),
        (three, None),
    ] {
        match provider.wrap_key(input(&[parameter])).unwrap() {
            WrapStep::Dsm { legacy_keyid, step: LayerStep::Encrypt(_, request), .. } => {
                assert_eq!(legacy_keyid, legacy);
                assert_eq!(request.key.to_text(), "550e8400-e29b-41d4-a716-446655440000");
            }
            other => panic!("DSM has to wrap with the KEK: {other:?}"),
        }
    }
}

#[test]
fn key_broker_wraps_otherwise() {
    for (endpoint, key) in [(None, None), (text("https://dsm.example"), None), (None, text("k"))] {
        let mut provider = KeyProvider::new(
            None,
            text("HTTP://Kbs.Example:80"),
            endpoint,
            key,
            KekMode::Shared,
            None,
        )
        .unwrap();
        assert_eq!(
            provider.wrap_key(input(&[NOT_UTF8, KEYID_IMAGE, "!"])),
            Ok(WrapStep::Kbs {
                kbs: text("http://kbs.example/"),
                optsdata: vec![1, 2, 3],
                params: vec!["keyid=image".to_string()],
            })
        );
    }
}

#[test]
fn key_broker_that_is_no_url_is_none() {
    let mut provider =
        KeyProvider::new(None, text("no url"), None, None, KekMode::Shared, None).unwrap();
    let step = provider.wrap_key(input(&[])).unwrap();
    assert_eq!(
        step,
        WrapStep::Kbs { kbs: None, optsdata: vec![1, 2, 3], params: vec![] }
    );
}

#[test]
fn endpoint_that_is_no_url_is_an_error() {
    let error = KeyProvider::new(None, None, text("no url"), None, KekMode::Shared, None)
        .err()
        .unwrap();
    assert_eq!(error.to_text(), "parse DSM endpoint URL");
    assert_eq!(error.cause, "relative URL without a base");
    let error = KeyProvider::with_urls(
        None,
        None,
        Some(Err("cause".to_string())),
        None,
        KekMode::Shared,
        None,
    )
    .err()
    .unwrap();
    assert_eq!(error.cause, "cause");
}

#[test]
fn provider_keeps_what_it_was_made_with() {
    let key = Ed25519KeyPair::generate();
    let bytes = key.to_bytes();
    let provider = KeyProvider::with_urls(
        Some(key),
        Some(Ok("http://kbs/".to_string())),
        Some(Ok("http://dsm/".to_string())),
        None,
        KekMode::Shared,
        None,
    )
    .unwrap();
    assert_eq!(provider.auth_private_key().as_ref().unwrap().to_bytes(), bytes);
    assert_eq!(provider.kek_mode(), KekMode::Shared);
}

fn refused(input: Result<KeyWrapParams, String>) -> Status {
    let mut provider = with_dsm(KekMode::Shared);
    match provider.wrap_key(input) {
        Err(WrapError::Request(status)) => status,
        other => panic!("the request is at fault: {other:?}"),
    }
}

#[test]
fn faults_of_a_request() {
    let status = |code: Code, message: &str| Status { code, message: message.to_string() };
    assert_eq!(
        refused(Err("cause".to_string())),
        status(Code::InvalidArgument, "parse key provider input failed: cause")
    );
    let nothing = Ok(KeyWrapParams { ec: None, optsdata: None });
    assert_eq!(
        refused(nothing),
        status(Code::InvalidArgument, "illegal keywrapparams without optsdata")
    );
    let no_ec = Ok(KeyWrapParams { ec: None, optsdata: text("!") });
    assert_eq!(
        refused(no_ec),
        status(Code::InvalidArgument, "illegal keywrapparams without ec")
    );
    let no_agent = Ok(KeyWrapParams { ec: Some(Ec { parameters: vec![] }), optsdata: text("!") });
    assert_eq!(
        refused(no_agent),
        status(
            Code::InvalidArgument,
            "illegal encryption provider without attestation-agent"
        )
    );
    let no_base64 = Ok(KeyWrapParams { optsdata: text("!"), ..params(&[]) });
    assert_eq!(refused(no_base64), status(Code::Aborted, "base64 decode"));
}

#[test]
fn refused_keyid_is_an_error_of_dsm() {
    let mut provider = with_dsm(KekMode::Shared);
    // "keyid=kbs:///a/b/c"
    let step = provider.wrap_key(input(&["a2V5aWQ9a2JzOi8vL2EvYi9j"]));
    assert_eq!(
        step,
        Err(WrapError::Dsm(DsmError::KbsStyleKeyId { keyid: "kbs:///a/b/c".to_string() }))
    );
}

#[test]
fn refused_keyid_is_told_in_full() {
    let told = |error: WrapError, trace: Option<String>| {
        let status = error.status(trace);
        assert_eq!(status.code, Code::Internal);
        status.message
    };
    assert_eq!(
        told(WrapError::Dsm(DsmError::NoKid), None),
        "DSM encrypt failed: DSM did not return a kid"
    );
    assert_eq!(
        told(WrapError::Dsm(DsmError::NoKid), text("Stack backtrace:\n   0: main")),
        "DSM encrypt failed: DSM did not return a kid\n\nStack backtrace:\n   0: main"
    );
    let invalid = DsmError::InvalidUuid {
        keyid: "kbs:///dsm/x".to_string(),
        cause: "first\nsecond".to_string(),
    };
    let error = anyhow::Error::msg("first\nsecond").context("invalid UUID in 'kbs:///dsm/x'");
    assert!(format!("{error:?}").starts_with(&invalid.to_report()));
    assert_eq!(
        told(WrapError::Dsm(invalid), None),
        "DSM encrypt failed: invalid UUID in 'kbs:///dsm/x'\n\n\
         Caused by:\n    first\n    second"
    );
    let fault = || Status { code: Code::Aborted, message: "base64 decode".to_string() };
    assert_eq!(WrapError::Request(fault()).status(text("trace")), fault());
}

#[test]
fn parameters_that_hold_no_text_are_left_out() {
    let (key, params) = read_request(input(&["YQ==", "YQ", NOT_UTF8, "", "4pyT"])).unwrap();
    assert_eq!(key, vec![1, 2, 3]);
    assert_eq!(params, vec!["a", "", "\u{2713}"]);
}

#[test]
fn request_is_text() {
    assert_eq!(decode_input("h\u{e9}".as_bytes().to_vec()), Ok("h\u{e9}".to_string()));
    let status = decode_input(vec![0x61, 0xff]).unwrap_err();
    assert_eq!(status.code, Code::InvalidArgument);
    assert_eq!(
        status.message,
        "key_provider_key_wrap_protocol_input is not legal utf8 string: FromUtf8Error { bytes: \
         [97, 255], error: Utf8Error { valid_up_to: 1, error_len: Some(1) } }"
    );
}

#[test]
fn failures_in_words() {
    let told = |status: Status| (status.code, status.message);
    assert_eq!(
        told(Status::parse_failed("x")),
        (Code::InvalidArgument, "parse key provider input failed: x".to_string())
    );
    assert_eq!(
        told(Status::dsm_failed("x")),
        (Code::Internal, "DSM encrypt failed: x".to_string())
    );
    assert_eq!(
        told(Status::encrypt_failed("x")),
        (Code::Internal, "encrypt failed: x".to_string())
    );
    assert_eq!(
        told(Status::serialize_failed("x")),
        (Code::Internal, "serde json failed: x".to_string())
    );
    assert_eq!(
        told(with_dsm(KekMode::Shared).un_wrap_key()),
        (Code::Unimplemented, "UnWrapKey API of sample-kbs is unimplemented!".to_string())
    );
}

#[test]
fn api_key_is_read_without_white_space() {
    assert_eq!(read_api_key(text(" \t\u{a0}key with space\r\n")), text("key with space"));
    assert_eq!(read_api_key(text("\u{2003}\n")), text(""));
    assert_eq!(read_api_key(None), None);
}

#[test]
fn auth_key_is_read_from_pem() {
    let key = Ed25519KeyPair::generate();
    let read = read_auth_key(Some(key.to_pem())).unwrap().unwrap();
    assert_eq!(read.to_bytes(), key.to_bytes());
    assert!(read_auth_key(None).unwrap().is_none());
    assert!(read_auth_key(text("not a key")).is_err());
}
