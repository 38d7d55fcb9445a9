use ccm_dsm::annotation::AnnotationPacket;
use ccm_dsm::ccm_kbc::{CcmKbc, CcmKbcConfig};
use ccm_dsm::codec::decode_base64;
use ccm_dsm::dsm::{
    check_wrapped, create_named_kek, Algorithm, CipherMode, DsmError, EncryptRequest,
    EncryptResponse, KeyOperation, ObjectType, SobjectRequest,
};
use ccm_dsm::kek::{Kek, KekMode};
use ccm_dsm::key_uuid::KeyUuid;
use ccm_dsm::resource_uri::ResourceUri;
use ccm_dsm::wrap::{DsmProvider, KekStep, LayerStep, PendingKek, PendingKey, WaitingLayer};

const FIRST: KeyUuid = KeyUuid { bytes: [1; 16] };
const SECOND: KeyUuid = KeyUuid { bytes: [2; 16] };

fn provider(mode: KekMode, name: Option<&str>) -> DsmProvider {
    DsmProvider::new(None, None, mode, name.map(str::to_owned))
}

fn params(param: &str) -> Vec<String> {
    vec![param.to_string()]
}

fn creation(step: LayerStep) -> (PendingKek, SobjectRequest) {
    match step {
        LayerStep::CreateKek(pending, request) => (pending, request),
        other => panic!("a KEK is to be created: {other:?}"),
    }
}

fn encryption(step: LayerStep) -> (PendingKey, EncryptRequest) {
    match step {
        LayerStep::Encrypt(pending, request) => (pending, request),
        other => panic!("a key is to be wrapped: {other:?}"),
    }
}

fn response(cipher: &[u8]) -> EncryptResponse {
    EncryptResponse {
        cipher: cipher.to_vec(),
        iv: Some(vec![9; 12]),
        tag: Some((0..16).collect()),
    }
}

fn assert_asks_to_wrap(request: &EncryptRequest, kek: KeyUuid, plain: &[u8]) {
    assert_eq!(request.key, kek);
    assert_eq!(request.plain, plain);
    assert_eq!(request.alg, Algorithm::Aes);
    assert_eq!(request.mode, CipherMode::Gcm);
    assert_eq!(request.iv, None);
    assert_eq!(request.ad, None);
    assert_eq!(request.tag_len, 128);
}

#[test]
fn per_layer_creates_a_kek_for_each_layer() {
    let mut provider = provider(KekMode::PerLayer, Some("image"));
    for (layer, uuid) in [FIRST, SECOND].into_iter().enumerate() {
        let step = provider.encrypt_optsdata(vec![5, 6], &vec![]).unwrap();
        let (pending, request) = creation(step);
        assert_eq!(request.name, format!("image-{layer}"));
        let (_, request) = pending.created(&mut provider, Some(uuid)).unwrap();
        assert_asks_to_wrap(&request, uuid, &[5, 6]);
    }
    let (_, request) = creation(provider.encrypt_optsdata(vec![], &params("keyid=own")).unwrap());
    assert_eq!(request.name, "own-2");
}

#[test]
fn shared_kek_is_created_once() {
    let mut provider = provider(KekMode::Shared, Some("image"));
    let (pending, request) = creation(provider.encrypt_optsdata(vec![5], &vec![]).unwrap());
    assert_eq!(request.name, "image");
    let (_, request) = pending.created(&mut provider, Some(FIRST)).unwrap();
    assert_asks_to_wrap(&request, FIRST, &[5]);
    let step = provider.encrypt_optsdata(vec![7], &params("keyid=other")).unwrap();
    let (_, request) = encryption(step);
    assert_asks_to_wrap(&request, FIRST, &[7]);
}

fn waiting(step: LayerStep) -> WaitingLayer {
    match step {
        LayerStep::Wait(waiting) => waiting,
        other => panic!("a KEK is being created: {other:?}"),
    }
}

#[test]
fn layers_wait_for_the_shared_kek() {
    let mut provider = provider(KekMode::Shared, Some("image"));
    let (pending, _) = creation(provider.encrypt_optsdata(vec![1], &vec![]).unwrap());
    let two = waiting(provider.encrypt_optsdata(vec![2], &params("keyid=two")).unwrap());
    let two = waiting(two.resume(&mut provider));
    let (_, request) = pending.created(&mut provider, Some(FIRST)).unwrap();
    assert_asks_to_wrap(&request, FIRST, &[1]);
    let (_, request) = encryption(two.resume(&mut provider));
    assert_asks_to_wrap(&request, FIRST, &[2]);
}

#[test]
fn failed_creation_falls_to_another_layer() {
    let mut provider = provider(KekMode::Shared, None);
    let (one, _) = creation(provider.encrypt_optsdata(vec![1], &vec![]).unwrap());
    let two = waiting(provider.encrypt_optsdata(vec![2], &params("keyid=two")).unwrap());
    provider.creation_failed();
    let (two, request) = creation(two.resume(&mut provider));
    assert_eq!(request.name, "two");
    let (_, request) = two.created(&mut provider, Some(SECOND)).unwrap();
    assert_asks_to_wrap(&request, SECOND, &[2]);
    provider.creation_failed();
    let (_, request) = one.created(&mut provider, Some(FIRST)).unwrap();
    assert_asks_to_wrap(&request, SECOND, &[1]);
}

#[test]
fn failed_creation_is_tried_again() {
    let mut provider = provider(KekMode::Shared, None);
    let (pending, _) = creation(provider.encrypt_optsdata(vec![1], &vec![]).unwrap());
    let error = pending.created(&mut provider, None).unwrap_err();
    assert_eq!(error, DsmError::NoKid);
    assert_eq!(error.to_text(), "DSM did not return a kid");
    assert_eq!(provider.new_kek(None), KekStep::Create(None));
}

#[test]
fn named_kek_overrides_either_mode() {
    let kid = Kek::new(SECOND).kid();
    for mode in [KekMode::PerLayer, KekMode::Shared] {
        let mut provider = provider(mode, Some("image"));
        provider.kek_created(Some(FIRST)).unwrap();
        let before = provider.new_kek(None);
        let step = provider.encrypt_optsdata(vec![3], &params(&format!("keyid={kid}"))).unwrap();
        let (_, request) = encryption(step);
        assert_eq!(request.key, SECOND);
        assert_eq!(provider.new_kek(None), before);
    }
}

#[test]
fn refused_keyid_changes_nothing() {
    let mut provider = provider(KekMode::PerLayer, Some("image"));
    assert!(provider.encrypt_optsdata(vec![], &params("keyid=kbs:///a/b/c")).is_err());
    assert!(provider.encrypt_optsdata(vec![], &params("keyid=kbs:///dsm/key/x")).is_err());
    let step = provider.new_kek(Some("image".to_string()));
    assert_eq!(step, KekStep::Create(Some("image-0".to_string())));
}

#[test]
fn empty_keyid_is_no_keyid() {
    let mut with_empty = provider(KekMode::PerLayer, Some("image"));
    let mut without = provider(KekMode::PerLayer, Some("image"));
    let (_, one) = creation(with_empty.encrypt_optsdata(vec![], &params("keyid=")).unwrap());
    let (_, two) = creation(without.encrypt_optsdata(vec![], &vec![]).unwrap());
    assert_eq!(one, two);
    assert_eq!(with_empty, without);
}

#[test]
fn unnamed_kek_gets_a_generated_name() {
    let mut provider = provider(KekMode::PerLayer, None);
    let (_, one) = creation(provider.encrypt_optsdata(vec![], &vec![]).unwrap());
    let (_, two) = creation(provider.encrypt_optsdata(vec![], &vec![]).unwrap());
    assert_ne!(one.name, two.name);
    let uuid = one.name.strip_prefix("ccm-kbc-kek-").unwrap();
    assert_eq!(KeyUuid::parse(uuid).unwrap().to_text(), uuid);
}

#[test]
fn kek_is_not_exportable() {
    let request = create_named_kek(Some("name".to_string()));
    assert_eq!(request.name, "name");
    assert_eq!(request.obj_type, ObjectType::Aes);
    assert_eq!(request.key_size, 256);
    assert_eq!(
        request.key_ops,
        vec![KeyOperation::Encrypt, KeyOperation::Decrypt, KeyOperation::AppManageable]
    );
    assert!(!request.key_ops.contains(&KeyOperation::Export));
    assert_eq!(
        request.description,
        "KEK for CoCo encrypted image; non-exportable; created by coco_keyprovider"
    );
}

#[test]
fn access_needs_endpoint_and_key() {
    let some = |text: &str| Some(text.to_string());
    let access = |endpoint, key| DsmProvider::new(endpoint, key, KekMode::Shared, None).access();
    assert_eq!(access(some("e"), some("k")), Some(("e".to_string(), "k".to_string())));
    assert_eq!(access(some("e"), None), None);
    assert_eq!(access(None, some("k")), None);
    assert_eq!(provider(KekMode::Shared, None).kek_mode(), KekMode::Shared);
}

#[test]
fn response_is_checked() {
    let no_iv = EncryptResponse { iv: None, ..response(&[1, 2]) };
    let error = check_wrapped(no_iv, 2).unwrap_err();
    assert_eq!(error, DsmError::NoIv);
    assert_eq!(error.to_text(), "DSM did not return iv for GCM encryption");

    let no_tag = EncryptResponse { tag: None, ..response(&[1, 2]) };
    let error = check_wrapped(no_tag, 2).unwrap_err();
    assert_eq!(error, DsmError::NoTag);
    assert_eq!(error.to_text(), "DSM did not return tag for GCM encryption");

    let short_tag = EncryptResponse { tag: Some(vec![0; 12]), ..response(&[1, 2]) };
    let error = check_wrapped(short_tag, 2).unwrap_err();
    assert_eq!(error, DsmError::TagLength { len: 12 });
    assert_eq!(
        error.to_text(),
        "DSM returned unexpected GCM tag length: 12 bytes (expected 16)"
    );

    let error = check_wrapped(response(&[1, 2, 3]), 2).unwrap_err();
    assert_eq!(error, DsmError::CipherLength { len: 3, expected: 2 });
    assert_eq!(error.to_text(), "DSM wrap produced unexpected size: 3 bytes (expected 2)");

    let wrapped = check_wrapped(response(&[1, 2]), 2).unwrap();
    assert_eq!(wrapped.cipher, vec![1, 2]);
    assert_eq!(wrapped.iv, vec![9; 12]);
    assert_eq!(wrapped.tag, (0..16).collect::<Vec<u8>>());
}

fn wrapped_layer(cipher: &[u8]) -> AnnotationPacket {
    let mut provider = provider(KekMode::Shared, None);
    provider.kek_created(Some(FIRST)).unwrap();
    let step = provider.encrypt_optsdata(vec![0; cipher.len()], &vec![]).unwrap();
    encryption(step).0.encrypted(response(cipher)).unwrap()
}

#[test]
fn annotation_holds_the_wrapped_key() {
    let packet = wrapped_layer(&[0xfb, 0xff]);
    assert_eq!(packet.kid, "kbs:///dsm/key/01010101-0101-0101-0101-010101010101");
    assert_eq!(packet.wrapped_data, "+/8=");
    assert_eq!(packet.iv, None);
    assert_eq!(packet.wrap_type, None);
    assert_eq!(packet.provider, Some("dsm".to_string()));
    let annotations = packet.annotations.unwrap();
    assert_eq!(annotations.len(), 2);
    assert_eq!(annotations["iv"], "CQkJCQkJCQkJCQkJ");
    assert_eq!(annotations["tag"], "AAECAwQFBgcICQoLDA0ODw==");
}

#[test]
fn wrong_response_gives_no_annotation() {
    let mut provider = provider(KekMode::Shared, None);
    provider.kek_created(Some(FIRST)).unwrap();
    let step = provider.encrypt_optsdata(vec![0; 4], &vec![]).unwrap();
    let error = encryption(step).0.encrypted(response(&[1, 2])).unwrap_err();
    assert_eq!(error, DsmError::CipherLength { len: 2, expected: 4 });
}

#[test]
fn wrapped_layer_is_unwrapped_with_its_kek() {
    let packet = wrapped_layer(&[1, 2, 3]);
    let kbc = CcmKbc::new(
        "https://dsm.example/",
        "unix:///run/aa.sock",
        CcmKbcConfig { dsm_endpoint: None, dsm_app_id: Some("app".to_string()) },
    )
    .unwrap();
    let rid = ResourceUri::try_from(&packet.kid).unwrap();
    let cipher = decode_base64(&packet.wrapped_data).unwrap();
    let request = kbc
        .decrypt_with_kek(&rid, cipher, &packet.annotations.unwrap())
        .unwrap();
    assert_eq!(request.key, FIRST);
    assert_eq!(request.cipher, vec![1, 2, 3]);
    assert_eq!(request.iv, vec![9; 12]);
    assert_eq!(request.tag, (0..16).collect::<Vec<u8>>());
    assert_eq!(request.alg, Algorithm::Aes);
    assert_eq!(request.mode, CipherMode::Gcm);
    assert_eq!(request.ad, None);
}
