//! What holds of calls: how what goes into the library's functions comes out of them.
use crate::annotation;
use crate::annotation::AnnotationPacket;
use crate::ccm_as;
use crate::ccm_as::{AttestError, Attester, CcmAsConfig, CcmAsTokenGetter, CertRequest, Tee};
use crate::ccm_kbc;
use crate::ccm_kbc::{AppIdError, CcmKbc, CcmKbcConfig, DecryptRequest, ExportRequest};
use crate::codec;
use crate::dsm;
use crate::dsm::{DsmError, EncryptRequest, EncryptResponse, WrappedKey};
use crate::error::Error;
use crate::identity;
use crate::kek::{Kek, KekMode};
use crate::key_provider;
use crate::key_provider::{Code, EndpointError, KeyProvider, KeyWrapParams, Status, WrapError};
use crate::key_uuid;
use crate::key_uuid::KeyUuid;
use crate::laws;
use crate::resource_uri;
use crate::resource_uri::{ResourceUri, ResourceUriError};
use crate::text;
use crate::wrap::{DsmProvider, PendingKey};
use vstd::prelude::*;
use vstd::utf8::*;

verus! {

/// A UUID that was written reads back as the same one.
pub proof fn written_uuid_reads_back(
    uuid: KeyUuid,
    written: String,
    given: &str,
    read: Result<KeyUuid, String>,
)
    requires
        call_ensures(KeyUuid::to_text, (&uuid,), written),
        given@ == written@,
        call_ensures(KeyUuid::parse, (given,), read),
    ensures
        read matches Ok(same) && same@ == uuid@,
{
    key_uuid::hyphenated_reads_back(uuid@);
}

/// A certificate is asked for all the configured names, and under the application configuration
/// that the configured text writes in hexadecimal, white space around it aside.
pub proof fn certificate_is_asked_for_as_configured(
    config: CcmAsConfig,
    getter: CcmAsTokenGetter,
    request: Result<CertRequest, AttestError>,
    before: Seq<char>,
    core: Seq<char>,
    behind: Seq<char>,
)
    requires
        call_ensures(CcmAsTokenGetter::new, (&config,), getter),
        call_ensures(CcmAsTokenGetter::attest_and_issue_cert, (&getter,), request),
        forall|i: int| 0 <= i < before.len() ==> text::is_white_space(#[trigger] before[i]),
        forall|i: int| 0 <= i < behind.len() ==> text::is_white_space(#[trigger] behind[i]),
        core.len() > 0 ==> !text::is_white_space(core.first()) && !text::is_white_space(
            core.last(),
        ),
        config.ccm_appconfig_id matches Some(id) ==> id@ == before + core + behind,
    ensures
        match request {
            Ok(r) => {
                &&& config.ccm_domain_names@.len() > 0 && (forall|i: int|
                    0 <= i < config.ccm_domain_names@.len() ==> !(
                    #[trigger] config.ccm_domain_names@[i])@.contains(',')) ==> {
                    let names = text::pieces(r.alt_names@, ","@);
                    &&& names.len() == config.ccm_domain_names@.len()
                    &&& forall|i: int|
                        0 <= i < names.len() ==> #[trigger] names[i]
                            == config.ccm_domain_names@[i]@
                }
                &&& config.ccm_domain_names@.len() == 0 ==> r.alt_names@.len() == 0
                &&& config.ccm_appconfig_id is None <==> r.appconfig_id is None
                &&& r.appconfig_id matches Some(bytes) ==> codec::is_hex_of(core, bytes@)
            },
            Err(e) => {
                &&& e is AppconfigId
                &&& config.ccm_appconfig_id is Some
                &&& forall|bytes: Seq<u8>| !#[trigger] codec::is_hex_of(core, bytes)
            },
        },
{
    text::trimmed_to_the_core(before, core, behind);
    let names = text::texts(config.ccm_domain_names@);
    text::texts_of_each(config.ccm_domain_names@, config.ccm_appconfig_id);
    if names.len() > 0 && (forall|i: int|
        0 <= i < config.ccm_domain_names@.len() ==> !(
        #[trigger] config.ccm_domain_names@[i])@.contains(',')) {
        assert forall|i: int| 0 <= i < names.len() implies !(#[trigger] names[i]).contains(',') by {
            assert(names[i] == config.ccm_domain_names@[i]@);
        }
        ccm_as::all_names_are_asked_for(names);
    }
    if names.len() == 0 {
        assert(text::joined(names, ","@) =~= Seq::<char>::empty());
    }
    match request {
        Ok(r) => {
            if let Some(bytes) = r.appconfig_id {
                codec::hex_bytes_are_all(core, bytes@);
            }
        },
        Err(_) => {
            assert forall|bytes: Seq<u8>| !#[trigger] codec::is_hex_of(core, bytes) by {
                codec::hex_bytes_are_all(core, bytes);
            }
        },
    }
}

/// A client asks the endpoint that its URI gives, or else the configured one, as the configured
/// application, for the key that a resource URI names. The URI gives what is left of it without
/// white space around it and without slashes behind it. It keeps the socket that it was given.
pub proof fn resource_is_asked_of_the_endpoint(
    uri: &str,
    aa_socket: &str,
    cfg: CcmKbcConfig,
    kbc: CcmKbc,
    rid: ResourceUri,
    request: Result<ExportRequest, Error>,
    socket: String,
    before: Seq<char>,
    core: Seq<char>,
    slashes: Seq<char>,
    behind: Seq<char>,
    tag: Seq<char>,
    uuid: Seq<u8>,
)
    requires
        call_ensures(CcmKbc::new, (uri, aa_socket, cfg), Ok(kbc)),
        call_ensures(CcmKbc::get_resource, (&kbc, &rid), request),
        call_ensures(CcmKbc::aa_socket, (&kbc,), socket),
        uri@ == before + (core + slashes) + behind,
        forall|i: int| 0 <= i < before.len() ==> text::is_white_space(#[trigger] before[i]),
        forall|i: int| 0 <= i < behind.len() ==> text::is_white_space(#[trigger] behind[i]),
        forall|i: int| 0 <= i < slashes.len() ==> (#[trigger] slashes[i]) == '/',
        core.len() > 0 ==> !text::is_white_space(core.first()) && core.last() != '/',
        core.len() > 0 && slashes.len() == 0 ==> !text::is_white_space(core.last()),
        rid.path@ == "dsm/key/"@ + tag,
        !tag.contains('/'),
        key_uuid::spells_uuid(tag, uuid),
    ensures
        request is Ok,
        request->Ok_0.key@ == uuid,
        core.len() > 0 ==> request->Ok_0.endpoint@ == core,
        core.len() == 0 ==> (cfg.dsm_endpoint matches Some(configured)
            && request->Ok_0.endpoint@ == configured@),
        cfg.dsm_app_id matches Some(app) && request->Ok_0.app_id@ == app@,
        socket@ == aa_socket@,
{
    laws::endpoint_is_the_core(before, core, slashes, behind, text::optional(cfg.dsm_endpoint));
    identity::path_names_the_key(rid.path@, uuid);
}

/// A client cannot be made without an endpoint or without an application, and can with both.
pub proof fn client_needs_endpoint_and_application(
    uri: &str,
    aa_socket: &str,
    cfg: CcmKbcConfig,
    made: Result<CcmKbc, Error>,
)
    requires
        call_ensures(CcmKbc::new, (uri, aa_socket, cfg), made),
    ensures
        made is Ok <==> cfg.dsm_app_id is Some && (cfg.dsm_endpoint is Some
            || ccm_kbc::uri_endpoint(uri@).len() > 0),
{
}

/// What was wrapped is unwrapped with the same KEK: the annotation that the wrapping side writes
/// of a response, read by the unwrapping side, gives a request with exactly the ciphertext, the
/// initialisation vector and the tag of that response, and the KEK of the layer.
pub proof fn wrapped_key_is_unwrapped(
    pending: PendingKey,
    response: EncryptResponse,
    packet: AnnotationPacket,
    kbc: CcmKbc,
    rid: ResourceUri,
    ciphertext: Vec<u8>,
    request: Result<DecryptRequest, Error>,
)
    requires
        pending@.0.len() == 16,
        call_ensures(PendingKey::encrypted, (pending, response), Ok(packet)),
        resource_uri::uri_parts(packet.kid@) == Ok::<_, ResourceUriError>(
            (rid.kbs_addr@, rid.path@),
        ),
        codec::base64_text(ciphertext@) == packet.wrapped_data@,
        call_ensures(
            CcmKbc::decrypt_with_kek,
            (&kbc, &rid, ciphertext, &packet.annotations->0),
            request,
        ),
    ensures
        request matches Ok(r) && {
            &&& r.key@ == pending@.0
            &&& r.cipher@ == response.cipher@
            &&& response.iv matches Some(iv) && r.iv@ == iv@
            &&& response.tag matches Some(tag) && r.tag@ == tag@
            &&& r.ad is None
            &&& r.endpoint@ == kbc.endpoint()
            &&& r.app_id@ == kbc.app_id()
        },
        response.cipher@.len() == pending@.1,
{
    assert(dsm::wrap_problem(response, pending@.1) is None);
    let (iv, tag) = (response.iv->0@, response.tag->0@);
    laws::annotation_reads_back(packet, pending@.0, response.cipher@, iv, tag);
    codec::base64_is_injective(ciphertext@, response.cipher@);
}

/// A response that is accepted is taken as it stands.
pub proof fn response_is_taken_as_it_stands(
    response: EncryptResponse,
    plain_len: usize,
    wrapped: Result<WrappedKey, DsmError>,
)
    requires
        call_ensures(dsm::check_wrapped, (response, plain_len), wrapped),
    ensures
        wrapped matches Ok(w) ==> {
            &&& w.cipher@ == response.cipher@
            &&& w.cipher@.len() == plain_len
            &&& response.iv matches Some(iv) && w.iv@ == iv@
            &&& response.tag matches Some(tag) && w.tag@ == tag@
            &&& w.tag@.len() == 16
        },
{
}

/// A request is read as a whole: the key that comes out is all that its `optsdata` encodes.
pub proof fn request_is_read_whole(
    parsed: Result<KeyWrapParams, String>,
    request: Result<(Vec<u8>, Vec<String>), Status>,
)
    requires
        call_ensures(key_provider::read_request, (parsed,), request),
    ensures
        request matches Ok((key, _)) ==> {
            &&& parsed matches Ok(input)
            &&& input.optsdata matches Some(optsdata)
            &&& codec::base64_text(key@) == optsdata@
        },
{
    laws::whole_key_is_asked_for(parsed);
}

/// What DSM returns of a key is handed out whole.
pub proof fn key_is_handed_out_whole(
    value: Vec<u8>,
    exported: Result<Vec<u8>, Error>,
    decrypted: Result<Vec<u8>, Error>,
)
    requires
        call_ensures(ccm_kbc::unwrap_key, (Ok(Some(value)),), exported),
        call_ensures(ccm_kbc::decrypt_key, (Ok(value),), decrypted),
    ensures
        exported matches Ok(key) && key@ == value@,
        decrypted matches Ok(key) && key@ == value@,
{
}

/// The kid of a KEK is the start and its UUID, and another handle has the same.
pub proof fn handles_agree(
    kek: Kek,
    uuid: KeyUuid,
    other: Kek,
    kid: String,
    same: String,
    again: KeyUuid,
)
    requires
        call_ensures(Kek::uuid, (&other,), again),
        call_ensures(Kek::new, (uuid,), kek),
        call_ensures(Kek::duplicate, (&kek,), other),
        call_ensures(Kek::kid, (&kek,), kid),
        call_ensures(Kek::kid, (&other,), same),
    ensures
        again@ == uuid@,
        kid@ == same@,
        kid@ == "kbs:///dsm/key/"@ + key_uuid::hyphenated(uuid@),
{
}

/// A certificate is valid at a time exactly if that lies within its validity, and one that is none
/// never is.
pub proof fn certificate_is_valid_within(cert_pem: &str, now: u128, valid: bool, before: bool)
    requires
        call_ensures(ccm_as::cert_is_valid_at, (cert_pem, Some(now)), valid),
        call_ensures(ccm_as::cert_is_valid_at, (cert_pem, None), before),
    ensures
        valid <==> (ccm_as::certificate_validity(cert_pem@) matches Some(validity) && validity.0
            <= now && now < validity.1),
        !before,
{
}

/// The API key that a file holds is its text without the white space around it.
pub proof fn api_key_is_the_core(
    contents: String,
    key: Option<String>,
    before: Seq<char>,
    core: Seq<char>,
    behind: Seq<char>,
)
    requires
        call_ensures(key_provider::read_api_key, (Some(contents),), key),
        contents@ == before + core + behind,
        forall|i: int| 0 <= i < before.len() ==> text::is_white_space(#[trigger] before[i]),
        forall|i: int| 0 <= i < behind.len() ==> text::is_white_space(#[trigger] behind[i]),
        core.len() > 0 ==> !text::is_white_space(core.first()) && !text::is_white_space(
            core.last(),
        ),
    ensures
        key matches Some(k) && k@ == core,
{
    text::trimmed_to_the_core(before, core, behind);
}

/// A provider that was made has what it was made with, and has created nothing: the first layer
/// with a name of its own gets number zero, and a shared KEK is yet to be created.
pub proof fn provider_starts_fresh(
    auth: Option<jwt_simple::prelude::Ed25519KeyPair>,
    kbs: String,
    endpoint: String,
    api_key: String,
    mode: KekMode,
    name: Option<String>,
    provider: KeyProvider,
)
    requires
        call_ensures(
            KeyProvider::with_urls,
            (auth, Some(Ok(kbs)), Some(Ok(endpoint)), Some(api_key), mode, name),
            Ok(provider),
        ),
    ensures
        provider.auth_key() == auth,
        provider.kbs_url() == Some(kbs@),
        provider.dsm().endpoint == Some(endpoint@),
        provider.dsm().api_key == Some(api_key@),
        provider.dsm().kek_mode == mode,
        name matches Some(n) ==> provider.dsm().kek_name == Some(n@),
        name is None ==> provider.dsm().kek_name is None,
        provider.dsm().shared_kek is Absent,
        provider.dsm().layer_seq == 0,
{
}

/// Each environment has its own attester, and all others have none.
pub proof fn environments_have_their_attesters(
    snp: Result<Attester, AttestError>,
    tdx: Result<Attester, AttestError>,
    other: Result<Attester, AttestError>,
    name: String,
)
    requires
        call_ensures(ccm_as::attester_for, (Tee::Snp,), snp),
        call_ensures(ccm_as::attester_for, (Tee::Tdx,), tdx),
        call_ensures(ccm_as::attester_for, (Tee::Other(name),), other),
    ensures
        snp == Ok::<_, AttestError>(Attester::BaremetalSevSnp),
        tdx == Ok::<_, AttestError>(Attester::BaremetalTdx),
        other matches Err(e) && e.words() == "ccm_as: unsupported TEE "@ + name@,
{
}

/// A request is read as text exactly if some text is written so, and then as that text, all of it.
/// Any other request is at fault.
pub proof fn input_is_read_whole(bytes: Vec<u8>, input: Result<String, Status>, chars: Seq<char>)
    requires
        call_ensures(key_provider::decode_input, (bytes,), input),
    ensures
        input matches Ok(t) ==> encode_utf8(t@) == bytes@,
        encode_utf8(chars) == bytes@ ==> (input matches Ok(t) && t@ == chars),
        input matches Err(status) ==> status.code == Code::InvalidArgument,
{
    encode_utf8_valid_utf8(chars);
    encode_utf8_decode_utf8(chars);
    if valid_utf8(bytes@) {
        decode_utf8_encode_utf8(bytes@);
    }
}

/// The application is read exactly if its text writes a UUID, and then as that one. Any other text
/// is named in the complaint.
pub proof fn application_is_its_uuid(
    app_id: &str,
    read: Result<KeyUuid, AppIdError>,
    uuid: Seq<u8>,
)
    requires
        call_ensures(ccm_kbc::parse_app_id, (app_id,), read),
    ensures
        key_uuid::spells_uuid(app_id@, uuid) <==> (read matches Ok(u) && u@ == uuid),
        read matches Err(e) ==> e.words() == "DSM app id is not a valid UUID: "@ + app_id@,
{
    key_uuid::uuid_bytes_are_all(app_id@, uuid);
}

/// An answer without a key never gives one: what DSM complained of is passed on, behind what was
/// asked of it.
pub proof fn failed_answer_is_reported(
    cause: String,
    exported: Result<Vec<u8>, Error>,
    empty: Result<Vec<u8>, Error>,
    decrypted: Result<Vec<u8>, Error>,
)
    requires
        call_ensures(ccm_kbc::unwrap_key, (Err(cause),), exported),
        call_ensures(ccm_kbc::unwrap_key, (Ok(None),), empty),
        call_ensures(ccm_kbc::decrypt_key, (Err(cause),), decrypted),
    ensures
        exported matches Err(e) && e.reason() == "ccm_kbc: DSM key export: "@ + cause@,
        empty is Err,
        decrypted matches Err(e) && e.reason() == "ccm_kbc: DSM decrypt: "@ + cause@,
{
}

/// An issued certificate is taken as it stands, and one that was not issued is missed.
pub proof fn certificate_is_taken_as_issued(
    pem: String,
    issued: Result<String, AttestError>,
    missing: Result<String, AttestError>,
)
    requires
        call_ensures(ccm_as::issued_cert, (Some(pem),), issued),
        call_ensures(ccm_as::issued_cert, (None,), missing),
    ensures
        issued matches Ok(c) && c@ == pem@,
        missing matches Err(e) && e is NoCertificate,
{
}

/// A key is unwrapped with the cipher that it is wrapped with.
pub proof fn both_sides_use_one_cipher(
    kek: Kek,
    plain: Vec<u8>,
    wrap: EncryptRequest,
    kbc: CcmKbc,
    rid: ResourceUri,
    ciphertext: Vec<u8>,
    annotations: serde_json::Map<String, serde_json::Value>,
    unwrap: Result<DecryptRequest, Error>,
)
    requires
        call_ensures(dsm::encrypt_dek, (&kek, plain), wrap),
        call_ensures(CcmKbc::decrypt_with_kek, (&kbc, &rid, ciphertext, &annotations), unwrap),
    ensures
        unwrap matches Ok(r) ==> {
            &&& r.alg == wrap.alg
            &&& r.mode == wrap.mode
            &&& r.ad is None && wrap.ad is None
            &&& r.cipher@ == ciphertext@
        },
{
}

/// A DSM endpoint that is not a URL is refused, whatever else is configured, and nothing else is. A
/// key broker that is not one is the same as none.
pub proof fn only_the_endpoint_is_refused(
    auth: Option<jwt_simple::prelude::Ed25519KeyPair>,
    kbs: Option<Result<String, String>>,
    endpoint: Option<Result<String, String>>,
    api_key: Option<String>,
    mode: KekMode,
    name: Option<String>,
    made: Result<KeyProvider, EndpointError>,
)
    requires
        call_ensures(
            KeyProvider::with_urls,
            (auth, kbs, endpoint, api_key, mode, name),
            made,
        ),
    ensures
        made is Err <==> endpoint is Some && endpoint->0 is Err,
        made matches Err(e) ==> e.cause@ == endpoint->0->Err_0@,
        made matches Ok(p) ==> {
            &&& p.kbs_url() is Some <==> kbs is Some && kbs->0 is Ok
            &&& p.dsm().endpoint is Some <==> endpoint is Some
            &&& p.dsm().api_key is Some <==> api_key is Some
        },
{
}

/// A provider hands out what it was made with. DSM is used with both an endpoint and an API key, and
/// with those.
pub proof fn access_is_as_configured(
    endpoint: Option<String>,
    api_key: Option<String>,
    mode: KekMode,
    name: Option<String>,
    provider: DsmProvider,
    access: Option<(String, String)>,
    same: KekMode,
)
    requires
        call_ensures(DsmProvider::new, (endpoint, api_key, mode, name), provider),
        call_ensures(DsmProvider::access, (&provider,), access),
        call_ensures(DsmProvider::kek_mode, (&provider,), same),
    ensures
        access is Some <==> endpoint is Some && api_key is Some,
        access matches Some((e, k)) ==> e@ == endpoint->0@ && k@ == api_key->0@,
        same == mode,
{
}

/// A caller is told of a fault in the request as it stands, and of DSM all that it complained of,
/// with the backtrace last where there is one.
pub proof fn caller_is_told_all(
    fault: Status,
    error: DsmError,
    trace: String,
    told: Status,
    plain: Status,
    traced: Status,
)
    requires
        call_ensures(WrapError::status, (WrapError::Request(fault), Some(trace)), told),
        call_ensures(WrapError::status, (WrapError::Dsm(error), None), plain),
        call_ensures(WrapError::status, (WrapError::Dsm(error), Some(trace)), traced),
    ensures
        told.code == fault.code && told.message@ == fault.message@,
        plain.code == Code::Internal && traced.code == Code::Internal,
        plain.message@ == "DSM encrypt failed: "@ + error.report(),
        traced.message@ == plain.message@ + "\n\n"@ + trace@,
{
    let whole = "DSM encrypt failed: "@ + error.report();
    assert(whole + Seq::<char>::empty() =~= whole);
    assert(plain.message@ + "\n\n"@ + trace@ =~= plain.message@ + ("\n\n"@ + trace@));
}

/// Whether there is a key to authenticate with depends on the file alone: without one there is none,
/// and one that cannot be read is an error and never the same as none.
pub proof fn unreadable_key_is_an_error(
    pem: String,
    none: Result<Option<jwt_simple::prelude::Ed25519KeyPair>, String>,
    read: Result<Option<jwt_simple::prelude::Ed25519KeyPair>, String>,
)
    requires
        call_ensures(key_provider::read_auth_key, (None,), none),
        call_ensures(key_provider::read_auth_key, (Some(pem),), read),
    ensures
        none matches Ok(key) && key is None,
        read matches Ok(key) ==> key is Some,
        read is Ok <==> key_provider::key_pair_of(pem@) is Ok,
{
}

} // verus!
