//! The key broker client that fetches keys from DSM, or has DSM unwrap them.
use crate::annotation;
use crate::annotation::DsmCryptAnnotations;
use crate::codec;
use crate::dsm::{Algorithm, CipherMode};
use crate::error::Error;
use crate::identity;
use crate::key_uuid;
use crate::key_uuid::KeyUuid;
use crate::resource_uri::ResourceUri;
use crate::text;
use vstd::prelude::*;

verus! {

/// The complaint that no DSM endpoint is configured.
pub const NO_ENDPOINT: &'static str = "ccm_kbc: no DSM endpoint configured - set [kbc].url in cdh.toml (delivered via initdata), or pass ccm.kbc_dsm_endpoint= on the kernel cmdline";

/// The complaint that no DSM app id is configured.
pub const NO_APP_ID: &'static str = "ccm_kbc: no DSM app id configured - set cdh.toml [kbc_configs.ccm_kbc].dsm_app_id, CCM_KBC_APP_ID, or ccm.kbc_app_id=";

/// The configuration of the client, as the environment and the kernel command line give it.
#[derive(Debug, PartialEq, Eq)]
pub struct CcmKbcConfig {
    /// Where DSM is, unless the URI that the client is made with says so.
    pub dsm_endpoint: Option<String>,
    /// The DSM application to authenticate as.
    pub dsm_app_id: Option<String>,
}

/// The client.
#[derive(Debug, PartialEq, Eq)]
pub struct CcmKbc {
    dsm_endpoint: String,
    dsm_app_id: String,
    aa_socket: String,
}

/// The request to export a key.
#[derive(Debug, PartialEq, Eq)]
pub struct ExportRequest {
    /// Where DSM is.
    pub endpoint: String,
    /// The DSM application to authenticate as.
    pub app_id: String,
    /// The key.
    pub key: KeyUuid,
}

/// The request to unwrap a key.
#[derive(Debug, PartialEq, Eq)]
pub struct DecryptRequest {
    /// Where DSM is.
    pub endpoint: String,
    /// The DSM application to authenticate as.
    pub app_id: String,
    /// The KEK to unwrap with.
    pub key: KeyUuid,
    /// The cipher.
    pub alg: Algorithm,
    /// Its mode.
    pub mode: CipherMode,
    /// The wrapped key.
    pub cipher: Vec<u8>,
    /// The initialisation vector.
    pub iv: Vec<u8>,
    /// Additional data that was authenticated.
    pub ad: Option<Vec<u8>>,
    /// The tag.
    pub tag: Vec<u8>,
}

/// The endpoint that a URI gives: the URI without white space around it and without slashes at
/// its end. An empty one gives none.
pub open spec fn uri_endpoint(uri: Seq<char>) -> Seq<char> {
    text::without_trailing_slashes(text::trimmed(uri))
}

/// The endpoint to use: the one that the URI gives, or else the configured one.
pub open spec fn endpoint_of(uri: Seq<char>, configured: Option<Seq<char>>) -> Option<Seq<char>> {
    if uri_endpoint(uri).len() > 0 {
        Some(uri_endpoint(uri))
    } else {
        configured
    }
}

/// The initialisation vector and the tag that `fields` hold, or what is wrong with them.
pub open spec fn crypt_bytes(fields: Map<Seq<char>, Result<Seq<char>, Seq<char>>>) -> Result<
    (Seq<u8>, Seq<u8>),
    Seq<char>,
> {
    match annotation::crypt_fields(fields) {
        Err(e) => Err(
            "ccm_kbc: annotation is missing the iv/tag needed to decrypt in DSM: "@ + e,
        ),
        Ok((iv, tag)) => match (codec::base64_bytes(iv), codec::base64_bytes(tag)) {
            (None, _) => Err(
                "ccm_kbc: annotation iv is not valid base64: "@ + codec::base64_complaint(iv),
            ),
            (_, None) => Err(
                "ccm_kbc: annotation tag is not valid base64: "@ + codec::base64_complaint(tag),
            ),
            (Some(iv_bytes), Some(tag_bytes)) => Ok((iv_bytes, tag_bytes)),
        },
    }
}

/// An error that says `context` and then `detail`.
fn failed(context: &str, detail: &str) -> (error: Error)
    ensures
        error.reason() == context@ + detail@,
{
    let mut reason = context.to_owned();
    reason.append(detail);
    Error::KbsClientError(reason)
}

impl CcmKbc {
    /// Where DSM is.
    pub closed spec fn endpoint(&self) -> Seq<char> {
        self.dsm_endpoint@
    }

    /// The DSM application to authenticate as.
    pub closed spec fn app_id(&self) -> Seq<char> {
        self.dsm_app_id@
    }

    /// Where the attestation agent is.
    pub closed spec fn socket(&self) -> Seq<char> {
        self.aa_socket@
    }

    /// Makes a client from its configuration.
    pub fn new(uri: &str, aa_socket: &str, cfg: CcmKbcConfig) -> (kbc: Result<CcmKbc, Error>)
        ensures
            match (endpoint_of(uri@, text::optional(cfg.dsm_endpoint)), cfg.dsm_app_id) {
                (None, _) => kbc matches Err(e) && e.reason() == NO_ENDPOINT@,
                (Some(_), None) => kbc matches Err(e) && e.reason() == NO_APP_ID@,
                (Some(endpoint), Some(app_id)) => {
                    &&& kbc matches Ok(k)
                    &&& k.endpoint() == endpoint
                    &&& k.app_id() == app_id@
                    &&& k.socket() == aa_socket@
                },
            },
    {
        let from_uri = text::trim_trailing_slashes(text::trim(uri));
        let dsm_endpoint = if from_uri.is_empty() {
            match cfg.dsm_endpoint {
                Some(endpoint) => endpoint,
                None => return Err(Error::KbsClientError(NO_ENDPOINT.to_owned())),
            }
        } else {
            from_uri.to_owned()
        };
        match cfg.dsm_app_id {
            Some(dsm_app_id) => Ok(
                CcmKbc { dsm_endpoint, dsm_app_id, aa_socket: aa_socket.to_owned() },
            ),
            None => Err(Error::KbsClientError(NO_APP_ID.to_owned())),
        }
    }

    /// Where the attestation agent is.
    pub fn aa_socket(&self) -> (socket: String)
        ensures
            socket@ == self.socket(),
    {
        self.aa_socket.clone()
    }

    /// The request that fetches the resource `rid`: the export of the DSM key that it names.
    pub fn get_resource(&self, rid: &ResourceUri) -> (request: Result<ExportRequest, Error>)
        ensures
            match identity::path_uuid(rid.path@) {
                Ok(uuid) => {
                    &&& request matches Ok(r)
                    &&& r.endpoint@ == self.endpoint()
                    &&& r.app_id@ == self.app_id()
                    &&& r.key@ == uuid
                },
                Err(detail) => request matches Err(e) && e.reason() == identity::bad_uri(
                    rid.uri(),
                    detail,
                ),
            },
    {
        match identity::parse_dsm_uuid(rid) {
            Ok(key) => Ok(
                ExportRequest {
                    endpoint: self.dsm_endpoint.clone(),
                    app_id: self.dsm_app_id.clone(),
                    key,
                },
            ),
            Err(e) => Err(e),
        }
    }

    /// The request that has DSM unwrap `ciphertext` with the KEK that `rid` names, given the
    /// initialisation vector and the tag in `annotations`.
    pub fn decrypt_with_kek(
        &self,
        rid: &ResourceUri,
        ciphertext: Vec<u8>,
        annotations: &serde_json::Map<String, serde_json::Value>,
    ) -> (request: Result<DecryptRequest, Error>)
        ensures
            match (
                identity::path_uuid(rid.path@),
                crypt_bytes(annotation::json_fields(*annotations)),
            ) {
                (Err(detail), _) => request matches Err(e) && e.reason() == identity::bad_uri(
                    rid.uri(),
                    detail,
                ),
                (Ok(_), Err(reason)) => request matches Err(e) && e.reason() == reason,
                (Ok(uuid), Ok((iv, tag))) => {
                    &&& request matches Ok(r)
                    &&& r.endpoint@ == self.endpoint()
                    &&& r.app_id@ == self.app_id()
                    &&& r.key@ == uuid
                    &&& r.alg == Algorithm::Aes
                    &&& r.mode == CipherMode::Gcm
                    &&& r.cipher@ == ciphertext@
                    &&& r.iv@ == iv
                    &&& r.ad is None
                    &&& r.tag@ == tag
                },
            },
    {
        let key = match identity::parse_dsm_uuid(rid) {
            Ok(key) => key,
            Err(e) => return Err(e),
        };
        let crypt = match DsmCryptAnnotations::from_annotations(annotations) {
            Ok(crypt) => crypt,
            Err(e) => return Err(
                failed(
                    "ccm_kbc: annotation is missing the iv/tag needed to decrypt in DSM: ",
                    e.as_str(),
                ),
            ),
        };
        let iv = match codec::decode_base64(crypt.iv.as_str()) {
            Ok(iv) => iv,
            Err(e) => return Err(
                failed("ccm_kbc: annotation iv is not valid base64: ", e.as_str()),
            ),
        };
        let tag = match codec::decode_base64(crypt.tag.as_str()) {
            Ok(tag) => tag,
            Err(e) => return Err(
                failed("ccm_kbc: annotation tag is not valid base64: ", e.as_str()),
            ),
        };
        Ok(
            DecryptRequest {
                endpoint: self.dsm_endpoint.clone(),
                app_id: self.dsm_app_id.clone(),
                key,
                alg: Algorithm::Aes,
                mode: CipherMode::Gcm,
                cipher: ciphertext,
                iv,
                ad: None,
                tag,
            },
        )
    }
}

/// The error for an attestation agent that hands out no credential, because of `cause`.
pub fn no_credential(cause: &str) -> (error: Error)
    ensures
        error.reason() == "ccm_kbc: "@ + cause@,
{
    failed("ccm_kbc: ", cause)
}

/// The DSM application to authenticate as is not given by a UUID.
#[derive(Debug, PartialEq, Eq)]
pub struct AppIdError {
    /// What is given.
    pub app_id: String,
    /// What is wrong with it.
    pub cause: String,
}

impl AppIdError {
    /// The error, in words.
    pub open spec fn words(&self) -> Seq<char> {
        "DSM app id is not a valid UUID: "@ + self.app_id@
    }

    /// The error, in words.
    pub fn to_text(&self) -> (words: String)
        ensures
            words@ == self.words(),
    {
        let mut words = "DSM app id is not a valid UUID: ".to_owned();
        words.append(self.app_id.as_str());
        words
    }
}

/// The UUID of the DSM application to authenticate as.
pub fn parse_app_id(app_id: &str) -> (uuid: Result<KeyUuid, AppIdError>)
    ensures
        match key_uuid::uuid_bytes(app_id@) {
            Some(bytes) => uuid matches Ok(u) && u@ == bytes,
            None => {
                &&& uuid matches Err(e)
                &&& e.app_id@ == app_id@
                &&& e.cause@ == key_uuid::uuid_complaint(app_id@)
            },
        },
{
    match KeyUuid::parse(app_id) {
        Ok(uuid) => Ok(uuid),
        Err(cause) => Err(AppIdError { app_id: app_id.to_owned(), cause }),
    }
}

/// What an export comes to: the key material that DSM returned, or why there is none.
pub fn unwrap_key(reply: Result<Option<Vec<u8>>, String>) -> (key: Result<Vec<u8>, Error>)
    ensures
        match reply {
            Ok(Some(value)) => key matches Ok(k) && k@ == value@,
            Ok(None) => key matches Err(e) && e.reason() == "ccm_kbc: DSM key export: "@
                + "DSM export returned no key material"@,
            Err(cause) => key matches Err(e) && e.reason() == "ccm_kbc: DSM key export: "@
                + cause@,
        },
{
    match reply {
        Ok(Some(value)) => Ok(value),
        Ok(None) => Err(
            failed("ccm_kbc: DSM key export: ", "DSM export returned no key material"),
        ),
        Err(cause) => Err(failed("ccm_kbc: DSM key export: ", cause.as_str())),
    }
}

/// What a decryption comes to: the plaintext that DSM returned, or why there is none.
pub fn decrypt_key(reply: Result<Vec<u8>, String>) -> (key: Result<Vec<u8>, Error>)
    ensures
        match reply {
            Ok(plain) => key matches Ok(k) && k@ == plain@,
            Err(cause) => key matches Err(e) && e.reason() == "ccm_kbc: DSM decrypt: "@ + cause@,
        },
{
    match reply {
        Ok(plain) => Ok(plain),
        Err(cause) => Err(failed("ccm_kbc: DSM decrypt: ", cause.as_str())),
    }
}

} // verus!
