//! The key provider: how a request to wrap a key is read, and who wraps it.
use crate::codec;
use crate::dsm::{DsmError, EncryptRequest};
use crate::kek;
use crate::kek::KekMode;
use crate::key_uuid::KeyUuid;
use crate::text;
use crate::wrap;
use crate::wrap::{
    DsmProvider, DsmState, LayerStep, PendingKek, PendingKey, SharedState, WaitingLayer,
};
use vstd::prelude::*;
use vstd::utf8::*;

verus! {

/// The encryption provider that requests have to carry parameters for.
pub const ATTESTATION_AGENT: &'static str = "attestation-agent";

/// An Ed25519 key pair.
#[verifier::external_type_specification]
#[verifier::external_body]
pub struct ExEd25519KeyPair(jwt_simple::prelude::Ed25519KeyPair);

/// The key pair that `pem` holds, or how its parser words its complaint.
pub uninterp spec fn key_pair_of(pem: Seq<char>) -> Result<
    jwt_simple::prelude::Ed25519KeyPair,
    Seq<char>,
>;

/// Parses `pem` with `jwt_simple::prelude::Ed25519KeyPair::from_pem`. The error is the `Display`
/// text of its `Error`. How a key is written in PEM is the format's matter and is not stated.
#[verifier::external_body]
fn parse_key_pair(pem: &str) -> (key: Result<jwt_simple::prelude::Ed25519KeyPair, String>)
    ensures
        match key_pair_of(pem@) {
            Ok(k) => key matches Ok(l) && l == k,
            Err(e) => key matches Err(f) && f@ == e,
        },
{
    jwt_simple::prelude::Ed25519KeyPair::from_pem(pem).map_err(|e| e.to_string())
}

/// Reads what authenticates the provider to the key broker, if a file holds it.
pub fn read_auth_key(pem: Option<String>) -> (key: Result<
    Option<jwt_simple::prelude::Ed25519KeyPair>,
    String,
>)
    ensures
        match pem {
            None => key matches Ok(k) && k is None,
            Some(p) => match key_pair_of(p@) {
                Ok(k) => key matches Ok(l) && l == Some(k),
                Err(e) => key matches Err(f) && f@ == e,
            },
        },
{
    match pem {
        Some(p) => match parse_key_pair(p.as_str()) {
            Ok(key) => Ok(Some(key)),
            Err(e) => Err(e),
        },
        None => Ok(None),
    }
}

/// The API key that a file holds, if there is one: its text without white space around it.
pub fn read_api_key(contents: Option<String>) -> (key: Option<String>)
    ensures
        text::optional(key) == match text::optional(contents) {
            Some(t) => Some(text::trimmed(t)),
            None => None,
        },
{
    match contents {
        Some(t) => Some(text::trim(t.as_str()).to_owned()),
        None => None,
    }
}

/// What kind of failure a caller is told of.
#[derive(Clone, Copy, Debug, PartialEq, Eq, Structural)]
pub enum Code {
    /// The request is not what it has to be.
    InvalidArgument,
    /// The request was given up.
    Aborted,
    /// Something else failed.
    Internal,
    /// There is no such operation.
    Unimplemented,
}

/// What a caller is told of a failure.
#[derive(Debug, PartialEq, Eq)]
pub struct Status {
    /// The kind of failure.
    pub code: Code,
    /// The failure, in words.
    pub message: String,
}

impl Status {
    /// Whether this tells `message` under `code`.
    pub open spec fn tells(&self, code: Code, message: Seq<char>) -> bool {
        self.code == code && self.message@ == message
    }

    /// Tells `context` and then `detail` under `code`.
    fn new(code: Code, context: &str, detail: &str) -> (status: Status)
        ensures
            status.tells(code, context@ + detail@),
    {
        let mut message = context.to_owned();
        message.append(detail);
        Status { code, message }
    }

    /// The request is not the JSON that it has to be.
    pub fn parse_failed(cause: &str) -> (status: Status)
        ensures
            status.tells(Code::InvalidArgument, "parse key provider input failed: "@ + cause@),
    {
        Status::new(Code::InvalidArgument, "parse key provider input failed: ", cause)
    }

    /// DSM did not wrap the key.
    pub fn dsm_failed(cause: &str) -> (status: Status)
        ensures
            status.tells(Code::Internal, "DSM encrypt failed: "@ + cause@),
    {
        Status::new(Code::Internal, "DSM encrypt failed: ", cause)
    }

    /// The key broker did not wrap the key.
    pub fn encrypt_failed(cause: &str) -> (status: Status)
        ensures
            status.tells(Code::Internal, "encrypt failed: "@ + cause@),
    {
        Status::new(Code::Internal, "encrypt failed: ", cause)
    }

    /// The reply could not be written.
    pub fn serialize_failed(cause: &str) -> (status: Status)
        ensures
            status.tells(Code::Internal, "serde json failed: "@ + cause@),
    {
        Status::new(Code::Internal, "serde json failed: ", cause)
    }
}

/// What `reqwest::Url` reads `text` as: the serialisation of the URL, or how it words its
/// complaint.
pub uninterp spec fn parsed_url(text: Seq<char>) -> Result<Seq<char>, Seq<char>>;

/// Parses `text` with `reqwest::Url::parse`, and serialises the URL with `as_str`. The error is
/// the `Display` text of its `ParseError`. What a URL is, and how it is normalised, is the URL
/// standard's matter and is not stated.
#[verifier::external_body]
fn parse_url(text: &str) -> (url: Result<String, String>)
    ensures
        match parsed_url(text@) {
            Ok(u) => url matches Ok(v) && v@ == u,
            Err(e) => url matches Err(f) && f@ == e,
        },
{
    reqwest::Url::parse(text).map(|u| u.as_str().to_owned()).map_err(|e| e.to_string())
}

/// The DSM endpoint is not a URL.
#[derive(Debug, PartialEq, Eq)]
pub struct EndpointError {
    /// What is wrong with it.
    pub cause: String,
}

impl EndpointError {
    /// The error, in words.
    pub fn to_text(&self) -> (words: String)
        ensures
            words@ == "parse DSM endpoint URL"@,
    {
        "parse DSM endpoint URL".to_owned()
    }
}

/// The key provider.
pub struct KeyProvider {
    auth_private_key: Option<jwt_simple::prelude::Ed25519KeyPair>,
    kbs: Option<String>,
    dsm: DsmProvider,
}

/// What a request holds for the encryption providers.
#[derive(Debug, PartialEq, Eq)]
pub struct Ec {
    /// The parameters of each provider, in base64. The first entry of a provider counts.
    pub parameters: Vec<(String, Vec<String>)>,
}

/// What a request holds.
#[derive(Debug, PartialEq, Eq)]
pub struct KeyWrapParams {
    /// What it holds for the encryption providers.
    pub ec: Option<Ec>,
    /// The key to wrap, in base64.
    pub optsdata: Option<String>,
}

/// What the first entry of `parameters` under `name` holds.
pub open spec fn entry(parameters: Seq<(String, Vec<String>)>, name: Seq<char>) -> Option<
    Seq<String>,
>
    decreases parameters.len(),
{
    if parameters.len() == 0 {
        None
    } else if parameters[0].0@ == name {
        Some(parameters[0].1@)
    } else {
        entry(parameters.drop_first(), name)
    }
}

/// The text that `parameter` holds in base64, if it holds one.
pub open spec fn parameter_text(parameter: Seq<char>) -> Option<Seq<char>> {
    match codec::base64_bytes(parameter) {
        Some(bytes) if valid_utf8(bytes) => Some(decode_utf8(bytes)),
        _ => None,
    }
}

/// The texts that `parameters` hold in base64, in order. A parameter that holds none is left out.
pub open spec fn parameter_texts(parameters: Seq<Seq<char>>) -> Seq<Seq<char>>
    decreases parameters.len(),
{
    if parameters.len() == 0 {
        seq![]
    } else {
        let before = parameter_texts(parameters.drop_last());
        match parameter_text(parameters.last()) {
            Some(t) => before.push(t),
            None => before,
        }
    }
}

/// What a request asks for, or what is wrong with it. A request that is not the JSON that it has
/// to be comes as the complaint about that.
pub open spec fn asked(parsed: Result<KeyWrapParams, String>) -> Result<
    (Seq<u8>, Seq<Seq<char>>),
    (Code, Seq<char>),
> {
    match parsed {
        Ok(input) => asked_in(input),
        Err(complaint) => Err(
            (Code::InvalidArgument, "parse key provider input failed: "@ + complaint@),
        ),
    }
}

/// What a request asks for once it is parsed, or what is wrong with it.
pub open spec fn asked_in(input: KeyWrapParams) -> Result<
    (Seq<u8>, Seq<Seq<char>>),
    (Code, Seq<char>),
> {
    if input.optsdata is None {
        Err((Code::InvalidArgument, "illegal keywrapparams without optsdata"@))
    } else if input.ec is None {
        Err((Code::InvalidArgument, "illegal keywrapparams without ec"@))
    } else {
        match entry(input.ec->0.parameters@, ATTESTATION_AGENT@) {
            None => Err(
                (
                    Code::InvalidArgument,
                    "illegal encryption provider without attestation-agent"@,
                ),
            ),
            Some(parameters) => match codec::base64_bytes(input.optsdata->0@) {
                None => Err((Code::Aborted, "base64 decode"@)),
                Some(key) => Ok((key, parameter_texts(text::texts(parameters)))),
            },
        }
    }
}

/// What the first entry of `parameters` under `name` holds.
fn find_entry<'a>(parameters: &'a Vec<(String, Vec<String>)>, name: &str) -> (found: Option<
    &'a Vec<String>,
>)
    ensures
        match found {
            Some(f) => entry(parameters@, name@) == Some(f@),
            None => entry(parameters@, name@) is None,
        },
{
    let mut i: usize = 0;
    assert(parameters@.skip(0) =~= parameters@);
    while i < parameters.len()
        invariant
            i <= parameters@.len(),
            entry(parameters@, name@) == entry(parameters@.skip(i as int), name@),
        decreases parameters@.len() - i,
    {
        assert(parameters@.skip(i as int).drop_first() =~= parameters@.skip(i + 1));
        if text::same_text(parameters[i].0.as_str(), name) {
            return Some(&parameters[i].1);
        }
        i = i + 1;
    }
    None
}

/// The text that `parameter` holds in base64, if it holds one.
fn decode_parameter(parameter: &str) -> (decoded: Option<String>)
    ensures
        text::optional(decoded) == parameter_text(parameter@),
{
    match codec::decode_base64(parameter) {
        Ok(bytes) => match codec::decode_utf8_text(bytes) {
            Ok(t) => Some(t),
            Err(_) => None,
        },
        Err(_) => None,
    }
}

/// The texts that `parameters` hold in base64.
fn decode_parameters(parameters: &Vec<String>) -> (decoded: Vec<String>)
    ensures
        text::texts(decoded@) == parameter_texts(text::texts(parameters@)),
{
    let mut decoded: Vec<String> = Vec::new();
    let mut i: usize = 0;
    assert(text::texts(parameters@).take(0) =~= seq![]);
    while i < parameters.len()
        invariant
            i <= parameters@.len(),
            text::texts(decoded@) == parameter_texts(text::texts(parameters@).take(i as int)),
        decreases parameters@.len() - i,
    {
        proof {
            let upto = text::texts(parameters@).take(i + 1);
            assert(upto.drop_last() =~= text::texts(parameters@).take(i as int));
            assert(upto.last() == parameters@[i as int]@);
        }
        let ghost before = decoded@;
        if let Some(t) = decode_parameter(parameters[i].as_str()) {
            decoded.push(t);
            assert(text::texts(decoded@) =~= text::texts(before).push(t@));
        }
        i = i + 1;
    }
    assert(text::texts(parameters@).take(i as int) =~= text::texts(parameters@));
    decoded
}

/// Reads what a request asks for: the key to wrap, and the parameters to wrap it by.
pub fn read_request(parsed: Result<KeyWrapParams, String>) -> (request: Result<
    (Vec<u8>, Vec<String>),
    Status,
>)
    ensures
        match asked(parsed) {
            Ok((key, params)) => request matches Ok((k, p)) && k@ == key && text::texts(p@)
                == params,
            Err((code, message)) => request matches Err(s) && s.tells(code, message),
        },
{
    let input = match parsed {
        Ok(input) => input,
        Err(complaint) => return Err(Status::parse_failed(complaint.as_str())),
    };
    let Some(optsdata) = input.optsdata else {
        return Err(
            Status {
                code: Code::InvalidArgument,
                message: "illegal keywrapparams without optsdata".to_owned(),
            },
        );
    };
    let Some(ec) = input.ec else {
        return Err(
            Status {
                code: Code::InvalidArgument,
                message: "illegal keywrapparams without ec".to_owned(),
            },
        );
    };
    let Some(parameters) = find_entry(&ec.parameters, ATTESTATION_AGENT) else {
        return Err(
            Status {
                code: Code::InvalidArgument,
                message: "illegal encryption provider without attestation-agent".to_owned(),
            },
        );
    };
    let params = decode_parameters(parameters);
    match codec::decode_base64(optsdata.as_str()) {
        Ok(key) => Ok((key, params)),
        Err(_) => Err(Status { code: Code::Aborted, message: "base64 decode".to_owned() }),
    }
}

/// Reads the bytes of a request as text.
pub fn decode_input(bytes: Vec<u8>) -> (input: Result<String, Status>)
    ensures
        if valid_utf8(bytes@) {
            input matches Ok(t) && t@ == decode_utf8(bytes@)
        } else {
            input matches Err(s) && s.tells(
                Code::InvalidArgument,
                "key_provider_key_wrap_protocol_input is not legal utf8 string: "@
                    + codec::utf8_complaint(bytes@),
            )
        },
{
    match codec::decode_utf8_text(bytes) {
        Ok(t) => Ok(t),
        Err(e) => Err(
            Status::new(
                Code::InvalidArgument,
                "key_provider_key_wrap_protocol_input is not legal utf8 string: ",
                e.as_str(),
            ),
        ),
    }
}

/// Who wraps the key of a layer, and how it goes on.
#[derive(Debug, PartialEq, Eq)]
pub enum WrapStep {
    /// DSM does.
    Dsm {
        /// Where DSM is.
        endpoint: String,
        /// What to authenticate with.
        api_key: String,
        /// The `keyid` of the request, if it is a kid of two segments.
        legacy_keyid: Option<String>,
        /// What to ask of it first.
        step: LayerStep,
    },
    /// A key broker does.
    Kbs {
        /// Where the key broker is, if keys are registered with one.
        kbs: Option<String>,
        /// The key to wrap.
        optsdata: Vec<u8>,
        /// The parameters to wrap it by.
        params: Vec<String>,
    },
}

/// Why the key of a layer cannot be wrapped.
#[derive(Debug, PartialEq, Eq)]
pub enum WrapError {
    /// The request is at fault.
    Request(Status),
    /// The DSM KEK that it asks for is.
    Dsm(DsmError),
}

impl WrapError {
    /// The kind of failure that the caller is told of.
    pub open spec fn code(&self) -> Code {
        match self {
            WrapError::Request(status) => status.code,
            WrapError::Dsm(_) => Code::Internal,
        }
    }

    /// What the caller is told: of a request at fault just that, and of DSM the whole report, with
    /// `backtrace` behind it where one was taken.
    pub fn status(self, backtrace: Option<String>) -> (status: Status)
        ensures
            status.code == self.code(),
            match self {
                WrapError::Request(fault) => status == fault,
                WrapError::Dsm(e) => status.message@ == "DSM encrypt failed: "@ + e.report()
                    + match backtrace {
                    Some(trace) => "\n\n"@ + trace@,
                    None => seq![],
                },
            },
    {
        match self {
            WrapError::Request(fault) => fault,
            WrapError::Dsm(e) => {
                let mut status = Status::dsm_failed(e.to_report().as_str());
                if let Some(trace) = backtrace {
                    let ghost told = status.message@;
                    status.message.append("\n\n");
                    status.message.append(trace.as_str());
                    assert(status.message@ =~= told + ("\n\n"@ + trace@));
                }
                status
            }
        }
    }
}

/// Whether `step` is what a provider with the key broker `kbs` makes of a request, where its state
/// for DSM is `before` and then `after`: DSM wraps the key where both its endpoint and an API key
/// are configured, and otherwise the key broker.
pub open spec fn wraps(
    kbs: Option<Seq<char>>,
    before: DsmState,
    parsed: Result<KeyWrapParams, String>,
    step: Result<WrapStep, WrapError>,
    after: DsmState,
) -> bool {
    match asked(parsed) {
        Err((code, message)) => {
            &&& step matches Err(WrapError::Request(status))
            &&& status.tells(code, message)
            &&& after == before
        },
        Ok((key, texts)) => match (before.endpoint, before.api_key) {
            (Some(url), Some(secret)) => {
                &&& after == wrap::after_layer(before, texts)
                &&& match wrap::layer_plan(before, texts) {
                    Some(plan) => {
                        &&& step matches Ok(
                            WrapStep::Dsm { endpoint, api_key, legacy_keyid, step: s },
                        )
                        &&& endpoint@ == url
                        &&& api_key@ == secret
                        &&& text::optional(legacy_keyid) == kek::legacy_keyid(
                            kek::requested_keyid(texts),
                        )
                        &&& s.follows(plan, key)
                    },
                    None => {
                        &&& step matches Err(WrapError::Dsm(e))
                        &&& kek::chosen(kek::requested_keyid(texts), before.kek_name, Err(e))
                    },
                }
            },
            _ => {
                &&& step matches Ok(WrapStep::Kbs { kbs: broker, optsdata, params })
                &&& text::optional(broker) == kbs
                &&& optsdata@ == key
                &&& text::texts(params@) == texts
                &&& after == before
            },
        },
    }
}

/// Parses a URL, if there is one.
fn parse_optional_url(text: Option<String>) -> (url: Option<Result<String, String>>)
    ensures
        match text {
            None => url is None,
            Some(t) => match parsed_url(t@) {
                Ok(u) => url matches Some(Ok(v)) && v@ == u,
                Err(e) => url matches Some(Err(f)) && f@ == e,
            },
        },
{
    match text {
        Some(t) => Some(parse_url(t.as_str())),
        None => None,
    }
}

impl KeyProvider {
    /// What authenticates the provider to the key broker.
    pub closed spec fn auth_key(&self) -> Option<jwt_simple::prelude::Ed25519KeyPair> {
        self.auth_private_key
    }

    /// Where the key broker is.
    pub closed spec fn kbs_url(&self) -> Option<Seq<char>> {
        text::optional(self.kbs)
    }

    /// What wraps keys with DSM.
    pub closed spec fn dsm(&self) -> DsmState {
        self.dsm@
    }

    /// Makes a provider. A key broker that is not a URL is the same as none; a DSM endpoint that
    /// is not one is an error.
    pub fn new(
        auth_private_key: Option<jwt_simple::prelude::Ed25519KeyPair>,
        kbs: Option<String>,
        dsm_endpoint: Option<String>,
        dsm_api_key: Option<String>,
        kek_mode: KekMode,
        kek_name: Option<String>,
    ) -> (provider: Result<KeyProvider, EndpointError>)
        ensures
            match text::optional(dsm_endpoint) {
                Some(t) if parsed_url(t) is Err => provider matches Err(e) && e.cause@
                    == parsed_url(t)->Err_0,
                endpoint => {
                    &&& provider matches Ok(p)
                    &&& p.auth_key() == auth_private_key
                    &&& p.kbs_url() == match text::optional(kbs) {
                        Some(t) if parsed_url(t) is Ok => Some(parsed_url(t)->Ok_0),
                        _ => None,
                    }
                    &&& p.dsm() == (DsmState {
                        endpoint: match endpoint {
                            Some(t) => Some(parsed_url(t)->Ok_0),
                            None => None,
                        },
                        api_key: text::optional(dsm_api_key),
                        kek_mode,
                        kek_name: text::optional(kek_name),
                        shared_kek: SharedState::Absent,
                        layer_seq: 0,
                    })
                },
            },
    {
        KeyProvider::with_urls(
            auth_private_key,
            parse_optional_url(kbs),
            parse_optional_url(dsm_endpoint),
            dsm_api_key,
            kek_mode,
            kek_name,
        )
    }

    /// Makes a provider from URLs, or from the complaints about texts that are not URLs.
    pub fn with_urls(
        auth_private_key: Option<jwt_simple::prelude::Ed25519KeyPair>,
        kbs: Option<Result<String, String>>,
        dsm_endpoint: Option<Result<String, String>>,
        dsm_api_key: Option<String>,
        kek_mode: KekMode,
        kek_name: Option<String>,
    ) -> (provider: Result<KeyProvider, EndpointError>)
        ensures
            match dsm_endpoint {
                Some(Err(cause)) => provider matches Err(e) && e.cause@ == cause@,
                endpoint => {
                    &&& provider matches Ok(p)
                    &&& p.auth_key() == auth_private_key
                    &&& p.kbs_url() == match kbs {
                        Some(Ok(url)) => Some(url@),
                        _ => None,
                    }
                    &&& p.dsm() == (DsmState {
                        endpoint: match endpoint {
                            Some(Ok(url)) => Some(url@),
                            _ => None,
                        },
                        api_key: text::optional(dsm_api_key),
                        kek_mode,
                        kek_name: text::optional(kek_name),
                        shared_kek: SharedState::Absent,
                        layer_seq: 0,
                    })
                },
            },
    {
        let kbs = match kbs {
            Some(Ok(url)) => Some(url),
            _ => None,
        };
        let endpoint = match dsm_endpoint {
            Some(Ok(url)) => Some(url),
            Some(Err(cause)) => return Err(EndpointError { cause }),
            None => None,
        };
        let dsm = DsmProvider::new(endpoint, dsm_api_key, kek_mode, kek_name);
        Ok(KeyProvider { auth_private_key, kbs, dsm })
    }

    /// What authenticates the provider to the key broker.
    pub fn auth_private_key(&self) -> (key: &Option<jwt_simple::prelude::Ed25519KeyPair>)
        ensures
            *key == self.auth_key(),
    {
        &self.auth_private_key
    }

    /// How many KEKs are created for one image.
    pub fn kek_mode(&self) -> (mode: KekMode)
        ensures
            mode == self.dsm().kek_mode,
    {
        self.dsm.kek_mode()
    }

    /// Starts to wrap the key of a layer, given what its request was parsed as, or the complaint
    /// of the parser.
    pub fn wrap_key(&mut self, parsed: Result<KeyWrapParams, String>) -> (step: Result<
        WrapStep,
        WrapError,
    >)
        ensures
            final(self).auth_key() == old(self).auth_key(),
            final(self).kbs_url() == old(self).kbs_url(),
            wraps(old(self).kbs_url(), old(self).dsm(), parsed, step, final(self).dsm()),
    {
        let (optsdata, params) = match read_request(parsed) {
            Ok(request) => request,
            Err(status) => return Err(WrapError::Request(status)),
        };
        match self.dsm.access() {
            Some((endpoint, api_key)) => {
                let legacy_keyid = kek::find_legacy_keyid(&params);
                match self.dsm.encrypt_optsdata(optsdata, &params) {
                    Ok(step) => Ok(WrapStep::Dsm { endpoint, api_key, legacy_keyid, step }),
                    Err(e) => Err(WrapError::Dsm(e)),
                }
            }
            None => Ok(WrapStep::Kbs { kbs: self.kbs.clone(), optsdata, params }),
        }
    }

    /// Takes the kid of the key that DSM created for `pending`, and asks to wrap with it.
    pub fn kek_created(&mut self, pending: PendingKek, kid: Option<KeyUuid>) -> (next: Result<
        (PendingKey, EncryptRequest),
        DsmError,
    >)
        ensures
            final(self).auth_key() == old(self).auth_key(),
            final(self).kbs_url() == old(self).kbs_url(),
            match kid {
                None => {
                    &&& next matches Err(e)
                    &&& e == DsmError::NoKid
                    &&& final(self).dsm() == old(self).dsm().after_failure()
                },
                Some(uuid) => {
                    let kek = old(self).dsm().kek_after_creation(uuid@);
                    &&& next matches Ok((key, request))
                    &&& key@ == (kek, pending@.len())
                    &&& request.asks_to_wrap(pending@, kek)
                    &&& final(self).dsm() == old(self).dsm().after_creation(uuid@)
                },
            },
    {
        pending.created(&mut self.dsm, kid)
    }

    /// Takes note that DSM has failed to create a KEK.
    pub fn creation_failed(&mut self)
        ensures
            final(self).auth_key() == old(self).auth_key(),
            final(self).kbs_url() == old(self).kbs_url(),
            final(self).dsm() == old(self).dsm().after_failure(),
    {
        self.dsm.creation_failed()
    }

    /// Goes on with a layer that waited for a KEK that DSM was creating for another one.
    pub fn resume(&mut self, waiting: WaitingLayer) -> (step: LayerStep)
        ensures
            final(self).auth_key() == old(self).auth_key(),
            final(self).kbs_url() == old(self).kbs_url(),
            step.follows(old(self).dsm().new_kek_plan(waiting@.1), waiting@.0),
            final(self).dsm() == old(self).dsm().after_new_kek(waiting@.1),
    {
        waiting.resume(&mut self.dsm)
    }

    /// Refuses to unwrap a key.
    pub fn un_wrap_key(&self) -> (status: Status)
        ensures
            status.tells(Code::Unimplemented, "UnWrapKey API of sample-kbs is unimplemented!"@),
    {
        Status {
            code: Code::Unimplemented,
            message: "UnWrapKey API of sample-kbs is unimplemented!".to_owned(),
        }
    }
}

} // verus!
