//! The workload credential: its configuration, how long it is reused, and how it is asked for.
use crate::codec;
use crate::text;
use vstd::prelude::*;
use x509_cert::der::{Decode, DecodePem};

verus! {

/// The configuration of the workload certificate.
#[derive(Clone, Debug, PartialEq)]
pub struct CcmAsConfig {
    /// The domain names to issue the certificate for.
    pub ccm_domain_names: Vec<String>,
    /// The application configuration to issue it under, in hexadecimal.
    pub ccm_appconfig_id: Option<String>,
}

/// The value of a field of a configuration file.
#[derive(Debug, PartialEq, Eq)]
pub enum ConfigValue {
    /// No value.
    Null,
    /// A text.
    Text(String),
    /// A list of texts. What is not a text stands in it as an error, in words.
    List(Vec<Result<String, String>>),
    /// Anything else, in words.
    Other(String),
}

impl ConfigValue {
    /// The value, in words.
    pub open spec fn description(&self) -> Seq<char> {
        match self {
            ConfigValue::Null => "null"@,
            ConfigValue::Text(t) => "string "@ + text::quoted_text(t@),
            ConfigValue::List(_) => "sequence"@,
            ConfigValue::Other(words) => words@,
        }
    }

    /// The value, in words.
    fn describe(&self) -> (words: String)
        ensures
            words@ == self.description(),
    {
        match self {
            ConfigValue::Null => "null".to_owned(),
            ConfigValue::Text(t) => {
                let mut words = "string ".to_owned();
                words.append(text::quote(t.as_str()).as_str());
                words
            }
            ConfigValue::List(_) => "sequence".to_owned(),
            ConfigValue::Other(words) => words.clone(),
        }
    }
}

/// What is wrong with a configuration file, over mathematical values.
pub enum ConfigFault {
    /// There are no domain names.
    NoDomainNames,
    /// The field of this name occurs twice.
    Repeated(Seq<char>),
    /// This stands where a list has to.
    NotSequence(Seq<char>),
    /// This stands where a text has to.
    NotString(Seq<char>),
}

/// What is wrong with a configuration file.
#[derive(Debug, PartialEq, Eq)]
pub enum ConfigError {
    /// There are no domain names.
    NoDomainNames,
    /// A field occurs twice.
    Repeated { field: String },
    /// Something else stands where a list has to.
    NotSequence { found: String },
    /// Something else stands where a text has to.
    NotString { found: String },
}

impl ConfigError {
    /// The error, over mathematical values.
    pub open spec fn fault(&self) -> ConfigFault {
        match self {
            ConfigError::NoDomainNames => ConfigFault::NoDomainNames,
            ConfigError::Repeated { field } => ConfigFault::Repeated(field@),
            ConfigError::NotSequence { found } => ConfigFault::NotSequence(found@),
            ConfigError::NotString { found } => ConfigFault::NotString(found@),
        }
    }

    /// The error, in words.
    pub open spec fn words(&self) -> Seq<char> {
        match self {
            ConfigError::NoDomainNames => "missing field `ccm_domain_names`"@,
            ConfigError::Repeated { field } => "duplicate field `"@ + field@ + "`"@,
            ConfigError::NotSequence { found } => "invalid type: "@ + found@
                + ", expected a sequence"@,
            ConfigError::NotString { found } => "invalid type: "@ + found@ + ", expected a string"@,
        }
    }

    /// The error, in words.
    pub fn to_text(&self) -> (words: String)
        ensures
            words@ == self.words(),
    {
        match self {
            ConfigError::NoDomainNames => "missing field `ccm_domain_names`".to_owned(),
            ConfigError::Repeated { field } => {
                let mut words = "duplicate field `".to_owned();
                words.append(field.as_str());
                words.append("`");
                words
            }
            ConfigError::NotSequence { found } => {
                let mut words = "invalid type: ".to_owned();
                words.append(found.as_str());
                words.append(", expected a sequence");
                words
            }
            ConfigError::NotString { found } => {
                let mut words = "invalid type: ".to_owned();
                words.append(found.as_str());
                words.append(", expected a string");
                words
            }
        }
    }
}

/// The texts of a list, or the first thing in it that is not a text.
pub open spec fn list_texts(items: Seq<Result<String, String>>) -> Result<
    Seq<Seq<char>>,
    ConfigFault,
>
    decreases items.len(),
{
    if items.len() == 0 {
        Ok(seq![])
    } else {
        match (list_texts(items.drop_last()), items.last()) {
            (Err(fault), _) => Err(fault),
            (Ok(_), Err(found)) => Err(ConfigFault::NotString(found@)),
            (Ok(before), Ok(t)) => Ok(before.push(t@)),
        }
    }
}

/// The domain names that `value` holds.
pub open spec fn domain_names(value: ConfigValue) -> Result<Seq<Seq<char>>, ConfigFault> {
    match value {
        ConfigValue::List(items) => list_texts(items@),
        _ => Err(ConfigFault::NotSequence(value.description())),
    }
}

/// The application configuration that `value` holds, if it holds one.
pub open spec fn appconfig_id(value: ConfigValue) -> Result<Option<Seq<char>>, ConfigFault> {
    match value {
        ConfigValue::Null => Ok(None),
        ConfigValue::Text(id) => Ok(Some(id@)),
        _ => Err(ConfigFault::NotString(value.description())),
    }
}

/// What the fields of a file give: the domain names and the application configuration, each if
/// there is a field for it, or the first fault in the order of the fields. Other fields are
/// passed over.
pub open spec fn read_fields(fields: Seq<(String, ConfigValue)>) -> Result<
    (Option<Seq<Seq<char>>>, Option<Option<Seq<char>>>),
    ConfigFault,
>
    decreases fields.len(),
{
    if fields.len() == 0 {
        Ok((None, None))
    } else {
        let (name, value) = (fields.last().0@, fields.last().1);
        match read_fields(fields.drop_last()) {
            Err(fault) => Err(fault),
            Ok((names, id)) => if name == "ccm_domain_names"@ {
                match (names, domain_names(value)) {
                    (Some(_), _) => Err(ConfigFault::Repeated(name)),
                    (None, Ok(list)) => Ok((Some(list), id)),
                    (None, Err(fault)) => Err(fault),
                }
            } else if name == "ccm_appconfig_id"@ {
                match (id, appconfig_id(value)) {
                    (Some(_), _) => Err(ConfigFault::Repeated(name)),
                    (None, Ok(found)) => Ok((names, Some(found))),
                    (None, Err(fault)) => Err(fault),
                }
            } else {
                Ok((names, id))
            },
        }
    }
}

/// The configuration that the fields of a file give. The domain names have to be there.
pub open spec fn config_of(fields: Seq<(String, ConfigValue)>) -> Result<
    (Seq<Seq<char>>, Option<Seq<char>>),
    ConfigFault,
> {
    match read_fields(fields) {
        Err(fault) => Err(fault),
        Ok((None, _)) => Err(ConfigFault::NoDomainNames),
        Ok((Some(names), Some(id))) => Ok((names, id)),
        Ok((Some(names), None)) => Ok((names, None)),
    }
}

/// A fault in a list stays the first one, whatever follows.
proof fn list_fault_stays(items: Seq<Result<String, String>>, n: nat)
    requires
        n <= items.len(),
        list_texts(items.take(n as int)) is Err,
    ensures
        list_texts(items) == list_texts(items.take(n as int)),
    decreases items.len() - n,
{
    if n < items.len() {
        assert(items.take(n + 1int).drop_last() =~= items.take(n as int));
        list_fault_stays(items, n + 1);
    } else {
        assert(items.take(n as int) =~= items);
    }
}

/// A fault among fields stays the first one, whatever follows.
proof fn field_fault_stays(fields: Seq<(String, ConfigValue)>, n: nat)
    requires
        n <= fields.len(),
        read_fields(fields.take(n as int)) is Err,
    ensures
        read_fields(fields) == read_fields(fields.take(n as int)),
    decreases fields.len() - n,
{
    if n < fields.len() {
        assert(fields.take(n + 1int).drop_last() =~= fields.take(n as int));
        field_fault_stays(fields, n + 1);
    } else {
        assert(fields.take(n as int) =~= fields);
    }
}

/// The texts of a list, or the first thing in it that is not a text.
fn take_texts(items: &Vec<Result<String, String>>) -> (texts: Result<Vec<String>, ConfigError>)
    ensures
        match list_texts(items@) {
            Ok(list) => texts matches Ok(t) && text::texts(t@) == list,
            Err(fault) => texts matches Err(e) && e.fault() == fault,
        },
{
    let mut list: Vec<String> = Vec::new();
    let mut i: usize = 0;
    assert(text::texts(list@) =~= seq![]);
    while i < items.len()
        invariant
            i <= items@.len(),
            list_texts(items@.take(i as int)) == Ok::<_, ConfigFault>(text::texts(list@)),
        decreases items@.len() - i,
    {
        assert(items@.take(i + 1).drop_last() =~= items@.take(i as int));
        let ghost before = list@;
        match &items[i] {
            Ok(item) => {
                list.push(item.clone());
                assert(text::texts(list@) =~= text::texts(before).push(item@));
            }
            Err(found) => {
                proof {
                    list_fault_stays(items@, (i + 1) as nat);
                }
                return Err(ConfigError::NotString { found: found.clone() });
            }
        }
        i = i + 1;
    }
    assert(items@.take(i as int) =~= items@);
    Ok(list)
}

/// The domain names that `value` holds.
fn take_domain_names(value: &ConfigValue) -> (names: Result<Vec<String>, ConfigError>)
    ensures
        match domain_names(*value) {
            Ok(list) => names matches Ok(t) && text::texts(t@) == list,
            Err(fault) => names matches Err(e) && e.fault() == fault,
        },
{
    match value {
        ConfigValue::List(items) => take_texts(items),
        _ => Err(ConfigError::NotSequence { found: value.describe() }),
    }
}

/// The application configuration that `value` holds, if it holds one.
fn take_appconfig_id(value: &ConfigValue) -> (id: Result<Option<String>, ConfigError>)
    ensures
        match appconfig_id(*value) {
            Ok(found) => id matches Ok(t) && text::optional(t) == found,
            Err(fault) => id matches Err(e) && e.fault() == fault,
        },
{
    match value {
        ConfigValue::Null => Ok(None),
        ConfigValue::Text(id) => Ok(Some(id.clone())),
        _ => Err(ConfigError::NotString { found: value.describe() }),
    }
}

/// What has been found of each field, over mathematical values.
spec fn found(names: Option<Vec<String>>, id: Option<Option<String>>) -> (
    Option<Seq<Seq<char>>>,
    Option<Option<Seq<char>>>,
) {
    (
        match names {
            Some(list) => Some(text::texts(list@)),
            None => None,
        },
        match id {
            Some(i) => Some(text::optional(i)),
            None => None,
        },
    )
}

impl CcmAsConfig {
    /// Takes the configuration from the fields of a file, in their order. The domain names have
    /// to be there, as a list; the application configuration may be absent; neither may occur
    /// twice. Other fields are passed over.
    pub fn from_fields(fields: &Vec<(String, ConfigValue)>) -> (config: Result<
        CcmAsConfig,
        ConfigError,
    >)
        ensures
            match config_of(fields@) {
                Ok((names, id)) => {
                    &&& config matches Ok(c)
                    &&& text::texts(c.ccm_domain_names@) == names
                    &&& text::optional(c.ccm_appconfig_id) == id
                },
                Err(fault) => config matches Err(e) && e.fault() == fault,
            },
    {
        let mut names: Option<Vec<String>> = None;
        let mut id: Option<Option<String>> = None;
        let mut i: usize = 0;
        while i < fields.len()
            invariant
                i <= fields@.len(),
                read_fields(fields@.take(i as int)) == Ok::<_, ConfigFault>(found(names, id)),
            decreases fields@.len() - i,
        {
            proof {
                assert(fields@.take(i + 1).drop_last() =~= fields@.take(i as int));
                assert(fields@.take(i + 1).last() == fields@[i as int]);
                if read_fields(fields@.take(i + 1)) is Err {
                    field_fault_stays(fields@, (i + 1) as nat);
                }
            }
            let field = &fields[i];
            if text::same_text(field.0.as_str(), "ccm_domain_names") {
                if names.is_some() {
                    return Err(ConfigError::Repeated { field: field.0.clone() });
                }
                match take_domain_names(&field.1) {
                    Ok(list) => {
                        names = Some(list);
                    }
                    Err(e) => return Err(e),
                }
            } else if text::same_text(field.0.as_str(), "ccm_appconfig_id") {
                if id.is_some() {
                    return Err(ConfigError::Repeated { field: field.0.clone() });
                }
                match take_appconfig_id(&field.1) {
                    Ok(found) => {
                        id = Some(found);
                    }
                    Err(e) => return Err(e),
                }
            }
            i = i + 1;
        }
        assert(fields@.take(i as int) =~= fields@);
        match (names, id) {
            (None, _) => Err(ConfigError::NoDomainNames),
            (Some(ccm_domain_names), Some(ccm_appconfig_id)) => Ok(
                CcmAsConfig { ccm_domain_names, ccm_appconfig_id },
            ),
            (Some(ccm_domain_names), None) => Ok(
                CcmAsConfig { ccm_domain_names, ccm_appconfig_id: None },
            ),
        }
    }
}

/// How many bytes of a PEM document are looked at before its certificate is read: as many as the
/// reader of the certificate fetches at once.
pub const HEAD_LEN: usize = 256;

/// How many bytes the PEM document `pem` announces, if it is one.
pub uninterp spec fn pem_len(pem: Seq<char>) -> Option<usize>;

/// Opens `pem` with `x509_cert::der::pem::Decoder::new`, and gives the number of bytes that
/// `Decoder::remaining_len` then announces. What a PEM document is, is the format's matter and is
/// not stated.
#[verifier::external_body]
fn read_pem_len(pem: &str) -> (len: Option<usize>)
    ensures
        len == pem_len(pem@),
{
    x509_cert::der::pem::Decoder::new(pem.as_bytes()).ok().map(|decoder| decoder.remaining_len())
}

/// The first `len` bytes of the PEM document `pem`, if they can be decoded.
pub uninterp spec fn pem_head(pem: Seq<char>, len: usize) -> Option<Seq<u8>>;

/// Decodes the first `len` bytes of `pem` with `x509_cert::der::pem::Decoder::decode`.
#[verifier::external_body]
fn read_pem_head(pem: &str, len: usize) -> (head: Option<Vec<u8>>)
    requires
        pem_len(pem@) matches Some(announced) && len <= announced,
    ensures
        match pem_head(pem@, len) {
            Some(bytes) => head matches Some(h) && h@ == bytes,
            None => head is None,
        },
{
    let mut head = vec![0; len];
    x509_cert::der::pem::Decoder::new(pem.as_bytes()).ok()?.decode(&mut head).ok()?;
    Some(head)
}

/// The length that the DER header at the start of `der` gives, if a whole header stands there.
pub uninterp spec fn der_header(der: Seq<u8>) -> Option<u32>;

/// Decodes the header at the start of `der` with `x509_cert::der::Header::decode`, which fails
/// where data is missing.
#[verifier::external_body]
fn read_header(der: &Vec<u8>) -> (length: Option<u32>)
    ensures
        length == der_header(der@),
{
    let mut reader = x509_cert::der::SliceReader::new(der).ok()?;
    x509_cert::der::Header::decode(&mut reader).ok().map(|header| u32::from(header.length))
}

/// Whether the PEM document `pem` starts with a whole DER header.
pub open spec fn starts_with_header(pem: Seq<char>) -> bool {
    &&& pem_len(pem) matches Some(len)
    &&& pem_head(
        pem,
        if len < HEAD_LEN {
            len
        } else {
            HEAD_LEN
        },
    ) matches Some(head)
    &&& der_header(head) is Some
}

/// From when and until when the certificate that the PEM document `pem` starts with is valid, in
/// nanoseconds since 1970, if it starts with one.
pub uninterp spec fn pem_validity(pem: Seq<char>) -> Option<(u128, u128)>;

/// Parses `pem` with `x509_cert::Certificate::from_pem`, and gives the validity of the
/// certificate, both ends converted with `Time::to_unix_duration`. The parser never returns from a
/// document that ends within its first header; from there on it stays within what that header
/// announces, and that within the document. What a certificate is, is the X.509 standard's matter
/// and is not stated.
#[verifier::external_body]
fn read_validity(pem: &str) -> (validity: Option<(u128, u128)>)
    requires
        starts_with_header(pem@),
    ensures
        validity == pem_validity(pem@),
{
    x509_cert::Certificate::from_pem(pem.as_bytes()).ok().map(|certificate| {
        let validity = certificate.tbs_certificate.validity;
        (
            validity.not_before.to_unix_duration().as_nanos(),
            validity.not_after.to_unix_duration().as_nanos(),
        )
    })
}

/// From when and until when the certificate in `pem` is valid, in nanoseconds since 1970, if
/// `pem` holds a certificate. A document that ends within its first header holds none.
pub open spec fn certificate_validity(pem: Seq<char>) -> Option<(u128, u128)> {
    if starts_with_header(pem) {
        pem_validity(pem)
    } else {
        None
    }
}

/// From when and until when the certificate in `pem` is valid.
fn validity_of(pem: &str) -> (validity: Option<(u128, u128)>)
    ensures
        validity == certificate_validity(pem@),
{
    let Some(len) = read_pem_len(pem) else {
        return None;
    };
    let head_len: usize = if len < HEAD_LEN {
        len
    } else {
        HEAD_LEN
    };
    let Some(head) = read_pem_head(pem, head_len) else {
        return None;
    };
    if read_header(&head).is_none() {
        return None;
    }
    read_validity(pem)
}

/// The time on the system clock, with `std::time::SystemTime::elapsed` of 1970, in nanoseconds:
/// how long after 1970 it is, or as an error how long before. Nothing is known of it beforehand.
#[verifier::external_body]
fn system_time() -> (now: Result<u128, u128>) {
    std::time::UNIX_EPOCH
        .elapsed()
        .map(|after| after.as_nanos())
        .map_err(|e| e.duration().as_nanos())
}

/// Whether `reading` is one that the system clock gave.
pub closed spec fn read_from_clock(reading: Result<u128, u128>) -> bool {
    call_ensures(system_time, (), reading)
}

/// What counts as a reading of the clock is nothing but what `system_time` returns.
proof fn readings_are_of_the_clock(reading: Result<u128, u128>)
    requires
        read_from_clock(reading),
    ensures
        call_ensures(system_time, (), reading),
{
}

/// Takes a reading with `read`.
fn take_reading<F: Fn() -> Result<u128, u128>>(read: F) -> (reading: Result<u128, u128>)
    requires
        call_requires(read, ()),
    ensures
        call_ensures(read, (), reading),
{
    read()
}

/// What a reading of the system time comes to: the nanoseconds since 1970, or `None` for a time
/// before 1970.
pub open spec fn time_of(reading: Result<u128, u128>) -> Option<u128> {
    match reading {
        Ok(after) => Some(after),
        Err(_) => None,
    }
}

/// What a reading of the system time comes to: the nanoseconds since 1970, or `None` for a time
/// before 1970.
pub fn since_1970(reading: Result<u128, u128>) -> (now: Option<u128>)
    ensures
        now == match reading {
            Ok(after) => Some(after),
            Err(_) => None,
        },
        now == time_of(reading),
{
    match reading {
        Ok(after) => Some(after),
        Err(_) => None,
    }
}

/// The time in nanoseconds since 1970, or `None` before 1970, as the system clock gives it now.
fn clock() -> (now: Option<u128>)
    ensures
        exists|reading: Result<u128, u128>| #[trigger]
            read_from_clock(reading) && now == time_of(reading),
{
    let reading = take_reading(system_time);
    assert(read_from_clock(reading));
    since_1970(reading)
}

/// Whether `now` lies in `validity`: not before its start, and before its end. Nothing is valid
/// without a validity, or before 1970.
pub open spec fn valid_at(validity: Option<(u128, u128)>, now: Option<u128>) -> bool {
    match (validity, now) {
        (Some((not_before, not_after)), Some(t)) => not_before <= t < not_after,
        _ => false,
    }
}

/// Whether `now` lies in `validity`.
pub fn validity_holds(validity: Option<(u128, u128)>, now: Option<u128>) -> (holds: bool)
    ensures
        holds == valid_at(validity, now),
{
    match (validity, now) {
        (Some((not_before, not_after)), Some(t)) => not_before <= t && t < not_after,
        _ => false,
    }
}

/// Whether the certificate in `cert_pem` is valid at `now`.
pub fn cert_is_valid_at(cert_pem: &str, now: Option<u128>) -> (valid: bool)
    ensures
        valid == valid_at(certificate_validity(cert_pem@), now),
{
    validity_holds(validity_of(cert_pem), now)
}

/// Whether the certificate in `cert_pem` is valid now. What is not a certificate is not valid.
pub fn cert_is_currently_valid(cert_pem: &str) -> (valid: bool)
    ensures
        exists|reading: Result<u128, u128>| #[trigger]
            read_from_clock(reading) && valid == valid_at(
                certificate_validity(cert_pem@),
                time_of(reading),
            ),
{
    let now = clock();
    cert_is_valid_at(cert_pem, now)
}

/// A workload credential.
#[derive(Debug, PartialEq, Eq)]
pub struct Message {
    /// The certificate.
    pub cert_pem: String,
    /// The private key.
    pub key_pem: String,
}

impl View for Message {
    type V = (Seq<char>, Seq<char>);

    /// The certificate and the private key.
    open spec fn view(&self) -> (Seq<char>, Seq<char>) {
        (self.cert_pem@, self.key_pem@)
    }
}

/// The last credential that was issued, if any was, and whether a new one is on its way.
#[derive(Debug, PartialEq, Eq)]
pub struct TokenCache {
    message: Option<Message>,
    attesting: bool,
}

/// A `TokenCache`, over mathematical values.
pub struct CacheState {
    /// The last credential that was issued.
    pub message: Option<(Seq<char>, Seq<char>)>,
    /// Whether an attestation is under way.
    pub attesting: bool,
}

/// How a credential is come by, over mathematical values.
pub enum TokenPlan {
    /// This one is still valid.
    Reuse((Seq<char>, Seq<char>)),
    /// By attesting.
    Attest,
    /// By waiting for the attestation that is under way.
    Wait,
}

impl View for TokenCache {
    type V = CacheState;

    closed spec fn view(&self) -> CacheState {
        CacheState {
            message: match self.message {
                Some(message) => Some(message@),
                None => None,
            },
            attesting: self.attesting,
        }
    }
}

impl CacheState {
    /// How a call comes by a credential at `now`.
    pub open spec fn plan(self, now: Option<u128>) -> TokenPlan {
        match (self.attesting, reusable(self.message, now)) {
            (true, _) => TokenPlan::Wait,
            (false, Some(message)) => TokenPlan::Reuse(message),
            (false, None) => TokenPlan::Attest,
        }
    }

    /// The state behind that call: one that attests is under way.
    pub open spec fn after_call(self, now: Option<u128>) -> CacheState {
        CacheState { attesting: self.attesting || self.plan(now) is Attest, ..self }
    }

    /// The state once `message` was issued.
    pub open spec fn after_issue(self, message: (Seq<char>, Seq<char>)) -> CacheState {
        CacheState { message: Some(message), attesting: false }
    }

    /// The state once an attestation failed.
    pub open spec fn after_failure(self) -> CacheState {
        CacheState { attesting: false, ..self }
    }
}

impl TokenCache {
    /// A cache without a credential.
    pub fn new() -> (cache: TokenCache)
        ensures
            cache@ == (CacheState { message: None, attesting: false }),
    {
        TokenCache { message: None, attesting: false }
    }

    /// Keeps a credential that was issued, in the place of an earlier one, and hands it out. The
    /// attestation is over.
    pub fn store(&mut self, cert_pem: String, key_pem: String) -> (message: Message)
        ensures
            message@ == (cert_pem@, key_pem@),
            final(self)@ == old(self)@.after_issue((cert_pem@, key_pem@)),
    {
        let message = Message { cert_pem: cert_pem.clone(), key_pem: key_pem.clone() };
        self.message = Some(Message { cert_pem, key_pem });
        self.attesting = false;
        message
    }

    /// Takes note that the attestation failed, so that the next call attests.
    pub fn attestation_failed(&mut self)
        ensures
            final(self)@ == old(self)@.after_failure(),
    {
        self.attesting = false;
    }
}

/// How a credential is come by.
#[derive(Debug, PartialEq, Eq)]
pub enum TokenStep {
    /// This one is still valid.
    Reuse(Message),
    /// By attesting.
    Attest,
    /// By waiting for the attestation that is under way, and asking again.
    Wait,
}

impl TokenStep {
    /// Whether this is what `plan` says.
    pub open spec fn follows(&self, plan: TokenPlan) -> bool {
        match (self, plan) {
            (TokenStep::Reuse(message), TokenPlan::Reuse(cached)) => message@ == cached,
            (TokenStep::Attest, TokenPlan::Attest) => true,
            (TokenStep::Wait, TokenPlan::Wait) => true,
            _ => false,
        }
    }
}

/// The credential to reuse at `now`: the cached one, as long as its certificate is valid.
pub open spec fn reusable(cached: Option<(Seq<char>, Seq<char>)>, now: Option<u128>) -> Option<
    (Seq<char>, Seq<char>),
> {
    match cached {
        Some((cert, key)) if valid_at(certificate_validity(cert), now) => Some((cert, key)),
        _ => None,
    }
}

/// A credential is handed out again exactly as long as its certificate is valid: not before its
/// start, not from its end on, and never where it is no certificate.
pub proof fn credential_is_reused_while_valid(cert: Seq<char>, key: Seq<char>, now: u128)
    ensures
        match certificate_validity(cert) {
            Some((not_before, not_after)) => reusable(Some((cert, key)), Some(now)) == (if not_before
                <= now < not_after {
                Some((cert, key))
            } else {
                None
            }),
            None => reusable(Some((cert, key)), Some(now)) is None,
        },
{
}

/// A credential that has expired is not handed out again at any later time.
pub proof fn expired_credential_stays_expired(
    cert: Seq<char>,
    key: Seq<char>,
    earlier: u128,
    now: u128,
)
    requires
        certificate_validity(cert) matches Some(validity) ==> validity.1 <= earlier,
        earlier <= now,
    ensures
        reusable(Some((cert, key)), Some(now)) is None,
{
}

/// What a cache goes through.
pub enum TokenEvent {
    /// A call asks for a credential at this time.
    Asked(Option<u128>),
    /// An attestation has led to this certificate and private key.
    Issued((Seq<char>, Seq<char>)),
    /// An attestation has failed.
    Failed,
}

/// The state behind an event.
pub open spec fn after_token_event(state: CacheState, event: TokenEvent) -> CacheState {
    match event {
        TokenEvent::Asked(now) => state.after_call(now),
        TokenEvent::Issued(message) => state.after_issue(message),
        TokenEvent::Failed => state.after_failure(),
    }
}

/// The state behind the first `n` of `events`.
pub open spec fn cache_behind(state: CacheState, events: Seq<TokenEvent>, n: nat) -> CacheState
    decreases n,
{
    if n == 0 {
        state
    } else {
        after_token_event(cache_behind(state, events, (n - 1) as nat), events[n - 1])
    }
}

/// Whether the `n`th event is a call that attests.
pub open spec fn attests(state: CacheState, events: Seq<TokenEvent>, n: nat) -> bool {
    events[n as int] matches TokenEvent::Asked(now) && cache_behind(state, events, n).plan(
        now,
    ) is Attest
}

/// Whether an attestation ends, with a credential or without, only while one is under way.
pub open spec fn attestations_end_once(state: CacheState, events: Seq<TokenEvent>) -> bool {
    forall|n: nat|
        n < events.len() && events[n as int] !is Asked ==> (#[trigger] cache_behind(
            state,
            events,
            n,
        )).attesting
}

/// An attestation that is under way stays so until it ends.
proof fn attestation_lasts(state: CacheState, events: Seq<TokenEvent>, i: nat, j: nat)
    requires
        i <= j <= events.len(),
        cache_behind(state, events, i).attesting,
        forall|k: int| i <= k < j ==> (#[trigger] events[k]) is Asked,
    ensures
        cache_behind(state, events, j).attesting,
    decreases j,
{
    if i < j {
        attestation_lasts(state, events, i, (j - 1) as nat);
    }
}

/// No two attestations overlap: between two calls that attest, the first one's has ended. A call
/// that comes while one is under way waits.
pub proof fn attestations_do_not_overlap(
    state: CacheState,
    events: Seq<TokenEvent>,
    i: nat,
    j: nat,
)
    requires
        i < j < events.len(),
        attests(state, events, i),
        attests(state, events, j),
    ensures
        exists|k: int| i < k < j && (#[trigger] events[k]) !is Asked,
{
    if forall|k: int| i < k < j ==> (#[trigger] events[k]) is Asked {
        assert(cache_behind(state, events, i + 1).attesting);
        attestation_lasts(state, events, i + 1, j);
    }
}

/// Where the cache stands while calls overlap: until the credential is issued the first call's
/// attestation is under way, and from then on that credential is cached.
proof fn overlapping_calls(events: Seq<TokenEvent>, n: nat)
    requires
        0 < n <= events.len(),
        events[0] is Asked,
        attestations_end_once(CacheState { message: None, attesting: false }, events),
        forall|k: int| 0 <= k < events.len() ==> (#[trigger] events[k]) !is Failed,
        forall|i: int, j: int|
            #![trigger events[i], events[j]]
            0 <= i < j < events.len() && events[i] is Issued && events[j] is Asked ==> valid_at(
                certificate_validity(events[i]->Issued_0.0),
                events[j]->Asked_0,
            ),
    ensures
        ({
            let cache = cache_behind(CacheState { message: None, attesting: false }, events, n);
            if exists|i: int| 0 <= i < n && (#[trigger] events[i]) is Issued {
                &&& !cache.attesting
                &&& cache.message is Some
                &&& forall|i: int|
                    0 <= i < n && (#[trigger] events[i]) is Issued ==> cache.message == Some(
                        events[i]->Issued_0,
                    )
            } else {
                cache == (CacheState { message: None, attesting: true })
            }
        }),
    decreases n,
{
    let start = CacheState { message: None, attesting: false };
    if n > 1 {
        let m = (n - 1) as nat;
        overlapping_calls(events, m);
        let before = cache_behind(start, events, m);
        if exists|i: int| 0 <= i < m && (#[trigger] events[i]) is Issued {
            let i = choose|i: int| 0 <= i < m && (#[trigger] events[i]) is Issued;
            assert(before.message == Some(events[i]->Issued_0));
            assert(events[m as int] is Asked);
            assert(reusable(before.message, events[m as int]->Asked_0) is Some);
            assert(cache_behind(start, events, n) == before);
        } else if events[m as int] is Issued {
            assert(cache_behind(start, events, n) == before.after_issue(
                events[m as int]->Issued_0,
            ));
        } else {
            assert(cache_behind(start, events, n) == before);
        }
    } else {
        assert(cache_behind(start, events, 0) == start);
        assert(cache_behind(start, events, 1) == start.after_call(events[0]->Asked_0));
    }
}

/// Any number of overlapping calls on an empty cache lead to one attestation, as long as it does
/// not fail and its certificate stays valid: the first call attests, no other one does, and all
/// others wait until the credential is issued and get that one from then on. No second one is
/// issued.
pub proof fn overlapping_calls_attest_once(events: Seq<TokenEvent>, n: nat)
    requires
        n < events.len(),
        events[0] is Asked,
        attestations_end_once(CacheState { message: None, attesting: false }, events),
        forall|k: int| 0 <= k < events.len() ==> (#[trigger] events[k]) !is Failed,
        forall|i: int, j: int|
            #![trigger events[i], events[j]]
            0 <= i < j < events.len() && events[i] is Issued && events[j] is Asked ==> valid_at(
                certificate_validity(events[i]->Issued_0.0),
                events[j]->Asked_0,
            ),
    ensures
        ({
            let cache = cache_behind(CacheState { message: None, attesting: false }, events, n);
            match events[n as int] {
                TokenEvent::Asked(now) => {
                    &&& cache.plan(now) is Attest == (n == 0)
                    &&& n > 0 && (forall|i: int|
                        0 <= i < n ==> (#[trigger] events[i]) !is Issued) ==> cache.plan(
                        now,
                    ) is Wait
                    &&& forall|i: int|
                        0 <= i < n && (#[trigger] events[i]) is Issued ==> cache.plan(now)
                            == TokenPlan::Reuse(events[i]->Issued_0)
                },
                TokenEvent::Issued(_) => forall|i: int|
                    0 <= i < n ==> (#[trigger] events[i]) !is Issued,
                TokenEvent::Failed => false,
            }
        }),
{
    if n > 0 {
        overlapping_calls(events, n);
    }
}

/// The trusted execution environment that the workload runs in.
#[derive(Debug, PartialEq, Eq)]
pub enum Tee {
    /// AMD SEV-SNP.
    Snp,
    /// Intel TDX.
    Tdx,
    /// Another one, by its name.
    Other(String),
}

/// Who attests the workload.
#[derive(Clone, Copy, Debug, PartialEq, Eq, Structural)]
pub enum Attester {
    /// SEV-SNP on bare metal.
    BaremetalSevSnp,
    /// TDX on bare metal.
    BaremetalTdx,
}

/// Why no credential was issued.
#[derive(Debug, PartialEq, Eq)]
pub enum AttestError {
    /// The application configuration is not hexadecimal.
    AppconfigId { cause: String },
    /// The trusted execution environment cannot be attested.
    UnsupportedTee { tee: String },
    /// No certificate was returned.
    NoCertificate,
}

impl AttestError {
    /// The error, in words.
    pub open spec fn words(&self) -> Seq<char> {
        match self {
            AttestError::AppconfigId { .. } => "ccm_as: ccm_appconfig_id is not valid hex"@,
            AttestError::UnsupportedTee { tee } => "ccm_as: unsupported TEE "@ + tee@,
            AttestError::NoCertificate => "ccm_as: CCM returned no workload certificate"@,
        }
    }

    /// The error, in words.
    pub fn to_text(&self) -> (words: String)
        ensures
            words@ == self.words(),
    {
        match self {
            AttestError::AppconfigId { .. } => "ccm_as: ccm_appconfig_id is not valid hex".to_owned(),
            AttestError::UnsupportedTee { tee } => {
                let mut words = "ccm_as: unsupported TEE ".to_owned();
                words.append(tee.as_str());
                words
            }
            AttestError::NoCertificate => "ccm_as: CCM returned no workload certificate".to_owned(),
        }
    }
}

/// What a certificate is asked for with.
#[derive(Debug, PartialEq, Eq)]
pub struct CertRequest {
    /// The names to issue it for, parted by commas.
    pub alt_names: String,
    /// The application configuration to issue it under.
    pub appconfig_id: Option<Vec<u8>>,
}

/// What gets workload credentials.
#[derive(Debug, PartialEq, Eq)]
pub struct CcmAsTokenGetter {
    ccm_domain_names: Vec<String>,
    ccm_appconfig_id: Option<String>,
}

impl CcmAsTokenGetter {
    /// The domain names to issue certificates for.
    pub closed spec fn names(&self) -> Seq<Seq<char>> {
        text::texts(self.ccm_domain_names@)
    }

    /// The application configuration to issue certificates under.
    pub closed spec fn appconfig(&self) -> Option<Seq<char>> {
        text::optional(self.ccm_appconfig_id)
    }

    /// Makes a getter from its configuration.
    pub fn new(config: &CcmAsConfig) -> (getter: CcmAsTokenGetter)
        ensures
            getter.names() == text::texts(config.ccm_domain_names@),
            getter.appconfig() == text::optional(config.ccm_appconfig_id),
    {
        let ccm_domain_names = config.ccm_domain_names.clone();
        assert(text::texts(ccm_domain_names@) =~= text::texts(config.ccm_domain_names@));
        CcmAsTokenGetter { ccm_domain_names, ccm_appconfig_id: config.ccm_appconfig_id.clone() }
    }

    /// Decides how to come by a credential at `now`.
    pub fn get_token_at(&self, cache: &mut TokenCache, now: Option<u128>) -> (step: TokenStep)
        ensures
            step.follows(old(cache)@.plan(now)),
            final(cache)@ == old(cache)@.after_call(now),
    {
        if cache.attesting {
            return TokenStep::Wait;
        }
        match &cache.message {
            Some(cached) => {
                if cert_is_valid_at(cached.cert_pem.as_str(), now) {
                    return TokenStep::Reuse(
                        Message {
                            cert_pem: cached.cert_pem.clone(),
                            key_pem: cached.key_pem.clone(),
                        },
                    );
                }
            }
            None => {}
        }
        cache.attesting = true;
        TokenStep::Attest
    }

    /// Decides how to come by a credential now.
    pub fn get_token(&self, cache: &mut TokenCache) -> (step: TokenStep)
        ensures
            exists|reading: Result<u128, u128>| #[trigger]
                read_from_clock(reading) && step.follows(
                    old(cache)@.plan(time_of(reading)),
                ) && final(cache)@ == old(cache)@.after_call(time_of(reading)),
    {
        let now = clock();
        self.get_token_at(cache, now)
    }

    /// Starts to get a certificate: what it is asked for with.
    pub fn attest_and_issue_cert(&self) -> (request: Result<CertRequest, AttestError>)
        ensures
            match self.appconfig() {
                Some(id) if codec::hex_bytes(text::trimmed(id)) is None => {
                    &&& request matches Err(AttestError::AppconfigId { cause })
                    &&& cause@ == codec::hex_complaint(text::trimmed(id))
                },
                appconfig => {
                    &&& request matches Ok(r)
                    &&& r.alt_names@ == text::joined(self.names(), ","@)
                    &&& match appconfig {
                        Some(id) => r.appconfig_id matches Some(bytes) && codec::hex_bytes(
                            text::trimmed(id),
                        ) == Some(bytes@),
                        None => r.appconfig_id is None,
                    }
                },
            },
    {
        let appconfig_id = match &self.ccm_appconfig_id {
            Some(id) => match codec::decode_hex(text::trim(id.as_str())) {
                Ok(bytes) => Some(bytes),
                Err(cause) => return Err(AttestError::AppconfigId { cause }),
            },
            None => None,
        };
        Ok(CertRequest { alt_names: text::join(&self.ccm_domain_names, ","), appconfig_id })
    }
}

/// Who attests a workload in `tee`.
pub fn attester_for(tee: Tee) -> (attester: Result<Attester, AttestError>)
    ensures
        match tee {
            Tee::Snp => attester == Ok::<_, AttestError>(Attester::BaremetalSevSnp),
            Tee::Tdx => attester == Ok::<_, AttestError>(Attester::BaremetalTdx),
            Tee::Other(name) => attester == Err::<Attester, _>(
                AttestError::UnsupportedTee { tee: name },
            ),
        },
{
    match tee {
        Tee::Snp => Ok(Attester::BaremetalSevSnp),
        Tee::Tdx => Ok(Attester::BaremetalTdx),
        Tee::Other(name) => Err(AttestError::UnsupportedTee { tee: name }),
    }
}

/// The certificate that was returned, if one was.
pub fn issued_cert(cert: Option<String>) -> (cert_pem: Result<String, AttestError>)
    ensures
        match cert {
            Some(pem) => cert_pem matches Ok(c) && c@ == pem@,
            None => cert_pem == Err::<String, _>(AttestError::NoCertificate),
        },
{
    match cert {
        Some(pem) => Ok(pem),
        None => Err(AttestError::NoCertificate),
    }
}

/// A list is taken whole and in order, or the first thing in it that is not a text is reported.
pub proof fn list_is_taken_whole(items: Seq<Result<String, String>>)
    ensures
        match list_texts(items) {
            Ok(list) => {
                &&& list.len() == items.len()
                &&& forall|i: int|
                    #![trigger items[i]]
                    #![trigger list[i]]
                    0 <= i < items.len() ==> items[i] is Ok && list[i] == items[i]->Ok_0@
            },
            Err(fault) => exists|k: int|
                0 <= k < items.len() && (#[trigger] items[k]) is Err && fault
                    == ConfigFault::NotString(items[k]->Err_0@) && forall|j: int|
                    0 <= j < k ==> (#[trigger] items[j]) is Ok,
        },
    decreases items.len(),
{
    if items.len() > 0 {
        let before = items.drop_last();
        let last = items.len() - 1;
        list_is_taken_whole(before);
        assert forall|j: int| 0 <= j < last implies #[trigger] before[j] == items[j] by {}
        match list_texts(before) {
            Err(fault) => {
                let k = choose|k: int|
                    0 <= k < before.len() && (#[trigger] before[k]) is Err && fault
                        == ConfigFault::NotString(before[k]->Err_0@) && forall|j: int|
                        0 <= j < k ==> (#[trigger] before[j]) is Ok;
                assert(items[k] is Err);
                assert forall|j: int| 0 <= j < k implies (#[trigger] items[j]) is Ok by {
                    assert(before[j] is Ok);
                }
            },
            Ok(list) => {
                assert forall|j: int| 0 <= j < last implies (#[trigger] items[j]) is Ok by {
                    assert(before[j] is Ok);
                }
                assert(items[last] == items.last());
            },
        }
    }
}

/// Whether a file has no faults: one field for the domain names, a list of texts, and at most one
/// for the application configuration, a text or nothing.
pub open spec fn faultless(fields: Seq<(String, ConfigValue)>) -> bool {
    &&& exists|k: int| 0 <= k < fields.len() && (#[trigger] fields[k]).0@ == "ccm_domain_names"@
    &&& forall|j: int, k: int|
        #![trigger fields[j], fields[k]]
        0 <= j < k < fields.len() && (fields[j].0@ == "ccm_domain_names"@ || fields[j].0@
            == "ccm_appconfig_id"@) ==> fields[j].0@ != fields[k].0@
    &&& forall|k: int|
        0 <= k < fields.len() && (#[trigger] fields[k]).0@ == "ccm_domain_names"@ ==> {
            &&& fields[k].1 matches ConfigValue::List(items)
            &&& forall|i: int| 0 <= i < items@.len() ==> (#[trigger] items@[i]) is Ok
        }
    &&& forall|k: int|
        0 <= k < fields.len() && (#[trigger] fields[k]).0@ == "ccm_appconfig_id"@
            ==> fields[k].1 is Text || fields[k].1 is Null
}

/// The two names differ.
proof fn names_differ()
    ensures
        "ccm_domain_names"@ != "ccm_appconfig_id"@,
{
    reveal_strlit("ccm_domain_names");
    reveal_strlit("ccm_appconfig_id");
    assert("ccm_domain_names"@[4] != "ccm_appconfig_id"@[4]);
}

/// What has been read of fields is what they hold, wherever they stand.
proof fn read_is_what_stands(fields: Seq<(String, ConfigValue)>)
    requires
        read_fields(fields) is Ok,
    ensures
        ({
            let (names, id) = read_fields(fields)->Ok_0;
            &&& forall|k: int|
                0 <= k < fields.len() && (#[trigger] fields[k]).0@ == "ccm_domain_names"@ ==> {
                    &&& names is Some
                    &&& domain_names(fields[k].1) == Ok::<_, ConfigFault>(names->0)
                }
            &&& forall|k: int|
                0 <= k < fields.len() && (#[trigger] fields[k]).0@ == "ccm_appconfig_id"@ ==> {
                    &&& id is Some
                    &&& appconfig_id(fields[k].1) == Ok::<_, ConfigFault>(id->0)
                }
            &&& names is Some ==> exists|k: int|
                0 <= k < fields.len() && (#[trigger] fields[k]).0@ == "ccm_domain_names"@
            &&& id is Some ==> exists|k: int|
                0 <= k < fields.len() && (#[trigger] fields[k]).0@ == "ccm_appconfig_id"@
            &&& forall|j: int, k: int|
                #![trigger fields[j], fields[k]]
                0 <= j < k < fields.len() && (fields[j].0@ == "ccm_domain_names"@ || fields[j].0@
                    == "ccm_appconfig_id"@) ==> fields[j].0@ != fields[k].0@
        }),
    decreases fields.len(),
{
    names_differ();
    if fields.len() > 0 {
        let before = fields.drop_last();
        let last = fields.len() - 1;
        read_is_what_stands(before);
        assert forall|k: int| 0 <= k < last implies #[trigger] fields[k] == before[k] by {}
        let (names, id) = read_fields(before)->Ok_0;
        if names is Some {
            let k = choose|k: int|
                0 <= k < before.len() && (#[trigger] before[k]).0@ == "ccm_domain_names"@;
            assert(fields[k].0@ == "ccm_domain_names"@);
        }
        if id is Some {
            let k = choose|k: int|
                0 <= k < before.len() && (#[trigger] before[k]).0@ == "ccm_appconfig_id"@;
            assert(fields[k].0@ == "ccm_appconfig_id"@);
        }
        assert(fields[last] == fields.last());
    }
}

/// Fields without faults are read.
proof fn faultless_fields_are_read(fields: Seq<(String, ConfigValue)>)
    requires
        forall|j: int, k: int|
            #![trigger fields[j], fields[k]]
            0 <= j < k < fields.len() && (fields[j].0@ == "ccm_domain_names"@ || fields[j].0@
                == "ccm_appconfig_id"@) ==> fields[j].0@ != fields[k].0@,
        forall|k: int|
            0 <= k < fields.len() && (#[trigger] fields[k]).0@ == "ccm_domain_names"@ ==> {
                &&& fields[k].1 matches ConfigValue::List(items)
                &&& forall|i: int| 0 <= i < items@.len() ==> (#[trigger] items@[i]) is Ok
            },
        forall|k: int|
            0 <= k < fields.len() && (#[trigger] fields[k]).0@ == "ccm_appconfig_id"@
                ==> fields[k].1 is Text || fields[k].1 is Null,
    ensures
        read_fields(fields) is Ok,
    decreases fields.len(),
{
    names_differ();
    if fields.len() > 0 {
        let before = fields.drop_last();
        let last = fields.len() - 1;
        assert forall|k: int| 0 <= k < last implies #[trigger] fields[k] == before[k] by {}
        faultless_fields_are_read(before);
        read_is_what_stands(before);
        let (names, id) = read_fields(before)->Ok_0;
        assert(fields[last] == fields.last());
        if fields[last].0@ == "ccm_domain_names"@ {
            if names is Some {
                let k = choose|k: int|
                    0 <= k < before.len() && (#[trigger] before[k]).0@ == "ccm_domain_names"@;
                assert(fields[k].0@ != fields[last].0@);
            }
            list_is_taken_whole(fields[last].1->List_0@);
        } else if fields[last].0@ == "ccm_appconfig_id"@ {
            if id is Some {
                let k = choose|k: int|
                    0 <= k < before.len() && (#[trigger] before[k]).0@ == "ccm_appconfig_id"@;
                assert(fields[k].0@ != fields[last].0@);
            }
        }
    }
}

/// A file is read exactly if it has no faults.
pub proof fn faultless_file_is_read(fields: Seq<(String, ConfigValue)>)
    ensures
        config_of(fields) is Ok <==> faultless(fields),
{
    if faultless(fields) {
        faultless_fields_are_read(fields);
        read_is_what_stands(fields);
    }
    if config_of(fields) is Ok {
        read_is_what_stands(fields);
        assert forall|k: int|
            0 <= k < fields.len() && (#[trigger] fields[k]).0@ == "ccm_domain_names"@ implies {
            &&& fields[k].1 matches ConfigValue::List(items)
            &&& forall|i: int| 0 <= i < items@.len() ==> (#[trigger] items@[i]) is Ok
        } by {
            list_is_taken_whole(fields[k].1->List_0@);
        }
    }
}

/// The configuration holds the value of each field, wherever it stands: the domain names whole and
/// in order, and the application configuration, which is absent exactly if no field gives it.
pub proof fn values_are_taken_wherever_they_stand(fields: Seq<(String, ConfigValue)>, k: int)
    requires
        config_of(fields) is Ok,
    ensures
        ({
            let (names, id) = config_of(fields)->Ok_0;
            &&& 0 <= k < fields.len() && fields[k].0@ == "ccm_domain_names"@ ==> {
                &&& fields[k].1 matches ConfigValue::List(items)
                &&& names.len() == items@.len()
                &&& forall|i: int|
                    0 <= i < names.len() ==> items@[i] is Ok && #[trigger] names[i]
                        == items@[i]->Ok_0@
            }
            &&& 0 <= k < fields.len() && fields[k].0@ == "ccm_appconfig_id"@ ==> match fields[k].1 {
                ConfigValue::Text(t) => id == Some(t@),
                ConfigValue::Null => id is None,
                _ => false,
            }
            &&& id is Some ==> exists|j: int|
                0 <= j < fields.len() && (#[trigger] fields[j]).0@ == "ccm_appconfig_id"@
                    && fields[j].1 is Text
        }),
{
    read_is_what_stands(fields);
    if 0 <= k < fields.len() && fields[k].0@ == "ccm_domain_names"@ {
        list_is_taken_whole(fields[k].1->List_0@);
    }
    let (names, id) = config_of(fields)->Ok_0;
    if id is Some {
        let j = choose|j: int|
            0 <= j < fields.len() && (#[trigger] fields[j]).0@ == "ccm_appconfig_id"@;
        assert(fields[j].1 is Text);
    }
}

/// The order of the fields makes no difference to a file without faults: with any two of them
/// exchanged it gives the same configuration.
pub proof fn order_of_fields_does_not_matter(fields: Seq<(String, ConfigValue)>, i: int, j: int)
    requires
        config_of(fields) is Ok,
        0 <= i < j < fields.len(),
    ensures
        config_of(fields.update(i, fields[j]).update(j, fields[i])) == config_of(fields),
{
    let other = fields.update(i, fields[j]).update(j, fields[i]);
    faultless_file_is_read(fields);
    assert forall|k: int| 0 <= k < fields.len() implies #[trigger] other[k] == fields[if k == i {
        j
    } else if k == j {
        i
    } else {
        k
    }] by {}
    let n = choose|n: int|
        0 <= n < fields.len() && (#[trigger] fields[n]).0@ == "ccm_domain_names"@;
    let m = if n == i {
        j
    } else if n == j {
        i
    } else {
        n
    };
    assert(other[m] == fields[n]);
    assert forall|a: int, b: int|
        #![trigger other[a], other[b]]
        0 <= a < b < other.len() && (other[a].0@ == "ccm_domain_names"@ || other[a].0@
            == "ccm_appconfig_id"@) implies other[a].0@ != other[b].0@ by {
        let c = if a == i {
            j
        } else if a == j {
            i
        } else {
            a
        };
        let d = if b == i {
            j
        } else if b == j {
            i
        } else {
            b
        };
        assert(other[a] == fields[c] && other[b] == fields[d]);
        if c < d {
            assert(fields[c].0@ != fields[d].0@);
        } else {
            if fields[d].0@ == fields[c].0@ {
                assert(fields[d].0@ != fields[c].0@);
            }
        }
    }
    assert(faultless(other));
    faultless_file_is_read(other);
    read_is_what_stands(fields);
    read_is_what_stands(other);
    let (names, id) = read_fields(fields)->Ok_0;
    let (others, other_id) = read_fields(other)->Ok_0;
    assert(names->0 == others->0);
    if id is Some {
        let k = choose|k: int|
            0 <= k < fields.len() && (#[trigger] fields[k]).0@ == "ccm_appconfig_id"@;
        let l = if k == i {
            j
        } else if k == j {
            i
        } else {
            k
        };
        assert(other[l] == fields[k]);
    }
    if other_id is Some {
        let l = choose|l: int|
            0 <= l < other.len() && (#[trigger] other[l]).0@ == "ccm_appconfig_id"@;
        let k = if l == i {
            j
        } else if l == j {
            i
        } else {
            l
        };
        assert(fields[k] == other[l]);
    }
}

/// The first fault in the order of the fields is the one reported, whatever follows it. Behind
/// fields without a fault, a field that occurs again is reported as such, whatever it holds, and
/// one of the wrong type with what it holds; every other field is passed over.
pub proof fn first_fault_is_reported(
    before: Seq<(String, ConfigValue)>,
    field: (String, ConfigValue),
    behind: Seq<(String, ConfigValue)>,
)
    requires
        read_fields(before) is Ok,
    ensures
        ({
            let all = before.push(field) + behind;
            let name = field.0@;
            let again = exists|k: int| 0 <= k < before.len() && (#[trigger] before[k]).0@ == name;
            let known = name == "ccm_domain_names"@ || name == "ccm_appconfig_id"@;
            &&& known && again ==> config_of(all) == Err::<
                (Seq<Seq<char>>, Option<Seq<char>>),
                _,
            >(ConfigFault::Repeated(name))
            &&& name == "ccm_domain_names"@ && !again && field.1 !is List ==> config_of(all)
                == Err::<(Seq<Seq<char>>, Option<Seq<char>>), _>(
                ConfigFault::NotSequence(field.1.description()),
            )
            &&& name == "ccm_appconfig_id"@ && !again && field.1 !is Text && field.1 !is Null
                ==> config_of(all) == Err::<(Seq<Seq<char>>, Option<Seq<char>>), _>(
                ConfigFault::NotString(field.1.description()),
            )
            &&& !known ==> read_fields(before.push(field)) == read_fields(before)
        }),
{
    names_differ();
    let upto = before.push(field);
    let all = upto + behind;
    assert(upto.drop_last() =~= before);
    assert(upto.last() == field);
    read_is_what_stands(before);
    assert(all.take(upto.len() as int) =~= upto);
    if read_fields(upto) is Err {
        field_fault_stays(all, upto.len());
    }
}

/// A file in which no domain names stand, and nothing else is wrong, is reported to lack them.
pub proof fn missing_names_are_reported(fields: Seq<(String, ConfigValue)>)
    requires
        read_fields(fields) is Ok,
        forall|k: int|
            0 <= k < fields.len() ==> (#[trigger] fields[k]).0@ != "ccm_domain_names"@,
    ensures
        config_of(fields) == Err::<(Seq<Seq<char>>, Option<Seq<char>>), _>(
            ConfigFault::NoDomainNames,
        ),
{
    read_is_what_stands(fields);
}

/// What stands in a file is described by its kind, a text also by itself in quotation marks.
pub proof fn values_are_described(value: ConfigValue)
    ensures
        value.description() == match value {
            ConfigValue::Null => "null"@,
            ConfigValue::Text(t) => "string "@ + text::quoted_text(t@),
            ConfigValue::List(_) => "sequence"@,
            ConfigValue::Other(words) => words@,
        },
{
}

/// What a call does at each time: while an attestation is under way it waits; otherwise it reuses
/// the cached credential exactly if the time lies within the validity of its certificate, and
/// attests if not. Only a call that attests changes the cache, and only by that.
pub proof fn call_decides_by_time(state: CacheState, now: Option<u128>)
    ensures
        state.attesting ==> state.plan(now) == TokenPlan::Wait && state.after_call(now) == state,
        !state.attesting ==> match (state.message, now) {
            (Some((cert, key)), Some(t)) => match certificate_validity(cert) {
                Some((not_before, not_after)) => if not_before <= t && t < not_after {
                    state.plan(now) == TokenPlan::Reuse((cert, key)) && state.after_call(now)
                        == state
                } else {
                    state.plan(now) == TokenPlan::Attest
                },
                None => state.plan(now) == TokenPlan::Attest,
            },
            _ => state.plan(now) == TokenPlan::Attest,
        },
        state.plan(now) == TokenPlan::Attest ==> state.after_call(now) == (CacheState {
            attesting: true,
            ..state
        }),
{
}

/// Each call goes by its own reading of the clock: of two calls on the same credential, each reuses
/// it exactly if its own reading lies within the validity of the certificate. A reading before 1970
/// never does.
pub proof fn each_call_goes_by_its_own_reading(
    state: CacheState,
    cert: Seq<char>,
    key: Seq<char>,
    validity: (u128, u128),
    first: Result<u128, u128>,
    second: Result<u128, u128>,
)
    requires
        !state.attesting,
        state.message == Some((cert, key)),
        certificate_validity(cert) == Some(validity),
    ensures
        state.plan(time_of(first)) is Reuse <==> (first matches Ok(t) && validity.0 <= t && t
            < validity.1),
        state.plan(time_of(second)) is Reuse <==> (second matches Ok(t) && validity.0 <= t && t
            < validity.1),
        state.plan(time_of(first)) is Reuse && state.plan(time_of(second)) is Reuse ==> state.plan(
            time_of(first),
        ) == state.plan(time_of(second)),
{
    call_decides_by_time(state, time_of(first));
    call_decides_by_time(state, time_of(second));
}

/// What was issued last is what is cached, whole, and the attestation is over; one that failed
/// leaves the cached credential.
pub proof fn issued_credential_is_cached(
    state: CacheState,
    message: (Seq<char>, Seq<char>),
)
    ensures
        state.after_issue(message).message == Some(message),
        !state.after_issue(message).attesting,
        state.after_failure().message == state.message,
        !state.after_failure().attesting,
{
}

/// The names that a certificate is asked for are all the configured ones and no others: splitting
/// them at the commas gives those back, in order, where none holds a comma.
pub proof fn all_names_are_asked_for(names: Seq<Seq<char>>)
    requires
        names.len() > 0,
        forall|i: int| 0 <= i < names.len() ==> !(#[trigger] names[i]).contains(','),
    ensures
        text::pieces(text::joined(names, ","@), ","@) == names,
{
    reveal_strlit(",");
    text::joined_splits_back(names, ","@);
}

/// Each complaint about a configuration file names the field, or what stands there and what should.
pub proof fn config_complaints_say_what_about(error: ConfigError)
    ensures
        error.words() == match error {
            ConfigError::NoDomainNames => "missing field `ccm_domain_names`"@,
            ConfigError::Repeated { field } => "duplicate field `"@ + field@ + "`"@,
            ConfigError::NotSequence { found } => "invalid type: "@ + found@
                + ", expected a sequence"@,
            ConfigError::NotString { found } => "invalid type: "@ + found@ + ", expected a string"@,
        },
{
}

/// What is looked at of a document holds the longest header there is: a tag, and a length in five
/// bytes.
pub proof fn head_holds_a_header()
    ensures
        HEAD_LEN >= 6,
{
}

} // verus!
