//! What is asked of DSM, and what its answers have to hold.
use crate::kek;
use crate::kek::Kek;
use crate::key_uuid;
use crate::key_uuid::KeyUuid;
use crate::text;
use vstd::prelude::*;

verus! {

/// Length of a GCM tag in bits, as DSM is asked for it.
pub const TAG_LEN_BITS: usize = 128;

/// Length of a GCM tag in bytes, as DSM has to return it.
pub const TAG_LEN: usize = 16;

/// What every KEK is described as in DSM.
pub const KEK_DESCRIPTION: &'static str = "KEK for CoCo encrypted image; non-exportable; created by coco_keyprovider";

/// Why a key could not be wrapped.
#[derive(Debug, PartialEq, Eq)]
pub enum DsmError {
    /// The `keyid` is a DSM kid, but not with a UUID.
    InvalidUuid { keyid: String, cause: String },
    /// The `keyid` names a resource of the key broker outside DSM.
    KbsStyleKeyId { keyid: String },
    /// DSM created a key without a kid.
    NoKid,
    /// DSM encrypted without an initialisation vector.
    NoIv,
    /// DSM encrypted without a tag.
    NoTag,
    /// DSM returned a tag of another length.
    TagLength { len: usize },
    /// DSM returned a ciphertext that is not as long as the plaintext.
    CipherLength { len: usize, expected: usize },
}

impl DsmError {
    /// The error, in words.
    pub open spec fn words(&self) -> Seq<char> {
        match self {
            DsmError::InvalidUuid { keyid, .. } => "invalid UUID in '"@ + keyid@ + "'"@,
            DsmError::KbsStyleKeyId { keyid } => {
                "DSM endpoint configured but keyid is KBS-style: '"@ + keyid@ + "'. Use '"@
                    + kek::KID_PREFIX@
                    + "<uuid>' to reference an existing DSM KEK, or omit keyid to auto-create."@
            },
            DsmError::NoKid => "DSM did not return a kid"@,
            DsmError::NoIv => "DSM did not return iv for GCM encryption"@,
            DsmError::NoTag => "DSM did not return tag for GCM encryption"@,
            DsmError::TagLength { len } => {
                "DSM returned unexpected GCM tag length: "@ + text::decimal(*len as nat)
                    + " bytes (expected "@ + text::decimal(TAG_LEN as nat) + ")"@
            },
            DsmError::CipherLength { len, expected } => {
                "DSM wrap produced unexpected size: "@ + text::decimal(*len as nat)
                    + " bytes (expected "@ + text::decimal(*expected as nat) + ")"@
            },
        }
    }

    /// The error, in words.
    pub fn to_text(&self) -> (words: String)
        ensures
            words@ == self.words(),
    {
        match self {
            DsmError::InvalidUuid { keyid, .. } => {
                let mut words = "invalid UUID in '".to_owned();
                words.append(keyid.as_str());
                words.append("'");
                words
            }
            DsmError::KbsStyleKeyId { keyid } => {
                let mut words = "DSM endpoint configured but keyid is KBS-style: '".to_owned();
                words.append(keyid.as_str());
                words.append("'. Use '");
                words.append(kek::KID_PREFIX);
                words.append(
                    "<uuid>' to reference an existing DSM KEK, or omit keyid to auto-create.",
                );
                words
            }
            DsmError::NoKid => "DSM did not return a kid".to_owned(),
            DsmError::NoIv => "DSM did not return iv for GCM encryption".to_owned(),
            DsmError::NoTag => "DSM did not return tag for GCM encryption".to_owned(),
            DsmError::TagLength { len } => {
                let mut words = "DSM returned unexpected GCM tag length: ".to_owned();
                words.append(text::to_decimal(*len).as_str());
                words.append(" bytes (expected ");
                words.append(text::to_decimal(TAG_LEN).as_str());
                words.append(")");
                words
            }
            DsmError::CipherLength { len, expected } => {
                let mut words = "DSM wrap produced unexpected size: ".to_owned();
                words.append(text::to_decimal(*len).as_str());
                words.append(" bytes (expected ");
                words.append(text::to_decimal(*expected).as_str());
                words.append(")");
                words
            }
        }
    }

    /// The error, in words, and behind it what it was caused by, where something else complained.
    pub open spec fn report(&self) -> Seq<char> {
        match self {
            DsmError::InvalidUuid { cause, .. } => {
                self.words() + "\n\nCaused by:\n    "@ + text::indented(cause@)
            },
            _ => self.words(),
        }
    }

    /// The error, in words, and behind it what it was caused by, where something else complained.
    pub fn to_report(&self) -> (report: String)
        ensures
            report@ == self.report(),
    {
        let mut report = self.to_text();
        if let DsmError::InvalidUuid { cause, .. } = self {
            report.append("\n\nCaused by:\n    ");
            report.append(text::indent(cause.as_str()).as_str());
        }
        report
    }

    /// What the error was caused by, in words, where something else complained.
    pub fn cause(&self) -> (cause: Option<String>)
        ensures
            match self {
                DsmError::InvalidUuid { cause: c, .. } => cause == Some(*c),
                _ => cause is None,
            },
    {
        match self {
            DsmError::InvalidUuid { cause, .. } => Some(cause.clone()),
            _ => None,
        }
    }
}

/// The kinds of key that DSM is asked for.
#[derive(Clone, Copy, Debug, PartialEq, Eq, Structural)]
pub enum ObjectType {
    /// An AES key.
    Aes,
}

/// What a key may be used for.
#[derive(Clone, Copy, Debug, PartialEq, Eq, Structural)]
pub enum KeyOperation {
    /// Encrypting.
    Encrypt,
    /// Decrypting.
    Decrypt,
    /// Taking the raw key out of DSM.
    Export,
    /// Being managed by the application that created it.
    AppManageable,
}

/// What DSM is asked to create.
#[derive(Debug, PartialEq, Eq)]
pub struct SobjectRequest {
    /// The name to list it under.
    pub name: String,
    /// The kind of key.
    pub obj_type: ObjectType,
    /// The length of the key in bits.
    pub key_size: u32,
    /// What the key may be used for, and nothing else.
    pub key_ops: Vec<KeyOperation>,
    /// What it is described as.
    pub description: String,
}

impl SobjectRequest {
    /// Whether this asks for a KEK: an AES-256 key that may encrypt and decrypt, and that cannot
    /// be taken out of DSM.
    pub open spec fn asks_for_kek(&self) -> bool {
        &&& self.obj_type == ObjectType::Aes
        &&& self.key_size == 256
        &&& self.key_ops@ == seq![
            KeyOperation::Encrypt,
            KeyOperation::Decrypt,
            KeyOperation::AppManageable,
        ]
        &&& !self.key_ops@.contains(KeyOperation::Export)
        &&& self.description@ == KEK_DESCRIPTION@
    }

    /// Whether this asks for a KEK under `name`, or under a generated name if there is none.
    pub open spec fn asks_for_named_kek(&self, name: Option<Seq<char>>) -> bool {
        &&& self.asks_for_kek()
        &&& match name {
            Some(n) => self.name@ == n,
            None => exists|uuid: Seq<u8>|
                key_uuid::is_version_4(uuid) && self.name@ == #[trigger] generated_name(uuid),
        }
    }
}

/// The request for an AES-256 KEK. `Export` is not among its operations, so the raw key cannot
/// leave DSM.
pub fn create_kek(name: String) -> (request: SobjectRequest)
    ensures
        request.name@ == name@,
        request.asks_for_kek(),
{
    let request = SobjectRequest {
        name,
        obj_type: ObjectType::Aes,
        key_size: 256,
        key_ops: vec![KeyOperation::Encrypt, KeyOperation::Decrypt, KeyOperation::AppManageable],
        description: KEK_DESCRIPTION.to_owned(),
    };
    assert(request.key_ops@ =~= seq![
        KeyOperation::Encrypt,
        KeyOperation::Decrypt,
        KeyOperation::AppManageable,
    ]);
    request
}

/// The name of a KEK that none was given for.
pub open spec fn generated_name(uuid: Seq<u8>) -> Seq<char> {
    "ccm-kbc-kek-"@ + key_uuid::hyphenated(uuid)
}

/// The name to create a KEK under, where `uuid` makes up for a name that is absent.
pub fn kek_name(name: Option<String>, uuid: KeyUuid) -> (full: String)
    ensures
        full@ == match text::optional(name) {
            Some(n) => n,
            None => generated_name(uuid@),
        },
{
    match name {
        Some(n) => n,
        None => {
            let mut full = "ccm-kbc-kek-".to_owned();
            full.append(uuid.to_text().as_str());
            full
        }
    }
}

/// The request for a KEK under `name`, or under a generated name if there is none.
pub fn create_named_kek(name: Option<String>) -> (request: SobjectRequest)
    ensures
        request.asks_for_named_kek(text::optional(name)),
{
    match name {
        Some(n) => create_kek(n),
        None => {
            let uuid = KeyUuid::random();
            create_kek(kek_name(None, uuid))
        }
    }
}

/// The ciphers that DSM is asked to use.
#[derive(Clone, Copy, Debug, PartialEq, Eq, Structural)]
pub enum Algorithm {
    /// AES.
    Aes,
}

/// The modes of a cipher that DSM is asked to use.
#[derive(Clone, Copy, Debug, PartialEq, Eq, Structural)]
pub enum CipherMode {
    /// Galois/Counter Mode.
    Gcm,
}

/// What DSM is asked to encrypt.
#[derive(Debug, PartialEq, Eq)]
pub struct EncryptRequest {
    /// The KEK to encrypt with.
    pub key: KeyUuid,
    /// The key to wrap.
    pub plain: Vec<u8>,
    /// The cipher.
    pub alg: Algorithm,
    /// Its mode.
    pub mode: CipherMode,
    /// The initialisation vector; absent for DSM to choose one.
    pub iv: Option<Vec<u8>>,
    /// Additional data to authenticate.
    pub ad: Option<Vec<u8>>,
    /// The length of the tag in bits.
    pub tag_len: usize,
}

impl EncryptRequest {
    /// Whether this asks to wrap `plain` with the KEK with UUID `kek`: AES-GCM with a tag of 16
    /// bytes, an initialisation vector that DSM chooses, and nothing else authenticated.
    pub open spec fn asks_to_wrap(&self, plain: Seq<u8>, kek: Seq<u8>) -> bool {
        &&& self.key@ == kek
        &&& self.plain@ == plain
        &&& self.alg == Algorithm::Aes
        &&& self.mode == CipherMode::Gcm
        &&& self.iv is None
        &&& self.ad is None
        &&& self.tag_len == 8 * TAG_LEN
    }
}

/// The request to wrap `plain_dek` with `kek`.
pub fn encrypt_dek(kek: &Kek, plain_dek: Vec<u8>) -> (request: EncryptRequest)
    ensures
        request.asks_to_wrap(plain_dek@, kek@),
{
    EncryptRequest {
        key: kek.uuid(),
        plain: plain_dek,
        alg: Algorithm::Aes,
        mode: CipherMode::Gcm,
        iv: None,
        ad: None,
        tag_len: TAG_LEN_BITS,
    }
}

/// What DSM returns for a key that it wrapped.
#[derive(Debug, PartialEq, Eq)]
pub struct EncryptResponse {
    /// The ciphertext.
    pub cipher: Vec<u8>,
    /// The initialisation vector.
    pub iv: Option<Vec<u8>>,
    /// The tag.
    pub tag: Option<Vec<u8>>,
}

/// A wrapped key, and what DSM needs to unwrap it. The tag is kept apart from the ciphertext.
#[derive(Debug, PartialEq, Eq)]
pub struct WrappedKey {
    /// The ciphertext.
    pub cipher: Vec<u8>,
    /// The initialisation vector.
    pub iv: Vec<u8>,
    /// The tag.
    pub tag: Vec<u8>,
}

/// What is wrong with what DSM returned for a key of `plain_len` bytes, if anything is. A GCM
/// ciphertext is as long as its plaintext, so any other length means that DSM answers in another
/// format.
pub open spec fn wrap_problem(response: EncryptResponse, plain_len: nat) -> Option<DsmError> {
    if response.iv is None {
        Some(DsmError::NoIv)
    } else if response.tag is None {
        Some(DsmError::NoTag)
    } else if response.tag->0@.len() != TAG_LEN {
        Some(DsmError::TagLength { len: response.tag->0@.len() as usize })
    } else if response.cipher@.len() != plain_len {
        Some(
            DsmError::CipherLength {
                len: response.cipher@.len() as usize,
                expected: plain_len as usize,
            },
        )
    } else {
        None
    }
}

/// Checks what DSM returned for a key of `plain_len` bytes.
pub fn check_wrapped(response: EncryptResponse, plain_len: usize) -> (wrapped: Result<
    WrappedKey,
    DsmError,
>)
    ensures
        match wrap_problem(response, plain_len as nat) {
            Some(problem) => wrapped == Err::<WrappedKey, _>(problem),
            None => wrapped == Ok::<_, DsmError>(
                WrappedKey {
                    cipher: response.cipher,
                    iv: response.iv->0,
                    tag: response.tag->0,
                },
            ),
        },
{
    let Some(iv) = response.iv else {
        return Err(DsmError::NoIv);
    };
    let Some(tag) = response.tag else {
        return Err(DsmError::NoTag);
    };
    if tag.len() != TAG_LEN {
        return Err(DsmError::TagLength { len: tag.len() });
    }
    if response.cipher.len() != plain_len {
        return Err(DsmError::CipherLength { len: response.cipher.len(), expected: plain_len });
    }
    Ok(WrappedKey { cipher: response.cipher, iv, tag })
}

/// Every KEK that is asked for is an AES-256 key that may encrypt and decrypt and be managed by its
/// application, and nothing else: it cannot leave DSM.
pub proof fn kek_cannot_leave_dsm(request: SobjectRequest, op: KeyOperation)
    requires
        request.asks_for_kek(),
    ensures
        request.obj_type == ObjectType::Aes,
        request.key_size == 256,
        request.key_ops@.contains(op) <==> op != KeyOperation::Export,
        request.description@
            == "KEK for CoCo encrypted image; non-exportable; created by coco_keyprovider"@,
{
    let ops = request.key_ops@;
    assert(ops[0] == KeyOperation::Encrypt);
    assert(ops[1] == KeyOperation::Decrypt);
    assert(ops[2] == KeyOperation::AppManageable);
}

/// A KEK is asked for under the name that is wanted, and without one under a name of its own: a
/// fixed start and a random UUID.
pub proof fn kek_is_named(request: SobjectRequest, name: Option<Seq<char>>)
    requires
        request.asks_for_named_kek(name),
    ensures
        request.asks_for_kek(),
        name matches Some(n) ==> request.name@ == n,
        name is None ==> exists|uuid: Seq<u8>|
            request.name@ == "ccm-kbc-kek-"@ + #[trigger] key_uuid::hyphenated(uuid) && uuid.len()
                == 16 && uuid[6] as int / 16 == 4 && uuid[8] as int / 64 == 2,
{
    if name is None {
        let uuid = choose|uuid: Seq<u8>|
            key_uuid::is_version_4(uuid) && request.name@ == #[trigger] generated_name(uuid);
        assert(request.name@ == "ccm-kbc-kek-"@ + key_uuid::hyphenated(uuid));
    }
}

/// Wrapping is asked of the whole key and the KEK given, with AES-GCM, a tag of 128 bits, an
/// initialisation vector of DSM's own and no further data.
pub proof fn whole_key_is_wrapped(request: EncryptRequest, plain: Seq<u8>, kek: Seq<u8>)
    requires
        request.asks_to_wrap(plain, kek),
    ensures
        request.plain@ == plain,
        request.key@ == kek,
        request.alg == Algorithm::Aes,
        request.mode == CipherMode::Gcm,
        request.tag_len == 128,
        request.iv is None,
        request.ad is None,
{
}

/// A response is accepted exactly if it has an initialisation vector, a tag of 16 bytes, and a
/// ciphertext as long as the key. Otherwise the first thing that is missing or wrong is reported,
/// with the lengths.
pub proof fn response_is_whole(response: EncryptResponse, plain_len: nat)
    requires
        plain_len <= usize::MAX,
        response.cipher@.len() <= usize::MAX,
        response.tag matches Some(tag) ==> tag@.len() <= usize::MAX,
    ensures
        wrap_problem(response, plain_len) is None <==> {
            &&& response.iv is Some
            &&& response.tag matches Some(tag)
            &&& tag@.len() == 16
            &&& response.cipher@.len() == plain_len
        },
        wrap_problem(response, plain_len) matches Some(problem) ==> match problem {
            DsmError::NoIv => response.iv is None,
            DsmError::NoTag => response.iv is Some && response.tag is None,
            DsmError::TagLength { len } => {
                &&& response.iv is Some
                &&& response.tag matches Some(tag)
                &&& tag@.len() == len
                &&& len != 16
            },
            DsmError::CipherLength { len, expected } => {
                &&& response.iv is Some
                &&& response.tag matches Some(tag)
                &&& tag@.len() == 16
                &&& response.cipher@.len() == len
                &&& plain_len == expected
                &&& len != expected
            },
            _ => false,
        },
{
}

} // verus!
