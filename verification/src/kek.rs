//! Key encryption keys: how a kid names one, and which one wraps the key of an image layer.
use crate::dsm::DsmError;
use crate::key_uuid;
use crate::key_uuid::KeyUuid;
use crate::text;
use vstd::prelude::*;

verus! {

/// What a kid starts with: repository `dsm`, type `key`. The UUID of the KEK follows as the tag.
pub const KID_PREFIX: &'static str = "kbs:///dsm/key/";

/// What a kid of two segments starts with. Such a kid is read, but never written.
pub const LEGACY_KID_PREFIX: &'static str = "kbs:///dsm/";

/// What every key broker URI with the configured address starts with.
pub const KBS_PREFIX: &'static str = "kbs:///";

/// What parts the fields of a parameter.
pub const FIELD_SEPARATOR: &'static str = "::";

/// The kid of the KEK with UUID `uuid`.
pub open spec fn kid_text(uuid: Seq<u8>) -> Seq<char> {
    KID_PREFIX@ + key_uuid::hyphenated(uuid)
}

/// How many KEKs to create for one image.
///
/// The key of every layer is wrapped by a call of its own, and this decides whether those calls
/// share a KEK. A parameter `keyid` that names a DSM KEK overrides it.
#[derive(Clone, Copy, Debug, PartialEq, Eq, Structural)]
pub enum KekMode {
    /// One new KEK per layer. Revoking one of them makes one layer undecryptable.
    PerLayer,
    /// One KEK for the whole image, created for the first layer. Revoking it makes the whole
    /// image undecryptable.
    Shared,
}

impl Default for KekMode {
    fn default() -> (mode: KekMode)
        ensures
            mode == KekMode::PerLayer,
    {
        KekMode::PerLayer
    }
}

/// A KEK in DSM, with the kid that annotations refer to it by.
#[derive(Debug, PartialEq, Eq)]
pub struct Kek {
    uuid: KeyUuid,
    kid: String,
}

impl View for Kek {
    type V = Seq<u8>;

    /// The UUID of the KEK.
    closed spec fn view(&self) -> Seq<u8> {
        self.uuid@
    }
}

impl Kek {
    #[verifier::type_invariant]
    spec fn well_formed(self) -> bool {
        self.kid@ == kid_text(self.uuid@)
    }

    /// The KEK with UUID `uuid`.
    pub fn new(uuid: KeyUuid) -> (kek: Kek)
        ensures
            kek@ == uuid@,
    {
        let mut kid = KID_PREFIX.to_owned();
        kid.append(uuid.to_text().as_str());
        Kek { uuid, kid }
    }

    /// The UUID of the KEK.
    pub fn uuid(&self) -> (uuid: KeyUuid)
        ensures
            uuid@ == self@,
    {
        self.uuid
    }

    /// The kid of the KEK, always in the form of three segments.
    pub fn kid(&self) -> (kid: String)
        ensures
            kid@ == kid_text(self@),
    {
        proof {
            use_type_invariant(self);
        }
        self.kid.clone()
    }

    /// Another handle for the same KEK.
    pub fn duplicate(&self) -> (kek: Kek)
        ensures
            kek@ == self@,
    {
        proof {
            use_type_invariant(self);
        }
        Kek { uuid: self.uuid, kid: self.kid.clone() }
    }
}

/// The UUID part of a DSM kid, if `keyid` is one.
pub open spec fn kid_tag(keyid: Seq<char>) -> Option<Seq<char>> {
    if KID_PREFIX@.is_prefix_of(keyid) {
        Some(keyid.skip(KID_PREFIX@.len() as int))
    } else if LEGACY_KID_PREFIX@.is_prefix_of(keyid) {
        Some(keyid.skip(LEGACY_KID_PREFIX@.len() as int))
    } else {
        None
    }
}

/// The UUID part of a DSM kid, if `keyid` is one: `kbs:///dsm/key/<uuid>` or `kbs:///dsm/<uuid>`.
/// The longer prefix is tried first, because it starts with the shorter one.
pub fn parse_dsm_kid<'a>(keyid: &'a str) -> (tag: Option<&'a str>)
    ensures
        match tag {
            Some(t) => kid_tag(keyid@) == Some(t@),
            None => kid_tag(keyid@) is None,
        },
{
    match text::strip_prefix(keyid, KID_PREFIX) {
        Some(tag) => Some(tag),
        None => text::strip_prefix(keyid, LEGACY_KID_PREFIX),
    }
}

/// The value of the first of `fields` that reads `keyid=<value>`.
pub open spec fn first_keyid(fields: Seq<Seq<char>>) -> Option<Seq<char>>
    decreases fields.len(),
{
    if fields.len() == 0 {
        None
    } else {
        match text::divided(fields[0], "="@) {
            Some((key, value)) if key == "keyid"@ => Some(value),
            _ => first_keyid(fields.drop_first()),
        }
    }
}

/// The value of the first field `keyid` of a parameter `key1=val1::key2=val2::...`.
pub open spec fn keyid_field(parameter: Seq<char>) -> Option<Seq<char>> {
    first_keyid(text::pieces(parameter, FIELD_SEPARATOR@))
}

/// The value of `field`, if it reads `keyid=<value>`.
fn keyid_value<'a>(field: &'a str) -> (value: Option<&'a str>)
    ensures
        match text::divided(field@, "="@) {
            Some((k, v)) if k == "keyid"@ => value matches Some(w) && w@ == v,
            _ => value is None,
        },
{
    match text::split_once(field, "=") {
        Some((key, value)) => {
            if text::same_text(key, "keyid") {
                Some(value)
            } else {
                None
            }
        }
        None => None,
    }
}

/// The value of the first field `keyid` of a parameter `key1=val1::key2=val2::...`.
pub fn parse_keyid(params_str: &str) -> (keyid: Option<String>)
    ensures
        text::optional(keyid) == keyid_field(params_str@),
{
    let mut rest = params_str;
    loop
        invariant
            keyid_field(params_str@) == keyid_field(rest@),
        decreases rest@.len(),
    {
        proof {
            reveal_strlit("::");
            reveal_with_fuel(first_keyid, 2);
        }
        let ghost fields = text::pieces(rest@, FIELD_SEPARATOR@);
        match text::split_once(rest, FIELD_SEPARATOR) {
            Some((field, tail)) => {
                assert(fields[0] == field@);
                assert(fields.drop_first() =~= text::pieces(tail@, FIELD_SEPARATOR@));
                if let Some(value) = keyid_value(field) {
                    return Some(value.to_owned());
                }
                rest = tail;
            }
            None => {
                assert(fields[0] == rest@);
                assert(fields.drop_first() =~= Seq::<Seq<char>>::empty());
                return match keyid_value(rest) {
                    Some(value) => Some(value.to_owned()),
                    None => None,
                };
            }
        }
    }
}

/// The `keyid` that the first parameter of a layer carries.
pub open spec fn requested_keyid(params: Seq<Seq<char>>) -> Option<Seq<char>> {
    if params.len() == 0 {
        None
    } else {
        keyid_field(params[0])
    }
}

/// The name wanted for a new KEK: a `keyid` that is not empty comes before the configured name.
pub open spec fn wanted_name(
    keyid: Option<Seq<char>>,
    configured: Option<Seq<char>>,
) -> Option<Seq<char>> {
    match keyid {
        Some(name) if name.len() > 0 => Some(name),
        _ => configured,
    }
}

/// Which KEK to wrap a key with.
#[derive(Debug, PartialEq, Eq)]
pub enum KekChoice {
    /// The one that the caller named.
    Existing(Kek),
    /// One that DSM has yet to create, if possible under this name.
    New(Option<String>),
}

/// What the `keyid` of a layer asks for.
pub open spec fn chosen(
    keyid: Option<Seq<char>>,
    configured: Option<Seq<char>>,
    choice: Result<KekChoice, DsmError>,
) -> bool {
    match keyid {
        Some(id) if kid_tag(id) is Some => match key_uuid::uuid_bytes(kid_tag(id)->0) {
            Some(uuid) => choice matches Ok(KekChoice::Existing(kek)) && kek@ == uuid,
            None => {
                &&& choice matches Err(DsmError::InvalidUuid { keyid, cause })
                &&& keyid@ == id
                &&& cause@ == key_uuid::uuid_complaint(kid_tag(id)->0)
            },
        },
        Some(id) if KBS_PREFIX@.is_prefix_of(id) => choice matches Err(
            DsmError::KbsStyleKeyId { keyid },
        ) && keyid@ == id,
        _ => choice matches Ok(KekChoice::New(name)) && text::optional(name) == wanted_name(
            keyid,
            configured,
        ),
    }
}

/// Decides which KEK to wrap a layer's key with: the DSM KEK that `keyid` names, or a new one.
/// A `keyid` that names another resource of the key broker is refused.
pub fn choose_kek(params: &Vec<String>, configured: &Option<String>) -> (choice: Result<
    KekChoice,
    DsmError,
>)
    ensures
        chosen(requested_keyid(text::texts(params@)), text::optional(*configured), choice),
{
    let keyid = if params.len() > 0 {
        parse_keyid(params[0].as_str())
    } else {
        None
    };
    match keyid {
        Some(id) => {
            if let Some(tag) = parse_dsm_kid(id.as_str()) {
                return match KeyUuid::parse(tag) {
                    Ok(uuid) => Ok(KekChoice::Existing(Kek::new(uuid))),
                    Err(cause) => Err(DsmError::InvalidUuid { keyid: id, cause }),
                };
            }
            if text::strip_prefix(id.as_str(), KBS_PREFIX).is_some() {
                return Err(DsmError::KbsStyleKeyId { keyid: id });
            }
            if id.as_str().is_empty() {
                Ok(KekChoice::New(configured.clone()))
            } else {
                Ok(KekChoice::New(Some(id)))
            }
        }
        None => Ok(KekChoice::New(configured.clone())),
    }
}

/// The `keyid` of a layer, if it names a DSM KEK by a kid of two segments.
pub open spec fn legacy_keyid(keyid: Option<Seq<char>>) -> Option<Seq<char>> {
    match keyid {
        Some(id) if !KID_PREFIX@.is_prefix_of(id) && kid_tag(id) is Some && key_uuid::uuid_bytes(
            kid_tag(id)->0,
        ) is Some => Some(id),
        _ => None,
    }
}

/// The `keyid` that the first parameter of a layer carries, if it names a DSM KEK by a kid of two
/// segments. Such a kid is worth a warning: another one is written in its place.
pub fn find_legacy_keyid(params: &Vec<String>) -> (keyid: Option<String>)
    ensures
        text::optional(keyid) == legacy_keyid(requested_keyid(text::texts(params@))),
{
    if params.len() == 0 {
        return None;
    }
    let Some(id) = parse_keyid(params[0].as_str()) else {
        return None;
    };
    if text::strip_prefix(id.as_str(), KID_PREFIX).is_some() {
        return None;
    }
    let named = match parse_dsm_kid(id.as_str()) {
        Some(tag) => KeyUuid::parse(tag).is_ok(),
        None => false,
    };
    if named {
        Some(id)
    } else {
        None
    }
}

} // verus!
