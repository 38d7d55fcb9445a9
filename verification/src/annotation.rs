//! The annotation that an encrypted layer carries, from the wrapping side and the unwrapping side.
use crate::codec;
use crate::dsm::WrappedKey;
use crate::kek;
use crate::kek::Kek;
use crate::text;
use vstd::prelude::*;

verus! {

/// The `provider` of an annotation. It names the key management service that unwraps the key.
pub const DSM_PROVIDER: &'static str = "dsm";

/// A JSON value.
#[verifier::external_type_specification]
#[verifier::external_body]
pub struct ExValue(serde_json::Value);

/// A JSON object.
#[verifier::external_type_specification]
#[verifier::external_body]
#[verifier::reject_recursive_types(K)]
#[verifier::reject_recursive_types(V)]
pub struct ExObject<K, V>(serde_json::Map<K, V>);

/// The fields of a JSON object by name: the text of a field that is a string, and for a field
/// that is anything else how the deserializer words its complaint about that.
pub uninterp spec fn json_fields(
    object: serde_json::Map<String, serde_json::Value>,
) -> Map<Seq<char>, Result<Seq<char>, Seq<char>>>;

/// Makes an object without fields, with `serde_json::Map::new`.
#[verifier::external_body]
fn new_object() -> (object: serde_json::Map<String, serde_json::Value>)
    ensures
        json_fields(object) =~= Map::empty(),
{
    serde_json::Map::new()
}

/// Gives `object` the string `text` as its field `name`, with `serde_json::Map::insert`. A field
/// that it had under that name is replaced, and no other field changes.
#[verifier::external_body]
fn insert_text(
    object: &mut serde_json::Map<String, serde_json::Value>,
    name: String,
    text: String,
)
    ensures
        json_fields(*final(object)) == json_fields(*old(object)).insert(name@, Ok(text@)),
{
    object.insert(name, serde_json::Value::String(text));
}

/// Looks the field `name` of `object` up with `serde_json::Map::get`, and reads it as a string
/// with `serde_json::from_value`, which gives the text of a string and fails on every other
/// value. The error is the `Debug` text of its `Error`.
#[verifier::external_body]
fn get_text(
    object: &serde_json::Map<String, serde_json::Value>,
    name: &str,
) -> (field: Option<Result<String, String>>)
    ensures
        match field {
            Some(Ok(text)) => json_fields(*object).contains_pair(name@, Ok(text@)),
            Some(Err(e)) => json_fields(*object).contains_pair(name@, Err(e@)),
            None => !json_fields(*object).contains_key(name@),
        },
{
    object.get(name).map(|v| serde_json::from_value(v.clone()).map_err(|e| format!("{e:?}")))
}

/// What an annotation says of the wrapped key of a layer.
#[derive(Debug)]
pub struct AnnotationPacket {
    /// The kid of the KEK.
    pub kid: String,
    /// The wrapped key in base64.
    pub wrapped_data: String,
    /// An initialisation vector for keys that are not unwrapped by a key management service.
    pub iv: Option<String>,
    /// A cipher for keys that are not unwrapped by a key management service.
    pub wrap_type: Option<String>,
    /// The key management service that unwraps the key.
    pub provider: Option<String>,
    /// What that service needs beside the wrapped key.
    pub annotations: Option<serde_json::Map<String, serde_json::Value>>,
}

/// Whether `packet` carries a key that the KEK with UUID `kek` wrapped into `cipher`, `iv` and
/// `tag`. The initialisation vector and the tag are fields of `annotations`, and nothing else is.
pub open spec fn carries(
    packet: AnnotationPacket,
    kek: Seq<u8>,
    cipher: Seq<u8>,
    iv: Seq<u8>,
    tag: Seq<u8>,
) -> bool {
    &&& packet.kid@ == kek::kid_text(kek)
    &&& packet.wrapped_data@ == codec::base64_text(cipher)
    &&& packet.iv is None
    &&& packet.wrap_type is None
    &&& text::optional(packet.provider) == Some(DSM_PROVIDER@)
    &&& packet.annotations matches Some(object)
    &&& json_fields(object) == map![
        "iv"@ => Ok::<_, Seq<char>>(codec::base64_text(iv)),
        "tag"@ => Ok::<_, Seq<char>>(codec::base64_text(tag)),
    ]
}

/// Writes the annotation of a key that `kek` wrapped.
pub fn annotate(kek: &Kek, wrapped: &WrappedKey) -> (packet: AnnotationPacket)
    requires
        codec::base64_fits(wrapped.cipher@),
        codec::base64_fits(wrapped.iv@),
        codec::base64_fits(wrapped.tag@),
    ensures
        carries(packet, kek@, wrapped.cipher@, wrapped.iv@, wrapped.tag@),
{
    let mut annotations = new_object();
    insert_text(&mut annotations, "iv".to_owned(), codec::encode_standard(&wrapped.iv));
    insert_text(&mut annotations, "tag".to_owned(), codec::encode_standard(&wrapped.tag));
    AnnotationPacket {
        kid: kek.kid(),
        wrapped_data: codec::encode_standard(&wrapped.cipher),
        iv: None,
        wrap_type: None,
        provider: Some(DSM_PROVIDER.to_owned()),
        annotations: Some(annotations),
    }
}

/// The annotations that DSM needs to unwrap a key, both in base64.
#[derive(Debug, PartialEq, Eq)]
pub struct DsmCryptAnnotations {
    /// The initialisation vector.
    pub iv: String,
    /// The tag, which is not part of the ciphertext.
    pub tag: String,
}

/// The complaint that there is no field `iv`.
pub const NO_IV: &'static str = "Error(\"missing field `iv`\", line: 0, column: 0)";

/// The complaint that there is no field `tag`.
pub const NO_TAG: &'static str = "Error(\"missing field `tag`\", line: 0, column: 0)";

/// The initialisation vector and the tag among the fields of annotations, or what is wrong with
/// them: first a field that is not a string, then one that is missing. Other fields are passed
/// over.
pub open spec fn crypt_fields(fields: Map<Seq<char>, Result<Seq<char>, Seq<char>>>) -> Result<
    (Seq<char>, Seq<char>),
    Seq<char>,
> {
    if fields.contains_key("iv"@) && fields["iv"@] is Err {
        Err(fields["iv"@]->Err_0)
    } else if fields.contains_key("tag"@) && fields["tag"@] is Err {
        Err(fields["tag"@]->Err_0)
    } else if !fields.contains_key("iv"@) {
        Err(NO_IV@)
    } else if !fields.contains_key("tag"@) {
        Err(NO_TAG@)
    } else {
        Ok((fields["iv"@]->Ok_0, fields["tag"@]->Ok_0))
    }
}

impl DsmCryptAnnotations {
    /// Takes the initialisation vector and the tag from `annotations`.
    pub fn from_annotations(
        annotations: &serde_json::Map<String, serde_json::Value>,
    ) -> (crypt: Result<DsmCryptAnnotations, String>)
        ensures
            match crypt_fields(json_fields(*annotations)) {
                Ok((iv, tag)) => crypt matches Ok(c) && c.iv@ == iv && c.tag@ == tag,
                Err(complaint) => crypt matches Err(e) && e@ == complaint,
            },
    {
        match (get_text(annotations, "iv"), get_text(annotations, "tag")) {
            (Some(Err(e)), _) => Err(e),
            (_, Some(Err(e))) => Err(e),
            (None, _) => Err(NO_IV.to_owned()),
            (_, None) => Err(NO_TAG.to_owned()),
            (Some(Ok(iv)), Some(Ok(tag))) => Ok(DsmCryptAnnotations { iv, tag }),
        }
    }
}

/// An annotation says that DSM unwraps the key, and gives the initialisation vector and the tag
/// under `annotations`, where nothing else stands, and not at the top.
pub proof fn annotation_is_for_dsm(
    packet: AnnotationPacket,
    kek: Seq<u8>,
    cipher: Seq<u8>,
    iv: Seq<u8>,
    tag: Seq<u8>,
    name: Seq<char>,
)
    requires
        carries(packet, kek, cipher, iv, tag),
    ensures
        packet.provider matches Some(provider) && provider@ == "dsm"@,
        packet.iv is None,
        packet.wrap_type is None,
        packet.annotations is Some,
        json_fields(packet.annotations->0).contains_key(name) <==> name == "iv"@ || name == "tag"@,
        packet.wrapped_data@ == codec::base64_text(cipher),
        json_fields(packet.annotations->0)["iv"@] == Ok::<_, Seq<char>>(codec::base64_text(iv)),
        json_fields(packet.annotations->0)["tag"@] == Ok::<_, Seq<char>>(codec::base64_text(tag)),
{
    reveal_strlit("iv");
    reveal_strlit("tag");
    assert("iv"@.len() != "tag"@.len());
}

/// Annotations are accepted exactly if they hold both an initialisation vector and a tag that are
/// strings, and then those are taken as they stand. Of a fault, a field that is not a string is
/// reported before one that is missing, and the initialisation vector before the tag.
pub proof fn both_fields_are_taken(fields: Map<Seq<char>, Result<Seq<char>, Seq<char>>>)
    ensures
        match crypt_fields(fields) {
            Ok((iv, tag)) => {
                &&& fields.contains_pair("iv"@, Ok(iv))
                &&& fields.contains_pair("tag"@, Ok(tag))
            },
            Err(complaint) => {
                ||| fields.contains_pair("iv"@, Err(complaint))
                ||| fields.contains_pair("tag"@, Err(complaint)) && !(fields.contains_key("iv"@)
                    && fields["iv"@] is Err)
                ||| complaint == "Error(\"missing field `iv`\", line: 0, column: 0)"@
                    && !fields.contains_key("iv"@) && !(fields.contains_key("tag"@)
                    && fields["tag"@] is Err)
                ||| complaint == "Error(\"missing field `tag`\", line: 0, column: 0)"@
                    && !fields.contains_key("tag"@) && fields.contains_key("iv"@)
                    && fields["iv"@] is Ok
            },
        },
{
}

} // verus!
