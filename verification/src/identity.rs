//! Which DSM key a resource URI names.
use crate::error::Error;
use crate::key_uuid;
use crate::key_uuid::KeyUuid;
use crate::resource_uri;
use crate::resource_uri::{ResourcePluginPath, ResourceUri, ResourceUriError};
use crate::text;
use vstd::prelude::*;

verus! {

/// The form of a URI that names a DSM key.
pub const EXPECTED_URI: &'static str = "kbs:///dsm/key/<uuid>";

/// The complaint that `uri` names no DSM key.
pub open spec fn bad_uri(uri: Seq<char>, detail: Seq<char>) -> Seq<char> {
    "ccm_kbc: invalid resource uri '"@ + uri + "': "@ + detail + "; expected "@ + EXPECTED_URI@
}

/// The UUID of the DSM key that a path names, or what is wrong with the path.
pub open spec fn path_uuid(path: Seq<char>) -> Result<Seq<u8>, Seq<char>> {
    let segments = text::pieces(path, resource_uri::SLASH@);
    if segments.len() != 3 {
        Err(ResourceUriError::Segments.words())
    } else if segments[0] != "dsm"@ {
        Err("repository must be 'dsm', got '"@ + segments[0] + "'"@)
    } else if segments[1] != "key"@ {
        Err("type must be 'key', got '"@ + segments[1] + "'"@)
    } else {
        match key_uuid::uuid_bytes(segments[2]) {
            Some(uuid) => Ok(uuid),
            None => Err(
                "tag '"@ + segments[2] + "' is not a valid UUID: "@ + key_uuid::uuid_complaint(
                    segments[2],
                ),
            ),
        }
    }
}

fn bad(rid: &ResourceUri, detail: &str) -> (error: Error)
    ensures
        error.reason() == bad_uri(rid.uri(), detail@),
{
    let mut reason = "ccm_kbc: invalid resource uri '".to_owned();
    reason.append(rid.whole_uri().as_str());
    reason.append("': ");
    reason.append(detail);
    reason.append("; expected ");
    reason.append(EXPECTED_URI);
    Error::KbsClientError(reason)
}

/// The UUID of the DSM key that `rid` names: `kbs:///dsm/key/<uuid>`.
pub fn parse_dsm_uuid(rid: &ResourceUri) -> (uuid: Result<KeyUuid, Error>)
    ensures
        match path_uuid(rid.path@) {
            Ok(bytes) => uuid matches Ok(u) && u@ == bytes,
            Err(detail) => uuid matches Err(e) && e.reason() == bad_uri(rid.uri(), detail),
        },
{
    let path = match ResourcePluginPath::try_from(rid) {
        Ok(path) => path,
        Err(e) => return Err(bad(rid, e.to_text().as_str())),
    };
    if !text::same_text(path.repo.as_str(), "dsm") {
        let mut detail = "repository must be 'dsm', got '".to_owned();
        detail.append(path.repo.as_str());
        detail.append("'");
        return Err(bad(rid, detail.as_str()));
    }
    if !text::same_text(path.resource_type.as_str(), "key") {
        let mut detail = "type must be 'key', got '".to_owned();
        detail.append(path.resource_type.as_str());
        detail.append("'");
        return Err(bad(rid, detail.as_str()));
    }
    match KeyUuid::parse(path.tag.as_str()) {
        Ok(uuid) => Ok(uuid),
        Err(e) => {
            let mut detail = "tag '".to_owned();
            detail.append(path.tag.as_str());
            detail.append("' is not a valid UUID: ");
            detail.append(e.as_str());
            Err(bad(rid, detail.as_str()))
        }
    }
}

/// A path names a key exactly if it reads `dsm/key/` and then, without another slash, its UUID.
pub proof fn path_names_the_key(path: Seq<char>, uuid: Seq<u8>)
    ensures
        path_uuid(path) == Ok::<_, Seq<char>>(uuid) <==> exists|tag: Seq<char>|
            path == "dsm/key/"@ + tag && !tag.contains('/') && #[trigger] key_uuid::spells_uuid(
                tag,
                uuid,
            ),
{
    reveal_strlit("dsm/key/");
    reveal_strlit("dsm");
    reveal_strlit("key");
    reveal_strlit("/");
    let slash = resource_uri::SLASH@;
    let segments = text::pieces(path, slash);
    if path_uuid(path) == Ok::<_, Seq<char>>(uuid) {
        let tag = segments[2];
        key_uuid::uuid_bytes_are_all(tag, uuid);
        text::pieces_join_back(path, slash);
        assert(segments =~= seq!["dsm"@] + (seq!["key"@] + seq![tag]));
        text::joined_from_the_front("dsm"@, seq!["key"@] + seq![tag], slash);
        text::joined_from_the_front("key"@, seq![tag], slash);
        assert(path =~= "dsm/key/"@ + tag);
        if tag.contains('/') {
            let k = choose|k: int| 0 <= k < tag.len() && tag[k] == '/';
            assert(segments[2].subrange(k, k + slash.len()) =~= slash);
        }
        assert(key_uuid::spells_uuid(tag, uuid));
    }
    if exists|tag: Seq<char>|
        path == "dsm/key/"@ + tag && !tag.contains('/') && #[trigger] key_uuid::spells_uuid(
            tag,
            uuid,
        ) {
        let tag = choose|tag: Seq<char>|
            path == "dsm/key/"@ + tag && !tag.contains('/') && #[trigger] key_uuid::spells_uuid(
                tag,
                uuid,
            );
        key_uuid::uuid_bytes_are_all(tag, uuid);
        three_segments("dsm"@, "key"@, tag);
        assert(path =~= "dsm"@ + "/"@ + "key"@ + "/"@ + tag);
    }
}

/// The segments of a path with two slashes.
proof fn three_segments(a: Seq<char>, b: Seq<char>, c: Seq<char>)
    requires
        !a.contains('/'),
        !b.contains('/'),
        !c.contains('/'),
    ensures
        text::pieces(a + "/"@ + b + "/"@ + c, resource_uri::SLASH@) == seq![a, b, c],
{
    reveal_strlit("/");
    let list = seq![a, b, c];
    let slash = resource_uri::SLASH@;
    assert(list =~= seq![a] + (seq![b] + seq![c]));
    text::joined_from_the_front(a, seq![b] + seq![c], slash);
    text::joined_from_the_front(b, seq![c], slash);
    assert(text::joined(list, slash) =~= a + "/"@ + b + "/"@ + c);
    text::joined_splits_back(list, slash);
}

/// What is wrong with a path of three segments is said of the first one that is wrong, with what
/// stands there.
pub proof fn first_wrong_segment_is_named(repo: Seq<char>, kind: Seq<char>, tag: Seq<char>)
    requires
        !repo.contains('/'),
        !kind.contains('/'),
        !tag.contains('/'),
    ensures
        ({
            let read = path_uuid(repo + "/"@ + kind + "/"@ + tag);
            &&& repo != "dsm"@ ==> read == Err::<Seq<u8>, _>(
                "repository must be 'dsm', got '"@ + repo + "'"@,
            )
            &&& repo == "dsm"@ && kind != "key"@ ==> read == Err::<Seq<u8>, _>(
                "type must be 'key', got '"@ + kind + "'"@,
            )
            &&& repo == "dsm"@ && kind == "key"@ && (forall|uuid: Seq<u8>|
                !key_uuid::spells_uuid(tag, uuid)) ==> read == Err::<Seq<u8>, _>(
                "tag '"@ + tag + "' is not a valid UUID: "@ + key_uuid::uuid_complaint(tag),
            )
        }),
{
    three_segments(repo, kind, tag);
    if key_uuid::uuid_bytes(tag) is Some {
        key_uuid::uuid_bytes_are_all(tag, key_uuid::uuid_bytes(tag)->0);
    }
}

/// The complaint about a URI quotes it whole, and then says what is wrong with it and what was
/// expected.
pub proof fn complaint_quotes_the_uri(uri: Seq<char>, detail: Seq<char>)
    ensures
        bad_uri(uri, detail) == "ccm_kbc: invalid resource uri '"@ + uri + "': "@ + detail
            + "; expected "@ + "kbs:///dsm/key/<uuid>"@,
{
}

} // verus!
