//! Resource URIs of a key broker: `kbs://<address>/<path>`.
//!
//! Which texts count as one is defined here: the scheme, and a slash behind the address. Address
//! and path are taken as they stand; nothing is decoded or normalised.
use crate::text;
use vstd::prelude::*;

verus! {

/// What every resource URI starts with.
pub const SCHEME: &'static str = "kbs://";

/// What parts the segments of a path.
pub const SLASH: &'static str = "/";

/// Why a text is not a resource URI, or a resource URI does not name a repository entry. The
/// wording of each complaint is this module's own, and nothing depends on it.
#[derive(Clone, Copy, Debug, PartialEq, Eq)]
pub enum ResourceUriError {
    /// The text does not start with `kbs://`.
    Scheme,
    /// No path follows the address.
    Path,
    /// The path does not have three segments.
    Segments,
}

impl ResourceUriError {
    /// The complaint, in words.
    pub open spec fn words(self) -> Seq<char> {
        match self {
            ResourceUriError::Scheme => "scheme must be kbs"@,
            ResourceUriError::Path => "resource uri has no path"@,
            ResourceUriError::Segments => "path must be <repository>/<type>/<tag>"@,
        }
    }

    /// The complaint, in words.
    pub fn to_text(self) -> (text: String)
        ensures
            text@ == self.words(),
    {
        match self {
            ResourceUriError::Scheme => "scheme must be kbs".to_owned(),
            ResourceUriError::Path => "resource uri has no path".to_owned(),
            ResourceUriError::Segments => "path must be <repository>/<type>/<tag>".to_owned(),
        }
    }
}

/// A resource URI.
#[derive(Debug, PartialEq, Eq)]
pub struct ResourceUri {
    /// Where the key broker is; empty for the configured one.
    pub kbs_addr: String,
    /// What stands behind the slash that ends the address.
    pub path: String,
}

/// Address and path of the resource URI `uri`.
pub open spec fn uri_parts(uri: Seq<char>) -> Result<(Seq<char>, Seq<char>), ResourceUriError> {
    if !SCHEME@.is_prefix_of(uri) {
        Err(ResourceUriError::Scheme)
    } else {
        match text::divided(uri.skip(SCHEME@.len() as int), SLASH@) {
            Some(parts) => Ok(parts),
            None => Err(ResourceUriError::Path),
        }
    }
}

impl ResourceUri {
    /// The URI as a whole.
    pub open spec fn uri(&self) -> Seq<char> {
        SCHEME@ + self.kbs_addr@ + SLASH@ + self.path@
    }

    /// Parses a resource URI.
    pub fn try_from(uri: &str) -> (rid: Result<ResourceUri, ResourceUriError>)
        ensures
            match rid {
                Ok(r) => uri_parts(uri@) == Ok::<_, ResourceUriError>((r.kbs_addr@, r.path@)),
                Err(e) => uri_parts(uri@) == Err::<(Seq<char>, Seq<char>), _>(e),
            },
    {
        match text::strip_prefix(uri, SCHEME) {
            Some(rest) => match text::split_once(rest, SLASH) {
                Some((addr, path)) => Ok(
                    ResourceUri { kbs_addr: addr.to_owned(), path: path.to_owned() },
                ),
                None => Err(ResourceUriError::Path),
            },
            None => Err(ResourceUriError::Scheme),
        }
    }

    /// Writes the URI out.
    pub fn whole_uri(&self) -> (uri: String)
        ensures
            uri@ == self.uri(),
    {
        let mut uri = SCHEME.to_owned();
        uri.append(self.kbs_addr.as_str());
        uri.append(SLASH);
        uri.append(self.path.as_str());
        uri
    }
}

/// Parsing a URI and writing it out gives the URI back.
pub proof fn parsed_uri_is_whole(uri: Seq<char>, rid: ResourceUri)
    requires
        uri_parts(uri) == Ok::<_, ResourceUriError>((rid.kbs_addr@, rid.path@)),
    ensures
        rid.uri() == uri,
{
    let rest = uri.skip(SCHEME@.len() as int);
    let at = choose|at: int| text::first_occurs_at(rest, SLASH@, at);
    assert(text::first_occurs_at(rest, SLASH@, at));
    assert(rest =~= rest.take(at) + SLASH@ + rest.skip(at + SLASH@.len()));
    assert(uri =~= SCHEME@ + rest);
    assert(rid.uri() =~= SCHEME@ + (rid.kbs_addr@ + SLASH@ + rid.path@));
}

/// An entry of a key broker's repository.
#[derive(Debug, PartialEq, Eq)]
pub struct ResourcePluginPath {
    /// The repository.
    pub repo: String,
    /// The type of the entry within the repository.
    pub resource_type: String,
    /// The entry itself.
    pub tag: String,
}

impl ResourcePluginPath {
    /// The three segments of a path that has three.
    pub fn try_from(rid: &ResourceUri) -> (path: Result<ResourcePluginPath, ResourceUriError>)
        ensures
            match path {
                Ok(p) => text::pieces(rid.path@, SLASH@) == seq![
                    p.repo@,
                    p.resource_type@,
                    p.tag@,
                ],
                Err(e) => e == ResourceUriError::Segments && text::pieces(rid.path@, SLASH@).len()
                    != 3,
            },
    {
        proof {
            reveal_strlit("/");
            reveal_with_fuel(text::pieces, 4);
        }
        let Some((repo, rest)) = text::split_once(rid.path.as_str(), SLASH) else {
            return Err(ResourceUriError::Segments);
        };
        let Some((resource_type, tag)) = text::split_once(rest, SLASH) else {
            return Err(ResourceUriError::Segments);
        };
        if text::split_once(tag, SLASH).is_some() {
            return Err(ResourceUriError::Segments);
        }
        assert(text::pieces(rid.path@, SLASH@) =~= seq![repo@, resource_type@, tag@]);
        Ok(
            ResourcePluginPath {
                repo: repo.to_owned(),
                resource_type: resource_type.to_owned(),
                tag: tag.to_owned(),
            },
        )
    }
}

/// A text is a resource URI with an address and a path exactly if it is made of the scheme, the
/// address without a slash, a slash and the path.
pub proof fn uri_is_its_parts(uri: Seq<char>, address: Seq<char>, path: Seq<char>)
    ensures
        uri_parts(uri) == Ok::<_, ResourceUriError>((address, path)) <==> uri == "kbs://"@ + address
            + "/"@ + path && !address.contains('/'),
{
    reveal_strlit("kbs://");
    reveal_strlit("/");
    let rest = uri.skip(SCHEME@.len() as int);
    if uri == "kbs://"@ + address + "/"@ + path && !address.contains('/') {
        assert(SCHEME@ =~= uri.subrange(0, 6));
        assert(rest =~= address + SLASH@ + path);
        text::divided_behind(address, SLASH@, path);
    }
    if uri_parts(uri) == Ok::<_, ResourceUriError>((address, path)) {
        text::divided_at_the_first(rest, SLASH@);
        assert(uri =~= SCHEME@ + rest);
        assert(uri =~= "kbs://"@ + address + "/"@ + path);
        if address.contains('/') {
            let k = choose|k: int| 0 <= k < address.len() && address[k] == '/';
            assert(rest[k] == '/');
            assert(rest.subrange(k, k + 1) =~= SLASH@);
        }
    }
}

} // verus!
