//! The parts of a URI that name an object in cloud storage.
use http::uri::InvalidUri;
use http::Uri;
use vstd::prelude::*;

use crate::text::{strip_prefix, view_of};

verus! {

/// `http::uri::InvalidUri`: why a text is not a URI. Nothing is claimed of it.
#[verifier::external_type_specification]
#[verifier::external_body]
pub struct ExInvalidUri(http::uri::InvalidUri);

/// Why a text does not name an object.
#[derive(Debug)]
pub enum UriError {
    /// The text is not a URI.
    Invalid(InvalidUri),
    /// The URI has no host, which would be the bucket.
    MissingBucket,
    /// The URI has no path, which would be the object's key.
    MissingKey,
}

/// The host and the path of a URI.
#[derive(Debug)]
pub struct UriParts {
    pub host: Option<String>,
    pub path: String,
}

impl UriParts {
    /// The texts of the host and the path.
    pub open spec fn texts(self) -> (Option<Seq<char>>, Seq<char>) {
        (view_of(self.host), self.path@)
    }
}

/// The texts of the parts, where there are any.
pub open spec fn parts_found(r: Result<UriParts, InvalidUri>) -> Option<
    (Option<Seq<char>>, Seq<char>),
> {
    match r {
        Ok(parts) => Some(parts.texts()),
        Err(_) => None,
    }
}

/// The host and the path that `http::Uri` finds in a text; `None` where the text is not a URI.
pub uninterp spec fn uri_parts(url: Seq<char>) -> Option<(Option<Seq<char>>, Seq<char>)>;

pub open spec fn is_alphanumeric(c: char) -> bool {
    ('a' <= c && c <= 'z') || ('A' <= c && c <= 'Z') || ('0' <= c && c <= '9')
}

/// Letters, digits, dashes, dots and underscores, at least one.
pub open spec fn is_plain_bucket(s: Seq<char>) -> bool {
    &&& s.len() > 0
    &&& forall|i: int|
        0 <= i < s.len() ==> is_alphanumeric(#[trigger] s[i]) || s[i] == '-' || s[i] == '.' || s[i]
            == '_'
}

/// Letters, digits, dashes, dots, underscores and slashes.
pub open spec fn is_plain_key(s: Seq<char>) -> bool {
    forall|i: int|
        0 <= i < s.len() ==> is_alphanumeric(#[trigger] s[i]) || s[i] == '-' || s[i] == '.' || s[i]
            == '_' || s[i] == '/'
}

/// `scheme` (which ends in `://`), the bucket, a slash, the key.
pub open spec fn object_url(scheme: Seq<char>, bucket: Seq<char>, key: Seq<char>) -> Seq<char> {
    scheme + bucket + seq!['/'] + key
}

/// The most characters that a URI may have.
pub const MAX_URI_LEN: usize = 65534;

/// `gs://` or `s3://` and a bucket and a key of characters with no meaning of their own in a URI.
pub open spec fn is_plain_url(scheme: Seq<char>, bucket: Seq<char>, key: Seq<char>) -> bool {
    &&& scheme == "gs://"@ || scheme == "s3://"@
    &&& is_plain_bucket(bucket)
    &&& is_plain_key(key)
}

/// Parses `url` as an `http::Uri` and takes its `host` and its `path`.
///
/// Trusted: the result is a function of the text. The host has no slash, because the crate ends
/// the authority at the first one. A text of more than 65534 characters, and so of more bytes than
/// the crate allows, does not parse. A URL of `gs://` or `s3://`, a bucket and a key that are made
/// of letters, digits and a few marks, and that is not longer, parses, and gives back the bucket as
/// its host and the key, after a slash, as its path.
#[verifier::external_body]
pub(crate) fn parse_uri(url: &str) -> (r: Result<UriParts, InvalidUri>)
    ensures
        parts_found(r) == uri_parts(url@),
        url@.len() > MAX_URI_LEN ==> parts_found(r) is None,
        r matches Ok(parts) ==> (view_of(parts.host) matches Some(host) ==> !host.contains('/')),
        (forall|scheme: Seq<char>, bucket: Seq<char>, key: Seq<char>|
            #![trigger object_url(scheme, bucket, key)]
            is_plain_url(scheme, bucket, key) && url@ == object_url(scheme, bucket, key)
                && url@.len() <= MAX_URI_LEN ==> parts_found(r) == Some((Some(bucket), seq!['/'] + key))),
{
    let uri = url.parse::<Uri>()?;
    Ok(UriParts { host: uri.host().map(str::to_owned), path: uri.path().to_owned() })
}

/// A path without the slash that it begins with; nothing where it begins otherwise.
pub open spec fn object_key(path: Seq<char>) -> Seq<char> {
    if path.len() > 0 && path[0] == '/' {
        path.skip(1)
    } else {
        seq![]
    }
}

/// What follows the slash of a path is the key, whatever it is; a path that does not begin with a
/// slash names none. The URL of an object is its scheme, its bucket, a slash and its key.
pub proof fn law_keys_follow_the_slash(
    scheme: Seq<char>,
    bucket: Seq<char>,
    key: Seq<char>,
    path: Seq<char>,
)
    ensures
        object_key(seq!['/'] + key) == key,
        path.len() == 0 || path[0] != '/' ==> object_key(path).len() == 0,
        object_url(scheme, bucket, key).len() == scheme.len() + bucket.len() + 1 + key.len(),
        scheme.is_prefix_of(object_url(scheme, bucket, key)),
        object_url(scheme, bucket, key).skip(scheme.len() as int) == bucket + (seq!['/'] + key),
{
    assert((seq!['/'] + key).skip(1) =~= key);
    let url = object_url(scheme, bucket, key);
    assert(url.subrange(0, scheme.len() as int) =~= scheme);
    assert(url.skip(scheme.len() as int) =~= bucket + (seq!['/'] + key));
}

/// Computes [`object_key`].
pub fn key_of_path(path: &str) -> (r: String)
    ensures
        r@ == object_key(path@),
{
    proof {
        reveal_strlit("/");
    }
    assert("/"@.is_prefix_of(path@) <==> path@.len() > 0 && path@[0] == '/') by {
        if path@.len() > 0 && path@[0] == '/' {
            assert("/"@ =~= path@.subrange(0, 1));
        }
        if "/"@.is_prefix_of(path@) {
            assert(path@.subrange(0, 1)[0] == '/');
        }
    }
    match strip_prefix(path, "/") {
        Some(key) => key,
        None => {
            let empty = String::new();
            assert(empty@ =~= seq![]);
            empty
        },
    }
}

} // verus!
