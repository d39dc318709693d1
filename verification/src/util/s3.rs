//! Objects in S3, and how a client for them is configured.
use vstd::prelude::*;

use crate::text::{same, starts_with, view_of};
use crate::util::uri::{
    is_plain_url, key_of_path, object_key, object_url, parse_uri, uri_parts, UriError, UriParts,
    MAX_URI_LEN,
};

verus! {

/// Whether `url` names an object in S3.
pub fn is_s3_url(url: &str) -> (r: bool)
    ensures
        r == "s3://"@.is_prefix_of(url@),
{
    starts_with(url, "s3://")
}

/// What a caller fixes about the S3 client; what is unset comes from the environment. It cannot be
/// printed, so that no secret ends up in a log.
#[derive(Hash)]
pub struct S3Config {
    pub endpoint_url: Option<String>,
    pub region: Option<String>,
    pub access_key_id: Option<String>,
    pub secret_access_key: Option<String>,
    pub session_token: Option<String>,
    pub credentials: Option<String>,
    pub force_path_style: Option<bool>,
}

/// The texts of an [`S3Config`].
pub struct S3Settings {
    pub endpoint_url: Option<Seq<char>>,
    pub region: Option<Seq<char>>,
    pub access_key_id: Option<Seq<char>>,
    pub secret_access_key: Option<Seq<char>>,
    pub session_token: Option<Seq<char>>,
    pub credentials: Option<Seq<char>>,
    pub force_path_style: Option<bool>,
}

impl S3Settings {
    /// Nothing is fixed.
    pub open spec fn unset() -> S3Settings {
        S3Settings {
            endpoint_url: None,
            region: None,
            access_key_id: None,
            secret_access_key: None,
            session_token: None,
            credentials: None,
            force_path_style: None,
        }
    }
}

impl View for S3Config {
    type V = S3Settings;

    open spec fn view(&self) -> S3Settings {
        S3Settings {
            endpoint_url: view_of(self.endpoint_url),
            region: view_of(self.region),
            access_key_id: view_of(self.access_key_id),
            secret_access_key: view_of(self.secret_access_key),
            session_token: view_of(self.session_token),
            credentials: view_of(self.credentials),
            force_path_style: self.force_path_style,
        }
    }
}

/// Whether two optional texts are the same.
pub fn same_option(a: &Option<String>, b: &Option<String>) -> (r: bool)
    ensures
        r == (view_of(*a) == view_of(*b)),
{
    match (a, b) {
        (Some(x), Some(y)) => same(x.as_str(), y.as_str()),
        (None, None) => true,
        _ => false,
    }
}

impl Default for S3Config {
    fn default() -> (config: S3Config)
        ensures
            config@ == S3Settings::unset(),
    {
        S3Config {
            endpoint_url: None,
            region: None,
            access_key_id: None,
            secret_access_key: None,
            session_token: None,
            credentials: None,
            force_path_style: None,
        }
    }
}

impl Clone for S3Config {
    fn clone(&self) -> (config: S3Config)
        ensures
            config@ == self@,
    {
        S3Config {
            endpoint_url: self.endpoint_url.clone(),
            region: self.region.clone(),
            access_key_id: self.access_key_id.clone(),
            secret_access_key: self.secret_access_key.clone(),
            session_token: self.session_token.clone(),
            credentials: self.credentials.clone(),
            force_path_style: self.force_path_style,
        }
    }
}

/// Two configurations are the same when they fix the same things in the same way.
impl PartialEq for S3Config {
    fn eq(&self, other: &S3Config) -> (r: bool) {
        same_option(&self.endpoint_url, &other.endpoint_url)
            && same_option(&self.region, &other.region)
            && same_option(&self.access_key_id, &other.access_key_id)
            && same_option(&self.secret_access_key, &other.secret_access_key)
            && same_option(&self.session_token, &other.session_token)
            && same_option(&self.credentials, &other.credentials)
            && match (self.force_path_style, other.force_path_style) {
            (Some(x), Some(y)) => x == y,
            (None, None) => true,
            _ => false,
        }
    }
}

impl vstd::std_specs::cmp::PartialEqSpecImpl for S3Config {
    open spec fn obeys_eq_spec() -> bool {
        true
    }

    open spec fn eq_spec(&self, other: &S3Config) -> bool {
        self@ == other@
    }
}

impl Eq for S3Config {

}

/// A bucket and a key in it.
#[derive(Clone, Debug, PartialEq)]
pub struct S3Uri {
    pub bucket: String,
    pub key: String,
}

impl S3Uri {
    /// The `s3://` URL of the object.
    pub open spec fn url(self) -> Seq<char> {
        object_url("s3://"@, self.bucket@, self.key@)
    }

    /// The `s3://` URL of the object.
    pub fn to_string(&self) -> (r: String)
        ensures
            r@ == self.url(),
    {
        proof {
            reveal_strlit("/");
        }
        let mut text = "s3://".to_owned();
        text.append(self.bucket.as_str());
        text.append("/");
        text.append(self.key.as_str());
        assert(text@ =~= self.url());
        text
    }
}

/// An object is printed as the scheme, the bucket, a slash and the key.
pub proof fn law_s3_objects_are_printed(uri: S3Uri)
    ensures
        uri.url() == "s3://"@ + uri.bucket@ + seq!['/'] + uri.key@,
{
}

/// Two configurations are the same if and only if they fix each thing in the same way.
pub proof fn law_same_configs(a: S3Config, b: S3Config)
    ensures
        a@ == b@ <==> {
            &&& view_of(a.endpoint_url) == view_of(b.endpoint_url)
            &&& view_of(a.region) == view_of(b.region)
            &&& view_of(a.access_key_id) == view_of(b.access_key_id)
            &&& view_of(a.secret_access_key) == view_of(b.secret_access_key)
            &&& view_of(a.session_token) == view_of(b.session_token)
            &&& view_of(a.credentials) == view_of(b.credentials)
            &&& a.force_path_style == b.force_path_style
        },
{
}

/// The object that a host and a path name. The path has to name one.
pub fn s3_uri_from_parts(parts: &UriParts) -> (r: Result<S3Uri, UriError>)
    ensures
        match view_of(parts.host) {
            Some(host) => if object_key(parts.path@).len() == 0 {
                r matches Err(UriError::MissingKey)
            } else {
                &&& r matches Ok(uri)
                &&& uri.bucket@ == host
                &&& uri.key@ == object_key(parts.path@)
            },
            None => r matches Err(UriError::MissingBucket),
        },
{
    match &parts.host {
        Some(host) => {
            let key = key_of_path(parts.path.as_str());
            if key.as_str().is_empty() {
                return Err(UriError::MissingKey);
            }
            Ok(S3Uri { bucket: host.clone(), key })
        },
        None => Err(UriError::MissingBucket),
    }
}

/// The object that `url` names: its host is the bucket, its path the key.
pub fn parse_s3_uri(url: &str) -> (r: Result<S3Uri, UriError>)
    ensures
        match uri_parts(url@) {
            Some((Some(host), path)) => if object_key(path).len() == 0 {
                r matches Err(UriError::MissingKey)
            } else {
                &&& r matches Ok(uri)
                &&& uri.bucket@ == host
                &&& uri.key@ == object_key(path)
            },
            Some((None, _)) => r matches Err(UriError::MissingBucket),
            None => r matches Err(UriError::Invalid(_)),
        },
        // What the URL of an object names is that object, unless the URL is too long for one. A URL
        // with no key in it names none.
        forall|bucket: Seq<char>, key: Seq<char>|
            #![trigger object_url("s3://"@, bucket, key)]
            is_plain_url("s3://"@, bucket, key) && url@ == object_url("s3://"@, bucket, key) ==> {
                if url@.len() > MAX_URI_LEN {
                    r matches Err(UriError::Invalid(_))
                } else if key.len() == 0 {
                    r matches Err(UriError::MissingKey)
                } else {
                    &&& r matches Ok(uri)
                    &&& uri.bucket@ == bucket
                    &&& uri.key@ == key
                    &&& uri.url() == url@
                }
            },
{
    match parse_uri(url) {
        Ok(parts) => {
            proof {
                assert forall|bucket: Seq<char>, key: Seq<char>|
                    #![trigger object_url("s3://"@, bucket, key)]
                    is_plain_url("s3://"@, bucket, key) && url@ == object_url(
                        "s3://"@,
                        bucket,
                        key,
                    ) implies url@.len() <= MAX_URI_LEN && object_key(parts.path@) == key by {
                    assert(object_key(seq!['/'] + key) =~= key);
                }
            }
            s3_uri_from_parts(&parts)
        },
        Err(error) => Err(UriError::Invalid(error)),
    }
}

} // verus!
