//! Objects in Google Cloud Storage.
use vstd::prelude::*;

use crate::text::{starts_with, trim_start_matches, trimmed_start, view_of};
use crate::util::uri::{
    is_plain_url, key_of_path, object_key, object_url, parse_uri, uri_parts, UriError, UriParts,
    MAX_URI_LEN,
};

verus! {

/// Whether `url` names an object in Google Cloud Storage.
pub fn is_gcs_url(url: &str) -> (r: bool)
    ensures
        r == "gs://"@.is_prefix_of(url@),
{
    starts_with(url, "gs://")
}

/// A bucket, by its resource name, and a key in it.
#[derive(Clone, Debug)]
pub struct GCSUri {
    pub bucket: String,
    pub key: String,
}

/// The resource name of a bucket.
pub open spec fn bucket_resource(bucket: Seq<char>) -> Seq<char> {
    "projects/_/buckets/"@ + bucket
}

impl GCSUri {
    /// The `gs://` URL of the object.
    pub open spec fn url(self) -> Seq<char> {
        object_url(
            "gs://"@,
            trimmed_start(self.bucket@, "projects/_/buckets/"@),
            self.key@,
        )
    }

    /// The `gs://` URL of the object.
    pub fn to_string(&self) -> (r: String)
        ensures
            r@ == self.url(),
    {
        proof {
            reveal_strlit("/");
        }
        let bucket = trim_start_matches(self.bucket.as_str(), "projects/_/buckets/");
        let mut text = "gs://".to_owned();
        text.append(bucket.as_str());
        text.append("/");
        text.append(self.key.as_str());
        assert(text@ =~= self.url());
        text
    }
}

/// The object that a host and a path name.
pub fn gcs_uri_from_parts(parts: &UriParts) -> (r: Result<GCSUri, UriError>)
    ensures
        match view_of(parts.host) {
            Some(host) => {
                &&& r matches Ok(uri)
                &&& uri.bucket@ == bucket_resource(host)
                &&& uri.key@ == object_key(parts.path@)
            },
            None => r matches Err(UriError::MissingBucket),
        },
{
    match &parts.host {
        Some(host) => {
            let mut bucket = "projects/_/buckets/".to_owned();
            bucket.append(host.as_str());
            Ok(GCSUri { bucket, key: key_of_path(parts.path.as_str()) })
        },
        None => Err(UriError::MissingBucket),
    }
}

/// The object that `url` names: its host is the bucket, its path the key.
pub fn parse_gcs_uri(url: &str) -> (r: Result<GCSUri, UriError>)
    ensures
        match uri_parts(url@) {
            Some((Some(host), path)) => {
                &&& r matches Ok(uri)
                &&& uri.bucket@ == bucket_resource(host)
                &&& uri.key@ == object_key(path)
                // The URL of what was found is made of what was found.
                &&& uri.url() == object_url("gs://"@, host, object_key(path))
            },
            Some((None, _)) => r matches Err(UriError::MissingBucket),
            None => r matches Err(UriError::Invalid(_)),
        },
        // What the URL of an object names is that object, unless the URL is too long for one.
        forall|bucket: Seq<char>, key: Seq<char>|
            #![trigger object_url("gs://"@, bucket, key)]
            is_plain_url("gs://"@, bucket, key) && url@ == object_url("gs://"@, bucket, key) ==> {
                if url@.len() > MAX_URI_LEN {
                    r matches Err(UriError::Invalid(_))
                } else {
                    &&& r matches Ok(uri)
                    &&& uri.bucket@ == bucket_resource(bucket)
                    &&& uri.key@ == key
                    &&& uri.url() == url@
                }
            },
{
    match parse_uri(url) {
        Ok(parts) => {
            proof {
                if let Some(host) = view_of(parts.host) {
                    lemma_trim_resource(host);
                }
                assert forall|bucket: Seq<char>, key: Seq<char>|
                    #![trigger object_url("gs://"@, bucket, key)]
                    is_plain_url("gs://"@, bucket, key) && url@ == object_url(
                        "gs://"@,
                        bucket,
                        key,
                    ) implies url@.len() <= MAX_URI_LEN && object_key(parts.path@) == key by {
                    assert(object_key(seq!['/'] + key) =~= key);
                }
            }
            gcs_uri_from_parts(&parts)
        },
        Err(error) => Err(UriError::Invalid(error)),
    }
}

/// An object of a bucket is printed with the bucket's own name, whose resource name begins with the
/// same words for every bucket.
pub proof fn law_objects_are_printed_by_bucket(uri: GCSUri, bucket: Seq<char>)
    requires
        !bucket.contains('/'),
        uri.bucket@ == bucket_resource(bucket),
    ensures
        uri.bucket@ == "projects/_/buckets/"@ + bucket,
        uri.url() == "gs://"@ + bucket + seq!['/'] + uri.key@,
{
    lemma_trim_resource(bucket);
}

/// The resource name of a bucket gives the bucket back once its prefix is taken off.
proof fn lemma_trim_resource(host: Seq<char>)
    requires
        !host.contains('/'),
    ensures
        trimmed_start(bucket_resource(host), "projects/_/buckets/"@) == host,
{
    let prefix = "projects/_/buckets/"@;
    reveal_strlit("projects/_/buckets/");
    assert(prefix =~= bucket_resource(host).subrange(0, prefix.len() as int));
    assert(bucket_resource(host).skip(prefix.len() as int) =~= host);
    if prefix.is_prefix_of(host) {
        assert(prefix[8] == '/');
        assert(host.subrange(0, prefix.len() as int)[8] == '/');
        assert(host[8] == '/');
        assert(host.contains('/'));
    }
    reveal_with_fuel(trimmed_start, 2);
}

} // verus!
