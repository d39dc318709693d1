//! Where an input's bytes come from, and how much of a cloud object is held.
use vstd::prelude::*;

use crate::cast::{bits_u64, to_bits_u64};
use crate::decoder::request::MediaSource;
use crate::io::memory::{MemoryReader, MemoryState};
use crate::text::{
    c_text, decimal, decimal_text, is_c_text, nul_place, parse_unsigned, unsigned_value, InteriorNul,
};
use crate::util::gcs::{bucket_resource, is_gcs_url, parse_gcs_uri, GCSUri};
use crate::util::s3::{is_s3_url, parse_s3_uri, S3Config, S3Uri};
use crate::util::uri::{object_key, uri_parts, UriError};

verus! {

/// An object in cloud storage, with the configuration of the client that reads it.
pub enum CloudUri {
    Gcs(GCSUri),
    S3(S3Uri, Option<S3Config>),
}

/// What opens an input.
pub enum InputOpener {
    Cloud(CloudUri),
    /// The media library itself, held to the protocols that [`protocol_whitelist`] names.
    Direct,
}

/// The protocols that the media library may open by itself: local files and the web. What could
/// splice other files or places into an input is not among them.
pub fn protocol_whitelist() -> (r: &'static str)
    ensures
        r@ == "file,http,https,tcp,tls,crypto"@,
{
    "file,http,https,tcp,tls,crypto"
}

/// What opens the input that `name` names: the store that its scheme tells of, for the object that
/// its host and path name, and the media library for every other name.
pub open spec fn opens(
    name: Seq<char>,
    s3_config: Option<S3Config>,
    r: Result<InputOpener, UriError>,
) -> bool {
    if "gs://"@.is_prefix_of(name) {
        match uri_parts(name) {
            Some((Some(host), path)) => {
                &&& r matches Ok(InputOpener::Cloud(CloudUri::Gcs(uri)))
                &&& uri.bucket@ == bucket_resource(host)
                &&& uri.key@ == object_key(path)
            },
            Some((None, _)) => r matches Err(UriError::MissingBucket),
            None => r matches Err(UriError::Invalid(_)),
        }
    } else if "s3://"@.is_prefix_of(name) {
        match uri_parts(name) {
            Some((Some(host), path)) => if object_key(path).len() == 0 {
                r matches Err(UriError::MissingKey)
            } else {
                &&& r matches Ok(InputOpener::Cloud(CloudUri::S3(uri, config)))
                &&& uri.bucket@ == host
                &&& uri.key@ == object_key(path)
                &&& config == s3_config
            },
            Some((None, _)) => r matches Err(UriError::MissingBucket),
            None => r matches Err(UriError::Invalid(_)),
        }
    } else {
        r matches Ok(InputOpener::Direct)
    }
}

/// Decides what opens the input that `name` names. The configuration counts for S3 only.
pub fn choose_opener(name: &str, s3_config: Option<S3Config>) -> (r: Result<InputOpener, UriError>)
    ensures
        opens(name@, s3_config, r),
{
    if is_gcs_url(name) {
        match parse_gcs_uri(name) {
            Ok(uri) => Ok(InputOpener::Cloud(CloudUri::Gcs(uri))),
            Err(error) => Err(error),
        }
    } else if is_s3_url(name) {
        match parse_s3_uri(name) {
            Ok(uri) => Ok(InputOpener::Cloud(CloudUri::S3(uri, s3_config))),
            Err(error) => Err(error),
        }
    } else {
        Ok(InputOpener::Direct)
    }
}

/// An input, ready to be opened.
pub enum OpenPlan {
    /// By its name.
    Named { name: String, opener: InputOpener },
    /// From its bytes.
    Memory(MemoryReader),
}

/// Why an input cannot be opened.
#[derive(Debug)]
pub enum OpenError {
    /// Its name cannot be handed to C.
    Name(InteriorNul),
    /// Its name does not name an object.
    Uri(UriError),
}

/// Whether `r` is how the input is opened, or why it cannot be.
pub open spec fn opened_as(
    source: MediaSource,
    s3_config: Option<S3Config>,
    r: Result<OpenPlan, OpenError>,
) -> bool {
    match source {
        MediaSource::Bytes(bytes) => {
            &&& r matches Ok(OpenPlan::Memory(reader))
            &&& reader@.wf()
            &&& reader@ == (MemoryState { data: bytes@, position: 0 })
        },
        MediaSource::Uri(uri) => match r {
            Ok(OpenPlan::Named { name, opener }) => is_c_text(uri@) && name@ == uri@ && opens(
                uri@,
                s3_config,
                Ok(opener),
            ),
            Ok(OpenPlan::Memory(_)) => false,
            Err(OpenError::Uri(error)) => is_c_text(uri@) && opens(uri@, s3_config, Err(error)),
            Err(OpenError::Name(nul)) => !is_c_text(uri@) && nul.at == nul_place(uri@),
        },
    }
}

impl MediaSource {
    /// Decides how the input is opened. The configuration counts for S3 only.
    pub fn open(self, s3_config: Option<S3Config>) -> (r: Result<OpenPlan, OpenError>)
        requires
            self matches MediaSource::Bytes(bytes) ==> bytes@.len() <= i64::MAX,
        ensures
            opened_as(self, s3_config, r),
    {
        match self {
            MediaSource::Bytes(bytes) => Ok(OpenPlan::Memory(MemoryReader::new(bytes))),
            MediaSource::Uri(uri) => {
                let name = match c_text(uri) {
                    Ok(name) => name,
                    Err(nul) => {
                        return Err(OpenError::Name(nul));
                    },
                };
                match choose_opener(name.as_str(), s3_config) {
                    Ok(opener) => Ok(OpenPlan::Named { name, opener }),
                    Err(error) => Err(OpenError::Uri(error)),
                }
            },
        }
    }
}

/// The largest cloud object that is held in memory unless the environment says otherwise: 16 GiB.
pub const DEFAULT_MAX_CLOUD_OBJECT_SIZE: u64 = 17179869184;

/// The largest cloud object that is held in memory.
pub open spec fn object_size_limit(variable: Option<Seq<char>>) -> u64 {
    match variable {
        Some(value) => match unsigned_value(value, u64::MAX as nat) {
            Some(bytes) => bytes as u64,
            None => DEFAULT_MAX_CLOUD_OBJECT_SIZE,
        },
        None => DEFAULT_MAX_CLOUD_OBJECT_SIZE,
    }
}

/// The largest cloud object that is held in memory: what the environment says, where that is a
/// whole number.
pub fn max_cloud_object_size(variable: Option<&str>) -> (r: u64)
    ensures
        r == object_size_limit(
            match variable {
                Some(value) => Some(value@),
                None => None,
            },
        ),
{
    match variable {
        Some(value) => match parse_unsigned(value, u64::MAX) {
            Some(bytes) => bytes,
            None => DEFAULT_MAX_CLOUD_OBJECT_SIZE,
        },
        None => DEFAULT_MAX_CLOUD_OBJECT_SIZE,
    }
}

/// A cloud object is larger than may be held in memory.
#[derive(Clone, Copy, Debug, PartialEq, Eq, Structural)]
pub struct ObjectTooLarge {
    pub size: u64,
    pub max_size: u64,
}

/// Whether an object is larger than may be held in memory.
pub open spec fn size_checked(size: u64, max_size: u64) -> Result<(), ObjectTooLarge> {
    if size > max_size {
        Err(ObjectTooLarge { size, max_size })
    } else {
        Ok(())
    }
}

/// Refuses an object that is larger than may be held in memory.
pub fn check_object_size(size: u64, max_size: u64) -> (r: Result<(), ObjectTooLarge>)
    ensures
        r == size_checked(size, max_size),
{
    if size > max_size {
        return Err(ObjectTooLarge { size, max_size });
    }
    Ok(())
}

/// The range from byte `offset` on.
pub open spec fn range_text(offset: u64) -> Seq<char> {
    "bytes="@ + decimal(offset as nat) + "-"@
}

/// The range that is asked for of an S3 object from byte `offset` on.
pub fn range_header(offset: u64) -> (r: String)
    ensures
        r@ == range_text(offset),
{
    let mut text = "bytes=".to_owned();
    let digits = decimal_text(offset);
    text.append(digits.as_str());
    text.append("-");
    text
}

/// The byte from which an object is asked for, where that is told.
pub open spec fn offset_asked(offset: u64) -> Option<u64> {
    if offset > 0 {
        Some(offset)
    } else {
        None
    }
}

/// The byte from which a GCS object is asked for, where that is not its first.
pub fn read_offset(offset: u64) -> (r: Option<u64>)
    ensures
        r == offset_asked(offset),
{
    if offset > 0 {
        Some(offset)
    } else {
        None
    }
}

/// The size of a GCS object as it is reported. A negative one counts as one beyond all bounds.
pub fn gcs_object_size(reported: i64) -> (r: u64)
    ensures
        r == bits_u64(reported),
        reported < 0 ==> r > i64::MAX,
{
    to_bits_u64(reported)
}

/// The size of an object of which `content_length` bytes follow byte `offset`.
pub open spec fn object_size(offset: int, content_length: Option<i64>) -> int {
    offset + match content_length {
        Some(n) if n > 0 => n as int,
        _ => 0,
    }
}

/// The size of an S3 object of which `content_length` bytes follow byte `offset`. A length that is
/// missing or negative counts as none.
pub fn s3_object_size(offset: u64, content_length: Option<i64>) -> (r: u64)
    requires
        offset <= i64::MAX,
    ensures
        r == object_size(offset as int, content_length),
{
    let remaining: u64 = match content_length {
        Some(n) => {
            if n > 0 {
                n as u64
            } else {
                0
            }
        },
        None => 0,
    };
    offset + remaining
}

/// No name has the schemes of both stores, so that no object is looked for in the wrong one.
pub proof fn law_schemes_exclude_each_other(name: Seq<char>)
    ensures
        !("gs://"@.is_prefix_of(name) && "s3://"@.is_prefix_of(name)),
{
    reveal_strlit("gs://");
    reveal_strlit("s3://");
    if "gs://"@.is_prefix_of(name) && "s3://"@.is_prefix_of(name) {
        assert(name.subrange(0, 5)[0] == 'g');
        assert(name.subrange(0, 5)[0] == 's');
    }
}

} // verus!
