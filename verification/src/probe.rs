//! One existence probe: the URL that asks a cache for a store path, and what
//! the answer means.

use vstd::prelude::*;
use crate::failure::Failure;
use crate::store_path::{digest_of, hash_from_store_path, is_store_path, is_valid_store_path};

verus! {

/// Status code of a cache that has the path.
pub const STATUS_OK: u16 = 200;

/// Status code of a cache that does not have the path.
pub const STATUS_NOT_FOUND: u16 = 404;

/// What one cache said about one store path.
#[derive(Clone, Debug, PartialEq, Eq)]
pub enum ProbeResult {
    /// The cache has the path.
    Present,
    /// The cache does not have the path.
    Absent,
    /// The cache gave no usable answer.
    Failed(Failure),
}

/// The meaning of a status code: 200 is a hit, 404 a miss, anything else an
/// error that carries the code.
pub open spec fn status_meaning(status: u16) -> ProbeResult {
    if status == STATUS_OK {
        ProbeResult::Present
    } else if status == STATUS_NOT_FOUND {
        ProbeResult::Absent
    } else {
        ProbeResult::Failed(Failure::HTTPFailed(status))
    }
}

/// The address of the metadata of a store path in a cache:
/// `<cache>/<digest>.narinfo`.
pub open spec fn narinfo_url_of(binary_cache_url: Seq<char>, store_path: Seq<char>) -> Seq<char> {
    binary_cache_url + seq!['/'] + digest_of(store_path) + ".narinfo"@
}

impl ProbeResult {
    /// Classifies the status code of a response.
    pub fn from_status(status: u16) -> (result: ProbeResult)
        ensures
            result == status_meaning(status),
    {
        if status == STATUS_OK {
            ProbeResult::Present
        } else if status == STATUS_NOT_FOUND {
            ProbeResult::Absent
        } else {
            ProbeResult::Failed(Failure::HTTPFailed(status))
        }
    }

    /// The result of a probe that got no response, with the cause in words.
    pub fn from_transport_failure(cause: String) -> (result: ProbeResult)
        ensures
            result == ProbeResult::Failed(Failure::Transport(cause)),
    {
        ProbeResult::Failed(Failure::Transport(cause))
    }

    /// Whether the cache has the path, or the error that kept it from saying so.
    pub fn has_store_path(self) -> (found: Result<bool, Failure>)
        ensures
            found == match self {
                ProbeResult::Present => Ok::<bool, Failure>(true),
                ProbeResult::Absent => Ok(false),
                ProbeResult::Failed(error) => Err(error),
            },
    {
        match self {
            ProbeResult::Present => Ok(true),
            ProbeResult::Absent => Ok(false),
            ProbeResult::Failed(error) => Err(error),
        }
    }
}

/// The URL to probe for `store_path` in the cache at `binary_cache_url`.
pub fn narinfo_url(binary_cache_url: &str, store_path: &str) -> (url: String)
    requires
        is_store_path(store_path@),
    ensures
        url@ == narinfo_url_of(binary_cache_url@, store_path@),
{
    proof {
        reveal_strlit("/");
    }
    let mut url = String::from_str(binary_cache_url);
    url.append("/");
    url.append(hash_from_store_path(store_path));
    url.append(".narinfo");
    assert(url@ =~= narinfo_url_of(binary_cache_url@, store_path@));
    url
}

/// The URL to probe for `store_path`, or the format error of a path that is
/// no store path.
pub fn checked_narinfo_url(binary_cache_url: &str, store_path: &str) -> (url: Result<
    String,
    Failure,
>)
    ensures
        is_store_path(store_path@) <==> url is Ok,
        url matches Ok(address) ==> address@ == narinfo_url_of(binary_cache_url@, store_path@),
        url matches Err(error) ==> error matches Failure::InvalidStorePath(path) && path@
            == store_path@,
{
    if is_valid_store_path(store_path) {
        Ok(narinfo_url(binary_cache_url, store_path))
    } else {
        Err(Failure::InvalidStorePath(String::from_str(store_path)))
    }
}

} // verus!
