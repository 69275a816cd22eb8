//! Decisions of the relay directory cache: when the cached directory is fresh
//! enough to use without asking the remote source, which validator a
//! revalidating request carries, and what a response does to the cache.
use crate::select::Relay;
use vstd::prelude::*;

verus! {

/// How long, in seconds, a cached directory is used without revalidation.
pub const FRESHNESS_SECS: u64 = 900;

/// What is known of the cached directory before a lookup.
#[derive(Clone, Copy, Debug, PartialEq, Eq)]
pub enum CacheProbe {
    /// There is no cached directory.
    Missing,
    /// The cache's metadata could not be read.
    Unreadable,
    /// A cached directory exists; its age in seconds, where known.
    Present { age_secs: Option<u64> },
}

/// What a lookup does next.
#[derive(Clone, Copy, Debug, PartialEq, Eq)]
pub enum Plan {
    /// Return the cached directory; no network call.
    UseCached,
    /// Ask the remote source, with the stored validator.
    Revalidate,
}

/// Why no directory could be had.
#[derive(Clone, Debug, PartialEq, Eq)]
pub enum DirectoryError {
    /// The remote source could not be reached (`None`) or answered with an
    /// unexpected status.
    Fetch(Option<u16>),
    /// A directory body does not have the expected structure.
    Parse,
    /// Local cache storage could not be read or written.
    CacheIo,
}

/// What a response from the remote source does to the cache.
#[derive(Clone, Debug)]
pub enum CacheUpdate {
    /// Not modified: only the cache's timestamp is renewed, and the cached
    /// directory is returned.
    Touch,
    /// A new directory: it is stored together with its validator, and returned.
    Store { relays: Vec<Relay>, validator: String },
}

/// Whether a cached directory of this age is used without revalidation.
pub open spec fn is_fresh(age_secs: Option<u64>) -> bool {
    match age_secs {
        Some(a) => a < FRESHNESS_SECS,
        None => false,
    }
}

/// What a lookup does for a given state of the cache.
pub open spec fn lookup_plan(probe: CacheProbe) -> Result<Plan, DirectoryError> {
    match probe {
        CacheProbe::Missing => Ok(Plan::Revalidate),
        CacheProbe::Unreadable => Err(DirectoryError::CacheIo),
        CacheProbe::Present { age_secs } => if is_fresh(age_secs) {
            Ok(Plan::UseCached)
        } else {
            Ok(Plan::Revalidate)
        },
    }
}

/// Decides whether a lookup can use the cached directory: only where one
/// exists and its age is known and under the freshness window.
pub fn plan_lookup(probe: CacheProbe) -> (r: Result<Plan, DirectoryError>)
    ensures
        r == lookup_plan(probe),
{
    match probe {
        CacheProbe::Missing => Ok(Plan::Revalidate),
        CacheProbe::Unreadable => Err(DirectoryError::CacheIo),
        CacheProbe::Present { age_secs } => match age_secs {
            Some(a) => if a < FRESHNESS_SECS {
                Ok(Plan::UseCached)
            } else {
                Ok(Plan::Revalidate)
            },
            None => Ok(Plan::Revalidate),
        },
    }
}

/// Two lookups of an unchanged cache, the second `elapsed` seconds after the
/// first and both within the freshness window, both use the cached directory:
/// neither calls the network nor writes the cache, so both return its content.
pub proof fn lemma_fresh_lookup_repeats(age_secs: u64, elapsed: u64)
    requires
        age_secs + elapsed < FRESHNESS_SECS,
    ensures
        lookup_plan(CacheProbe::Present { age_secs: Some(age_secs) }) == Ok::<Plan, DirectoryError>(
            Plan::UseCached,
        ),
        lookup_plan(CacheProbe::Present { age_secs: Some((age_secs + elapsed) as u64) }) == Ok::<
            Plan,
            DirectoryError,
        >(Plan::UseCached),
{
}

/// The validator that a revalidating request carries: the stored one, or
/// the empty string where none is stored.
pub fn request_validator(stored: Option<String>) -> (r: String)
    ensures
        r@ == match stored {
            Some(v) => v@,
            None => Seq::<char>::empty(),
        },
{
    match stored {
        Some(v) => v,
        None => String::new(),
    }
}

/// No two relays of the sequence share a hostname.
pub open spec fn hostnames_unique_spec(rs: Seq<Relay>) -> bool {
    forall|i: int, j: int|
        0 <= i < j < rs.len() ==> #[trigger] rs[i].hostname@ != #[trigger] rs[j].hostname@
}

/// Whether no two relays share a hostname.
pub fn hostnames_unique(rs: &Vec<Relay>) -> (r: bool)
    ensures
        r == hostnames_unique_spec(rs@),
{
    let mut j: usize = 0;
    while j < rs.len()
        invariant
            j <= rs@.len(),
            forall|a: int, b: int|
                0 <= a < b < j ==> #[trigger] rs@[a].hostname@ != #[trigger] rs@[b].hostname@,
        decreases rs.len() - j,
    {
        let mut i: usize = 0;
        while i < j
            invariant
                i <= j < rs@.len(),
                forall|a: int, b: int|
                    0 <= a < b < j ==> #[trigger] rs@[a].hostname@ != #[trigger] rs@[b].hostname@,
                forall|a: int| 0 <= a < i ==> #[trigger] rs@[a].hostname@ != rs@[j as int].hostname@,
            decreases j - i,
        {
            if rs[i].hostname == rs[j].hostname {
                return false;
            }
            i = i + 1;
        }
        j = j + 1;
    }
    true
}

/// What a response does, as (directory to store, if any; its validator).
pub open spec fn response_update(
    status: u16,
    validator: Option<Seq<char>>,
    decoded: Option<Seq<Relay>>,
) -> Result<(Option<Seq<Relay>>, Seq<char>), DirectoryError> {
    if status == 304 {
        Ok((None, Seq::empty()))
    } else if status == 200 {
        match decoded {
            None => Err(DirectoryError::Parse),
            Some(rs) => if hostnames_unique_spec(rs) {
                Ok(
                    (
                        Some(rs),
                        match validator {
                            Some(v) => v,
                            None => Seq::empty(),
                        },
                    ),
                )
            } else {
                Err(DirectoryError::Parse)
            },
        }
    } else {
        Err(DirectoryError::Fetch(Some(status)))
    }
}

/// A cache update as (directory to store, if any; its validator).
pub open spec fn update_view(u: CacheUpdate) -> (Option<Seq<Relay>>, Seq<char>) {
    match u {
        CacheUpdate::Touch => (None, Seq::empty()),
        CacheUpdate::Store { relays, validator } => (Some(relays@), validator@),
    }
}

/// Decides what a response of the remote source does to the cache. `status`
/// is the HTTP status, `validator` the entity tag that came with it, and
/// `decoded` the directory read from its body (`None` where the body did not
/// decode). 304 renews the cache's timestamp only; 200 with a well-formed
/// directory (hostnames unique) stores it with its validator, the empty one
/// where none came; 200 with anything else is a parse error that leaves the
/// cache as it was; any other status is a fetch error.
pub fn on_response(status: u16, validator: Option<String>, decoded: Option<Vec<Relay>>) -> (r:
    Result<CacheUpdate, DirectoryError>)
    ensures
        ({
            let vv = match validator {
                Some(v) => Some(v@),
                None => None,
            };
            let dv = match decoded {
                Some(d) => Some(d@),
                None => None,
            };
            &&& (r is Ok <==> response_update(status, vv, dv) is Ok)
            &&& (r matches Ok(u) ==> response_update(status, vv, dv) == Ok::<
                (Option<Seq<Relay>>, Seq<char>),
                DirectoryError,
            >(update_view(u)))
            &&& (r matches Err(e) ==> response_update(status, vv, dv) == Err::<
                (Option<Seq<Relay>>, Seq<char>),
                DirectoryError,
            >(e))
        }),
{
    if status == 304 {
        Ok(CacheUpdate::Touch)
    } else if status == 200 {
        match decoded {
            None => Err(DirectoryError::Parse),
            Some(relays) => {
                if hostnames_unique(&relays) {
                    let validator = request_validator(validator);
                    Ok(CacheUpdate::Store { relays, validator })
                } else {
                    Err(DirectoryError::Parse)
                }
            },
        }
    } else {
        Err(DirectoryError::Fetch(Some(status)))
    }
}

} // verus!
