//! Pure parts of the crates.io API client: response-status classification
//! and the reverse-dependency join that shapes the raw listing into typed
//! records.

use vstd::prelude::*;
use crate::types::{CrateVersion, Dependency, Meta, ReverseDependencies, ReverseDependency};

verus! {

/// Errors returned by the crates.io API client.
#[derive(Debug)]
pub enum Error {
    /// HTTP transport error.
    Http { cause: String },
    /// Resource not found (404).
    NotFound(String),
    /// Permission denied (403).
    PermissionDenied,
    /// Server returned an error status.
    Api { status: u16, message: String },
    /// Rate limited by the server (429).
    RateLimited,
    /// Authentication required for this endpoint.
    AuthRequired,
    /// Unauthorized (401).
    Unauthorized,
    /// JSON serialization error.
    Json { cause: String },
}

/// Classification of a registry response status: nothing for a success
/// status, a typed error otherwise.
pub open spec fn spec_classify_response(status: u16, path: String, body: String) -> Option<Error> {
    if 200 <= status <= 299 {
        None
    } else if status == 404 {
        Some(Error::NotFound(path))
    } else if status == 401 {
        Some(Error::Unauthorized)
    } else if status == 403 {
        Some(Error::PermissionDenied)
    } else if status == 429 {
        Some(Error::RateLimited)
    } else {
        Some(Error::Api { status, message: body })
    }
}

/// Map a non-success registry status to a typed error: 404 not found (with
/// the request path), 401 unauthorized, 403 permission denied, 429 rate
/// limited, anything else an API error carrying status and body.
pub fn classify_response(status: u16, path: String, body: String) -> (r: Option<Error>)
    ensures
        r == spec_classify_response(status, path, body),
{
    if 200 <= status && status <= 299 {
        None
    } else if status == 404 {
        Some(Error::NotFound(path))
    } else if status == 401 {
        Some(Error::Unauthorized)
    } else if status == 403 {
        Some(Error::PermissionDenied)
    } else if status == 429 {
        Some(Error::RateLimited)
    } else {
        Some(Error::Api { status, message: body })
    }
}

/// Minimal version info from the reverse-dependencies endpoint.
#[derive(Debug)]
pub struct RawVersion {
    pub id: u64,
    pub krate: String,
    pub num: String,
}

/// The first version record with the given id, if any.
pub open spec fn spec_find_version(vs: Seq<RawVersion>, id: u64) -> Option<RawVersion>
    decreases vs.len(),
{
    if vs.len() == 0 {
        None
    } else if vs[0].id == id {
        Some(vs[0])
    } else {
        spec_find_version(vs.drop_first(), id)
    }
}

fn find_version(vs: &Vec<RawVersion>, id: u64) -> (r: Option<usize>)
    ensures
        match r {
            Some(i) => i < vs@.len() && spec_find_version(vs@, id) == Some(vs@[i as int]),
            None => spec_find_version(vs@, id) is None,
        },
{
    let n: usize = vs.len();
    let mut i: usize = 0;
    proof {
        assert(vs@.skip(0) =~= vs@);
    }
    while i < n
        invariant
            n == vs@.len(),
            i <= n,
            spec_find_version(vs@, id) == spec_find_version(vs@.skip(i as int), id),
        decreases n - i,
    {
        proof {
            assert(vs@.skip(i as int)[0] == vs@[i as int]);
            assert(vs@.skip(i as int).drop_first() =~= vs@.skip(i as int + 1));
        }
        if vs[i].id == id {
            return Some(i);
        }
        i = i + 1;
    }
    proof {
        assert(vs@.skip(n as int).len() == 0);
    }
    None
}

/// The joined reverse-dependency records: each dependency whose version id
/// has a version record becomes one entry, in order; the rest are dropped.
pub open spec fn spec_join_revdeps(deps: Seq<Dependency>, vs: Seq<RawVersion>) -> Seq<
    ReverseDependency,
>
    decreases deps.len(),
{
    if deps.len() == 0 {
        Seq::<ReverseDependency>::empty()
    } else {
        (match spec_find_version(vs, deps[0].version_id) {
            Some(rv) => seq![
                ReverseDependency {
                    crate_version: CrateVersion { crate_name: rv.krate, num: rv.num },
                    dependency: deps[0],
                },
            ],
            None => Seq::<ReverseDependency>::empty(),
        }) + spec_join_revdeps(deps.drop_first(), vs)
    }
}

/// Join the raw reverse-dependency listing with its version table.
pub fn join_reverse_dependencies(
    deps: Vec<Dependency>,
    versions: Vec<RawVersion>,
    meta: Meta,
) -> (r: ReverseDependencies)
    ensures
        r.dependencies@ == spec_join_revdeps(deps@, versions@),
        r.meta == meta,
{
    let ghost orig = deps@;
    let mut remaining = deps;
    let mut out: Vec<ReverseDependency> = Vec::new();
    let ghost k: int = 0;
    proof {
        assert(orig.skip(0) =~= orig);
        assert(out@ + spec_join_revdeps(orig.skip(0), versions@) =~= spec_join_revdeps(
            orig,
            versions@,
        ));
    }
    #[verifier::loop_isolation(false)]
    while remaining.len() > 0
        invariant
            0 <= k <= orig.len(),
            remaining@ =~= orig.skip(k),
            spec_join_revdeps(orig, versions@) =~= out@ + spec_join_revdeps(
                orig.skip(k),
                versions@,
            ),
        decreases remaining@.len(),
    {
        proof {
            assert(orig.skip(k)[0] == orig[k]);
            assert(orig.skip(k).drop_first() =~= orig.skip(k + 1));
        }
        let dep = remaining.remove(0);
        proof {
            assert(remaining@ =~= orig.skip(k + 1));
        }
        match find_version(&versions, dep.version_id) {
            Some(vi) => {
                let cv = CrateVersion {
                    crate_name: versions[vi].krate.clone(),
                    num: versions[vi].num.clone(),
                };
                out.push(ReverseDependency { crate_version: cv, dependency: dep });
            },
            None => {},
        }
        proof {
            k = k + 1;
            assert(spec_join_revdeps(orig, versions@) =~= out@ + spec_join_revdeps(
                orig.skip(k),
                versions@,
            ));
        }
    }
    proof {
        assert(orig.skip(orig.len() as int).len() == 0);
        assert(out@ =~= spec_join_revdeps(orig, versions@));
    }
    ReverseDependencies { dependencies: out, meta }
}

} // verus!
