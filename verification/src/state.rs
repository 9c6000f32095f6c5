//! Pure state helpers: the bounded recent-search log and request-parameter
//! defaults for the query operations.

use vstd::prelude::*;
use crate::types::CrateSummary;

verus! {

/// Save a search query and its results in the recent-searches log, keeping
/// only the last ten searches.
pub fn save_search(
    searches: &mut Vec<(String, Vec<CrateSummary>)>,
    query: String,
    results: Vec<CrateSummary>,
)
    ensures
        final(searches)@ == (if old(searches)@.len() >= 10 {
            old(searches)@.drop_first()
        } else {
            old(searches)@
        }).push((query, results)),
{
    if searches.len() >= 10 {
        searches.remove(0);
        proof {
            assert(searches@ =~= old(searches)@.drop_first());
        }
    }
    searches.push((query, results));
}

/// The default version selector: the literal `latest`.
pub fn default_version() -> (r: String)
    ensures
        r@ == "latest"@,
{
    String::from_str("latest")
}

/// The default page number.
pub fn default_page() -> (r: u64)
    ensures
        r == 1,
{
    1
}

/// The default page size.
pub fn default_per_page() -> (r: u64)
    ensures
        r == 20,
{
    20
}

/// The default search-result limit.
pub fn default_limit() -> (r: usize)
    ensures
        r == 20,
{
    20
}

} // verus!
