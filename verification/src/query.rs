//! Query builder for crate search.

use vstd::prelude::*;

verus! {

/// Sort order for crate search results.
#[derive(Debug, Clone, Copy)]
pub enum Sort {
    Alphabetical,
    Relevance,
    Downloads,
    RecentDownloads,
    RecentUpdates,
    NewlyAdded,
}

/// The request-parameter value of a sort order.
pub open spec fn spec_sort_str(s: Sort) -> Seq<char> {
    match s {
        Sort::Alphabetical => "alpha"@,
        Sort::Relevance => "relevance"@,
        Sort::Downloads => "downloads"@,
        Sort::RecentDownloads => "recent-downloads"@,
        Sort::RecentUpdates => "recent-updates"@,
        Sort::NewlyAdded => "new"@,
    }
}

impl Sort {
    /// The request-parameter value of this sort order.
    pub fn as_str(&self) -> (r: &'static str)
        ensures
            r@ == spec_sort_str(*self),
    {
        match self {
            Sort::Alphabetical => "alpha",
            Sort::Relevance => "relevance",
            Sort::Downloads => "downloads",
            Sort::RecentDownloads => "recent-downloads",
            Sort::RecentUpdates => "recent-updates",
            Sort::NewlyAdded => "new",
        }
    }
}

/// Query parameters for crate search.
#[derive(Debug)]
pub struct CratesQuery {
    pub search: Option<String>,
    pub sort: Option<Sort>,
    pub page: Option<u64>,
    pub per_page: Option<u64>,
}

impl Default for CratesQuery {
    /// An empty query: no search string, no sort, no paging.
    fn default() -> (r: Self)
        ensures
            r.search is None,
            r.sort is None,
            r.page is None,
            r.per_page is None,
    {
        CratesQuery { search: None, sort: None, page: None, per_page: None }
    }
}

impl CratesQuery {
    /// Create a new query builder.
    pub fn builder() -> (r: CratesQueryBuilder)
        ensures
            r.query.search is None,
            r.query.sort is None,
            r.query.page is None,
            r.query.per_page is None,
    {
        CratesQueryBuilder { query: Default::default() }
    }
}

/// Builder for a `CratesQuery`.
pub struct CratesQueryBuilder {
    pub query: CratesQuery,
}

impl CratesQueryBuilder {
    /// Set the search string.
    pub fn search(self, search: &str) -> (r: Self)
        ensures
            r.query.search matches Some(s) && s@ == search@,
            r.query.sort == self.query.sort,
            r.query.page == self.query.page,
            r.query.per_page == self.query.per_page,
    {
        let q = CratesQuery {
            search: Some(String::from_str(search)),
            sort: self.query.sort,
            page: self.query.page,
            per_page: self.query.per_page,
        };
        CratesQueryBuilder { query: q }
    }

    /// Set the sort order.
    pub fn sort(self, sort: Sort) -> (r: Self)
        ensures
            r.query.sort == Some(sort),
            r.query.search == self.query.search,
            r.query.page == self.query.page,
            r.query.per_page == self.query.per_page,
    {
        let q = CratesQuery {
            search: self.query.search,
            sort: Some(sort),
            page: self.query.page,
            per_page: self.query.per_page,
        };
        CratesQueryBuilder { query: q }
    }

    /// Set the page number.
    pub fn page(self, page: u64) -> (r: Self)
        ensures
            r.query.page == Some(page),
            r.query.search == self.query.search,
            r.query.sort == self.query.sort,
            r.query.per_page == self.query.per_page,
    {
        let q = CratesQuery {
            search: self.query.search,
            sort: self.query.sort,
            page: Some(page),
            per_page: self.query.per_page,
        };
        CratesQueryBuilder { query: q }
    }

    /// Set the page size.
    pub fn per_page(self, per_page: u64) -> (r: Self)
        ensures
            r.query.per_page == Some(per_page),
            r.query.search == self.query.search,
            r.query.sort == self.query.sort,
            r.query.page == self.query.page,
    {
        let q = CratesQuery {
            search: self.query.search,
            sort: self.query.sort,
            page: self.query.page,
            per_page: Some(per_page),
        };
        CratesQueryBuilder { query: q }
    }

    /// Finish the builder, yielding the query.
    pub fn build(self) -> (r: CratesQuery)
        ensures
            r == self.query,
    {
        self.query
    }
}

} // verus!
