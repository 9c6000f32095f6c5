//! Request types of the query operations, as plain values.

use vstd::prelude::*;

verus! {

/// Input for auditing dependencies.
#[derive(Debug, Clone)]
pub struct AuditInput {
    pub name: String,
    pub version: Option<String>,
    pub include_dev: bool,
}

/// Input for listing categories.
#[derive(Debug, Clone)]
pub struct CategoriesInput {
    pub page: u64,
    pub per_page: u64,
}

/// Input for one category's detail.
#[derive(Debug, Clone)]
pub struct CategoryInput {
    pub slug: String,
}

/// Input for comparing several crates.
#[derive(Debug, Clone)]
pub struct CompareInput {
    pub crates: String,
}

/// Input for getting a dependency tree.
#[derive(Debug, Clone)]
pub struct DependencyTreeInput {
    pub name: String,
    pub version: Option<String>,
    pub max_depth: Option<u32>,
}

/// Input for download statistics.
#[derive(Debug, Clone)]
pub struct DownloadsInput {
    pub name: String,
}

/// Input for listing a crate's features.
#[derive(Debug, Clone)]
pub struct FeaturesInput {
    pub name: String,
    pub version: Option<String>,
}

/// Input for browsing crate documentation.
#[derive(Debug, Clone)]
pub struct GetCrateDocsInput {
    pub name: String,
    pub version: String,
    pub module: Option<String>,
}

/// Input for getting item documentation.
#[derive(Debug, Clone)]
pub struct GetDocItemInput {
    pub name: String,
    pub version: String,
    pub item_path: String,
}

/// Input for a crate health check.
#[derive(Debug, Clone)]
pub struct HealthCheckInput {
    pub name: String,
    pub version: Option<String>,
}

/// Input for one keyword's detail.
#[derive(Debug, Clone)]
pub struct KeywordDetailInput {
    pub id: String,
}

/// Input for listing keywords.
#[derive(Debug, Clone)]
pub struct KeywordsInput {
    pub page: u64,
    pub per_page: u64,
}

/// Input for fetching a readme.
#[derive(Debug, Clone)]
pub struct ReadmeInput {
    pub name: String,
    pub version: Option<String>,
}

/// Input for searching crate documentation.
#[derive(Debug, Clone)]
pub struct SearchDocsInput {
    pub name: String,
    pub version: String,
    pub query: String,
    pub limit: usize,
}

/// Input for a user's download statistics.
#[derive(Debug, Clone)]
pub struct UserStatsInput {
    pub username: String,
}

/// Input for one version's detail.
#[derive(Debug, Clone)]
pub struct VersionDetailInput {
    pub name: String,
    pub version: String,
}

/// Input for per-version download statistics.
#[derive(Debug, Clone)]
pub struct VersionDownloadsInput {
    pub name: String,
    pub version: Option<String>,
}

} // verus!
