//! Public data types for the crates.io API and the OSV.dev vulnerability
//! API, as plain values.

use vstd::prelude::*;

verus! {

/// Per-version download data point.
#[derive(Debug, Clone)]
pub struct VersionDownloads {
    pub version: u64,
    pub downloads: u64,
    pub date: Option<String>,
}

/// User or team on crates.io.
#[derive(Debug, Clone)]
pub struct User {
    pub login: String,
    pub name: Option<String>,
    pub url: String,
    pub avatar: Option<String>,
    pub kind: Option<String>,
}

/// Dependency of a crate version.
#[derive(Debug, Clone)]
pub struct Dependency {
    pub crate_id: String,
    pub req: String,
    pub kind: String,
    pub optional: bool,
    pub version_id: u64,
}

/// A keyword from crates.io.
#[derive(Debug, Clone)]
pub struct Keyword {
    pub keyword: String,
    pub crates_cnt: u64,
}

/// A category from crates.io.
#[derive(Debug, Clone)]
pub struct Category {
    pub category: String,
    pub crates_cnt: u64,
    pub slug: Option<String>,
    pub description: Option<String>,
}

/// Pagination metadata.
#[derive(Debug, Clone)]
pub struct Meta {
    pub total: u64,
}

/// Authors listed in a crate version's manifest.
#[derive(Debug, Clone)]
pub struct Authors {
    pub names: Vec<String>,
}

/// Identifies a specific version of a crate.
#[derive(Debug, Clone)]
pub struct CrateVersion {
    pub crate_name: String,
    pub num: String,
}

/// A reverse dependency entry (a crate that depends on the queried crate).
#[derive(Debug, Clone)]
pub struct ReverseDependency {
    pub crate_version: CrateVersion,
    pub dependency: Dependency,
}

/// Download statistics for all versions of a crate.
#[derive(Debug, Clone)]
pub struct CrateDownloads {
    pub version_downloads: Vec<VersionDownloads>,
}

/// Reverse dependencies with pagination metadata.
#[derive(Debug, Clone)]
pub struct ReverseDependencies {
    pub dependencies: Vec<ReverseDependency>,
    pub meta: Meta,
}

/// Paginated categories response.
#[derive(Debug, Clone)]
pub struct CategoriesPage {
    pub categories: Vec<Category>,
    pub meta: Meta,
}

/// Paginated keywords response.
#[derive(Debug, Clone)]
pub struct KeywordsPage {
    pub keywords: Vec<Keyword>,
    pub meta: Meta,
}

/// A crates.io team.
#[derive(Debug, Clone)]
pub struct Team {
    pub login: String,
    pub name: Option<String>,
    pub avatar: Option<String>,
    pub url: Option<String>,
}

/// Download statistics for a user.
#[derive(Debug, Clone)]
pub struct UserStats {
    pub total_downloads: u64,
}

/// A minimal category entry from the category-slug listing.
#[derive(Debug, Clone)]
pub struct CategorySlug {
    pub id: String,
    pub slug: String,
    pub description: Option<String>,
}

/// Site deployment metadata from crates.io.
#[derive(Debug, Clone)]
pub struct SiteMetadata {
    pub deployed_sha: Option<String>,
    pub commit: Option<String>,
}

/// Generic ok/error response from mutation endpoints.
#[derive(Debug, Clone)]
pub struct OkResponse {
    pub ok: bool,
}

/// Response telling whether the caller follows a crate.
#[derive(Debug, Clone)]
pub struct FollowingResponse {
    pub following: bool,
}

/// Settings for updating a crate.
#[derive(Debug, Clone)]
pub struct CrateSettings {
    pub description: Option<String>,
    pub documentation: Option<String>,
    pub homepage: Option<String>,
    pub repository: Option<String>,
}

/// Settings for updating a version.
#[derive(Debug, Clone)]
pub struct VersionSettings {
    pub yanked: Option<bool>,
}

/// Metadata for publishing a crate.
#[derive(Debug, Clone)]
pub struct PublishMetadata {
    pub name: String,
    pub version: String,
    pub deps: Vec<PublishDependency>,
    pub description: Option<String>,
    pub license: Option<String>,
    pub license_file: Option<String>,
    pub repository: Option<String>,
    pub homepage: Option<String>,
    pub documentation: Option<String>,
    pub keywords: Vec<String>,
    pub categories: Vec<String>,
    pub readme: Option<String>,
    pub readme_file: Option<String>,
    pub rust_version: Option<String>,
}

/// A dependency entry in the publish metadata.
#[derive(Debug, Clone)]
pub struct PublishDependency {
    pub name: String,
    pub version_req: String,
    pub features: Vec<String>,
    pub optional: bool,
    pub default_features: bool,
    pub target: Option<String>,
    pub kind: String,
    pub registry: Option<String>,
    pub explicit_name_in_toml: Option<String>,
}

/// Warnings returned from the publish endpoint.
#[derive(Debug, Clone)]
pub struct PublishWarnings {
    pub invalid_categories: Vec<String>,
    pub invalid_badges: Vec<String>,
    pub other: Vec<String>,
}

/// Input for creating a new GitHub trusted publishing config.
#[derive(Debug, Clone)]
pub struct NewGitHubConfig {
    pub crate_name: String,
    pub repository_owner: String,
    pub repository_name: String,
    pub workflow_filename: Option<String>,
    pub environment: Option<String>,
}

/// Input for creating a new GitLab trusted publishing config.
#[derive(Debug, Clone)]
pub struct NewGitLabConfig {
    pub crate_name: String,
    pub project_path: String,
    pub environment: Option<String>,
}

/// Summary of a crate from search results.
#[derive(Debug, Clone)]
pub struct CrateSummary {
    pub name: String,
    pub description: Option<String>,
    pub max_version: String,
    pub downloads: u64,
}

/// Top-level response from an OSV vulnerability query.
#[derive(Debug)]
pub struct OsvQueryResponse {
    pub vulns: Option<Vec<OsvVulnerability>>,
}

/// A single vulnerability record.
#[derive(Debug)]
pub struct OsvVulnerability {
    pub id: String,
    pub summary: Option<String>,
    pub details: Option<String>,
    pub severity: Option<Vec<OsvSeverity>>,
    pub affected: Option<Vec<OsvAffected>>,
    pub references: Option<Vec<OsvReference>>,
}

/// CVSS severity information.
#[derive(Debug)]
pub struct OsvSeverity {
    pub severity_type: String,
    pub score: String,
}

/// Affected package and version range info.
#[derive(Debug)]
pub struct OsvAffected {
    pub package: Option<OsvPackage>,
    pub ranges: Option<Vec<OsvRange>>,
}

/// Package identifier within an ecosystem.
#[derive(Debug)]
pub struct OsvPackage {
    pub name: String,
    pub ecosystem: String,
}

/// A version range that is affected.
#[derive(Debug)]
pub struct OsvRange {
    pub range_type: String,
    pub events: Vec<OsvEvent>,
}

/// A version event (introduced or fixed boundary).
#[derive(Debug)]
pub struct OsvEvent {
    pub introduced: Option<String>,
    pub fixed: Option<String>,
}

/// A reference link for an advisory.
#[derive(Debug)]
pub struct OsvReference {
    pub ref_type: String,
    pub url: String,
}

} // verus!
