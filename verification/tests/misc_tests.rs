use cratesio_mcp::audit::{format_findings, Finding};
use cratesio_mcp::deptree::{calc_depth, format_tree, TreeChild, TreeNode};
use cratesio_mcp::query::{CratesQuery, Sort};
use cratesio_mcp::registry::{classify_response, join_reverse_dependencies, Error, RawVersion};
use cratesio_mcp::state::save_search;
use cratesio_mcp::types::{
    CrateSummary, Dependency, Meta, OsvAffected, OsvEvent, OsvPackage, OsvRange, OsvReference,
    OsvSeverity, OsvVulnerability,
};

#[test]
fn query_builder_sets_fields() {
    let q = CratesQuery::builder()
        .search("serde")
        .sort(Sort::Downloads)
        .page(2)
        .per_page(50)
        .build();
    assert_eq!(q.search.as_deref(), Some("serde"));
    assert!(matches!(q.sort, Some(Sort::Downloads)));
    assert_eq!(q.page, Some(2));
    assert_eq!(q.per_page, Some(50));
}

#[test]
fn sort_as_str_values() {
    assert_eq!(Sort::Alphabetical.as_str(), "alpha");
    assert_eq!(Sort::Relevance.as_str(), "relevance");
    assert_eq!(Sort::Downloads.as_str(), "downloads");
    assert_eq!(Sort::RecentDownloads.as_str(), "recent-downloads");
    assert_eq!(Sort::RecentUpdates.as_str(), "recent-updates");
    assert_eq!(Sort::NewlyAdded.as_str(), "new");
}

#[test]
fn save_search_stores_entry() {
    let mut searches: Vec<(String, Vec<CrateSummary>)> = Vec::new();
    save_search(
        &mut searches,
        "tokio".to_string(),
        vec![CrateSummary {
            name: "tokio".to_string(),
            description: Some("Async runtime".to_string()),
            max_version: "1.0.0".to_string(),
            downloads: 100,
        }],
    );
    assert_eq!(searches.len(), 1);
    assert_eq!(searches[0].0, "tokio");
    assert_eq!(searches[0].1[0].name, "tokio");
}

#[test]
fn save_search_caps_at_10() {
    let mut searches: Vec<(String, Vec<CrateSummary>)> = Vec::new();
    for i in 0..12 {
        save_search(&mut searches, format!("query-{i}"), Vec::new());
    }
    assert_eq!(searches.len(), 10);
    assert_eq!(searches[0].0, "query-2");
    assert_eq!(searches[9].0, "query-11");
}

#[test]
fn classify_response_maps_statuses() {
    assert!(classify_response(200, "/x".to_string(), String::new()).is_none());
    assert!(matches!(
        classify_response(404, "/x".to_string(), String::new()),
        Some(Error::NotFound(_))
    ));
    assert!(matches!(
        classify_response(401, "/x".to_string(), String::new()),
        Some(Error::Unauthorized)
    ));
    assert!(matches!(
        classify_response(403, "/x".to_string(), String::new()),
        Some(Error::PermissionDenied)
    ));
    assert!(matches!(
        classify_response(429, "/x".to_string(), String::new()),
        Some(Error::RateLimited)
    ));
    match classify_response(500, "/x".to_string(), "boom".to_string()) {
        Some(Error::Api { status, message }) => {
            assert_eq!(status, 500);
            assert_eq!(message, "boom");
        }
        _ => panic!("expected Api error"),
    }
}

#[test]
fn reverse_dependency_join_matches_versions() {
    let deps = vec![
        Dependency {
            crate_id: "foo".to_string(),
            req: "^1".to_string(),
            kind: "normal".to_string(),
            optional: false,
            version_id: 1,
        },
        Dependency {
            crate_id: "bar".to_string(),
            req: "^2".to_string(),
            kind: "normal".to_string(),
            optional: false,
            version_id: 99,
        },
    ];
    let versions = vec![RawVersion { id: 1, krate: "foo-user".to_string(), num: "0.3.0".to_string() }];
    let joined = join_reverse_dependencies(deps, versions, Meta { total: 2 });
    assert_eq!(joined.dependencies.len(), 1);
    assert_eq!(joined.dependencies[0].crate_version.crate_name, "foo-user");
    assert_eq!(joined.dependencies[0].crate_version.num, "0.3.0");
    assert_eq!(joined.dependencies[0].dependency.crate_id, "foo");
    assert_eq!(joined.meta.total, 2);
}

#[test]
fn audit_report_lists_findings() {
    let findings = vec![Finding {
        dep_name: "some-crate".to_string(),
        vuln: OsvVulnerability {
            id: "RUSTSEC-2024-0001".to_string(),
            summary: Some("Test vulnerability".to_string()),
            details: Some("A test vulnerability for unit testing.".to_string()),
            severity: Some(vec![OsvSeverity {
                severity_type: "CVSS_V3".to_string(),
                score: "CVSS:3.1/AV:N/AC:L/PR:N/UI:N/S:U/C:H/I:N/A:N".to_string(),
            }]),
            affected: Some(vec![OsvAffected {
                package: Some(OsvPackage {
                    name: "some-crate".to_string(),
                    ecosystem: "crates.io".to_string(),
                }),
                ranges: Some(vec![OsvRange {
                    range_type: "SEMVER".to_string(),
                    events: vec![
                        OsvEvent { introduced: Some("0".to_string()), fixed: None },
                        OsvEvent { introduced: None, fixed: Some("1.2.3".to_string()) },
                    ],
                }]),
            }]),
            references: Some(vec![OsvReference {
                ref_type: "ADVISORY".to_string(),
                url: "https://rustsec.org/advisories/RUSTSEC-2024-0001.html".to_string(),
            }]),
        },
    }];
    let out = format_findings("my-crate", "1.0.0", &findings, 3);
    let expected = "# Security Audit: my-crate v1.0.0\n\n\
        ## Vulnerabilities Found\n\n\
        ### some-crate -- RUSTSEC-2024-0001\n\n\
        - **Summary**: Test vulnerability\n\
        - **Severity**: CVSS_V3 (CVSS:3.1/AV:N/AC:L/PR:N/UI:N/S:U/C:H/I:N/A:N)\n\
        - **Fixed in**: 1.2.3\n\
        - **Advisory**: https://rustsec.org/advisories/RUSTSEC-2024-0001.html\n\n\
        ## Summary\n\n\
        - **Dependencies checked**: 3\n\
        - **Vulnerabilities found**: 1\n\
        - **Affected dependencies**: 1\n";
    assert_eq!(out, expected);
}

#[test]
fn audit_report_no_findings() {
    let out = format_findings("clean", "2.0.0", &Vec::new(), 5);
    let expected = "# Security Audit: clean v2.0.0\n\n\
        No known vulnerabilities found.\n\n\
        ## Summary\n\n\
        - **Dependencies checked**: 5\n\
        - **Vulnerabilities found**: 0\n\
        - **Affected dependencies**: 0\n";
    assert_eq!(out, expected);
}

#[test]
fn audit_counts_distinct_affected_deps() {
    let vuln = |id: &str| OsvVulnerability {
        id: id.to_string(),
        summary: None,
        details: None,
        severity: None,
        affected: None,
        references: None,
    };
    let findings = vec![
        Finding { dep_name: "a".to_string(), vuln: vuln("V1") },
        Finding { dep_name: "a".to_string(), vuln: vuln("V2") },
        Finding { dep_name: "b".to_string(), vuln: vuln("V3") },
    ];
    let out = format_findings("c", "1.0", &findings, 2);
    assert!(out.contains("- **Vulnerabilities found**: 3\n"));
    assert!(out.contains("- **Affected dependencies**: 2\n"));
}

#[test]
fn dependency_tree_rendering() {
    // nodes: 0 = dep-b (leaf), 1 = dep-a (child dep-b), 2 = root
    let nodes = vec![
        TreeNode { name: "dep-b".to_string(), version: "1.0.0".to_string(), deps: vec![] },
        TreeNode {
            name: "dep-a".to_string(),
            version: "2.0.0".to_string(),
            deps: vec![TreeChild {
                name: "dep-b".to_string(),
                req: "^1.0".to_string(),
                optional: false,
                node_idx: Some(0),
                seen: false,
                circular: false,
            }],
        },
        TreeNode {
            name: "my-crate".to_string(),
            version: "1.0.0".to_string(),
            deps: vec![
                TreeChild {
                    name: "dep-a".to_string(),
                    req: "^2.0".to_string(),
                    optional: false,
                    node_idx: Some(1),
                    seen: false,
                    circular: false,
                },
                TreeChild {
                    name: "dep-opt".to_string(),
                    req: "^3".to_string(),
                    optional: true,
                    node_idx: None,
                    seen: false,
                    circular: false,
                },
            ],
        },
    ];
    let mut out = String::new();
    format_tree(&nodes, 2, "", true, true, &mut out);
    let expected = "my-crate v1.0.0\n\
        +-- dep-a ^2.0\n\
        |   +-- dep-b ^1.0\n\
        +-- dep-opt ^3 (optional)\n";
    assert_eq!(out, expected);
}

#[test]
fn dependency_tree_markers() {
    let nodes = vec![
        TreeNode { name: "leaf".to_string(), version: "1.0.0".to_string(), deps: vec![] },
        TreeNode {
            name: "root".to_string(),
            version: "1.0.0".to_string(),
            deps: vec![
                TreeChild {
                    name: "leaf".to_string(),
                    req: "^1".to_string(),
                    optional: false,
                    node_idx: Some(0),
                    seen: true,
                    circular: false,
                },
                TreeChild {
                    name: "root".to_string(),
                    req: "^1".to_string(),
                    optional: false,
                    node_idx: None,
                    seen: false,
                    circular: true,
                },
            ],
        },
    ];
    let mut out = String::new();
    format_tree(&nodes, 1, "", true, true, &mut out);
    assert_eq!(out, "root v1.0.0\n+-- leaf ^1 (seen)\n+-- root ^1 (circular)\n");
}

#[test]
fn tree_depth_counts_expanded_edges() {
    let nodes = vec![
        TreeNode { name: "c".to_string(), version: "1".to_string(), deps: vec![] },
        TreeNode {
            name: "b".to_string(),
            version: "1".to_string(),
            deps: vec![TreeChild {
                name: "c".to_string(),
                req: "^1".to_string(),
                optional: false,
                node_idx: Some(0),
                seen: false,
                circular: false,
            }],
        },
        TreeNode {
            name: "a".to_string(),
            version: "1".to_string(),
            deps: vec![TreeChild {
                name: "b".to_string(),
                req: "^1".to_string(),
                optional: false,
                node_idx: Some(1),
                seen: false,
                circular: false,
            }],
        },
    ];
    let mut seen = vec![false, false, false];
    let d = calc_depth(&nodes, 2, &mut seen);
    assert_eq!(d, 2);
    let mut seen0 = vec![false, false, false];
    assert_eq!(calc_depth(&nodes, 0, &mut seen0), 0);
}
