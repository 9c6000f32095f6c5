use cratesio_mcp::deptree::{build_node, format_tree, ResolvedCrate};
use cratesio_mcp::types::Dependency;

fn dep(name: &str, req: &str) -> Dependency {
    Dependency {
        crate_id: name.to_string(),
        req: req.to_string(),
        kind: "normal".to_string(),
        optional: false,
        version_id: 0,
    }
}

fn resolved(version: &str, deps: Vec<Dependency>) -> ResolvedCrate {
    ResolvedCrate { version: version.to_string(), deps }
}

fn render(cache: &Vec<(String, ResolvedCrate)>, root: &str, max_depth: u32) -> String {
    let mut nodes = Vec::new();
    let mut node_map = Vec::new();
    let mut building = Vec::new();
    let idx = build_node(root, cache, &mut nodes, &mut node_map, &mut building, 0, max_depth);
    let mut out = String::new();
    format_tree(&nodes, idx, "", true, true, &mut out);
    out
}

#[test]
fn tree_basic_chain() {
    let cache = vec![
        ("my-crate".to_string(), resolved("1.0.0", vec![dep("dep-a", "^2.0")])),
        ("dep-a".to_string(), resolved("2.0.0", vec![dep("dep-b", "^1.0")])),
        ("dep-b".to_string(), resolved("1.0.0", vec![])),
    ];
    let out = render(&cache, "my-crate", 3);
    assert_eq!(out, "my-crate v1.0.0\n+-- dep-a ^2.0\n    +-- dep-b ^1.0\n");
}

#[test]
fn tree_shared_dependency_marked_seen() {
    let cache = vec![
        (
            "root".to_string(),
            resolved("1.0.0", vec![dep("dep-a", "^1"), dep("dep-b", "^1")]),
        ),
        ("dep-a".to_string(), resolved("1.0.0", vec![dep("dep-shared", "^1")])),
        ("dep-b".to_string(), resolved("1.0.0", vec![dep("dep-shared", "^1")])),
        ("dep-shared".to_string(), resolved("1.0.0", vec![])),
    ];
    let out = render(&cache, "root", 3);
    assert!(out.contains("dep-shared"));
    assert!(out.contains("(seen)"));
}

#[test]
fn tree_circular_dependency_marked() {
    let cache = vec![
        ("a".to_string(), resolved("1.0.0", vec![dep("b", "^1")])),
        ("b".to_string(), resolved("1.0.0", vec![dep("a", "^1")])),
    ];
    let out = render(&cache, "a", 5);
    assert!(out.contains("(circular)"));
}

#[test]
fn tree_depth_zero_does_not_expand() {
    let cache = vec![
        ("my-crate".to_string(), resolved("1.0.0", vec![dep("dep-a", "^1")])),
        ("dep-a".to_string(), resolved("1.0.0", vec![dep("dep-b", "^1")])),
    ];
    let out = render(&cache, "my-crate", 0);
    assert_eq!(out, "my-crate v1.0.0\n+-- dep-a ^1\n");
}

#[test]
fn tree_unresolved_dependency_stays_leaf() {
    let cache = vec![(
        "my-crate".to_string(),
        resolved("1.0.0", vec![dep("mystery", "^9")]),
    )];
    let out = render(&cache, "my-crate", 3);
    assert_eq!(out, "my-crate v1.0.0\n+-- mystery ^9\n");
}

#[test]
fn skips_dev_dependencies() {
    let mut d = dep("dev-only", "^1");
    d.kind = "dev".to_string();
    let cache = vec![(
        "my-crate".to_string(),
        resolved("1.0.0", vec![d, dep("real", "^2")]),
    )];
    let out = render(&cache, "my-crate", 1);
    assert_eq!(out, "my-crate v1.0.0\n+-- real ^2\n");
}
