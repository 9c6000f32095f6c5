use cratesio_mcp::docmodel::{DocTree, Item, ItemEnum, PathSummary, StructDef, StructKind};

fn module(id: u32, name: Option<&str>, children: Vec<u32>) -> Item {
    Item {
        id,
        crate_id: 0,
        name: name.map(|s| s.to_string()),
        is_public: true,
        docs: None,
        inner: ItemEnum::Module { items: children },
    }
}

fn unit_struct(id: u32, name: &str) -> Item {
    Item {
        id,
        crate_id: 0,
        name: Some(name.to_string()),
        is_public: true,
        docs: None,
        inner: ItemEnum::Struct(StructDef {
            kind: StructKind::Unit,
            generics: cratesio_mcp::docmodel::Generics { params: vec![], where_predicates: vec![] },
            impls: vec![],
        }),
    }
}

fn sample_tree() -> DocTree {
    // root (0) -> module "a" (1) -> struct "S" (2)
    //          -> struct "Top" (3)
    // item "Hidden" (4) is reachable only through its recorded path.
    let root = module(0, None, vec![1, 3]);
    let a = module(1, Some("a"), vec![2]);
    let s = unit_struct(2, "S");
    let top = unit_struct(3, "Top");
    let hidden = unit_struct(4, "Hidden");
    DocTree {
        root: 0,
        crate_version: Some("1.0.0".to_string()),
        format_version: 39,
        index: vec![root, a, s, top, hidden],
        paths: vec![
            PathSummary { id: 2, path: vec!["mycrate".to_string(), "a".to_string(), "S".to_string()], kind: "struct".to_string() },
            PathSummary {
                id: 4,
                path: vec!["mycrate".to_string(), "exports".to_string(), "Hidden".to_string()],
                kind: "struct".to_string(),
            },
        ],
    }
}

#[test]
fn resolve_module_path_descends() {
    let tree = sample_tree();
    assert_eq!(cratesio_mcp::resolve::resolve_module_path(&tree, "a"), Some(1));
    assert_eq!(cratesio_mcp::resolve::resolve_module_path(&tree, "a::b"), None);
    assert_eq!(cratesio_mcp::resolve::resolve_module_path(&tree, "nope"), None);
}

#[test]
fn resolve_module_path_empty_is_root() {
    let tree = sample_tree();
    assert_eq!(cratesio_mcp::resolve::resolve_module_path(&tree, ""), Some(0));
}

#[test]
fn resolve_module_path_rejects_non_module() {
    // "Top" exists but is a struct, so it is not a module path.
    let tree = sample_tree();
    assert_eq!(cratesio_mcp::resolve::resolve_module_path(&tree, "Top"), None);
}

#[test]
fn resolve_item_path_structural_walk() {
    let tree = sample_tree();
    let item = cratesio_mcp::resolve::resolve_item_path(&tree, "a::S").unwrap();
    assert_eq!(item.id, 2);
    let top = cratesio_mcp::resolve::resolve_item_path(&tree, "Top").unwrap();
    assert_eq!(top.id, 3);
}

#[test]
fn resolve_item_path_fallback_suffix_match() {
    // No module "exports" exists along the structural walk, yet the item
    // is found through its recorded path suffix.
    let tree = sample_tree();
    let item = cratesio_mcp::resolve::resolve_item_path(&tree, "exports::Hidden").unwrap();
    assert_eq!(item.id, 4);
}

#[test]
fn resolve_item_path_single_segment_fallback() {
    let tree = sample_tree();
    let item = cratesio_mcp::resolve::resolve_item_path(&tree, "Hidden").unwrap();
    assert_eq!(item.id, 4);
}

#[test]
fn resolve_item_path_rejects_wrong_suffix() {
    let tree = sample_tree();
    assert!(cratesio_mcp::resolve::resolve_item_path(&tree, "other::Hidden").is_none());
    assert!(cratesio_mcp::resolve::resolve_item_path(&tree, "nothing::here").is_none());
}

#[test]
fn resolve_item_path_ignores_external_items() {
    let mut tree = sample_tree();
    tree.index[4].crate_id = 7;
    assert!(cratesio_mcp::resolve::resolve_item_path(&tree, "Hidden").is_none());
}

#[test]
fn split_path_segments() {
    let segs = cratesio_mcp::resolve::split_path("a::b::c");
    assert_eq!(segs, vec!["a", "b", "c"]);
    assert_eq!(cratesio_mcp::resolve::split_path(""), vec![""]);
    assert_eq!(cratesio_mcp::resolve::split_path("a::"), vec!["a", ""]);
}
