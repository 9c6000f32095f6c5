use cratesio_mcp::docmodel::{DocTree, Generics, Item, ItemEnum, StructDef, StructKind};
use cratesio_mcp::search::search_docs_text;

fn unit_struct(id: u32, name: &str) -> Item {
    Item {
        id,
        crate_id: 0,
        name: Some(name.to_string()),
        is_public: true,
        docs: None,
        inner: ItemEnum::Struct(StructDef {
            kind: StructKind::Unit,
            generics: Generics { params: vec![], where_predicates: vec![] },
            impls: vec![],
        }),
    }
}

fn sample_tree() -> DocTree {
    DocTree {
        root: 0,
        crate_version: Some("1.0.0".to_string()),
        format_version: 39,
        index: vec![
            Item {
                id: 0,
                crate_id: 0,
                name: None,
                is_public: true,
                docs: None,
                inner: ItemEnum::Module { items: vec![1, 2, 3, 4] },
            },
            unit_struct(1, "serde"),
            unit_struct(2, "Deserialize"),
            unit_struct(3, "de"),
            unit_struct(4, "Widget"),
        ],
        paths: vec![],
    }
}

#[test]
fn search_ranks_exact_then_prefix_then_substring() {
    // Matching is case-insensitive; the exact match comes first, then the
    // prefix match, then the remaining substring match.
    let tree = sample_tree();
    let out = search_docs_text(&tree, "mycrate", "1.0.0", "DE", 20);
    let expected = "Found 3 items matching 'DE' in mycrate v1.0.0 (showing 3):\n\n\
        1. [struct] `de`\n\
        2. [struct] `Deserialize`\n\
        3. [struct] `serde`\n";
    assert_eq!(out, expected);
}

#[test]
fn search_respects_limit() {
    let tree = sample_tree();
    let out = search_docs_text(&tree, "mycrate", "1.0.0", "de", 2);
    let expected = "Found 3 items matching 'de' in mycrate v1.0.0 (showing 2):\n\n\
        1. [struct] `de`\n\
        2. [struct] `Deserialize`\n";
    assert_eq!(out, expected);
}

#[test]
fn search_without_matches_reports_none() {
    let tree = sample_tree();
    let out = search_docs_text(&tree, "mycrate", "1.0.0", "zzz", 20);
    assert_eq!(out, "No items matching 'zzz' found in mycrate v1.0.0.");
}

#[test]
fn search_ignores_external_items() {
    let mut tree = sample_tree();
    tree.index[3].crate_id = 9;
    let out = search_docs_text(&tree, "mycrate", "1.0.0", "de", 20);
    let expected = "Found 2 items matching 'de' in mycrate v1.0.0 (showing 2):\n\n\
        1. [struct] `Deserialize`\n\
        2. [struct] `serde`\n";
    assert_eq!(out, expected);
}
