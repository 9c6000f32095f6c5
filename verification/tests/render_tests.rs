use cratesio_mcp::docmodel::{
    DocTree, FnSig, FunctionDef, Generics, Item, ItemEnum, PathSummary, StructDef, StructKind,
    TypeExpr,
};
use cratesio_mcp::render_doc::{
    format_item_detail, format_module_listing, format_search_results, item_path, trim_str,
};

fn empty_generics() -> Generics {
    Generics { params: vec![], where_predicates: vec![] }
}

fn fn_item(id: u32, name: &str, docs: Option<&str>) -> Item {
    Item {
        id,
        crate_id: 0,
        name: Some(name.to_string()),
        is_public: true,
        docs: docs.map(|s| s.to_string()),
        inner: ItemEnum::Function(FunctionDef {
            sig: FnSig {
                inputs: vec![("x".to_string(), TypeExpr::Primitive("u32".to_string()))],
                output: Some(TypeExpr::Primitive("bool".to_string())),
            },
            generics: empty_generics(),
            is_const: false,
            is_async: false,
            is_unsafe: false,
            has_body: true,
        }),
    }
}

fn sample_tree() -> DocTree {
    let root = Item {
        id: 0,
        crate_id: 0,
        name: None,
        is_public: true,
        docs: Some("Root docs here. More on the root.".to_string()),
        inner: ItemEnum::Module { items: vec![1, 2, 3, 4] },
    };
    let sub = Item {
        id: 1,
        crate_id: 0,
        name: Some("a".to_string()),
        is_public: true,
        docs: None,
        inner: ItemEnum::Module { items: vec![] },
    };
    let s = Item {
        id: 2,
        crate_id: 0,
        name: Some("S".to_string()),
        is_public: true,
        docs: Some("A struct.".to_string()),
        inner: ItemEnum::Struct(StructDef {
            kind: StructKind::Unit,
            generics: empty_generics(),
            impls: vec![],
        }),
    };
    let f = fn_item(3, "f", Some("Does things. Carefully."));
    let private_fn = Item { is_public: false, ..fn_item(4, "secret", None) };
    DocTree {
        root: 0,
        crate_version: Some("1.0.0".to_string()),
        format_version: 39,
        index: vec![root, sub, s, f, private_fn],
        paths: vec![PathSummary {
            id: 3,
            path: vec!["mycrate".to_string(), "f".to_string()],
            kind: "function".to_string(),
        }],
    }
}

#[test]
fn module_listing_groups_children() {
    let tree = sample_tree();
    let out = format_module_listing(&tree, 0);
    let expected = "# Module `(root)`\n\nRoot docs here.\n\n\
        ## Modules\n\n- `a`\n\n\
        ## Structs\n\n- `S` -- A struct.\n\n\
        ## Functions\n\n- `f` -- Does things.\n\n";
    assert_eq!(out, expected);
}

#[test]
fn module_listing_missing_module() {
    let tree = sample_tree();
    assert_eq!(format_module_listing(&tree, 99), "Module not found in index.");
    assert_eq!(format_module_listing(&tree, 2), "Item is not a module.");
}

#[test]
fn item_detail_function() {
    let tree = sample_tree();
    let item = fn_item(3, "f", Some("Does things. Carefully."));
    let out = format_item_detail(&tree, &item);
    let expected = "# Function `f`\n\n```rust\nfn f(x: u32) -> bool\n```\n\n\
        Does things. Carefully.\n";
    assert_eq!(out, expected);
}

#[test]
fn item_detail_struct() {
    let tree = sample_tree();
    let item = Item {
        id: 2,
        crate_id: 0,
        name: Some("S".to_string()),
        is_public: true,
        docs: Some("Hi.".to_string()),
        inner: ItemEnum::Struct(StructDef {
            kind: StructKind::Unit,
            generics: empty_generics(),
            impls: vec![],
        }),
    };
    let out = format_item_detail(&tree, &item);
    assert_eq!(out, "# Struct `S`\n\n```rust\nstruct S;\n```\n\nHi.\n");
}

#[test]
fn item_detail_truncates_long_docs() {
    let tree = sample_tree();
    let mut docs = String::new();
    for i in 0..250 {
        docs.push_str(&format!("line {i}\n"));
    }
    let item = fn_item(3, "f", Some(&docs));
    let out = format_item_detail(&tree, &item);
    let mut expected = String::from("# Function `f`\n\n```rust\nfn f(x: u32) -> bool\n```\n\n");
    for i in 0..200 {
        expected.push_str(&format!("line {i}\n"));
    }
    expected.push_str("\n... (truncated)\n");
    assert_eq!(out, expected);
}

#[test]
fn search_results_numbered_with_signature() {
    let tree = sample_tree();
    let matches = vec![(3u32, fn_item(3, "f", Some("Does things. Carefully.")))];
    let out = format_search_results(&tree, &matches);
    let expected =
        "1. [fn] `mycrate::f` -- Does things.\n   `fn f(x: u32) -> bool`\n";
    assert_eq!(out, expected);
}

#[test]
fn item_path_prefers_path_summary() {
    let tree = sample_tree();
    assert_eq!(item_path(&tree, 3), "mycrate::f");
    assert_eq!(item_path(&tree, 2), "S");
    assert_eq!(item_path(&tree, 99), "_");
}

#[test]
fn trim_removes_surrounding_whitespace() {
    assert_eq!(trim_str("  fn f()\n"), "fn f()");
    assert_eq!(trim_str("x"), "x");
    assert_eq!(trim_str("   "), "");
}
