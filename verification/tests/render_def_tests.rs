use cratesio_mcp::docmodel::{
    DocTree, EnumDef, FnSig, FunctionDef, GenericBound, GenericParamDef, GenericParamDefKind,
    Generics, Item, ItemEnum, StructDef, StructKind, TraitDef, TypeExpr, TypePath, VariantKind,
    WherePredicate,
};
use cratesio_mcp::render_def::{
    format_enum_definition, format_struct_definition, format_struct_methods,
    format_trait_definition,
};
use cratesio_mcp::render_sig::{format_function_signature, format_generics, format_where_clause};

fn empty_generics() -> Generics {
    Generics { params: vec![], where_predicates: vec![] }
}

fn field(id: u32, name: &str, ty: &str) -> Item {
    Item {
        id,
        crate_id: 0,
        name: Some(name.to_string()),
        is_public: true,
        docs: None,
        inner: ItemEnum::StructField(TypeExpr::Primitive(ty.to_string())),
    }
}

#[test]
fn plain_struct_definition() {
    let tree = DocTree {
        root: 0,
        crate_version: None,
        format_version: 39,
        index: vec![field(1, "x", "i64"), field(2, "y", "i64")],
        paths: vec![],
    };
    let s = StructDef {
        kind: StructKind::Plain { fields: vec![1, 2] },
        generics: empty_generics(),
        impls: vec![],
    };
    assert_eq!(
        format_struct_definition(&tree, "Point", &s),
        "struct Point {\n    pub x: i64,\n    pub y: i64,\n}"
    );
}

#[test]
fn tuple_struct_definition_with_private_field() {
    let tree = DocTree {
        root: 0,
        crate_version: None,
        format_version: 39,
        index: vec![field(1, "0", "u8")],
        paths: vec![],
    };
    let s = StructDef {
        kind: StructKind::Tuple(vec![Some(1), None]),
        generics: empty_generics(),
        impls: vec![],
    };
    assert_eq!(format_struct_definition(&tree, "Pair", &s), "struct Pair(u8, /* private */);");
}

#[test]
fn enum_definition_with_variant_kinds() {
    let variant = |id: u32, name: &str, kind: VariantKind| Item {
        id,
        crate_id: 0,
        name: Some(name.to_string()),
        is_public: true,
        docs: None,
        inner: ItemEnum::Variant(kind),
    };
    let tree = DocTree {
        root: 0,
        crate_version: None,
        format_version: 39,
        index: vec![
            variant(1, "A", VariantKind::Plain),
            variant(2, "B", VariantKind::Tuple(vec![Some(4)])),
            variant(3, "C", VariantKind::Struct { fields: vec![5] }),
            field(4, "0", "u8"),
            field(5, "x", "bool"),
        ],
        paths: vec![],
    };
    let e = EnumDef { variants: vec![1, 2, 3], generics: empty_generics() };
    assert_eq!(
        format_enum_definition(&tree, "E", &e),
        "enum E {\n    A,\n    B(u8),\n    C {\n        x: bool,\n    },\n}"
    );
}

#[test]
fn trait_definition_with_members() {
    let tree = DocTree {
        root: 0,
        crate_version: None,
        format_version: 39,
        index: vec![
            Item {
                id: 1,
                crate_id: 0,
                name: Some("m".to_string()),
                is_public: true,
                docs: None,
                inner: ItemEnum::Function(FunctionDef {
                    sig: FnSig {
                        inputs: vec![("x".to_string(), TypeExpr::Primitive("u8".to_string()))],
                        output: Some(TypeExpr::Primitive("bool".to_string())),
                    },
                    generics: empty_generics(),
                    is_const: false,
                    is_async: false,
                    is_unsafe: false,
                    has_body: false,
                }),
            },
            Item {
                id: 2,
                crate_id: 0,
                name: Some("Item".to_string()),
                is_public: true,
                docs: None,
                inner: ItemEnum::AssocType { bounds: vec![], default: None },
            },
            Item {
                id: 3,
                crate_id: 0,
                name: Some("N".to_string()),
                is_public: true,
                docs: None,
                inner: ItemEnum::AssocConst { type_: TypeExpr::Primitive("usize".to_string()) },
            },
        ],
        paths: vec![],
    };
    let t = TraitDef {
        items: vec![1, 2, 3],
        generics: empty_generics(),
        bounds: vec![GenericBound::Trait(TypePath { path: "Clone".to_string(), args: None })],
        is_unsafe: false,
    };
    assert_eq!(
        format_trait_definition(&tree, "T", &t),
        "trait T: Clone {\n    fn m(x: u8) -> bool;\n    type Item;\n    const N: usize;\n}"
    );
}

#[test]
fn struct_methods_from_inherent_impls_only() {
    let tree = DocTree {
        root: 0,
        crate_version: None,
        format_version: 39,
        index: vec![
            Item {
                id: 1,
                crate_id: 0,
                name: None,
                is_public: true,
                docs: None,
                inner: ItemEnum::Impl { trait_path: None, items: vec![3] },
            },
            Item {
                id: 2,
                crate_id: 0,
                name: None,
                is_public: true,
                docs: None,
                inner: ItemEnum::Impl {
                    trait_path: Some("Clone".to_string()),
                    items: vec![4],
                },
            },
            Item {
                id: 3,
                crate_id: 0,
                name: Some("new".to_string()),
                is_public: true,
                docs: None,
                inner: ItemEnum::Function(FunctionDef {
                    sig: FnSig { inputs: vec![], output: None },
                    generics: empty_generics(),
                    is_const: false,
                    is_async: false,
                    is_unsafe: false,
                    has_body: true,
                }),
            },
            Item {
                id: 4,
                crate_id: 0,
                name: Some("clone".to_string()),
                is_public: true,
                docs: None,
                inner: ItemEnum::Function(FunctionDef {
                    sig: FnSig { inputs: vec![], output: None },
                    generics: empty_generics(),
                    is_const: false,
                    is_async: false,
                    is_unsafe: false,
                    has_body: true,
                }),
            },
        ],
        paths: vec![],
    };
    let s = StructDef { kind: StructKind::Unit, generics: empty_generics(), impls: vec![1, 2] };
    // Only the inherent impl's method is listed; the trait impl is not.
    assert_eq!(
        format_struct_methods(&tree, &s),
        "## Methods\n\n- `new`\n  ```rust\n  fn new()\n  ```\n\n"
    );
}

#[test]
fn generics_omit_synthetic_parameters() {
    let g = Generics {
        params: vec![
            GenericParamDef {
                name: "T".to_string(),
                kind: GenericParamDefKind::Type {
                    bounds: vec![GenericBound::Trait(TypePath {
                        path: "Clone".to_string(),
                        args: None,
                    })],
                    default: None,
                    is_synthetic: false,
                },
            },
            GenericParamDef {
                name: "impl Trait".to_string(),
                kind: GenericParamDefKind::Type {
                    bounds: vec![],
                    default: None,
                    is_synthetic: true,
                },
            },
        ],
        where_predicates: vec![],
    };
    assert_eq!(format_generics(&g), "<T: Clone>");
}

#[test]
fn where_clause_rendered_only_with_predicates() {
    assert_eq!(format_where_clause(&empty_generics()), "");
    let g = Generics {
        params: vec![],
        where_predicates: vec![WherePredicate::BoundPredicate {
            type_: TypeExpr::Generic("T".to_string()),
            bounds: vec![GenericBound::Trait(TypePath {
                path: "Default".to_string(),
                args: None,
            })],
        }],
    };
    assert_eq!(format_where_clause(&g), "\nwhere\n    T: Default");
}

#[test]
fn function_signature_with_header_flags() {
    let f = FunctionDef {
        sig: FnSig { inputs: vec![], output: None },
        generics: empty_generics(),
        is_const: true,
        is_async: false,
        is_unsafe: true,
        has_body: true,
    };
    assert_eq!(format_function_signature("go", &f), "const unsafe fn go()");
}
