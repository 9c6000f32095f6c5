use cratesio_mcp::docmodel::{ItemEnum, TypeExpr, TypePath};
use cratesio_mcp::render_doc::item_kind_label;
use cratesio_mcp::render_type::format_type;

#[test]
fn format_primitive_type() {
    assert_eq!(format_type(&TypeExpr::Primitive("i32".to_string())), "i32");
}

#[test]
fn format_generic_type() {
    assert_eq!(format_type(&TypeExpr::Generic("T".to_string())), "T");
}

#[test]
fn format_borrowed_ref() {
    let ty = TypeExpr::BorrowedRef {
        lifetime: Some("'a".to_string()),
        is_mutable: true,
        type_: Box::new(TypeExpr::Primitive("str".to_string())),
    };
    assert_eq!(format_type(&ty), "&'a mut str");
}

#[test]
fn format_tuple_type() {
    let ty = TypeExpr::Tuple(vec![
        TypeExpr::Primitive("i32".to_string()),
        TypeExpr::Primitive("bool".to_string()),
    ]);
    assert_eq!(format_type(&ty), "(i32, bool)");
}

#[test]
fn format_unit_type() {
    assert_eq!(format_type(&TypeExpr::Tuple(vec![])), "()");
}

#[test]
fn format_slice_type() {
    let ty = TypeExpr::Slice(Box::new(TypeExpr::Primitive("u8".to_string())));
    assert_eq!(format_type(&ty), "[u8]");
}

#[test]
fn format_array_type() {
    let ty = TypeExpr::Array {
        type_: Box::new(TypeExpr::Primitive("u8".to_string())),
        len: "32".to_string(),
    };
    assert_eq!(format_type(&ty), "[u8; 32]");
}

#[test]
fn format_raw_pointer() {
    let ty = TypeExpr::RawPointer {
        is_mutable: false,
        type_: Box::new(TypeExpr::Primitive("u8".to_string())),
    };
    assert_eq!(format_type(&ty), "*const u8");
}

#[test]
fn item_kind_labels() {
    assert_eq!(item_kind_label(&ItemEnum::Module { items: vec![] }), "mod");
    assert_eq!(item_kind_label(&ItemEnum::Use), "use");
    assert_eq!(item_kind_label(&ItemEnum::Primitive("u8".to_string())), "primitive");
}

#[test]
fn format_resolved_path_with_args() {
    let ty = TypeExpr::ResolvedPath(TypePath {
        path: "Vec".to_string(),
        args: Some(Box::new(cratesio_mcp::docmodel::GenericArgs::AngleBracketed {
            args: vec![cratesio_mcp::docmodel::GenericArg::Type(TypeExpr::Primitive(
                "u8".to_string(),
            ))],
            constraints: vec![],
        })),
    });
    assert_eq!(format_type(&ty), "Vec<u8>");
}

#[test]
fn format_dyn_trait_with_lifetime() {
    let ty = TypeExpr::DynTrait {
        traits: vec![TypePath { path: "Read".to_string(), args: None }],
        lifetime: Some("'static".to_string()),
    };
    assert_eq!(format_type(&ty), "dyn Read + 'static");
}

#[test]
fn format_qualified_path() {
    let ty = TypeExpr::QualifiedPath {
        name: "Output".to_string(),
        self_type: Box::new(TypeExpr::Generic("T".to_string())),
        trait_path: Some("Add".to_string()),
    };
    assert_eq!(format_type(&ty), "<T as Add>::Output");
    let ty2 = TypeExpr::QualifiedPath {
        name: "Item".to_string(),
        self_type: Box::new(TypeExpr::Generic("I".to_string())),
        trait_path: None,
    };
    assert_eq!(format_type(&ty2), "<I>::Item");
}

#[test]
fn format_fn_pointer() {
    let ty = TypeExpr::FunctionPointer(Box::new(cratesio_mcp::docmodel::FnSig {
        inputs: vec![
            ("x".to_string(), TypeExpr::Primitive("u8".to_string())),
            ("y".to_string(), TypeExpr::Primitive("u16".to_string())),
        ],
        output: Some(TypeExpr::Primitive("bool".to_string())),
    }));
    assert_eq!(format_type(&ty), "fn(u8, u16) -> bool");
}

#[test]
fn format_impl_trait() {
    let ty = TypeExpr::ImplTrait(vec![
        cratesio_mcp::docmodel::GenericBound::Trait(TypePath {
            path: "Iterator".to_string(),
            args: None,
        }),
        cratesio_mcp::docmodel::GenericBound::Outlives("'a".to_string()),
    ]);
    assert_eq!(format_type(&ty), "impl Iterator + 'a");
}

#[test]
fn format_infer_and_pat() {
    assert_eq!(format_type(&TypeExpr::Infer), "_");
    let ty = TypeExpr::Pat(Box::new(TypeExpr::Primitive("u8".to_string())));
    assert_eq!(format_type(&ty), "u8");
}
