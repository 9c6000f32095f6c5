//! Rendering of struct, enum and trait declarations reconstructed from the
//! documentation tree, and of a struct's inherent methods.

use vstd::prelude::*;
use crate::docmodel::{
    DocTree, EnumDef, Item, ItemEnum, StructDef, StructKind, TraitDef, VariantKind,
};
use crate::render_sig::{
    format_function_signature, format_generics, format_where_clause, spec_fmt_function_signature,
    spec_fmt_generics, spec_fmt_where_clause,
};
use crate::render_type::{
    format_bounds, format_type, lemma_join_push, spec_fmt_bound_seq, spec_fmt_type, spec_join,
};

verus! {

/// An item's display name, `_` when it has none.
pub open spec fn spec_item_name(item: Item) -> Seq<char> {
    match item.name {
        Some(n) => n@,
        None => "_"@,
    }
}

/// The display name of an item, `_` when it has none.
pub fn item_name(item: &Item) -> (r: String)
    ensures
        r@ == spec_item_name(*item),
{
    match &item.name {
        Some(n) => n.clone(),
        None => String::from_str("_"),
    }
}

/// Rendering of one tuple-field slot: the field's type, `_` for a non-field
/// item, or a private-field placeholder.
pub open spec fn spec_tuple_field(tree: DocTree, f: Option<u32>) -> Seq<char> {
    match f {
        Some(id) => match tree.spec_item(id) {
            Some(it) => match it.inner {
                ItemEnum::StructField(ty) => spec_fmt_type(ty),
                _ => "_"@,
            },
            None => "/* private */"@,
        },
        None => "/* private */"@,
    }
}

/// Renderings of a list of tuple-field slots.
pub open spec fn spec_tuple_field_seq(tree: DocTree, fs: Seq<Option<u32>>) -> Seq<Seq<char>>
    decreases fs.len(),
{
    if fs.len() == 0 {
        Seq::<Seq<char>>::empty()
    } else {
        spec_tuple_field_seq(tree, fs.drop_last()).push(spec_tuple_field(tree, fs.last()))
    }
}

pub proof fn lemma_tuple_field_seq_take(tree: DocTree, fs: Seq<Option<u32>>, i: int)
    requires
        0 <= i < fs.len(),
    ensures
        spec_tuple_field_seq(tree, fs.take(i + 1)) == spec_tuple_field_seq(tree, fs.take(i)).push(
            spec_tuple_field(tree, fs[i]),
        ),
{
    assert(fs.take(i + 1).drop_last() =~= fs.take(i));
    assert(fs.take(i + 1).last() == fs[i]);
}

/// Render one tuple-field slot.
pub fn tuple_field(tree: &DocTree, f: &Option<u32>) -> (r: String)
    ensures
        r@ == spec_tuple_field(*tree, *f),
{
    match f {
        Some(id) => match tree.find_item(*id) {
            Some(i) => match &tree.index[i].inner {
                ItemEnum::StructField(ty) => format_type(ty),
                _ => String::from_str("_"),
            },
            None => String::from_str("/* private */"),
        },
        None => String::from_str("/* private */"),
    }
}

/// Render a comma-joined list of tuple-field slots.
pub fn tuple_fields_joined(tree: &DocTree, fs: &Vec<Option<u32>>) -> (r: String)
    ensures
        r@ == spec_join(spec_tuple_field_seq(*tree, fs@), ", "@),
{
    let mut joined = String::new();
    let n: usize = fs.len();
    let mut i: usize = 0;
    proof {
        assert(fs@.take(0) =~= Seq::<Option<u32>>::empty());
    }
    while i < n
        invariant
            n == fs@.len(),
            i <= n,
            spec_tuple_field_seq(*tree, fs@.take(i as int)).len() == i,
            joined@ == spec_join(spec_tuple_field_seq(*tree, fs@.take(i as int)), ", "@),
        decreases n - i,
    {
        if i > 0 {
            joined.append(", ");
        }
        let part = tuple_field(tree, &fs[i]);
        joined.append(part.as_str());
        proof {
            lemma_tuple_field_seq_take(*tree, fs@, i as int);
            lemma_join_push(
                spec_tuple_field_seq(*tree, fs@.take(i as int)),
                spec_tuple_field(*tree, fs@[i as int]),
                ", "@,
            );
        }
        i = i + 1;
    }
    proof {
        assert(fs@.take(n as int) =~= fs@);
    }
    joined
}

/// Rendering of one named-field line of a struct body, empty when the id
/// does not resolve to a struct field.
pub open spec fn spec_plain_field_line(tree: DocTree, id: u32) -> Seq<char> {
    match tree.spec_item(id) {
        Some(field) => match field.inner {
            ItemEnum::StructField(ty) => "    pub "@ + spec_item_name(field) + ": "@
                + spec_fmt_type(ty) + ",\n"@,
            _ => Seq::<char>::empty(),
        },
        None => Seq::<char>::empty(),
    }
}

/// Renderings of the named-field lines of a struct body, concatenated.
pub open spec fn spec_plain_field_lines(tree: DocTree, fields: Seq<u32>) -> Seq<char>
    decreases fields.len(),
{
    if fields.len() == 0 {
        Seq::<char>::empty()
    } else {
        spec_plain_field_lines(tree, fields.drop_last()) + spec_plain_field_line(
            tree,
            fields.last(),
        )
    }
}

pub proof fn lemma_plain_field_lines_take(tree: DocTree, fields: Seq<u32>, i: int)
    requires
        0 <= i < fields.len(),
    ensures
        spec_plain_field_lines(tree, fields.take(i + 1)) == spec_plain_field_lines(
            tree,
            fields.take(i),
        ) + spec_plain_field_line(tree, fields[i]),
{
    assert(fields.take(i + 1).drop_last() =~= fields.take(i));
    assert(fields.take(i + 1).last() == fields[i]);
}

/// Render the named-field lines of a struct body.
pub fn plain_field_lines(tree: &DocTree, fields: &Vec<u32>) -> (r: String)
    ensures
        r@ == spec_plain_field_lines(*tree, fields@),
{
    let mut out = String::new();
    let n: usize = fields.len();
    let mut i: usize = 0;
    proof {
        assert(fields@.take(0) =~= Seq::<u32>::empty());
    }
    while i < n
        invariant
            n == fields@.len(),
            i <= n,
            out@ == spec_plain_field_lines(*tree, fields@.take(i as int)),
        decreases n - i,
    {
        match tree.find_item(fields[i]) {
            Some(fi) => {
                match &tree.index[fi].inner {
                    ItemEnum::StructField(ty) => {
                        out.append("    pub ");
                        let nm = item_name(&tree.index[fi]);
                        out.append(nm.as_str());
                        out.append(": ");
                        let tv = format_type(ty);
                        out.append(tv.as_str());
                        out.append(",\n");
                    },
                    _ => {},
                }
            },
            None => {},
        }
        proof {
            lemma_plain_field_lines_take(*tree, fields@, i as int);
            assert(out@ =~= spec_plain_field_lines(*tree, fields@.take(i as int + 1)));
        }
        i = i + 1;
    }
    proof {
        assert(fields@.take(n as int) =~= fields@);
    }
    out
}

/// Rendering of a struct declaration.
pub open spec fn spec_fmt_struct_definition(tree: DocTree, name: Seq<char>, s: StructDef) -> Seq<
    char,
> {
    let head = "struct "@ + name + spec_fmt_generics(s.generics);
    match s.kind {
        StructKind::Unit => head + ";"@,
        StructKind::Tuple(fields) => head + "("@ + spec_join(
            spec_tuple_field_seq(tree, fields@),
            ", "@,
        ) + ");"@,
        StructKind::Plain { fields } => head + spec_fmt_where_clause(s.generics) + " {\n"@
            + spec_plain_field_lines(tree, fields@) + "}"@,
    }
}

/// Render a struct declaration.
pub fn format_struct_definition(tree: &DocTree, name: &str, s: &StructDef) -> (r: String)
    ensures
        r@ == spec_fmt_struct_definition(*tree, name@, *s),
{
    let mut out = String::from_str("struct ");
    out.append(name);
    let gens = format_generics(&s.generics);
    out.append(gens.as_str());
    match &s.kind {
        StructKind::Unit => {
            out.append(";");
        },
        StructKind::Tuple(fields) => {
            out.append("(");
            let joined = tuple_fields_joined(tree, fields);
            out.append(joined.as_str());
            out.append(");");
        },
        StructKind::Plain { fields } => {
            let wc = format_where_clause(&s.generics);
            out.append(wc.as_str());
            out.append(" {\n");
            let lines = plain_field_lines(tree, fields);
            out.append(lines.as_str());
            out.append("}");
        },
    }
    proof {
        assert(out@ =~= spec_fmt_struct_definition(*tree, name@, *s));
    }
    out
}

/// Rendering of one enum-variant line, empty when the id does not resolve
/// to a variant.
pub open spec fn spec_variant_line(tree: DocTree, id: u32) -> Seq<char> {
    match tree.spec_item(id) {
        Some(vi) => match vi.inner {
            ItemEnum::Variant(vk) => "    "@ + spec_item_name(vi) + (match vk {
                VariantKind::Plain => Seq::<char>::empty(),
                VariantKind::Tuple(fields) => "("@ + spec_join(
                    spec_tuple_field_seq(tree, fields@),
                    ", "@,
                ) + ")"@,
                VariantKind::Struct { fields } => " {\n"@ + spec_variant_field_lines(
                    tree,
                    fields@,
                ) + "    }"@,
            }) + ",\n"@,
            _ => Seq::<char>::empty(),
        },
        None => Seq::<char>::empty(),
    }
}

/// Rendering of one field line inside a struct-like variant, empty when the
/// id does not resolve to a struct field.
pub open spec fn spec_variant_field_line(tree: DocTree, id: u32) -> Seq<char> {
    match tree.spec_item(id) {
        Some(field) => match field.inner {
            ItemEnum::StructField(ty) => "        "@ + spec_item_name(field) + ": "@
                + spec_fmt_type(ty) + ",\n"@,
            _ => Seq::<char>::empty(),
        },
        None => Seq::<char>::empty(),
    }
}

/// Renderings of the field lines of a struct-like variant, concatenated.
pub open spec fn spec_variant_field_lines(tree: DocTree, fields: Seq<u32>) -> Seq<char>
    decreases fields.len(),
{
    if fields.len() == 0 {
        Seq::<char>::empty()
    } else {
        spec_variant_field_lines(tree, fields.drop_last()) + spec_variant_field_line(
            tree,
            fields.last(),
        )
    }
}

pub proof fn lemma_variant_field_lines_take(tree: DocTree, fields: Seq<u32>, i: int)
    requires
        0 <= i < fields.len(),
    ensures
        spec_variant_field_lines(tree, fields.take(i + 1)) == spec_variant_field_lines(
            tree,
            fields.take(i),
        ) + spec_variant_field_line(tree, fields[i]),
{
    assert(fields.take(i + 1).drop_last() =~= fields.take(i));
    assert(fields.take(i + 1).last() == fields[i]);
}

fn variant_field_lines(tree: &DocTree, fields: &Vec<u32>) -> (r: String)
    ensures
        r@ == spec_variant_field_lines(*tree, fields@),
{
    let mut out = String::new();
    let n: usize = fields.len();
    let mut i: usize = 0;
    proof {
        assert(fields@.take(0) =~= Seq::<u32>::empty());
    }
    while i < n
        invariant
            n == fields@.len(),
            i <= n,
            out@ == spec_variant_field_lines(*tree, fields@.take(i as int)),
        decreases n - i,
    {
        match tree.find_item(fields[i]) {
            Some(fi) => {
                match &tree.index[fi].inner {
                    ItemEnum::StructField(ty) => {
                        out.append("        ");
                        let nm = item_name(&tree.index[fi]);
                        out.append(nm.as_str());
                        out.append(": ");
                        let tv = format_type(ty);
                        out.append(tv.as_str());
                        out.append(",\n");
                    },
                    _ => {},
                }
            },
            None => {},
        }
        proof {
            lemma_variant_field_lines_take(*tree, fields@, i as int);
            assert(out@ =~= spec_variant_field_lines(*tree, fields@.take(i as int + 1)));
        }
        i = i + 1;
    }
    proof {
        assert(fields@.take(n as int) =~= fields@);
    }
    out
}

/// Renderings of the variant lines of an enum body, concatenated.
pub open spec fn spec_variant_lines(tree: DocTree, variants: Seq<u32>) -> Seq<char>
    decreases variants.len(),
{
    if variants.len() == 0 {
        Seq::<char>::empty()
    } else {
        spec_variant_lines(tree, variants.drop_last()) + spec_variant_line(tree, variants.last())
    }
}

pub proof fn lemma_variant_lines_take(tree: DocTree, variants: Seq<u32>, i: int)
    requires
        0 <= i < variants.len(),
    ensures
        spec_variant_lines(tree, variants.take(i + 1)) == spec_variant_lines(
            tree,
            variants.take(i),
        ) + spec_variant_line(tree, variants[i]),
{
    assert(variants.take(i + 1).drop_last() =~= variants.take(i));
    assert(variants.take(i + 1).last() == variants[i]);
}

/// Rendering of an enum declaration.
pub open spec fn spec_fmt_enum_definition(tree: DocTree, name: Seq<char>, e: EnumDef) -> Seq<
    char,
> {
    "enum "@ + name + spec_fmt_generics(e.generics) + spec_fmt_where_clause(e.generics) + " {\n"@
        + spec_variant_lines(tree, e.variants@) + "}"@
}

/// Render an enum declaration.
#[verifier::rlimit(100)]
pub fn format_enum_definition(tree: &DocTree, name: &str, e: &EnumDef) -> (r: String)
    ensures
        r@ == spec_fmt_enum_definition(*tree, name@, *e),
{
    let mut out = String::from_str("enum ");
    out.append(name);
    let gens = format_generics(&e.generics);
    out.append(gens.as_str());
    let wc = format_where_clause(&e.generics);
    out.append(wc.as_str());
    out.append(" {\n");
    let n: usize = e.variants.len();
    let mut i: usize = 0;
    let ghost base = out@;
    proof {
        assert(e.variants@.take(0) =~= Seq::<u32>::empty());
    }
    while i < n
        invariant
            n == e.variants@.len(),
            i <= n,
            out@ == base + spec_variant_lines(*tree, e.variants@.take(i as int)),
        decreases n - i,
    {
        match tree.find_item(e.variants[i]) {
            Some(vi) => {
                match &tree.index[vi].inner {
                    ItemEnum::Variant(vk) => {
                        out.append("    ");
                        let nm = item_name(&tree.index[vi]);
                        out.append(nm.as_str());
                        match vk {
                            VariantKind::Plain => {},
                            VariantKind::Tuple(fields) => {
                                out.append("(");
                                let joined = tuple_fields_joined(tree, fields);
                                out.append(joined.as_str());
                                out.append(")");
                            },
                            VariantKind::Struct { fields } => {
                                out.append(" {\n");
                                let lines = variant_field_lines(tree, fields);
                                out.append(lines.as_str());
                                out.append("    }");
                            },
                        }
                        out.append(",\n");
                    },
                    _ => {},
                }
            },
            None => {},
        }
        proof {
            lemma_variant_lines_take(*tree, e.variants@, i as int);
            assert(out@ =~= base + spec_variant_lines(*tree, e.variants@.take(i as int + 1)));
        }
        i = i + 1;
    }
    proof {
        assert(e.variants@.take(n as int) =~= e.variants@);
    }
    out.append("}");
    proof {
        assert(out@ =~= spec_fmt_enum_definition(*tree, name@, *e));
    }
    out
}

/// Rendering of one trait-member line: a method signature, an associated
/// type or an associated constant; empty for anything else.
pub open spec fn spec_trait_member_line(tree: DocTree, id: u32) -> Seq<char> {
    match tree.spec_item(id) {
        Some(it) => match it.inner {
            ItemEnum::Function(f) => "    "@ + spec_fmt_function_signature(spec_item_name(it), f)
                + (if f.has_body {
                " { ... }\n"@
            } else {
                ";\n"@
            }),
            ItemEnum::AssocType { bounds, default } => "    type "@ + spec_item_name(it) + (if
            bounds@.len() > 0 {
                ": "@ + spec_join(spec_fmt_bound_seq(bounds@), " + "@)
            } else {
                Seq::<char>::empty()
            }) + (match default {
                Some(d) => " = "@ + spec_fmt_type(d),
                None => Seq::<char>::empty(),
            }) + ";\n"@,
            ItemEnum::AssocConst { type_ } => "    const "@ + spec_item_name(it) + ": "@
                + spec_fmt_type(type_) + ";\n"@,
            _ => Seq::<char>::empty(),
        },
        None => Seq::<char>::empty(),
    }
}

/// Renderings of the member lines of a trait body, concatenated.
pub open spec fn spec_trait_member_lines(tree: DocTree, items: Seq<u32>) -> Seq<char>
    decreases items.len(),
{
    if items.len() == 0 {
        Seq::<char>::empty()
    } else {
        spec_trait_member_lines(tree, items.drop_last()) + spec_trait_member_line(
            tree,
            items.last(),
        )
    }
}

pub proof fn lemma_trait_member_lines_take(tree: DocTree, items: Seq<u32>, i: int)
    requires
        0 <= i < items.len(),
    ensures
        spec_trait_member_lines(tree, items.take(i + 1)) == spec_trait_member_lines(
            tree,
            items.take(i),
        ) + spec_trait_member_line(tree, items[i]),
{
    assert(items.take(i + 1).drop_last() =~= items.take(i));
    assert(items.take(i + 1).last() == items[i]);
}

/// Rendering of a trait declaration.
pub open spec fn spec_fmt_trait_definition(tree: DocTree, name: Seq<char>, t: TraitDef) -> Seq<
    char,
> {
    (if t.is_unsafe {
        "unsafe "@
    } else {
        Seq::<char>::empty()
    }) + "trait "@ + name + spec_fmt_generics(t.generics) + (if t.bounds@.len() > 0 {
        ": "@ + spec_join(spec_fmt_bound_seq(t.bounds@), " + "@)
    } else {
        Seq::<char>::empty()
    }) + spec_fmt_where_clause(t.generics) + " {\n"@ + spec_trait_member_lines(tree, t.items@)
        + "}"@
}

/// Render a trait declaration.
#[verifier::rlimit(100)]
pub fn format_trait_definition(tree: &DocTree, name: &str, t: &TraitDef) -> (r: String)
    ensures
        r@ == spec_fmt_trait_definition(*tree, name@, *t),
{
    let mut out = String::new();
    if t.is_unsafe {
        out.append("unsafe ");
    }
    out.append("trait ");
    out.append(name);
    let gens = format_generics(&t.generics);
    out.append(gens.as_str());
    if t.bounds.len() > 0 {
        out.append(": ");
        let b = format_bounds(&t.bounds);
        out.append(b.as_str());
    }
    let wc = format_where_clause(&t.generics);
    out.append(wc.as_str());
    out.append(" {\n");
    let n: usize = t.items.len();
    let mut i: usize = 0;
    let ghost base = out@;
    proof {
        assert(t.items@.take(0) =~= Seq::<u32>::empty());
    }
    while i < n
        invariant
            n == t.items@.len(),
            i <= n,
            out@ == base + spec_trait_member_lines(*tree, t.items@.take(i as int)),
        decreases n - i,
    {
        match tree.find_item(t.items[i]) {
            Some(ii) => {
                let nm = item_name(&tree.index[ii]);
                match &tree.index[ii].inner {
                    ItemEnum::Function(f) => {
                        out.append("    ");
                        let sig = format_function_signature(nm.as_str(), f);
                        out.append(sig.as_str());
                        if f.has_body {
                            out.append(" { ... }\n");
                        } else {
                            out.append(";\n");
                        }
                    },
                    ItemEnum::AssocType { bounds, default } => {
                        out.append("    type ");
                        out.append(nm.as_str());
                        if bounds.len() > 0 {
                            out.append(": ");
                            let b = format_bounds(bounds);
                            out.append(b.as_str());
                        }
                        match default {
                            Some(d) => {
                                out.append(" = ");
                                let dv = format_type(d);
                                out.append(dv.as_str());
                            },
                            None => {},
                        }
                        out.append(";\n");
                    },
                    ItemEnum::AssocConst { type_ } => {
                        out.append("    const ");
                        out.append(nm.as_str());
                        out.append(": ");
                        let tv = format_type(type_);
                        out.append(tv.as_str());
                        out.append(";\n");
                    },
                    _ => {},
                }
            },
            None => {},
        }
        proof {
            lemma_trait_member_lines_take(*tree, t.items@, i as int);
            assert(out@ =~= base + spec_trait_member_lines(*tree, t.items@.take(i as int + 1)));
        }
        i = i + 1;
    }
    proof {
        assert(t.items@.take(n as int) =~= t.items@);
    }
    out.append("}");
    proof {
        assert(out@ =~= spec_fmt_trait_definition(*tree, name@, *t));
    }
    out
}

/// Rendering of the method lines contributed by one impl block: one line
/// per public method of an inherent (trait-less) impl.
pub open spec fn spec_impl_method_lines(tree: DocTree, impl_id: u32) -> Seq<char> {
    match tree.spec_item(impl_id) {
        Some(ii) => match ii.inner {
            ItemEnum::Impl { trait_path, items } => match trait_path {
                Some(_) => Seq::<char>::empty(),
                None => spec_member_method_lines(tree, items@),
            },
            _ => Seq::<char>::empty(),
        },
        None => Seq::<char>::empty(),
    }
}

/// Rendering of one method line, empty unless the id resolves to a public
/// function.
pub open spec fn spec_method_line(tree: DocTree, id: u32) -> Seq<char> {
    match tree.spec_item(id) {
        Some(m) => if m.is_public {
            match m.inner {
                ItemEnum::Function(f) => "- `"@ + spec_item_name(m) + "`\n  ```rust\n  "@
                    + spec_fmt_function_signature(spec_item_name(m), f) + "\n  ```\n"@,
                _ => Seq::<char>::empty(),
            }
        } else {
            Seq::<char>::empty()
        },
        None => Seq::<char>::empty(),
    }
}

/// Number of method lines the id contributes: one for a public function.
pub open spec fn spec_method_count(tree: DocTree, id: u32) -> nat {
    match tree.spec_item(id) {
        Some(m) => if m.is_public && m.inner is Function {
            1nat
        } else {
            0nat
        },
        None => 0nat,
    }
}

/// Renderings of the method lines of one impl's members, concatenated.
pub open spec fn spec_member_method_lines(tree: DocTree, items: Seq<u32>) -> Seq<char>
    decreases items.len(),
{
    if items.len() == 0 {
        Seq::<char>::empty()
    } else {
        spec_member_method_lines(tree, items.drop_last()) + spec_method_line(tree, items.last())
    }
}

/// Number of method lines of one impl's members.
pub open spec fn spec_member_method_count(tree: DocTree, items: Seq<u32>) -> nat
    decreases items.len(),
{
    if items.len() == 0 {
        0nat
    } else {
        spec_member_method_count(tree, items.drop_last()) + spec_method_count(tree, items.last())
    }
}

/// Number of method lines one impl id contributes.
pub open spec fn spec_impl_method_count(tree: DocTree, impl_id: u32) -> nat {
    match tree.spec_item(impl_id) {
        Some(ii) => match ii.inner {
            ItemEnum::Impl { trait_path, items } => match trait_path {
                Some(_) => 0nat,
                None => spec_member_method_count(tree, items@),
            },
            _ => 0nat,
        },
        None => 0nat,
    }
}

/// Renderings of the method lines of a list of impl ids, concatenated.
pub open spec fn spec_impls_method_lines(tree: DocTree, impls: Seq<u32>) -> Seq<char>
    decreases impls.len(),
{
    if impls.len() == 0 {
        Seq::<char>::empty()
    } else {
        spec_impls_method_lines(tree, impls.drop_last()) + spec_impl_method_lines(
            tree,
            impls.last(),
        )
    }
}

/// Number of method lines of a list of impl ids.
pub open spec fn spec_impls_method_count(tree: DocTree, impls: Seq<u32>) -> nat
    decreases impls.len(),
{
    if impls.len() == 0 {
        0nat
    } else {
        spec_impls_method_count(tree, impls.drop_last()) + spec_impl_method_count(
            tree,
            impls.last(),
        )
    }
}

pub proof fn lemma_impls_method_take(tree: DocTree, impls: Seq<u32>, i: int)
    requires
        0 <= i < impls.len(),
    ensures
        spec_impls_method_lines(tree, impls.take(i + 1)) == spec_impls_method_lines(
            tree,
            impls.take(i),
        ) + spec_impl_method_lines(tree, impls[i]),
        spec_impls_method_count(tree, impls.take(i + 1)) == spec_impls_method_count(
            tree,
            impls.take(i),
        ) + spec_impl_method_count(tree, impls[i]),
{
    assert(impls.take(i + 1).drop_last() =~= impls.take(i));
    assert(impls.take(i + 1).last() == impls[i]);
}

pub proof fn lemma_member_method_take(tree: DocTree, items: Seq<u32>, i: int)
    requires
        0 <= i < items.len(),
    ensures
        spec_member_method_lines(tree, items.take(i + 1)) == spec_member_method_lines(
            tree,
            items.take(i),
        ) + spec_method_line(tree, items[i]),
        spec_member_method_count(tree, items.take(i + 1)) == spec_member_method_count(
            tree,
            items.take(i),
        ) + spec_method_count(tree, items[i]),
{
    assert(items.take(i + 1).drop_last() =~= items.take(i));
    assert(items.take(i + 1).last() == items[i]);
}

/// Rendering of a struct's public inherent methods: empty when there are
/// none, otherwise a `## Methods` section.
pub open spec fn spec_fmt_struct_methods(tree: DocTree, s: StructDef) -> Seq<char> {
    if spec_impls_method_count(tree, s.impls@) == 0 {
        Seq::<char>::empty()
    } else {
        "## Methods\n\n"@ + spec_impls_method_lines(tree, s.impls@) + "\n"@
    }
}

#[verifier::rlimit(100)]
fn member_method_lines(tree: &DocTree, items: &Vec<u32>) -> (r: (String, usize))
    ensures
        r.0@ == spec_member_method_lines(*tree, items@),
        r.1 as nat == spec_member_method_count(*tree, items@),
{
    let mut out = String::new();
    let mut count: usize = 0;
    let n: usize = items.len();
    let mut j: usize = 0;
    proof {
        assert(items@.take(0) =~= Seq::<u32>::empty());
    }
    while j < n
        invariant
            n == items@.len(),
            j <= n,
            count <= j,
            out@ == spec_member_method_lines(*tree, items@.take(j as int)),
            count as nat == spec_member_method_count(*tree, items@.take(j as int)),
        decreases n - j,
    {
        match tree.find_item(items[j]) {
            Some(mi) => {
                if tree.index[mi].is_public {
                    let nm = item_name(&tree.index[mi]);
                    match &tree.index[mi].inner {
                        ItemEnum::Function(f) => {
                            out.append("- `");
                            out.append(nm.as_str());
                            out.append("`\n  ```rust\n  ");
                            let sig = format_function_signature(nm.as_str(), f);
                            out.append(sig.as_str());
                            out.append("\n  ```\n");
                            count = count + 1;
                        },
                        _ => {},
                    }
                }
            },
            None => {},
        }
        proof {
            lemma_member_method_take(*tree, items@, j as int);
            assert(out@ =~= spec_member_method_lines(*tree, items@.take(j as int + 1)));
        }
        j = j + 1;
    }
    proof {
        assert(items@.take(n as int) =~= items@);
    }
    (out, count)
}

/// Render the `## Methods` section for a struct's public inherent methods,
/// empty when there are none.
pub fn format_struct_methods(tree: &DocTree, s: &StructDef) -> (r: String)
    ensures
        r@ == spec_fmt_struct_methods(*tree, *s),
{
    let mut lines = String::new();
    let mut any: bool = false;
    let n: usize = s.impls.len();
    let mut i: usize = 0;
    proof {
        assert(s.impls@.take(0) =~= Seq::<u32>::empty());
    }
    while i < n
        invariant
            n == s.impls@.len(),
            i <= n,
            lines@ == spec_impls_method_lines(*tree, s.impls@.take(i as int)),
            any <==> spec_impls_method_count(*tree, s.impls@.take(i as int)) != 0,
        decreases n - i,
    {
        match tree.find_item(s.impls[i]) {
            Some(ii) => {
                match &tree.index[ii].inner {
                    ItemEnum::Impl { trait_path, items } => {
                        match trait_path {
                            Some(_) => {},
                            None => {
                                let (ls, c) = member_method_lines(tree, items);
                                lines.append(ls.as_str());
                                if c > 0 {
                                    any = true;
                                }
                            },
                        }
                    },
                    _ => {},
                }
            },
            None => {},
        }
        proof {
            lemma_impls_method_take(*tree, s.impls@, i as int);
            assert(lines@ =~= spec_impls_method_lines(*tree, s.impls@.take(i as int + 1)));
        }
        i = i + 1;
    }
    proof {
        assert(s.impls@.take(n as int) =~= s.impls@);
    }
    if !any {
        String::new()
    } else {
        let mut out = String::from_str("## Methods\n\n");
        out.append(lines.as_str());
        out.append("\n");
        proof {
            assert(out@ =~= spec_fmt_struct_methods(*tree, *s));
        }
        out
    }
}

} // verus!
