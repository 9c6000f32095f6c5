//! The in-memory model of one package version's documentation: a tree of
//! addressable items, each carrying a closed tagged payload, plus the
//! recursive type-expression grammar the renderer prints.

use vstd::prelude::*;

verus! {

/// A named path to a type or trait, with optional generic arguments.
pub struct TypePath {
    pub path: String,
    pub args: Option<Box<GenericArgs>>,
}

/// One generic argument inside angle brackets.
pub enum GenericArg {
    Lifetime(String),
    Type(TypeExpr),
    Const(String),
    Infer,
}

/// The right-hand side of an associated-item constraint.
pub enum Term {
    Type(TypeExpr),
    Constant(String),
}

/// A constraint on an associated item, e.g. `Item = u8` or `Item: Ord`.
pub struct AssocItemConstraint {
    pub name: String,
    pub binding: AssocItemConstraintKind,
}

pub enum AssocItemConstraintKind {
    Equality(Term),
    Constraint(Vec<GenericBound>),
}

/// Generic arguments attached to a path.
pub enum GenericArgs {
    AngleBracketed { args: Vec<GenericArg>, constraints: Vec<AssocItemConstraint> },
    Parenthesized { inputs: Vec<TypeExpr>, output: Option<Box<TypeExpr>> },
    ReturnTypeNotation,
}

/// A bound on a generic parameter or trait.
pub enum GenericBound {
    Trait(TypePath),
    Outlives(String),
    Use,
}

/// The recursive type-expression grammar.
pub enum TypeExpr {
    Primitive(String),
    Generic(String),
    ResolvedPath(TypePath),
    BorrowedRef { lifetime: Option<String>, is_mutable: bool, type_: Box<TypeExpr> },
    Tuple(Vec<TypeExpr>),
    Slice(Box<TypeExpr>),
    Array { type_: Box<TypeExpr>, len: String },
    RawPointer { is_mutable: bool, type_: Box<TypeExpr> },
    ImplTrait(Vec<GenericBound>),
    DynTrait { traits: Vec<TypePath>, lifetime: Option<String> },
    FunctionPointer(Box<FnSig>),
    QualifiedPath { name: String, self_type: Box<TypeExpr>, trait_path: Option<String> },
    Infer,
    Pat(Box<TypeExpr>),
}

/// A function signature: named parameters and an optional return type.
pub struct FnSig {
    pub inputs: Vec<(String, TypeExpr)>,
    pub output: Option<TypeExpr>,
}

/// One declared generic parameter.
pub struct GenericParamDef {
    pub name: String,
    pub kind: GenericParamDefKind,
}

#[allow(inconsistent_fields)]
pub enum GenericParamDefKind {
    Lifetime,
    Type { bounds: Vec<GenericBound>, default: Option<TypeExpr>, is_synthetic: bool },
    Const { type_: TypeExpr, default: Option<String> },
}

/// One predicate of a `where` clause.
pub enum WherePredicate {
    BoundPredicate { type_: TypeExpr, bounds: Vec<GenericBound> },
    LifetimePredicate { lifetime: String, outlives: Vec<String> },
    EqPredicate { lhs: TypeExpr, rhs: Term },
}

/// A generic parameter list together with its `where` predicates.
pub struct Generics {
    pub params: Vec<GenericParamDef>,
    pub where_predicates: Vec<WherePredicate>,
}

/// The shape of a struct body.
pub enum StructKind {
    Unit,
    Tuple(Vec<Option<u32>>),
    Plain { fields: Vec<u32> },
}

/// The shape of an enum variant body.
pub enum VariantKind {
    Plain,
    Tuple(Vec<Option<u32>>),
    Struct { fields: Vec<u32> },
}

/// A struct body, its generics and its impl blocks.
pub struct StructDef {
    pub kind: StructKind,
    pub generics: Generics,
    pub impls: Vec<u32>,
}

/// An enum's variants and generics.
pub struct EnumDef {
    pub variants: Vec<u32>,
    pub generics: Generics,
}

/// A function's signature, generics and header flags.
pub struct FunctionDef {
    pub sig: FnSig,
    pub generics: Generics,
    pub is_const: bool,
    pub is_async: bool,
    pub is_unsafe: bool,
    pub has_body: bool,
}

/// A trait's member items, generics, supertrait bounds and safety flag.
pub struct TraitDef {
    pub items: Vec<u32>,
    pub generics: Generics,
    pub bounds: Vec<GenericBound>,
    pub is_unsafe: bool,
}

/// The payload of an item: one constructor per item kind.
pub enum ItemEnum {
    Module { items: Vec<u32> },
    ExternCrate,
    Use,
    Struct(StructDef),
    Union,
    StructField(TypeExpr),
    Enum(EnumDef),
    Variant(VariantKind),
    Function(FunctionDef),
    Trait(TraitDef),
    TraitAlias,
    Impl { trait_path: Option<String>, items: Vec<u32> },
    TypeAlias { type_: TypeExpr, generics: Generics },
    Constant { type_: TypeExpr, expr: String },
    Static,
    ExternType,
    Macro(String),
    ProcMacro,
    Primitive(String),
    AssocConst { type_: TypeExpr },
    AssocType { bounds: Vec<GenericBound>, default: Option<TypeExpr> },
}

/// One addressable item of a documentation tree.
pub struct Item {
    pub id: u32,
    /// 0 for the local package, nonzero for items of other packages.
    pub crate_id: u32,
    pub name: Option<String>,
    pub is_public: bool,
    pub docs: Option<String>,
    pub inner: ItemEnum,
}

/// The documentation source's own record of an item's fully qualified path.
pub struct PathSummary {
    pub id: u32,
    pub path: Vec<String>,
    pub kind: String,
}

/// The parsed documentation tree of one package version.
pub struct DocTree {
    pub root: u32,
    pub crate_version: Option<String>,
    pub format_version: u32,
    pub index: Vec<Item>,
    pub paths: Vec<PathSummary>,
}

/// The first item of `items` whose id is `id`, if any.
pub open spec fn spec_find_item(items: Seq<Item>, id: u32) -> Option<Item>
    decreases items.len(),
{
    if items.len() == 0 {
        None
    } else if items[0].id == id {
        Some(items[0])
    } else {
        spec_find_item(items.drop_first(), id)
    }
}

/// The first path record of `paths` whose id is `id`, if any.
pub open spec fn spec_find_path(paths: Seq<PathSummary>, id: u32) -> Option<PathSummary>
    decreases paths.len(),
{
    if paths.len() == 0 {
        None
    } else if paths[0].id == id {
        Some(paths[0])
    } else {
        spec_find_path(paths.drop_first(), id)
    }
}

impl DocTree {
    /// The item stored under `id`, as the index lookup yields it.
    pub open spec fn spec_item(&self, id: u32) -> Option<Item> {
        spec_find_item(self.index@, id)
    }

    /// The path summary stored under `id`.
    pub open spec fn spec_path(&self, id: u32) -> Option<PathSummary> {
        spec_find_path(self.paths@, id)
    }

    /// Ids are unique in the index and in the path table.
    pub open spec fn wf(&self) -> bool {
        &&& forall|i: int, j: int|
            0 <= i < j < self.index@.len() ==> self.index@[i].id != self.index@[j].id
        &&& forall|i: int, j: int|
            0 <= i < j < self.paths@.len() ==> self.paths@[i].id != self.paths@[j].id
    }

    /// Position of the item with id `id` in the index, if present.
    pub fn find_item(&self, id: u32) -> (r: Option<usize>)
        ensures
            match r {
                Some(i) => i < self.index@.len() && self.spec_item(id) == Some(self.index@[i as int]),
                None => self.spec_item(id) is None,
            },
    {
        let ghost items = self.index@;
        let n: usize = self.index.len();
        let mut i: usize = 0;
        proof {
            assert(items.skip(0) =~= items);
        }
        while i < n
            invariant
                n == items.len(),
                items == self.index@,
                i <= n,
                spec_find_item(items, id) == spec_find_item(items.skip(i as int), id),
            decreases n - i,
        {
            if self.index[i].id == id {
                proof {
                    assert(items.skip(i as int)[0] == items[i as int]);
                }
                return Some(i);
            }
            proof {
                assert(items.skip(i as int).drop_first() =~= items.skip(i as int + 1));
            }
            i = i + 1;
        }
        proof {
            assert(items.skip(n as int).len() == 0);
        }
        None
    }

    /// Position of the path summary with id `id`, if present.
    pub fn find_path(&self, id: u32) -> (r: Option<usize>)
        ensures
            match r {
                Some(i) => i < self.paths@.len() && self.spec_path(id) == Some(self.paths@[i as int]),
                None => self.spec_path(id) is None,
            },
    {
        let ghost paths = self.paths@;
        let n: usize = self.paths.len();
        let mut i: usize = 0;
        proof {
            assert(paths.skip(0) =~= paths);
        }
        while i < n
            invariant
                n == paths.len(),
                paths == self.paths@,
                i <= n,
                spec_find_path(paths, id) == spec_find_path(paths.skip(i as int), id),
            decreases n - i,
        {
            if self.paths[i].id == id {
                proof {
                    assert(paths.skip(i as int)[0] == paths[i as int]);
                }
                return Some(i);
            }
            proof {
                assert(paths.skip(i as int).drop_first() =~= paths.skip(i as int + 1));
            }
            i = i + 1;
        }
        proof {
            assert(paths.skip(n as int).len() == 0);
        }
        None
    }
}

} // verus!
