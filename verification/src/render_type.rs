//! Pretty-printer for the type-expression grammar: renders every `TypeExpr`
//! variant to a compact textual form, with a specification twin for each
//! rendering function.

use vstd::prelude::*;
use crate::docmodel::{
    AssocItemConstraint, AssocItemConstraintKind, GenericArg, GenericArgs, GenericBound,
    Term, TypeExpr, TypePath,
};

verus! {

/// Join pre-rendered parts with a separator.
pub open spec fn spec_join(parts: Seq<Seq<char>>, sep: Seq<char>) -> Seq<char>
    decreases parts.len(),
{
    if parts.len() == 0 {
        Seq::<char>::empty()
    } else if parts.len() == 1 {
        parts[0]
    } else {
        spec_join(parts.drop_last(), sep) + sep + parts.last()
    }
}

pub proof fn lemma_join_push(parts: Seq<Seq<char>>, x: Seq<char>, sep: Seq<char>)
    ensures
        spec_join(parts.push(x), sep) == if parts.len() == 0 {
            x
        } else {
            spec_join(parts, sep) + sep + x
        },
{
    assert(parts.push(x).drop_last() =~~= parts);
    assert(parts.push(x).last() == x);
}

/// Rendering of one type expression.
pub open spec fn spec_fmt_type(t: TypeExpr) -> Seq<char>
    decreases t,
{
    match t {
        TypeExpr::Primitive(name) => name@,
        TypeExpr::Generic(name) => name@,
        TypeExpr::ResolvedPath(p) => spec_fmt_type_path(p),
        TypeExpr::BorrowedRef { lifetime, is_mutable, type_ } => {
            "&"@ + (match lifetime {
                Some(lt) => lt@ + " "@,
                None => Seq::<char>::empty(),
            }) + (if is_mutable {
                "mut "@
            } else {
                Seq::<char>::empty()
            }) + spec_fmt_type(*type_)
        },
        TypeExpr::Tuple(types) => {
            if types@.len() == 0 {
                "()"@
            } else {
                "("@ + spec_join(spec_fmt_type_seq(types@), ", "@) + ")"@
            }
        },
        TypeExpr::Slice(ty) => "["@ + spec_fmt_type(*ty) + "]"@,
        TypeExpr::Array { type_, len } => "["@ + spec_fmt_type(*type_) + "; "@ + len@ + "]"@,
        TypeExpr::RawPointer { is_mutable, type_ } => {
            (if is_mutable {
                "*mut "@
            } else {
                "*const "@
            }) + spec_fmt_type(*type_)
        },
        TypeExpr::ImplTrait(bounds) => "impl "@ + spec_join(spec_fmt_bound_seq(bounds@), " + "@),
        TypeExpr::DynTrait { traits, lifetime } => {
            "dyn "@ + spec_join(
                spec_fmt_path_seq(traits@) + (match lifetime {
                    Some(lt) => seq![lt@],
                    None => Seq::<Seq<char>>::empty(),
                }),
                " + "@,
            )
        },
        TypeExpr::FunctionPointer(sig) => {
            "fn("@ + spec_join(spec_fmt_fnptr_inputs(sig.inputs@), ", "@) + ")"@ + (match sig.output {
                Some(o) => " -> "@ + spec_fmt_type(o),
                None => Seq::<char>::empty(),
            })
        },
        TypeExpr::QualifiedPath { name, self_type, trait_path } => {
            match trait_path {
                Some(tp) => "<"@ + spec_fmt_type(*self_type) + " as "@ + tp@ + ">::"@ + name@,
                None => "<"@ + spec_fmt_type(*self_type) + ">::"@ + name@,
            }
        },
        TypeExpr::Infer => "_"@,
        TypeExpr::Pat(ty) => spec_fmt_type(*ty),
    }
}

/// Rendering of a path with its generic arguments.
pub open spec fn spec_fmt_type_path(p: TypePath) -> Seq<char>
    decreases p,
{
    p.path@ + (match p.args {
        Some(a) => spec_fmt_generic_args(*a),
        None => Seq::<char>::empty(),
    })
}

/// Rendering of a generic-argument list.
pub open spec fn spec_fmt_generic_args(a: GenericArgs) -> Seq<char>
    decreases a,
{
    match a {
        GenericArgs::AngleBracketed { args, constraints } => {
            let parts = spec_fmt_generic_arg_seq(args@) + spec_fmt_constraint_seq(constraints@);
            if parts.len() == 0 {
                Seq::<char>::empty()
            } else {
                "<"@ + spec_join(parts, ", "@) + ">"@
            }
        },
        GenericArgs::Parenthesized { inputs, output } => {
            "("@ + spec_join(spec_fmt_type_seq(inputs@), ", "@) + ")"@ + (match output {
                Some(o) => " -> "@ + spec_fmt_type(*o),
                None => Seq::<char>::empty(),
            })
        },
        GenericArgs::ReturnTypeNotation => "(..)"@,
    }
}

/// Rendering of one generic argument.
pub open spec fn spec_fmt_generic_arg(g: GenericArg) -> Seq<char>
    decreases g,
{
    match g {
        GenericArg::Lifetime(lt) => lt@,
        GenericArg::Type(ty) => spec_fmt_type(ty),
        GenericArg::Const(expr) => expr@,
        GenericArg::Infer => "_"@,
    }
}

/// Rendering of one associated-item constraint.
pub open spec fn spec_fmt_constraint(c: AssocItemConstraint) -> Seq<char>
    decreases c,
{
    match c.binding {
        AssocItemConstraintKind::Equality(term) => c.name@ + " = "@ + spec_fmt_term(term),
        AssocItemConstraintKind::Constraint(bounds) => c.name@ + ": "@ + spec_join(
            spec_fmt_bound_seq(bounds@),
            " + "@,
        ),
    }
}

/// Rendering of a term.
pub open spec fn spec_fmt_term(t: Term) -> Seq<char>
    decreases t,
{
    match t {
        Term::Type(ty) => spec_fmt_type(ty),
        Term::Constant(e) => e@,
    }
}

/// Rendering of one bound.
pub open spec fn spec_fmt_bound(b: GenericBound) -> Seq<char>
    decreases b,
{
    match b {
        GenericBound::Trait(p) => spec_fmt_type_path(p),
        GenericBound::Outlives(lt) => lt@,
        GenericBound::Use => "use<..>"@,
    }
}

/// Renderings of a list of type expressions.
pub open spec fn spec_fmt_type_seq(ts: Seq<TypeExpr>) -> Seq<Seq<char>>
    decreases ts,
{
    if ts.len() == 0 {
        Seq::<Seq<char>>::empty()
    } else {
        spec_fmt_type_seq(ts.drop_last()).push(spec_fmt_type(ts.last()))
    }
}

/// Renderings of a list of paths.
pub open spec fn spec_fmt_path_seq(ps: Seq<TypePath>) -> Seq<Seq<char>>
    decreases ps,
{
    if ps.len() == 0 {
        Seq::<Seq<char>>::empty()
    } else {
        spec_fmt_path_seq(ps.drop_last()).push(spec_fmt_type_path(ps.last()))
    }
}

/// Renderings of a list of generic arguments.
pub open spec fn spec_fmt_generic_arg_seq(gs: Seq<GenericArg>) -> Seq<Seq<char>>
    decreases gs,
{
    if gs.len() == 0 {
        Seq::<Seq<char>>::empty()
    } else {
        spec_fmt_generic_arg_seq(gs.drop_last()).push(spec_fmt_generic_arg(gs.last()))
    }
}

/// Renderings of a list of associated-item constraints.
pub open spec fn spec_fmt_constraint_seq(cs: Seq<AssocItemConstraint>) -> Seq<Seq<char>>
    decreases cs,
{
    if cs.len() == 0 {
        Seq::<Seq<char>>::empty()
    } else {
        spec_fmt_constraint_seq(cs.drop_last()).push(spec_fmt_constraint(cs.last()))
    }
}

/// Renderings of a list of bounds.
pub open spec fn spec_fmt_bound_seq(bs: Seq<GenericBound>) -> Seq<Seq<char>>
    decreases bs,
{
    if bs.len() == 0 {
        Seq::<Seq<char>>::empty()
    } else {
        spec_fmt_bound_seq(bs.drop_last()).push(spec_fmt_bound(bs.last()))
    }
}

/// Rendering of a function-pointer parameter list: the parameter types
/// alone, names dropped.
pub open spec fn spec_fmt_fnptr_inputs(inputs: Seq<(String, TypeExpr)>) -> Seq<Seq<char>>
    decreases inputs,
{
    if inputs.len() == 0 {
        Seq::<Seq<char>>::empty()
    } else {
        spec_fmt_fnptr_inputs(inputs.drop_last()).push(spec_fmt_type(inputs.last().1))
    }
}

pub proof fn lemma_fmt_type_seq_take(ts: Seq<TypeExpr>, i: int)
    requires
        0 <= i < ts.len(),
    ensures
        spec_fmt_type_seq(ts.take(i + 1)) == spec_fmt_type_seq(ts.take(i)).push(
            spec_fmt_type(ts[i]),
        ),
{
    assert(ts.take(i + 1).drop_last() =~= ts.take(i));
    assert(ts.take(i + 1).last() == ts[i]);
}

pub proof fn lemma_fmt_path_seq_take(ps: Seq<TypePath>, i: int)
    requires
        0 <= i < ps.len(),
    ensures
        spec_fmt_path_seq(ps.take(i + 1)) == spec_fmt_path_seq(ps.take(i)).push(
            spec_fmt_type_path(ps[i]),
        ),
{
    assert(ps.take(i + 1).drop_last() =~= ps.take(i));
    assert(ps.take(i + 1).last() == ps[i]);
}

pub proof fn lemma_fmt_generic_arg_seq_take(gs: Seq<GenericArg>, i: int)
    requires
        0 <= i < gs.len(),
    ensures
        spec_fmt_generic_arg_seq(gs.take(i + 1)) == spec_fmt_generic_arg_seq(gs.take(i)).push(
            spec_fmt_generic_arg(gs[i]),
        ),
{
    assert(gs.take(i + 1).drop_last() =~= gs.take(i));
    assert(gs.take(i + 1).last() == gs[i]);
}

pub proof fn lemma_fmt_constraint_seq_take(cs: Seq<AssocItemConstraint>, i: int)
    requires
        0 <= i < cs.len(),
    ensures
        spec_fmt_constraint_seq(cs.take(i + 1)) == spec_fmt_constraint_seq(cs.take(i)).push(
            spec_fmt_constraint(cs[i]),
        ),
{
    assert(cs.take(i + 1).drop_last() =~= cs.take(i));
    assert(cs.take(i + 1).last() == cs[i]);
}

pub proof fn lemma_fmt_bound_seq_take(bs: Seq<GenericBound>, i: int)
    requires
        0 <= i < bs.len(),
    ensures
        spec_fmt_bound_seq(bs.take(i + 1)) == spec_fmt_bound_seq(bs.take(i)).push(
            spec_fmt_bound(bs[i]),
        ),
{
    assert(bs.take(i + 1).drop_last() =~= bs.take(i));
    assert(bs.take(i + 1).last() == bs[i]);
}

pub proof fn lemma_fmt_fnptr_inputs_take(inputs: Seq<(String, TypeExpr)>, i: int)
    requires
        0 <= i < inputs.len(),
    ensures
        spec_fmt_fnptr_inputs(inputs.take(i + 1)) == spec_fmt_fnptr_inputs(inputs.take(i)).push(
            spec_fmt_type(inputs[i].1),
        ),
{
    assert(inputs.take(i + 1).drop_last() =~= inputs.take(i));
    assert(inputs.take(i + 1).last() == inputs[i]);
}

pub proof fn lemma_join_concat(a: Seq<Seq<char>>, b: Seq<Seq<char>>, sep: Seq<char>)
    ensures
        spec_join(a + b, sep) == if a.len() == 0 {
            spec_join(b, sep)
        } else if b.len() == 0 {
            spec_join(a, sep)
        } else {
            spec_join(a, sep) + sep + spec_join(b, sep)
        },
    decreases b.len(),
{
    if b.len() == 0 {
        assert(a + b =~~= a);
    } else if a.len() == 0 {
        assert(a + b =~~= b);
    } else if b.len() == 1 {
        assert((a + b).drop_last() =~~= a);
        assert((a + b).last() == b[0]);
    } else {
        lemma_join_concat(a, b.drop_last(), sep);
        assert((a + b).drop_last() =~~= a + b.drop_last());
        assert((a + b).last() == b.last());
        assert(spec_join(a, sep) + sep + spec_join(b.drop_last(), sep) + sep + b.last() =~= spec_join(
            a,
            sep,
        ) + sep + (spec_join(b.drop_last(), sep) + sep + b.last()));
    }
}

/// Render a `TypeExpr` to a human-readable string.
pub fn format_type(t: &TypeExpr) -> (r: String)
    ensures
        r@ == spec_fmt_type(*t),
    decreases *t,
{
    match t {
        TypeExpr::Primitive(name) => name.clone(),
        TypeExpr::Generic(name) => name.clone(),
        TypeExpr::ResolvedPath(p) => format_type_path(p),
        TypeExpr::BorrowedRef { lifetime, is_mutable, type_ } => {
            let mut s = String::from_str("&");
            match lifetime {
                Some(lt) => {
                    s.append(lt.as_str());
                    s.append(" ");
                },
                None => {},
            }
            if *is_mutable {
                s.append("mut ");
            }
            let inner = format_type(&**type_);
            s.append(inner.as_str());
            proof {
                assert(s@ =~= spec_fmt_type(*t));
            }
            s
        },
        TypeExpr::Tuple(types) => {
            if types.len() == 0 {
                String::from_str("()")
            } else {
                let mut s = String::from_str("(");
                let joined = format_type_list(types);
                s.append(joined.as_str());
                s.append(")");
                proof {
                    assert(s@ =~= spec_fmt_type(*t));
                }
                s
            }
        },
        TypeExpr::Slice(ty) => {
            let mut s = String::from_str("[");
            let inner = format_type(&**ty);
            s.append(inner.as_str());
            s.append("]");
            proof {
                assert(s@ =~= spec_fmt_type(*t));
            }
            s
        },
        TypeExpr::Array { type_, len } => {
            let mut s = String::from_str("[");
            let inner = format_type(&**type_);
            s.append(inner.as_str());
            s.append("; ");
            s.append(len.as_str());
            s.append("]");
            proof {
                assert(s@ =~= spec_fmt_type(*t));
            }
            s
        },
        TypeExpr::RawPointer { is_mutable, type_ } => {
            let mut s = if *is_mutable {
                String::from_str("*mut ")
            } else {
                String::from_str("*const ")
            };
            let inner = format_type(&**type_);
            s.append(inner.as_str());
            proof {
                assert(s@ =~= spec_fmt_type(*t));
            }
            s
        },
        TypeExpr::ImplTrait(bounds) => {
            let mut s = String::from_str("impl ");
            let joined = format_bounds(bounds);
            s.append(joined.as_str());
            proof {
                assert(s@ =~= spec_fmt_type(*t));
            }
            s
        },
        TypeExpr::DynTrait { traits, lifetime } => {
            let mut joined = format_path_list(traits);
            match lifetime {
                Some(lt) => {
                    if traits.len() > 0 {
                        joined.append(" + ");
                    }
                    joined.append(lt.as_str());
                    proof {
                        lemma_join_push(spec_fmt_path_seq(traits@), lt@, " + "@);
                        assert(spec_fmt_path_seq(traits@).push(lt@) =~~= spec_fmt_path_seq(traits@)
                            + seq![lt@]);
                    }
                },
                None => {
                    proof {
                        assert(spec_fmt_path_seq(traits@) + Seq::<Seq<char>>::empty()
                            =~~= spec_fmt_path_seq(traits@));
                    }
                },
            }
            let mut s = String::from_str("dyn ");
            s.append(joined.as_str());
            proof {
                assert(s@ =~= spec_fmt_type(*t));
            }
            s
        },
        TypeExpr::FunctionPointer(sig) => {
            let mut s = String::from_str("fn(");
            let joined = format_fnptr_inputs(&sig.inputs);
            s.append(joined.as_str());
            s.append(")");
            match &sig.output {
                Some(o) => {
                    s.append(" -> ");
                    let out = format_type(o);
                    s.append(out.as_str());
                },
                None => {},
            }
            proof {
                assert(s@ =~= spec_fmt_type(*t));
            }
            s
        },
        TypeExpr::QualifiedPath { name, self_type, trait_path } => {
            let mut s = String::from_str("<");
            let inner = format_type(&**self_type);
            s.append(inner.as_str());
            match trait_path {
                Some(tp) => {
                    s.append(" as ");
                    s.append(tp.as_str());
                },
                None => {},
            }
            s.append(">::");
            s.append(name.as_str());
            proof {
                assert(s@ =~= spec_fmt_type(*t));
            }
            s
        },
        TypeExpr::Infer => String::from_str("_"),
        TypeExpr::Pat(ty) => format_type(&**ty),
    }
}

/// Render a path and its generic arguments.
pub fn format_type_path(p: &TypePath) -> (r: String)
    ensures
        r@ == spec_fmt_type_path(*p),
    decreases *p,
{
    let mut s = p.path.clone();
    match &p.args {
        Some(a) => {
            let args = format_generic_args(&**a);
            s.append(args.as_str());
        },
        None => {},
    }
    proof {
        assert(s@ =~= spec_fmt_type_path(*p));
    }
    s
}

/// Render a generic-argument list, empty when there is nothing to show.
pub fn format_generic_args(a: &GenericArgs) -> (r: String)
    ensures
        r@ == spec_fmt_generic_args(*a),
    decreases *a,
{
    match a {
        GenericArgs::AngleBracketed { args, constraints } => {
            let ghost all_parts = spec_fmt_generic_arg_seq(args@) + spec_fmt_constraint_seq(
                constraints@,
            );
            let ja = format_generic_arg_list(args);
            let jc = format_constraint_list(constraints);
            proof {
                lemma_join_concat(
                    spec_fmt_generic_arg_seq(args@),
                    spec_fmt_constraint_seq(constraints@),
                    ", "@,
                );
            }
            if args.len() == 0 && constraints.len() == 0 {
                String::new()
            } else {
                let mut s = String::from_str("<");
                if args.len() == 0 {
                    s.append(jc.as_str());
                } else if constraints.len() == 0 {
                    s.append(ja.as_str());
                } else {
                    s.append(ja.as_str());
                    s.append(", ");
                    s.append(jc.as_str());
                }
                s.append(">");
                proof {
                    assert(s@ =~= spec_fmt_generic_args(*a));
                }
                s
            }
        },
        GenericArgs::Parenthesized { inputs, output } => {
            let mut s = String::from_str("(");
            let joined = format_type_list(inputs);
            s.append(joined.as_str());
            s.append(")");
            match output {
                Some(o) => {
                    s.append(" -> ");
                    let out = format_type(&**o);
                    s.append(out.as_str());
                },
                None => {},
            }
            proof {
                assert(s@ =~= spec_fmt_generic_args(*a));
            }
            s
        },
        GenericArgs::ReturnTypeNotation => String::from_str("(..)"),
    }
}

/// Render one generic argument.
pub fn format_generic_arg(g: &GenericArg) -> (r: String)
    ensures
        r@ == spec_fmt_generic_arg(*g),
    decreases *g,
{
    match g {
        GenericArg::Lifetime(lt) => lt.clone(),
        GenericArg::Type(ty) => format_type(ty),
        GenericArg::Const(expr) => expr.clone(),
        GenericArg::Infer => String::from_str("_"),
    }
}

/// Render one associated-item constraint.
pub fn format_constraint(c: &AssocItemConstraint) -> (r: String)
    ensures
        r@ == spec_fmt_constraint(*c),
    decreases *c,
{
    let mut s = c.name.clone();
    match &c.binding {
        AssocItemConstraintKind::Equality(term) => {
            s.append(" = ");
            let v = format_term(term);
            s.append(v.as_str());
        },
        AssocItemConstraintKind::Constraint(bounds) => {
            s.append(": ");
            let v = format_bounds(bounds);
            s.append(v.as_str());
        },
    }
    proof {
        assert(s@ =~= spec_fmt_constraint(*c));
    }
    s
}

/// Render a term.
pub fn format_term(t: &Term) -> (r: String)
    ensures
        r@ == spec_fmt_term(*t),
    decreases *t,
{
    match t {
        Term::Type(ty) => format_type(ty),
        Term::Constant(e) => e.clone(),
    }
}

/// Render one bound.
pub fn format_bound(b: &GenericBound) -> (r: String)
    ensures
        r@ == spec_fmt_bound(*b),
    decreases *b,
{
    match b {
        GenericBound::Trait(p) => format_type_path(p),
        GenericBound::Outlives(lt) => lt.clone(),
        GenericBound::Use => String::from_str("use<..>"),
    }
}

/// Render a bound list joined with ` + `.
pub fn format_bounds(bounds: &Vec<GenericBound>) -> (r: String)
    ensures
        r@ == spec_join(spec_fmt_bound_seq(bounds@), " + "@),
        spec_fmt_bound_seq(bounds@).len() == bounds@.len(),
    decreases *bounds,
{
    let mut joined = String::new();
    let n: usize = bounds.len();
    let mut i: usize = 0;
    proof {
        assert(bounds@.take(0) =~= Seq::<GenericBound>::empty());
    }
    while i < n
        invariant
            n == bounds@.len(),
            i <= n,
            spec_fmt_bound_seq(bounds@.take(i as int)).len() == i,
            joined@ == spec_join(spec_fmt_bound_seq(bounds@.take(i as int)), " + "@),
        decreases n - i,
    {
        if i > 0 {
            joined.append(" + ");
        }
        let part = format_bound(&bounds[i]);
        joined.append(part.as_str());
        proof {
            lemma_fmt_bound_seq_take(bounds@, i as int);
            lemma_join_push(
                spec_fmt_bound_seq(bounds@.take(i as int)),
                spec_fmt_bound(bounds@[i as int]),
                " + "@,
            );
        }
        i = i + 1;
    }
    proof {
        assert(bounds@.take(n as int) =~= bounds@);
    }
    joined
}

/// Render a type list joined with `, `.
pub fn format_type_list(ts: &Vec<TypeExpr>) -> (r: String)
    ensures
        r@ == spec_join(spec_fmt_type_seq(ts@), ", "@),
        spec_fmt_type_seq(ts@).len() == ts@.len(),
    decreases *ts,
{
    let mut joined = String::new();
    let n: usize = ts.len();
    let mut i: usize = 0;
    proof {
        assert(ts@.take(0) =~= Seq::<TypeExpr>::empty());
    }
    while i < n
        invariant
            n == ts@.len(),
            i <= n,
            spec_fmt_type_seq(ts@.take(i as int)).len() == i,
            joined@ == spec_join(spec_fmt_type_seq(ts@.take(i as int)), ", "@),
        decreases n - i,
    {
        if i > 0 {
            joined.append(", ");
        }
        let part = format_type(&ts[i]);
        joined.append(part.as_str());
        proof {
            lemma_fmt_type_seq_take(ts@, i as int);
            lemma_join_push(
                spec_fmt_type_seq(ts@.take(i as int)),
                spec_fmt_type(ts@[i as int]),
                ", "@,
            );
        }
        i = i + 1;
    }
    proof {
        assert(ts@.take(n as int) =~= ts@);
    }
    joined
}

/// Render a path list joined with ` + `.
pub fn format_path_list(ps: &Vec<TypePath>) -> (r: String)
    ensures
        r@ == spec_join(spec_fmt_path_seq(ps@), " + "@),
        spec_fmt_path_seq(ps@).len() == ps@.len(),
    decreases *ps,
{
    let mut joined = String::new();
    let n: usize = ps.len();
    let mut i: usize = 0;
    proof {
        assert(ps@.take(0) =~= Seq::<TypePath>::empty());
    }
    while i < n
        invariant
            n == ps@.len(),
            i <= n,
            spec_fmt_path_seq(ps@.take(i as int)).len() == i,
            joined@ == spec_join(spec_fmt_path_seq(ps@.take(i as int)), " + "@),
        decreases n - i,
    {
        if i > 0 {
            joined.append(" + ");
        }
        let part = format_type_path(&ps[i]);
        joined.append(part.as_str());
        proof {
            lemma_fmt_path_seq_take(ps@, i as int);
            lemma_join_push(
                spec_fmt_path_seq(ps@.take(i as int)),
                spec_fmt_type_path(ps@[i as int]),
                " + "@,
            );
        }
        i = i + 1;
    }
    proof {
        assert(ps@.take(n as int) =~= ps@);
    }
    joined
}

/// Render a generic-argument list joined with `, `.
pub fn format_generic_arg_list(gs: &Vec<GenericArg>) -> (r: String)
    ensures
        r@ == spec_join(spec_fmt_generic_arg_seq(gs@), ", "@),
        spec_fmt_generic_arg_seq(gs@).len() == gs@.len(),
    decreases *gs,
{
    let mut joined = String::new();
    let n: usize = gs.len();
    let mut i: usize = 0;
    proof {
        assert(gs@.take(0) =~= Seq::<GenericArg>::empty());
    }
    while i < n
        invariant
            n == gs@.len(),
            i <= n,
            spec_fmt_generic_arg_seq(gs@.take(i as int)).len() == i,
            joined@ == spec_join(spec_fmt_generic_arg_seq(gs@.take(i as int)), ", "@),
        decreases n - i,
    {
        if i > 0 {
            joined.append(", ");
        }
        let part = format_generic_arg(&gs[i]);
        joined.append(part.as_str());
        proof {
            lemma_fmt_generic_arg_seq_take(gs@, i as int);
            lemma_join_push(
                spec_fmt_generic_arg_seq(gs@.take(i as int)),
                spec_fmt_generic_arg(gs@[i as int]),
                ", "@,
            );
        }
        i = i + 1;
    }
    proof {
        assert(gs@.take(n as int) =~= gs@);
    }
    joined
}

/// Render a constraint list joined with `, `.
pub fn format_constraint_list(cs: &Vec<AssocItemConstraint>) -> (r: String)
    ensures
        r@ == spec_join(spec_fmt_constraint_seq(cs@), ", "@),
        spec_fmt_constraint_seq(cs@).len() == cs@.len(),
    decreases *cs,
{
    let mut joined = String::new();
    let n: usize = cs.len();
    let mut i: usize = 0;
    proof {
        assert(cs@.take(0) =~= Seq::<AssocItemConstraint>::empty());
    }
    while i < n
        invariant
            n == cs@.len(),
            i <= n,
            spec_fmt_constraint_seq(cs@.take(i as int)).len() == i,
            joined@ == spec_join(spec_fmt_constraint_seq(cs@.take(i as int)), ", "@),
        decreases n - i,
    {
        if i > 0 {
            joined.append(", ");
        }
        let part = format_constraint(&cs[i]);
        joined.append(part.as_str());
        proof {
            lemma_fmt_constraint_seq_take(cs@, i as int);
            lemma_join_push(
                spec_fmt_constraint_seq(cs@.take(i as int)),
                spec_fmt_constraint(cs@[i as int]),
                ", "@,
            );
        }
        i = i + 1;
    }
    proof {
        assert(cs@.take(n as int) =~= cs@);
    }
    joined
}

/// Render a function-pointer parameter list: types joined with `, `.
pub fn format_fnptr_inputs(inputs: &Vec<(String, TypeExpr)>) -> (r: String)
    ensures
        r@ == spec_join(spec_fmt_fnptr_inputs(inputs@), ", "@),
        spec_fmt_fnptr_inputs(inputs@).len() == inputs@.len(),
    decreases *inputs,
{
    let mut joined = String::new();
    let n: usize = inputs.len();
    let mut i: usize = 0;
    proof {
        assert(inputs@.take(0) =~= Seq::<(String, TypeExpr)>::empty());
    }
    while i < n
        invariant
            n == inputs@.len(),
            i <= n,
            spec_fmt_fnptr_inputs(inputs@.take(i as int)).len() == i,
            joined@ == spec_join(spec_fmt_fnptr_inputs(inputs@.take(i as int)), ", "@),
        decreases n - i,
    {
        if i > 0 {
            joined.append(", ");
        }
        let part = format_type(&inputs[i].1);
        joined.append(part.as_str());
        proof {
            lemma_fmt_fnptr_inputs_take(inputs@, i as int);
            lemma_join_push(
                spec_fmt_fnptr_inputs(inputs@.take(i as int)),
                spec_fmt_type(inputs@[i as int].1),
                ", "@,
            );
        }
        i = i + 1;
    }
    proof {
        assert(inputs@.take(n as int) =~= inputs@);
    }
    joined
}

} // verus!
