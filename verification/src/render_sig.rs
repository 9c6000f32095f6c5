//! Rendering of generic parameter lists, `where` clauses and function
//! signatures.

use vstd::prelude::*;
use crate::docmodel::{
    FunctionDef, GenericParamDef, GenericParamDefKind, Generics, TypeExpr, WherePredicate,
};
use crate::render_type::{
    format_bounds, format_term, format_type, lemma_join_push, spec_fmt_bound_seq, spec_fmt_term,
    spec_fmt_type, spec_join,
};

verus! {

/// The views of a list of strings.
pub open spec fn spec_str_views(ss: Seq<String>) -> Seq<Seq<char>>
    decreases ss.len(),
{
    if ss.len() == 0 {
        Seq::<Seq<char>>::empty()
    } else {
        spec_str_views(ss.drop_last()).push(ss.last()@)
    }
}

pub proof fn lemma_str_views_take(ss: Seq<String>, i: int)
    requires
        0 <= i < ss.len(),
    ensures
        spec_str_views(ss.take(i + 1)) == spec_str_views(ss.take(i)).push(ss[i]@),
{
    assert(ss.take(i + 1).drop_last() =~= ss.take(i));
    assert(ss.take(i + 1).last() == ss[i]);
}

/// Join a list of strings with a separator.
pub fn join_strings(ss: &Vec<String>, sep: &str) -> (r: String)
    ensures
        r@ == spec_join(spec_str_views(ss@), sep@),
        spec_str_views(ss@).len() == ss@.len(),
{
    let mut joined = String::new();
    let n: usize = ss.len();
    let mut i: usize = 0;
    proof {
        assert(ss@.take(0) =~= Seq::<String>::empty());
    }
    while i < n
        invariant
            n == ss@.len(),
            i <= n,
            spec_str_views(ss@.take(i as int)).len() == i,
            joined@ == spec_join(spec_str_views(ss@.take(i as int)), sep@),
        decreases n - i,
    {
        if i > 0 {
            joined.append(sep);
        }
        joined.append(ss[i].as_str());
        proof {
            lemma_str_views_take(ss@, i as int);
            lemma_join_push(spec_str_views(ss@.take(i as int)), ss@[i as int]@, sep@);
        }
        i = i + 1;
    }
    proof {
        assert(ss@.take(n as int) =~= ss@);
    }
    joined
}

/// Whether a generic parameter is a compiler-synthesized type parameter,
/// which parameter lists omit.
pub open spec fn spec_is_synthetic(p: GenericParamDef) -> bool {
    match p.kind {
        GenericParamDefKind::Type { is_synthetic, .. } => is_synthetic,
        _ => false,
    }
}

/// Rendering of one generic parameter.
pub open spec fn spec_fmt_generic_param(p: GenericParamDef) -> Seq<char> {
    match p.kind {
        GenericParamDefKind::Lifetime => p.name@,
        GenericParamDefKind::Type { bounds, default, .. } => {
            p.name@ + (if bounds@.len() > 0 {
                ": "@ + spec_join(spec_fmt_bound_seq(bounds@), " + "@)
            } else {
                Seq::<char>::empty()
            }) + (match default {
                Some(d) => " = "@ + spec_fmt_type(d),
                None => Seq::<char>::empty(),
            })
        },
        GenericParamDefKind::Const { type_, default } => {
            "const "@ + p.name@ + ": "@ + spec_fmt_type(type_) + (match default {
                Some(d) => " = "@ + d@,
                None => Seq::<char>::empty(),
            })
        },
    }
}

/// Renderings of the non-synthetic parameters of a list.
pub open spec fn spec_fmt_kept_params(ps: Seq<GenericParamDef>) -> Seq<Seq<char>>
    decreases ps.len(),
{
    if ps.len() == 0 {
        Seq::<Seq<char>>::empty()
    } else if spec_is_synthetic(ps.last()) {
        spec_fmt_kept_params(ps.drop_last())
    } else {
        spec_fmt_kept_params(ps.drop_last()).push(spec_fmt_generic_param(ps.last()))
    }
}

pub proof fn lemma_fmt_kept_params_take(ps: Seq<GenericParamDef>, i: int)
    requires
        0 <= i < ps.len(),
    ensures
        spec_fmt_kept_params(ps.take(i + 1)) == if spec_is_synthetic(ps[i]) {
            spec_fmt_kept_params(ps.take(i))
        } else {
            spec_fmt_kept_params(ps.take(i)).push(spec_fmt_generic_param(ps[i]))
        },
{
    assert(ps.take(i + 1).drop_last() =~= ps.take(i));
    assert(ps.take(i + 1).last() == ps[i]);
}

/// Rendering of a generic parameter list: empty when no parameter remains
/// after synthesized ones are omitted, otherwise angle-bracketed.
pub open spec fn spec_fmt_generics(g: Generics) -> Seq<char> {
    let parts = spec_fmt_kept_params(g.params@);
    if parts.len() == 0 {
        Seq::<char>::empty()
    } else {
        "<"@ + spec_join(parts, ", "@) + ">"@
    }
}

/// Render one generic parameter.
pub fn format_generic_param(p: &GenericParamDef) -> (r: String)
    ensures
        r@ == spec_fmt_generic_param(*p),
{
    match &p.kind {
        GenericParamDefKind::Lifetime => p.name.clone(),
        GenericParamDefKind::Type { bounds, default, .. } => {
            let mut s = p.name.clone();
            if bounds.len() > 0 {
                s.append(": ");
                let b = format_bounds(bounds);
                s.append(b.as_str());
            }
            match default {
                Some(d) => {
                    s.append(" = ");
                    let dv = format_type(d);
                    s.append(dv.as_str());
                },
                None => {},
            }
            proof {
                assert(s@ =~= spec_fmt_generic_param(*p));
            }
            s
        },
        GenericParamDefKind::Const { type_, default } => {
            let mut s = String::from_str("const ");
            s.append(p.name.as_str());
            s.append(": ");
            let tv = format_type(type_);
            s.append(tv.as_str());
            match default {
                Some(d) => {
                    s.append(" = ");
                    s.append(d.as_str());
                },
                None => {},
            }
            proof {
                assert(s@ =~= spec_fmt_generic_param(*p));
            }
            s
        },
    }
}

/// Render a generic parameter list, omitting compiler-synthesized type
/// parameters; empty when nothing remains.
pub fn format_generics(g: &Generics) -> (r: String)
    ensures
        r@ == spec_fmt_generics(*g),
{
    let mut joined = String::new();
    let n: usize = g.params.len();
    let mut i: usize = 0;
    let mut kept: usize = 0;
    proof {
        assert(g.params@.take(0) =~= Seq::<GenericParamDef>::empty());
    }
    while i < n
        invariant
            n == g.params@.len(),
            i <= n,
            kept == spec_fmt_kept_params(g.params@.take(i as int)).len(),
            kept <= i,
            joined@ == spec_join(spec_fmt_kept_params(g.params@.take(i as int)), ", "@),
        decreases n - i,
    {
        let synthetic = match &g.params[i].kind {
            GenericParamDefKind::Type { is_synthetic, .. } => *is_synthetic,
            _ => false,
        };
        if !synthetic {
            if kept > 0 {
                joined.append(", ");
            }
            let part = format_generic_param(&g.params[i]);
            joined.append(part.as_str());
            proof {
                lemma_join_push(
                    spec_fmt_kept_params(g.params@.take(i as int)),
                    spec_fmt_generic_param(g.params@[i as int]),
                    ", "@,
                );
            }
            kept = kept + 1;
        }
        proof {
            lemma_fmt_kept_params_take(g.params@, i as int);
        }
        i = i + 1;
    }
    proof {
        assert(g.params@.take(n as int) =~= g.params@);
    }
    if kept == 0 {
        String::new()
    } else {
        let mut s = String::from_str("<");
        s.append(joined.as_str());
        s.append(">");
        proof {
            assert(s@ =~= spec_fmt_generics(*g));
        }
        s
    }
}

/// Rendering of one `where` predicate.
pub open spec fn spec_fmt_where_pred(wp: WherePredicate) -> Seq<char> {
    match wp {
        WherePredicate::BoundPredicate { type_, bounds } => {
            spec_fmt_type(type_) + ": "@ + spec_join(spec_fmt_bound_seq(bounds@), " + "@)
        },
        WherePredicate::LifetimePredicate { lifetime, outlives } => {
            lifetime@ + ": "@ + spec_join(spec_str_views(outlives@), " + "@)
        },
        WherePredicate::EqPredicate { lhs, rhs } => {
            spec_fmt_type(lhs) + " = "@ + spec_fmt_term(rhs)
        },
    }
}

/// Renderings of a list of `where` predicates.
pub open spec fn spec_fmt_where_pred_seq(wps: Seq<WherePredicate>) -> Seq<Seq<char>>
    decreases wps.len(),
{
    if wps.len() == 0 {
        Seq::<Seq<char>>::empty()
    } else {
        spec_fmt_where_pred_seq(wps.drop_last()).push(spec_fmt_where_pred(wps.last()))
    }
}

pub proof fn lemma_fmt_where_pred_seq_take(wps: Seq<WherePredicate>, i: int)
    requires
        0 <= i < wps.len(),
    ensures
        spec_fmt_where_pred_seq(wps.take(i + 1)) == spec_fmt_where_pred_seq(wps.take(i)).push(
            spec_fmt_where_pred(wps[i]),
        ),
{
    assert(wps.take(i + 1).drop_last() =~= wps.take(i));
    assert(wps.take(i + 1).last() == wps[i]);
}

/// Rendering of a `where` clause: empty when there is no predicate.
pub open spec fn spec_fmt_where_clause(g: Generics) -> Seq<char> {
    if g.where_predicates@.len() == 0 {
        Seq::<char>::empty()
    } else {
        "\nwhere\n    "@ + spec_join(spec_fmt_where_pred_seq(g.where_predicates@), ",\n    "@)
    }
}

/// Render one `where` predicate.
pub fn format_where_pred(wp: &WherePredicate) -> (r: String)
    ensures
        r@ == spec_fmt_where_pred(*wp),
{
    match wp {
        WherePredicate::BoundPredicate { type_, bounds } => {
            let mut s = format_type(type_);
            s.append(": ");
            let b = format_bounds(bounds);
            s.append(b.as_str());
            proof {
                assert(s@ =~= spec_fmt_where_pred(*wp));
            }
            s
        },
        WherePredicate::LifetimePredicate { lifetime, outlives } => {
            let mut s = lifetime.clone();
            s.append(": ");
            let o = join_strings(outlives, " + ");
            s.append(o.as_str());
            proof {
                assert(s@ =~= spec_fmt_where_pred(*wp));
            }
            s
        },
        WherePredicate::EqPredicate { lhs, rhs } => {
            let mut s = format_type(lhs);
            s.append(" = ");
            let r2 = format_term(rhs);
            s.append(r2.as_str());
            proof {
                assert(s@ =~= spec_fmt_where_pred(*wp));
            }
            s
        },
    }
}

/// Render a `where` clause, only when at least one predicate exists.
pub fn format_where_clause(g: &Generics) -> (r: String)
    ensures
        r@ == spec_fmt_where_clause(*g),
{
    let n: usize = g.where_predicates.len();
    if n == 0 {
        return String::new();
    }
    let mut joined = String::new();
    let mut i: usize = 0;
    proof {
        assert(g.where_predicates@.take(0) =~= Seq::<WherePredicate>::empty());
    }
    while i < n
        invariant
            n == g.where_predicates@.len(),
            i <= n,
            spec_fmt_where_pred_seq(g.where_predicates@.take(i as int)).len() == i,
            joined@ == spec_join(
                spec_fmt_where_pred_seq(g.where_predicates@.take(i as int)),
                ",\n    "@,
            ),
        decreases n - i,
    {
        if i > 0 {
            joined.append(",\n    ");
        }
        let part = format_where_pred(&g.where_predicates[i]);
        joined.append(part.as_str());
        proof {
            lemma_fmt_where_pred_seq_take(g.where_predicates@, i as int);
            lemma_join_push(
                spec_fmt_where_pred_seq(g.where_predicates@.take(i as int)),
                spec_fmt_where_pred(g.where_predicates@[i as int]),
                ",\n    "@,
            );
        }
        i = i + 1;
    }
    proof {
        assert(g.where_predicates@.take(n as int) =~= g.where_predicates@);
    }
    let mut s = String::from_str("\nwhere\n    ");
    s.append(joined.as_str());
    proof {
        assert(s@ =~= spec_fmt_where_clause(*g));
    }
    s
}

/// Renderings of a signature's parameters as `name: type`.
pub open spec fn spec_fmt_sig_inputs(inputs: Seq<(String, TypeExpr)>) -> Seq<Seq<char>>
    decreases inputs.len(),
{
    if inputs.len() == 0 {
        Seq::<Seq<char>>::empty()
    } else {
        spec_fmt_sig_inputs(inputs.drop_last()).push(
            inputs.last().0@ + ": "@ + spec_fmt_type(inputs.last().1),
        )
    }
}

pub proof fn lemma_fmt_sig_inputs_take(inputs: Seq<(String, TypeExpr)>, i: int)
    requires
        0 <= i < inputs.len(),
    ensures
        spec_fmt_sig_inputs(inputs.take(i + 1)) == spec_fmt_sig_inputs(inputs.take(i)).push(
            inputs[i].0@ + ": "@ + spec_fmt_type(inputs[i].1),
        ),
{
    assert(inputs.take(i + 1).drop_last() =~= inputs.take(i));
    assert(inputs.take(i + 1).last() == inputs[i]);
}

/// Rendering of a full function signature: header flags, name, generics,
/// parameter list, return type and `where` clause.
pub open spec fn spec_fmt_function_signature(name: Seq<char>, f: FunctionDef) -> Seq<char> {
    (if f.is_const {
        "const "@
    } else {
        Seq::<char>::empty()
    }) + (if f.is_async {
        "async "@
    } else {
        Seq::<char>::empty()
    }) + (if f.is_unsafe {
        "unsafe "@
    } else {
        Seq::<char>::empty()
    }) + "fn "@ + name + spec_fmt_generics(f.generics) + "("@ + spec_join(
        spec_fmt_sig_inputs(f.sig.inputs@),
        ", "@,
    ) + ")"@ + (match f.sig.output {
        Some(ret) => " -> "@ + spec_fmt_type(ret),
        None => Seq::<char>::empty(),
    }) + spec_fmt_where_clause(f.generics)
}

/// Render a full function signature.
pub fn format_function_signature(name: &str, f: &FunctionDef) -> (r: String)
    ensures
        r@ == spec_fmt_function_signature(name@, *f),
{
    let mut s = String::new();
    if f.is_const {
        s.append("const ");
    }
    if f.is_async {
        s.append("async ");
    }
    if f.is_unsafe {
        s.append("unsafe ");
    }
    s.append("fn ");
    s.append(name);
    let gens = format_generics(&f.generics);
    s.append(gens.as_str());
    s.append("(");
    let mut joined = String::new();
    let n: usize = f.sig.inputs.len();
    let mut i: usize = 0;
    proof {
        assert(f.sig.inputs@.take(0) =~= Seq::<(String, TypeExpr)>::empty());
    }
    while i < n
        invariant
            n == f.sig.inputs@.len(),
            i <= n,
            spec_fmt_sig_inputs(f.sig.inputs@.take(i as int)).len() == i,
            joined@ == spec_join(spec_fmt_sig_inputs(f.sig.inputs@.take(i as int)), ", "@),
        decreases n - i,
    {
        if i > 0 {
            joined.append(", ");
        }
        joined.append(f.sig.inputs[i].0.as_str());
        joined.append(": ");
        let tv = format_type(&f.sig.inputs[i].1);
        joined.append(tv.as_str());
        proof {
            lemma_fmt_sig_inputs_take(f.sig.inputs@, i as int);
            lemma_join_push(
                spec_fmt_sig_inputs(f.sig.inputs@.take(i as int)),
                f.sig.inputs@[i as int].0@ + ": "@ + spec_fmt_type(f.sig.inputs@[i as int].1),
                ", "@,
            );
            assert(joined@ =~= spec_join(
                spec_fmt_sig_inputs(f.sig.inputs@.take(i as int + 1)),
                ", "@,
            ));
        }
        i = i + 1;
    }
    proof {
        assert(f.sig.inputs@.take(n as int) =~= f.sig.inputs@);
    }
    s.append(joined.as_str());
    s.append(")");
    match &f.sig.output {
        Some(ret) => {
            s.append(" -> ");
            let rv = format_type(ret);
            s.append(rv.as_str());
        },
        None => {},
    }
    let wc = format_where_clause(&f.generics);
    s.append(wc.as_str());
    proof {
        assert(s@ =~= spec_fmt_function_signature(name@, *f));
    }
    s
}

} // verus!
