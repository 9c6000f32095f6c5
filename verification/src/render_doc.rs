//! Document-level rendering: full item detail, module listings and search
//! results, plus the line-splitting helpers their doc-text handling needs.

use vstd::prelude::*;
use crate::docmodel::{DocTree, Item, ItemEnum};
use crate::render_def::{
    format_enum_definition, format_struct_definition, format_struct_methods,
    format_trait_definition, item_name, spec_fmt_enum_definition, spec_fmt_struct_definition,
    spec_fmt_struct_methods, spec_fmt_trait_definition, spec_item_name,
};
use crate::render_sig::{
    format_function_signature, format_generics, join_strings, spec_fmt_function_signature,
    spec_fmt_generics, spec_str_views,
};
use crate::render_type::{format_type, lemma_join_push, spec_fmt_type, spec_join};
use crate::text::{find_from, first_sentence, spec_first_sentence, spec_dec, u64_string};

verus! {

/// The short kind label of an item payload.
pub open spec fn spec_item_kind_label(inner: ItemEnum) -> Seq<char> {
    match inner {
        ItemEnum::Module { .. } => "mod"@,
        ItemEnum::Function(..) => "fn"@,
        ItemEnum::Struct(..) => "struct"@,
        ItemEnum::Enum(..) => "enum"@,
        ItemEnum::Trait(..) => "trait"@,
        ItemEnum::TypeAlias { .. } => "type"@,
        ItemEnum::Constant { .. } => "const"@,
        ItemEnum::Macro(..) => "macro"@,
        ItemEnum::ProcMacro => "proc_macro"@,
        ItemEnum::Union => "union"@,
        ItemEnum::Static => "static"@,
        ItemEnum::Variant(..) => "variant"@,
        ItemEnum::StructField(..) => "field"@,
        ItemEnum::Impl { .. } => "impl"@,
        ItemEnum::Use => "use"@,
        ItemEnum::ExternCrate => "extern_crate"@,
        ItemEnum::TraitAlias => "trait_alias"@,
        ItemEnum::ExternType => "extern_type"@,
        ItemEnum::AssocConst { .. } => "assoc_const"@,
        ItemEnum::AssocType { .. } => "assoc_type"@,
        ItemEnum::Primitive(..) => "primitive"@,
    }
}

/// The short kind label of an item payload.
pub fn item_kind_label(inner: &ItemEnum) -> (r: &'static str)
    ensures
        r@ == spec_item_kind_label(*inner),
{
    match inner {
        ItemEnum::Module { .. } => "mod",
        ItemEnum::Function(..) => "fn",
        ItemEnum::Struct(..) => "struct",
        ItemEnum::Enum(..) => "enum",
        ItemEnum::Trait(..) => "trait",
        ItemEnum::TypeAlias { .. } => "type",
        ItemEnum::Constant { .. } => "const",
        ItemEnum::Macro(..) => "macro",
        ItemEnum::ProcMacro => "proc_macro",
        ItemEnum::Union => "union",
        ItemEnum::Static => "static",
        ItemEnum::Variant(..) => "variant",
        ItemEnum::StructField(..) => "field",
        ItemEnum::Impl { .. } => "impl",
        ItemEnum::Use => "use",
        ItemEnum::ExternCrate => "extern_crate",
        ItemEnum::TraitAlias => "trait_alias",
        ItemEnum::ExternType => "extern_type",
        ItemEnum::AssocConst { .. } => "assoc_const",
        ItemEnum::AssocType { .. } => "assoc_type",
        ItemEnum::Primitive(..) => "primitive",
    }
}

/// A line with its trailing carriage return stripped.
pub open spec fn spec_strip_cr(l: Seq<char>) -> Seq<char> {
    if l.len() > 0 && l.last() == '\r' {
        l.drop_last()
    } else {
        l
    }
}

/// The lines of a text, as `str::lines` yields them: split at newlines,
/// a carriage return stripped only directly before a newline, no empty
/// final line for a trailing newline.
pub open spec fn spec_lines(s: Seq<char>) -> Seq<Seq<char>>
    decreases s.len(),
{
    if s.len() == 0 {
        Seq::<Seq<char>>::empty()
    } else {
        let k = find_from(s, '\n', 0);
        if k >= s.len() {
            seq![s]
        } else {
            seq![spec_strip_cr(s.take(k as int))] + spec_lines(s.skip(k as int + 1))
        }
    }
}

proof fn lemma_find_shift(s: Seq<char>, c: char, st: int, j: int)
    requires
        0 <= st,
        0 <= j,
        st + j <= s.len(),
    ensures
        find_from(s, c, (st + j) as nat) == st + find_from(s.skip(st), c, j as nat),
    decreases s.len() - st - j,
{
    if st + j == s.len() {
    } else if s[st + j] == c {
        assert(s.skip(st)[j] == s[st + j]);
    } else {
        assert(s.skip(st)[j] == s[st + j]);
        lemma_find_shift(s, c, st, j + 1);
    }
}

pub proof fn lemma_str_views_push(ss: Seq<String>, x: String)
    ensures
        spec_str_views(ss.push(x)) == spec_str_views(ss).push(x@),
{
    assert(ss.push(x).drop_last() =~= ss);
    assert(ss.push(x).last() == x);
}

pub proof fn lemma_str_views_props(ss: Seq<String>)
    ensures
        spec_str_views(ss).len() == ss.len(),
        forall|i: int| 0 <= i < ss.len() ==> #[trigger] spec_str_views(ss)[i] == ss[i]@,
    decreases ss.len(),
{
    if ss.len() > 0 {
        lemma_str_views_props(ss.drop_last());
        assert forall|i: int| 0 <= i < ss.len() implies #[trigger] spec_str_views(ss)[i]
            == ss[i]@ by {
            if i < ss.len() - 1 {
                assert(ss.drop_last()[i] == ss[i]);
            }
        }
    }
}

/// Split a text into its lines.
pub fn split_lines(s: &str) -> (r: Vec<String>)
    ensures
        spec_str_views(r@) == spec_lines(s@),
{
    let n: usize = s.unicode_len();
    let ghost sv = s@;
    let mut out: Vec<String> = Vec::new();
    let mut st: usize = 0;
    proof {
        assert(sv.skip(0) =~= sv);
        assert(spec_str_views(out@) + spec_lines(sv) =~~= spec_lines(sv));
    }
    while st < n
        invariant
            n == sv.len(),
            sv == s@,
            st <= n,
            spec_lines(sv) =~~= spec_str_views(out@) + spec_lines(sv.skip(st as int)),
        decreases n - st,
    {
        let ghost rem = sv.skip(st as int);
        let mut k: usize = st;
        while k < n && s.get_char(k) != '\n'
            invariant
                n == sv.len(),
                sv == s@,
                st <= k <= n,
                find_from(sv, '\n', st as nat) == find_from(sv, '\n', k as nat),
            decreases n - k,
        {
            k = k + 1;
        }
        proof {
            assert(find_from(sv, '\n', st as nat) == k);
            lemma_find_shift(sv, '\n', st as int, 0);
            assert(find_from(rem, '\n', 0) == k - st);
        }
        let end2: usize = if k < n && k > st && s.get_char(k - 1) == '\r' {
            k - 1
        } else {
            k
        };
        let piece = s.substring_char(st, end2);
        let line = String::from_str(piece);
        proof {
            if k == n {
                assert(rem =~= sv.subrange(st as int, end2 as int));
                assert(spec_lines(rem) =~~= seq![line@]);
            } else {
                assert(rem.take((k - st) as int) =~= sv.subrange(st as int, k as int));
                assert(spec_strip_cr(rem.take((k - st) as int)) =~= sv.subrange(
                    st as int,
                    end2 as int,
                ));
                assert(rem.skip((k - st) as int + 1) =~= sv.skip(k as int + 1));
            }
        }
        let ghost old_out = out@;
        out.push(line);
        proof {
            lemma_str_views_push(old_out, line);
            if k == n {
                assert(spec_str_views(out@) + spec_lines(sv.skip(n as int)) =~~= spec_str_views(
                    old_out,
                ) + spec_lines(rem));
            } else {
                assert(spec_str_views(out@) + spec_lines(sv.skip(k as int + 1)) =~~=
                    spec_str_views(old_out) + spec_lines(rem));
            }
        }
        if k == n {
            st = n;
        } else {
            st = k + 1;
        }
    }
    proof {
        assert(sv.skip(n as int).len() == 0);
        assert(spec_str_views(out@) + spec_lines(sv.skip(n as int)) =~~= spec_str_views(out@));
    }
    out
}

/// Concatenation of lines, each followed by a newline.
pub open spec fn spec_cat_lines_nl(ls: Seq<Seq<char>>) -> Seq<char>
    decreases ls.len(),
{
    if ls.len() == 0 {
        Seq::<char>::empty()
    } else {
        spec_cat_lines_nl(ls.drop_last()) + ls.last() + "\n"@
    }
}

pub proof fn lemma_cat_lines_nl_take(ls: Seq<Seq<char>>, i: int)
    requires
        0 <= i < ls.len(),
    ensures
        spec_cat_lines_nl(ls.take(i + 1)) == spec_cat_lines_nl(ls.take(i)) + ls[i] + "\n"@,
{
    assert(ls.take(i + 1).drop_last() =~~= ls.take(i));
    assert(ls.take(i + 1).last() == ls[i]);
}

/// A documentation text as the item detail emits it: as-is with a final
/// newline, or capped at 200 lines with an explicit truncation marker.
pub open spec fn spec_docs_block(d: Seq<char>) -> Seq<char> {
    let ls = spec_lines(d);
    if ls.len() > 200 {
        spec_cat_lines_nl(ls.take(200)) + "\n... (truncated)\n"@
    } else {
        d + "\n"@
    }
}

/// Render a documentation text, capped at 200 lines.
pub fn docs_block(docs: &str) -> (r: String)
    ensures
        r@ == spec_docs_block(docs@),
{
    let lines = split_lines(docs);
    proof {
        lemma_str_views_props(lines@);
    }
    if lines.len() > 200 {
        let ghost ls = spec_lines(docs@);
        let mut out = String::new();
        let mut i: usize = 0;
        proof {
            assert(ls.take(0) =~~= Seq::<Seq<char>>::empty());
        }
        while i < 200
            invariant
                spec_str_views(lines@) == spec_lines(docs@),
                200 < lines@.len(),
                ls == spec_lines(docs@),
                i <= 200,
                out@ == spec_cat_lines_nl(ls.take(i as int)),
            decreases 200 - i,
        {
            proof {
                lemma_str_views_props(lines@);
            }
            out.append(lines[i].as_str());
            out.append("\n");
            proof {
                lemma_cat_lines_nl_take(ls, i as int);
                assert(ls[i as int] == lines@[i as int]@);
                assert(out@ =~= spec_cat_lines_nl(ls.take(i as int + 1)));
            }
            i = i + 1;
        }
        out.append("\n... (truncated)\n");
        proof {
            assert(out@ =~= spec_docs_block(docs@));
        }
        out
    } else {
        let mut out = String::from_str(docs);
        out.append("\n");
        proof {
            assert(out@ =~= spec_docs_block(docs@));
        }
        out
    }
}

/// The fully qualified path of an item: the recorded path summary joined
/// with `::`, the bare name as fallback, `_` when neither exists.
pub open spec fn spec_item_path(tree: DocTree, id: u32) -> Seq<char> {
    match tree.spec_path(id) {
        Some(ps) => spec_join(spec_str_views(ps.path@), "::"@),
        None => match tree.spec_item(id) {
            Some(it) => spec_item_name(it),
            None => "_"@,
        },
    }
}

/// Reconstruct the fully qualified path for an item.
pub fn item_path(tree: &DocTree, id: u32) -> (r: String)
    ensures
        r@ == spec_item_path(*tree, id),
{
    match tree.find_path(id) {
        Some(pi) => join_strings(&tree.paths[pi].path, "::"),
        None => match tree.find_item(id) {
            Some(ii) => item_name(&tree.index[ii]),
            None => String::from_str("_"),
        },
    }
}

/// Whether a character counts as trimmable whitespace.
pub open spec fn spec_is_ws(c: char) -> bool {
    c == ' ' || c == '\t' || c == '\n' || c == '\r'
}

/// A text with leading whitespace removed.
pub open spec fn spec_trim_start(s: Seq<char>) -> Seq<char>
    decreases s.len(),
{
    if s.len() > 0 && spec_is_ws(s[0]) {
        spec_trim_start(s.drop_first())
    } else {
        s
    }
}

/// A text with trailing whitespace removed.
pub open spec fn spec_trim_end(s: Seq<char>) -> Seq<char>
    decreases s.len(),
{
    if s.len() > 0 && spec_is_ws(s.last()) {
        spec_trim_end(s.drop_last())
    } else {
        s
    }
}

/// A text with whitespace removed from both ends.
pub open spec fn spec_trim(s: Seq<char>) -> Seq<char> {
    spec_trim_end(spec_trim_start(s))
}

fn is_ws(c: char) -> (r: bool)
    ensures
        r == spec_is_ws(c),
{
    c == ' ' || c == '\t' || c == '\n' || c == '\r'
}

/// Remove whitespace from both ends of a text.
pub fn trim_str(s: &str) -> (r: String)
    ensures
        r@ == spec_trim(s@),
{
    let n: usize = s.unicode_len();
    let ghost sv = s@;
    let mut a: usize = 0;
    proof {
        assert(sv.skip(0) =~= sv);
    }
    while a < n && is_ws(s.get_char(a))
        invariant
            n == sv.len(),
            sv == s@,
            a <= n,
            spec_trim_start(sv) == spec_trim_start(sv.skip(a as int)),
        decreases n - a,
    {
        proof {
            assert(sv.skip(a as int).drop_first() =~= sv.skip(a as int + 1));
        }
        a = a + 1;
    }
    let ghost t = sv.skip(a as int);
    proof {
        assert(spec_trim_start(sv) == t);
    }
    let mut b: usize = n;
    proof {
        assert(t.take((n - a) as int) =~= t);
    }
    while b > a && is_ws(s.get_char(b - 1))
        invariant
            n == sv.len(),
            sv == s@,
            a <= b <= n,
            t == sv.skip(a as int),
            spec_trim_end(t) == spec_trim_end(t.take((b - a) as int)),
        decreases b,
    {
        proof {
            assert(t.take((b - a) as int).drop_last() =~= t.take((b - a) as int - 1));
            assert(t.take((b - a) as int).last() == sv[b as int - 1]);
        }
        b = b - 1;
    }
    proof {
        if b == a {
            assert(t.take(0).len() == 0);
        } else {
            assert(t.take((b - a) as int).last() == sv[b as int - 1]);
        }
        assert(spec_trim_end(t) == t.take((b - a) as int));
        assert(spec_trim(sv) =~= sv.subrange(a as int, b as int));
    }
    let piece = s.substring_char(a, b);
    String::from_str(piece)
}

/// The one-sentence summary of an item's documentation, empty when it has
/// none.
pub open spec fn spec_summary(item: Item) -> Seq<char> {
    match item.docs {
        Some(d) => spec_first_sentence(d@),
        None => Seq::<char>::empty(),
    }
}

/// Render an item's one-sentence doc summary.
pub fn item_summary(item: &Item) -> (r: String)
    ensures
        r@ == spec_summary(*item),
{
    match &item.docs {
        Some(d) => first_sentence(d.as_str()),
        None => String::new(),
    }
}

/// Rendering of one search-result entry: number, kind label, path, summary,
/// and for functions a trimmed one-line signature.
pub open spec fn spec_search_entry(tree: DocTree, idx: nat, id: u32, item: Item) -> Seq<char> {
    spec_dec(idx + 1) + ". ["@ + spec_item_kind_label(item.inner) + "] `"@ + spec_item_path(
        tree,
        id,
    ) + "`"@ + (if spec_summary(item).len() == 0 {
        Seq::<char>::empty()
    } else {
        " -- "@ + spec_summary(item)
    }) + "\n"@ + (match item.inner {
        ItemEnum::Function(f) => "   `"@ + spec_trim(
            spec_fmt_function_signature(spec_item_name(item), f),
        ) + "`\n"@,
        _ => Seq::<char>::empty(),
    })
}

/// Rendering of a search-result list: one numbered entry per match.
pub open spec fn spec_fmt_search_results(tree: DocTree, matches: Seq<(u32, Item)>) -> Seq<char>
    decreases matches.len(),
{
    if matches.len() == 0 {
        Seq::<char>::empty()
    } else {
        spec_fmt_search_results(tree, matches.drop_last()) + spec_search_entry(
            tree,
            (matches.len() - 1) as nat,
            matches.last().0,
            matches.last().1,
        )
    }
}

pub proof fn lemma_search_results_take(tree: DocTree, matches: Seq<(u32, Item)>, i: int)
    requires
        0 <= i < matches.len(),
    ensures
        spec_fmt_search_results(tree, matches.take(i + 1)) == spec_fmt_search_results(
            tree,
            matches.take(i),
        ) + spec_search_entry(tree, i as nat, matches[i].0, matches[i].1),
{
    assert(matches.take(i + 1).drop_last() =~= matches.take(i));
    assert(matches.take(i + 1).last() == matches[i]);
}

/// Render one numbered search entry.
pub fn search_entry(tree: &DocTree, num: usize, id: u32, item: &Item) -> (r: String)
    requires
        num < usize::MAX,
    ensures
        r@ == spec_search_entry(*tree, num as nat, id, *item),
{
    let mut out = String::new();
    let numv = u64_string((num as u64) + 1);
    out.append(numv.as_str());
    out.append(". [");
    out.append(item_kind_label(&item.inner));
    out.append("] `");
    let path = item_path(tree, id);
    out.append(path.as_str());
    out.append("`");
    let summary = item_summary(item);
    if !summary.as_str().is_empty() {
        out.append(" -- ");
        out.append(summary.as_str());
    }
    out.append("\n");
    let nm = item_name(item);
    match &item.inner {
        ItemEnum::Function(f) => {
            out.append("   `");
            let sig = format_function_signature(nm.as_str(), f);
            let trimmed = trim_str(sig.as_str());
            out.append(trimmed.as_str());
            out.append("`\n");
        },
        _ => {},
    }
    proof {
        assert(out@ =~= spec_search_entry(*tree, num as nat, id, *item));
    }
    out
}

/// Format search results as a numbered list.
pub fn format_search_results(tree: &DocTree, matches: &Vec<(u32, Item)>) -> (r: String)
    ensures
        r@ == spec_fmt_search_results(*tree, matches@),
{
    let mut out = String::new();
    let n: usize = matches.len();
    let mut i: usize = 0;
    proof {
        assert(matches@.take(0) =~= Seq::<(u32, Item)>::empty());
    }
    while i < n
        invariant
            n == matches@.len(),
            i <= n,
            out@ == spec_fmt_search_results(*tree, matches@.take(i as int)),
        decreases n - i,
    {
        let entry = search_entry(tree, i, matches[i].0, &matches[i].1);
        out.append(entry.as_str());
        proof {
            lemma_search_results_take(*tree, matches@, i as int);
            assert(out@ =~= spec_fmt_search_results(*tree, matches@.take(i as int + 1)));
        }
        i = i + 1;
    }
    proof {
        assert(matches@.take(n as int) =~= matches@);
    }
    out
}

/// The search entries of a list of index positions, concatenated and
/// numbered from one.
pub open spec fn spec_search_results_by_index(tree: DocTree, idxs: Seq<usize>) -> Seq<char>
    decreases idxs.len(),
{
    if idxs.len() == 0 {
        Seq::<char>::empty()
    } else {
        spec_search_results_by_index(tree, idxs.drop_last()) + spec_search_entry(
            tree,
            (idxs.len() - 1) as nat,
            tree.index@[idxs.last() as int].id,
            tree.index@[idxs.last() as int],
        )
    }
}

/// Format search results given as positions into the index.
pub fn format_search_results_by_index(tree: &DocTree, idxs: &Vec<usize>) -> (r: String)
    requires
        forall|k: int| 0 <= k < idxs@.len() ==> #[trigger] idxs@[k] < tree.index@.len(),
    ensures
        r@ == spec_search_results_by_index(*tree, idxs@),
{
    let mut out = String::new();
    let n: usize = idxs.len();
    let mut i: usize = 0;
    proof {
        assert(idxs@.take(0) =~= Seq::<usize>::empty());
    }
    while i < n
        invariant
            forall|k: int| 0 <= k < idxs@.len() ==> #[trigger] idxs@[k] < tree.index@.len(),
            n == idxs@.len(),
            i <= n,
            out@ == spec_search_results_by_index(*tree, idxs@.take(i as int)),
        decreases n - i,
    {
        let ix = idxs[i];
        let entry = search_entry(tree, i, tree.index[ix].id, &tree.index[ix]);
        out.append(entry.as_str());
        proof {
            assert(idxs@.take(i as int + 1).drop_last() =~= idxs@.take(i as int));
            assert(idxs@.take(i as int + 1).last() == idxs@[i as int]);
            assert(out@ =~= spec_search_results_by_index(*tree, idxs@.take(i as int + 1)));
        }
        i = i + 1;
    }
    proof {
        assert(idxs@.take(n as int) =~= idxs@);
    }
    out
}

/// Rendering of the full documentation of one item: a kind-specific heading
/// and declaration block, followed by the item's documentation text.
pub open spec fn spec_fmt_item_detail(tree: DocTree, item: Item) -> Seq<char> {
    let name = spec_item_name(item);
    let head = match item.inner {
        ItemEnum::Function(f) => "# Function `"@ + name + "`\n\n```rust\n"@
            + spec_fmt_function_signature(name, f) + "\n```\n\n"@,
        ItemEnum::Struct(s) => "# Struct `"@ + name + "`\n\n```rust\n"@
            + spec_fmt_struct_definition(tree, name, s) + "\n```\n\n"@ + spec_fmt_struct_methods(
            tree,
            s,
        ),
        ItemEnum::Enum(e) => "# Enum `"@ + name + "`\n\n```rust\n"@ + spec_fmt_enum_definition(
            tree,
            name,
            e,
        ) + "\n```\n\n"@,
        ItemEnum::Trait(t) => "# Trait `"@ + name + "`\n\n```rust\n"@ + spec_fmt_trait_definition(
            tree,
            name,
            t,
        ) + "\n```\n\n"@,
        ItemEnum::TypeAlias { type_, generics } => "# Type Alias `"@ + name + "`\n\n```rust\n"@
            + "type "@ + name + spec_fmt_generics(generics) + " = "@ + spec_fmt_type(type_)
            + ";\n"@ + "```\n\n"@,
        ItemEnum::Constant { type_, expr } => "# Constant `"@ + name + "`\n\n```rust\n"@
            + "const "@ + name + ": "@ + spec_fmt_type(type_) + " = "@ + expr@ + ";\n"@
            + "```\n\n"@,
        ItemEnum::Macro(body) => "# Macro `"@ + name + "`\n\n```rust\n"@ + body@ + "\n```\n\n"@,
        _ => "# `"@ + name + "`\n\n"@,
    };
    head + (match item.docs {
        Some(d) => spec_docs_block(d@),
        None => Seq::<char>::empty(),
    })
}

/// Format full documentation for a specific item.
pub fn format_item_detail(tree: &DocTree, item: &Item) -> (r: String)
    ensures
        r@ == spec_fmt_item_detail(*tree, *item),
{
    let name = item_name(item);
    let mut out = String::new();
    match &item.inner {
        ItemEnum::Function(f) => {
            out.append("# Function `");
            out.append(name.as_str());
            out.append("`\n\n```rust\n");
            let sig = format_function_signature(name.as_str(), f);
            out.append(sig.as_str());
            out.append("\n```\n\n");
        },
        ItemEnum::Struct(s) => {
            out.append("# Struct `");
            out.append(name.as_str());
            out.append("`\n\n```rust\n");
            let def = format_struct_definition(tree, name.as_str(), s);
            out.append(def.as_str());
            out.append("\n```\n\n");
            let methods = format_struct_methods(tree, s);
            out.append(methods.as_str());
        },
        ItemEnum::Enum(e) => {
            out.append("# Enum `");
            out.append(name.as_str());
            out.append("`\n\n```rust\n");
            let def = format_enum_definition(tree, name.as_str(), e);
            out.append(def.as_str());
            out.append("\n```\n\n");
        },
        ItemEnum::Trait(t) => {
            out.append("# Trait `");
            out.append(name.as_str());
            out.append("`\n\n```rust\n");
            let def = format_trait_definition(tree, name.as_str(), t);
            out.append(def.as_str());
            out.append("\n```\n\n");
        },
        ItemEnum::TypeAlias { type_, generics } => {
            out.append("# Type Alias `");
            out.append(name.as_str());
            out.append("`\n\n```rust\n");
            out.append("type ");
            out.append(name.as_str());
            let gens = format_generics(generics);
            out.append(gens.as_str());
            out.append(" = ");
            let tv = format_type(type_);
            out.append(tv.as_str());
            out.append(";\n");
            out.append("```\n\n");
        },
        ItemEnum::Constant { type_, expr } => {
            out.append("# Constant `");
            out.append(name.as_str());
            out.append("`\n\n```rust\n");
            out.append("const ");
            out.append(name.as_str());
            out.append(": ");
            let tv = format_type(type_);
            out.append(tv.as_str());
            out.append(" = ");
            out.append(expr.as_str());
            out.append(";\n");
            out.append("```\n\n");
        },
        ItemEnum::Macro(body) => {
            out.append("# Macro `");
            out.append(name.as_str());
            out.append("`\n\n```rust\n");
            out.append(body.as_str());
            out.append("\n```\n\n");
        },
        _ => {
            out.append("# `");
            out.append(name.as_str());
            out.append("`\n\n");
        },
    }
    match &item.docs {
        Some(d) => {
            let block = docs_block(d.as_str());
            out.append(block.as_str());
        },
        None => {},
    }
    proof {
        assert(out@ =~= spec_fmt_item_detail(*tree, *item));
    }
    out
}

/// The section a module child is listed under, as a small code; `8` is the
/// catch-all section and `9` marks kinds the listing drops.
pub open spec fn spec_category(inner: ItemEnum) -> int {
    match inner {
        ItemEnum::Module { .. } => 0,
        ItemEnum::Trait(..) => 1,
        ItemEnum::Struct(..) => 2,
        ItemEnum::Enum(..) => 3,
        ItemEnum::Function(..) => 4,
        ItemEnum::TypeAlias { .. } => 5,
        ItemEnum::Constant { .. } => 6,
        ItemEnum::Macro(..) => 7,
        ItemEnum::ProcMacro => 7,
        ItemEnum::Use => 9,
        ItemEnum::ExternCrate => 9,
        _ => 8,
    }
}

fn category_code(inner: &ItemEnum) -> (r: u32)
    ensures
        r as int == spec_category(*inner),
{
    match inner {
        ItemEnum::Module { .. } => 0,
        ItemEnum::Trait(..) => 1,
        ItemEnum::Struct(..) => 2,
        ItemEnum::Enum(..) => 3,
        ItemEnum::Function(..) => 4,
        ItemEnum::TypeAlias { .. } => 5,
        ItemEnum::Constant { .. } => 6,
        ItemEnum::Macro(..) => 7,
        ItemEnum::ProcMacro => 7,
        ItemEnum::Use => 9,
        ItemEnum::ExternCrate => 9,
        _ => 8,
    }
}

/// Whether a child id is listed under the given section: it must resolve,
/// be public and be of the section's kind.
pub open spec fn spec_listed(tree: DocTree, id: u32, cat: int) -> bool {
    match tree.spec_item(id) {
        Some(c) => c.is_public && spec_category(c.inner) == cat,
        None => false,
    }
}

/// Rendering of one listing line for a child item.
pub open spec fn spec_child_line(c: Item) -> Seq<char> {
    "- `"@ + spec_item_name(c) + "`"@ + (if spec_summary(c).len() == 0 {
        Seq::<char>::empty()
    } else {
        " -- "@ + spec_summary(c)
    }) + "\n"@
}

/// Renderings of the listing lines of the children that fall under a
/// section, concatenated in child order.
pub open spec fn spec_cat_lines(tree: DocTree, children: Seq<u32>, cat: int) -> Seq<char>
    decreases children.len(),
{
    if children.len() == 0 {
        Seq::<char>::empty()
    } else {
        spec_cat_lines(tree, children.drop_last(), cat) + (if spec_listed(
            tree,
            children.last(),
            cat,
        ) {
            spec_child_line(tree.spec_item(children.last())->Some_0)
        } else {
            Seq::<char>::empty()
        })
    }
}

/// Number of children listed under a section.
pub open spec fn spec_cat_count(tree: DocTree, children: Seq<u32>, cat: int) -> nat
    decreases children.len(),
{
    if children.len() == 0 {
        0nat
    } else {
        spec_cat_count(tree, children.drop_last(), cat) + (if spec_listed(
            tree,
            children.last(),
            cat,
        ) {
            1nat
        } else {
            0nat
        })
    }
}

pub proof fn lemma_cat_take(tree: DocTree, children: Seq<u32>, cat: int, i: int)
    requires
        0 <= i < children.len(),
    ensures
        spec_cat_lines(tree, children.take(i + 1), cat) == spec_cat_lines(
            tree,
            children.take(i),
            cat,
        ) + (if spec_listed(tree, children[i], cat) {
            spec_child_line(tree.spec_item(children[i])->Some_0)
        } else {
            Seq::<char>::empty()
        }),
        spec_cat_count(tree, children.take(i + 1), cat) == spec_cat_count(
            tree,
            children.take(i),
            cat,
        ) + (if spec_listed(tree, children[i], cat) {
            1nat
        } else {
            0nat
        }),
{
    assert(children.take(i + 1).drop_last() =~= children.take(i));
    assert(children.take(i + 1).last() == children[i]);
}

/// Rendering of one listing section: empty when no child falls under it,
/// otherwise a heading followed by one line per child.
pub open spec fn spec_section(tree: DocTree, children: Seq<u32>, cat: int, heading: Seq<char>)
    -> Seq<char> {
    if spec_cat_count(tree, children, cat) == 0 {
        Seq::<char>::empty()
    } else {
        "## "@ + heading + "\n\n"@ + spec_cat_lines(tree, children, cat) + "\n"@
    }
}

/// Render one listing section.
fn section_text(tree: &DocTree, children: &Vec<u32>, cat: u32, heading: &str) -> (r: String)
    ensures
        r@ == spec_section(*tree, children@, cat as int, heading@),
{
    let mut lines = String::new();
    let mut count: usize = 0;
    let n: usize = children.len();
    let mut i: usize = 0;
    proof {
        assert(children@.take(0) =~= Seq::<u32>::empty());
    }
    while i < n
        invariant
            n == children@.len(),
            i <= n,
            count <= i,
            lines@ == spec_cat_lines(*tree, children@.take(i as int), cat as int),
            count as nat == spec_cat_count(*tree, children@.take(i as int), cat as int),
        decreases n - i,
    {
        match tree.find_item(children[i]) {
            Some(ci) => {
                if tree.index[ci].is_public && category_code(&tree.index[ci].inner) == cat {
                    lines.append("- `");
                    let nm = item_name(&tree.index[ci]);
                    lines.append(nm.as_str());
                    lines.append("`");
                    let summary = item_summary(&tree.index[ci]);
                    if !summary.as_str().is_empty() {
                        lines.append(" -- ");
                        lines.append(summary.as_str());
                    }
                    lines.append("\n");
                    count = count + 1;
                }
            },
            None => {},
        }
        proof {
            lemma_cat_take(*tree, children@, cat as int, i as int);
            assert(lines@ =~= spec_cat_lines(*tree, children@.take(i as int + 1), cat as int));
        }
        i = i + 1;
    }
    proof {
        assert(children@.take(n as int) =~= children@);
    }
    if count == 0 {
        String::new()
    } else {
        let mut out = String::from_str("## ");
        out.append(heading);
        out.append("\n\n");
        out.append(lines.as_str());
        out.append("\n");
        proof {
            assert(out@ =~= spec_section(*tree, children@, cat as int, heading@));
        }
        out
    }
}

/// Rendering of a module listing: a heading with the module's name and doc
/// summary, then its public children grouped into fixed sections.
pub open spec fn spec_fmt_module_listing(tree: DocTree, module_id: u32) -> Seq<char> {
    match tree.spec_item(module_id) {
        None => "Module not found in index."@,
        Some(mi) => match mi.inner {
            ItemEnum::Module { items } => {
                let children = items@;
                "# Module `"@ + (match mi.name {
                    Some(n) => n@,
                    None => "(root)"@,
                }) + "`\n\n"@ + (match mi.docs {
                    Some(d) => if spec_first_sentence(d@).len() > 0 {
                        spec_first_sentence(d@) + "\n\n"@
                    } else {
                        Seq::<char>::empty()
                    },
                    None => Seq::<char>::empty(),
                }) + spec_section(tree, children, 0, "Modules"@) + spec_section(
                    tree,
                    children,
                    1,
                    "Traits"@,
                ) + spec_section(tree, children, 2, "Structs"@) + spec_section(
                    tree,
                    children,
                    3,
                    "Enums"@,
                ) + spec_section(tree, children, 4, "Functions"@) + spec_section(
                    tree,
                    children,
                    5,
                    "Type Aliases"@,
                ) + spec_section(tree, children, 6, "Constants"@) + spec_section(
                    tree,
                    children,
                    7,
                    "Macros"@,
                ) + spec_section(tree, children, 8, "Other"@)
            },
            _ => "Item is not a module."@,
        },
    }
}

/// Format a module listing showing grouped children with summaries.
pub fn format_module_listing(tree: &DocTree, module_id: u32) -> (r: String)
    ensures
        r@ == spec_fmt_module_listing(*tree, module_id),
{
    let mi = match tree.find_item(module_id) {
        Some(mi) => mi,
        None => {
            return String::from_str("Module not found in index.");
        },
    };
    let children = match &tree.index[mi].inner {
        ItemEnum::Module { items } => items,
        _ => {
            return String::from_str("Item is not a module.");
        },
    };
    let mut out = String::from_str("# Module `");
    match &tree.index[mi].name {
        Some(n) => out.append(n.as_str()),
        None => out.append("(root)"),
    }
    out.append("`\n\n");
    match &tree.index[mi].docs {
        Some(d) => {
            let summary = first_sentence(d.as_str());
            if !summary.as_str().is_empty() {
                out.append(summary.as_str());
                out.append("\n\n");
            }
        },
        None => {},
    }
    let s0 = section_text(tree, children, 0, "Modules");
    out.append(s0.as_str());
    let s1 = section_text(tree, children, 1, "Traits");
    out.append(s1.as_str());
    let s2 = section_text(tree, children, 2, "Structs");
    out.append(s2.as_str());
    let s3 = section_text(tree, children, 3, "Enums");
    out.append(s3.as_str());
    let s4 = section_text(tree, children, 4, "Functions");
    out.append(s4.as_str());
    let s5 = section_text(tree, children, 5, "Type Aliases");
    out.append(s5.as_str());
    let s6 = section_text(tree, children, 6, "Constants");
    out.append(s6.as_str());
    let s7 = section_text(tree, children, 7, "Macros");
    out.append(s7.as_str());
    let s8 = section_text(tree, children, 8, "Other");
    out.append(s8.as_str());
    proof {
        assert(out@ =~= spec_fmt_module_listing(*tree, module_id));
    }
    out
}

} // verus!
