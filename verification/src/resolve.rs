//! Path resolution over the documentation tree: structural descent through
//! nested modules, with an index-wide fallback scan for items whose recorded
//! path diverges from the module nesting.

use vstd::prelude::*;
use crate::docmodel::{DocTree, Item, ItemEnum};
use crate::render_sig::spec_str_views;

verus! {

/// Index of the first occurrence of the two-character pattern `::` in `s`
/// at or after `i`, or `s.len()` if there is none.
pub open spec fn find_colons(s: Seq<char>, i: nat) -> nat
    decreases s.len() - i,
{
    if i + 1 >= s.len() {
        s.len()
    } else if s[i as int] == ':' && s[i as int + 1] == ':' {
        i
    } else {
        find_colons(s, i + 1)
    }
}

proof fn lemma_find_colons_range(s: Seq<char>, i: nat)
    ensures
        find_colons(s, i) == s.len() || (i <= find_colons(s, i) && find_colons(s, i) + 1
            < s.len()),
    decreases s.len() - i,
{
    if i + 1 >= s.len() {
    } else if s[i as int] == ':' && s[i as int + 1] == ':' {
    } else {
        lemma_find_colons_range(s, i + 1);
    }
}

/// The segments of a dotted path, split at each `::`.
pub open spec fn spec_split_path(s: Seq<char>) -> Seq<Seq<char>>
    decreases s.len() via split_path_decreases
{
    let k = find_colons(s, 0);
    if k >= s.len() {
        seq![s]
    } else {
        seq![s.take(k as int)] + spec_split_path(s.skip(k as int + 2))
    }
}

#[via_fn]
proof fn split_path_decreases(s: Seq<char>) {
    lemma_find_colons_range(s, 0);
}

proof fn lemma_find_colons_shift(s: Seq<char>, st: int, j: int)
    requires
        0 <= st,
        0 <= j,
        st + j <= s.len(),
    ensures
        find_colons(s, (st + j) as nat) == st + find_colons(s.skip(st), j as nat),
    decreases s.len() - st - j,
{
    if st + j + 1 >= s.len() {
    } else if s[st + j] == ':' && s[st + j + 1] == ':' {
        assert(s.skip(st)[j] == s[st + j]);
        assert(s.skip(st)[j + 1] == s[st + j + 1]);
    } else {
        assert(s.skip(st)[j] == s[st + j]);
        assert(s.skip(st)[j + 1] == s[st + j + 1]);
        lemma_find_colons_shift(s, st, j + 1);
    }
}

/// Split a path at `::` into its segments.
pub fn split_path(s: &str) -> (r: Vec<String>)
    ensures
        spec_str_views(r@) == spec_split_path(s@),
        r@.len() >= 1,
{
    let n: usize = s.unicode_len();
    let ghost sv = s@;
    let mut out: Vec<String> = Vec::new();
    let mut st: usize = 0;
    let mut done: bool = false;
    proof {
        assert(sv.skip(0) =~= sv);
        assert(spec_str_views(out@) + spec_split_path(sv) =~~= spec_split_path(sv));
    }
    while !done
        invariant
            n == sv.len(),
            sv == s@,
            st <= n,
            !done ==> spec_split_path(sv) =~~= spec_str_views(out@) + spec_split_path(
                sv.skip(st as int),
            ),
            done ==> spec_str_views(out@) == spec_split_path(sv),
            done ==> out@.len() >= 1,
        decreases n - st + 1, (if done { 0int } else { 1int }),
    {
        let ghost rem = sv.skip(st as int);
        let mut k: usize = st;
        while k < n && !(k + 1 <= n - 1 && s.get_char(k) == ':' && s.get_char(k + 1) == ':')
            invariant
                n == sv.len(),
                sv == s@,
                st <= k <= n,
                find_colons(sv, st as nat) == find_colons(sv, k as nat),
            decreases n - k,
        {
            k = k + 1;
        }
        proof {
            assert(find_colons(sv, st as nat) == if k < n { k as nat } else { sv.len() });
            lemma_find_colons_shift(sv, st as int, 0);
        }
        if k < n {
            let piece = s.substring_char(st, k);
            let ghost old_out = out@;
            out.push(String::from_str(piece));
            proof {
                crate::render_doc::lemma_str_views_push(old_out, out@.last());
                assert(rem.take((k - st) as int) =~= sv.subrange(st as int, k as int));
                assert(rem.skip((k - st) as int + 2) =~= sv.skip(k as int + 2));
                assert(spec_split_path(rem) =~~= seq![sv.subrange(st as int, k as int)]
                    + spec_split_path(sv.skip(k as int + 2)));
                assert(spec_str_views(out@) + spec_split_path(sv.skip(k as int + 2)) =~~=
                    spec_str_views(old_out) + spec_split_path(rem));
            }
            st = k + 2;
        } else {
            let piece = s.substring_char(st, n);
            let ghost old_out = out@;
            out.push(String::from_str(piece));
            proof {
                crate::render_doc::lemma_str_views_push(old_out, out@.last());
                assert(rem =~= sv.subrange(st as int, n as int));
                assert(spec_split_path(rem) =~~= seq![rem]);
                assert(spec_str_views(out@) =~~= spec_str_views(old_out) + spec_split_path(rem));
            }
            done = true;
        }
    }
    out
}

/// The first child id that resolves to a public-or-not module named `name`.
pub open spec fn spec_find_module_child(tree: DocTree, children: Seq<u32>, name: Seq<char>)
    -> Option<u32>
    decreases children.len(),
{
    if children.len() == 0 {
        None
    } else {
        match tree.spec_item(children[0]) {
            Some(c) => if c.name is Some && c.name->Some_0@ == name && c.inner is Module {
                Some(children[0])
            } else {
                spec_find_module_child(tree, children.drop_first(), name)
            },
            None => spec_find_module_child(tree, children.drop_first(), name),
        }
    }
}

/// Resolution of the remaining segments against the module `cur`.
pub open spec fn spec_resolve_module_segs(tree: DocTree, cur: u32, segs: Seq<Seq<char>>) -> Option<
    u32,
>
    decreases segs.len(),
{
    if segs.len() == 0 {
        Some(cur)
    } else {
        match tree.spec_item(cur) {
            Some(mi) => match mi.inner {
                ItemEnum::Module { items } => match spec_find_module_child(tree, items@, segs[0]) {
                    Some(cid) => spec_resolve_module_segs(tree, cid, segs.drop_first()),
                    None => None,
                },
                _ => None,
            },
            None => None,
        }
    }
}

/// Resolution of a dotted module path: the root for an empty path, else a
/// segment-by-segment descent through module children.
pub open spec fn spec_resolve_module_path(tree: DocTree, path: Seq<char>) -> Option<u32> {
    if path.len() == 0 {
        Some(tree.root)
    } else {
        spec_resolve_module_segs(tree, tree.root, spec_split_path(path))
    }
}

fn find_module_child(tree: &DocTree, children: &Vec<u32>, name: &String) -> (r: Option<u32>)
    ensures
        r == spec_find_module_child(*tree, children@, name@),
{
    let n: usize = children.len();
    let mut j: usize = 0;
    proof {
        assert(children@.skip(0) =~= children@);
    }
    while j < n
        invariant
            n == children@.len(),
            j <= n,
            spec_find_module_child(*tree, children@, name@) == spec_find_module_child(
                *tree,
                children@.skip(j as int),
                name@,
            ),
        decreases n - j,
    {
        proof {
            assert(children@.skip(j as int)[0] == children@[j as int]);
            assert(children@.skip(j as int).drop_first() =~= children@.skip(j as int + 1));
        }
        match tree.find_item(children[j]) {
            Some(ci) => {
                let is_match = match &tree.index[ci].name {
                    Some(nm) => *nm == *name,
                    None => false,
                };
                let is_module = match &tree.index[ci].inner {
                    ItemEnum::Module { .. } => true,
                    _ => false,
                };
                if is_match && is_module {
                    return Some(children[j]);
                }
            },
            None => {},
        }
        j = j + 1;
    }
    proof {
        assert(children@.skip(n as int).len() == 0);
    }
    None
}

/// Resolve a module path (e.g. `de` or `de::value`) to a module id.
///
/// An empty path resolves to the root module; otherwise each segment must
/// name a module child of the module reached so far.
pub fn resolve_module_path(tree: &DocTree, path: &str) -> (r: Option<u32>)
    ensures
        r == spec_resolve_module_path(*tree, path@),
{
    if path.is_empty() {
        return Some(tree.root);
    }
    let segments = split_path(path);
    let ghost segs = spec_split_path(path@);
    let mut cur: u32 = tree.root;
    let n: usize = segments.len();
    let mut i: usize = 0;
    proof {
        crate::render_doc::lemma_str_views_props(segments@);
        assert(segs.skip(0) =~= segs);
    }
    while i < n
        invariant
            n == segments@.len(),
            i <= n,
            path@.len() != 0,
            segs == spec_split_path(path@),
            spec_str_views(segments@) == segs,
            segs.len() == n,
            spec_resolve_module_segs(*tree, tree.root, segs) == spec_resolve_module_segs(
                *tree,
                cur,
                segs.skip(i as int),
            ),
        decreases n - i,
    {
        proof {
            crate::render_doc::lemma_str_views_props(segments@);
            assert(segs.skip(i as int)[0] == segments@[i as int]@);
            assert(segs.skip(i as int).drop_first() =~= segs.skip(i as int + 1));
        }
        let found = match tree.find_item(cur) {
            Some(mi) => {
                match &tree.index[mi].inner {
                    ItemEnum::Module { items } => find_module_child(tree, items, &segments[i]),
                    _ => None,
                }
            },
            None => None,
        };
        match found {
            Some(cid) => {
                proof {
                    assert(spec_resolve_module_segs(*tree, cur, segs.skip(i as int))
                        == spec_resolve_module_segs(*tree, cid, segs.skip(i as int + 1)));
                }
                cur = cid;
            },
            None => {
                proof {
                    assert(spec_resolve_module_segs(*tree, cur, segs.skip(i as int)) is None);
                }
                return None;
            },
        }
        i = i + 1;
    }
    proof {
        assert(segs.skip(n as int).len() == 0);
    }
    Some(cur)
}

/// Walk the remaining segments from a module: the final segment may match
/// any child, intermediate segments must match a module to descend, and a
/// child id missing from the index aborts the walk.
pub open spec fn spec_walk(tree: DocTree, module_id: u32, segs: Seq<Seq<char>>) -> Option<Item>
    decreases segs.len(), 1nat, 0nat,
{
    if segs.len() == 0 {
        tree.spec_item(module_id)
    } else {
        match tree.spec_item(module_id) {
            Some(mi) => match mi.inner {
                ItemEnum::Module { items } => spec_walk_scan(tree, items@, segs),
                _ => None,
            },
            None => None,
        }
    }
}

/// Scan a module's children for the first one that yields the remaining
/// segments.
pub open spec fn spec_walk_scan(tree: DocTree, children: Seq<u32>, segs: Seq<Seq<char>>) -> Option<
    Item,
>
    decreases segs.len(), 0nat, children.len() when segs.len() >= 1
{
    if children.len() == 0 {
        None
    } else {
        match tree.spec_item(children[0]) {
            None => None,
            Some(c) => {
                let name_matches = c.name is Some && c.name->Some_0@ == segs[0];
                if name_matches && segs.len() == 1 {
                    Some(c)
                } else if name_matches && c.inner is Module && spec_walk(
                    tree,
                    children[0],
                    segs.drop_first(),
                ) is Some {
                    spec_walk(tree, children[0], segs.drop_first())
                } else {
                    spec_walk_scan(tree, children.drop_first(), segs)
                }
            },
        }
    }
}

/// Walk through nested modules to find an item.
fn walk_modules<'a>(tree: &'a DocTree, module_id: u32, segments: &Vec<String>, pos: usize) -> (r:
    Option<&'a Item>)
    requires
        pos <= segments@.len(),
    ensures
        match r {
            Some(it) => spec_walk(*tree, module_id, spec_str_views(segments@).skip(pos as int))
                == Some(*it),
            None => spec_walk(*tree, module_id, spec_str_views(segments@).skip(pos as int))
                is None,
        },
    decreases segments@.len() - pos,
{
    let ghost segs = spec_str_views(segments@).skip(pos as int);
    proof {
        crate::render_doc::lemma_str_views_props(segments@);
    }
    if pos == segments.len() {
        let r = match tree.find_item(module_id) {
            Some(mi) => Some(&tree.index[mi]),
            None => None,
        };
        return r;
    }
    let mi = match tree.find_item(module_id) {
        Some(mi) => mi,
        None => {
            return None;
        },
    };
    let children = match &tree.index[mi].inner {
        ItemEnum::Module { items } => items,
        _ => {
            return None;
        },
    };
    let n: usize = children.len();
    let mut j: usize = 0;
    proof {
        assert(children@.skip(0) =~= children@);
    }
    while j < n
        invariant
            pos < segments@.len(),
            n == children@.len(),
            j <= n,
            segs == spec_str_views(segments@).skip(pos as int),
            segs.len() >= 1,
            tree.spec_item(module_id) == Some(tree.index@[mi as int]),
            mi < tree.index@.len(),
            tree.index@[mi as int].inner == (ItemEnum::Module { items: *children }),
            spec_walk_scan(*tree, children@, segs) == spec_walk_scan(
                *tree,
                children@.skip(j as int),
                segs,
            ),
        decreases n - j,
    {
        proof {
            crate::render_doc::lemma_str_views_props(segments@);
            assert(segs[0] == segments@[pos as int]@);
            assert(children@.skip(j as int)[0] == children@[j as int]);
            assert(children@.skip(j as int).drop_first() =~= children@.skip(j as int + 1));
        }
        match tree.find_item(children[j]) {
            None => {
                return None;
            },
            Some(ci) => {
                let name_matches = match &tree.index[ci].name {
                    Some(nm) => *nm == segments[pos],
                    None => false,
                };
                if name_matches && pos == segments.len() - 1 {
                    proof {
                        assert(segs.len() == 1);
                    }
                    return Some(&tree.index[ci]);
                }
                let is_module = match &tree.index[ci].inner {
                    ItemEnum::Module { .. } => true,
                    _ => false,
                };
                if name_matches && is_module {
                    proof {
                        assert(spec_str_views(segments@).skip(pos as int + 1)
                            =~~= segs.drop_first());
                    }
                    match walk_modules(tree, children[j], segments, pos + 1) {
                        Some(found) => {
                            return Some(found);
                        },
                        None => {},
                    }
                }
            },
        }
        j = j + 1;
    }
    proof {
        assert(children@.skip(n as int).len() == 0);
    }
    None
}

/// Whether `a` ends with `b`.
pub open spec fn spec_suffix_match(a: Seq<Seq<char>>, b: Seq<Seq<char>>) -> bool {
    a.len() >= b.len() && a.skip(a.len() - b.len()) == b
}

fn suffix_match(path: &Vec<String>, segments: &Vec<String>) -> (r: bool)
    ensures
        r == spec_suffix_match(spec_str_views(path@), spec_str_views(segments@)),
{
    proof {
        crate::render_doc::lemma_str_views_props(path@);
        crate::render_doc::lemma_str_views_props(segments@);
    }
    let np: usize = path.len();
    let ns: usize = segments.len();
    if np < ns {
        return false;
    }
    let off: usize = np - ns;
    let ghost a = spec_str_views(path@);
    let ghost b = spec_str_views(segments@);
    let mut j: usize = 0;
    while j < ns
        invariant
            np == path@.len(),
            ns == segments@.len(),
            ns <= np,
            off == np - ns,
            a == spec_str_views(path@),
            b == spec_str_views(segments@),
            a.len() == np,
            b.len() == ns,
            j <= ns,
            forall|x: int| 0 <= x < j ==> a[off + x] == b[x],
        decreases ns - j,
    {
        proof {
            crate::render_doc::lemma_str_views_props(path@);
            crate::render_doc::lemma_str_views_props(segments@);
        }
        if !(path[off + j] == segments[j]) {
            proof {
                assert(a.skip(off as int)[j as int] != b[j as int]);
            }
            return false;
        }
        j = j + 1;
    }
    proof {
        assert(a.skip(off as int) =~= b);
    }
    true
}

/// Whether an item is accepted by the fallback scan: it belongs to the
/// local package, its name equals the last segment, and for a multi-segment
/// path its recorded path ends with the requested segments.
pub open spec fn spec_phase2_accepts(tree: DocTree, item: Item, segs: Seq<Seq<char>>) -> bool {
    &&& item.crate_id == 0
    &&& item.name is Some
    &&& item.name->Some_0@ == segs.last()
    &&& (segs.len() == 1 || (match tree.spec_path(item.id) {
        Some(ps) => spec_suffix_match(spec_str_views(ps.path@), segs),
        None => false,
    }))
}

/// The first item of the index that the fallback scan accepts.
pub open spec fn spec_phase2(tree: DocTree, items: Seq<Item>, segs: Seq<Seq<char>>) -> Option<Item>
    decreases items.len(),
{
    if items.len() == 0 {
        None
    } else if spec_phase2_accepts(tree, items[0], segs) {
        Some(items[0])
    } else {
        spec_phase2(tree, items.drop_first(), segs)
    }
}

/// Resolution of a dotted item path: the structural walk from the root when
/// it succeeds, else the index-wide fallback scan.
pub open spec fn spec_resolve_item_path(tree: DocTree, path: Seq<char>) -> Option<Item> {
    let segs = spec_split_path(path);
    match spec_walk(tree, tree.root, segs) {
        Some(it) => Some(it),
        None => spec_phase2(tree, tree.index@, segs),
    }
}

/// Resolve an item path string (e.g. `de::from_str`) against the index.
///
/// First walks from the root module through nested modules; if that fails,
/// scans the whole index for a local item whose name matches the last
/// segment and whose recorded path ends with the requested segments.
pub fn resolve_item_path<'a>(tree: &'a DocTree, path: &str) -> (r: Option<&'a Item>)
    ensures
        match r {
            Some(it) => spec_resolve_item_path(*tree, path@) == Some(*it),
            None => spec_resolve_item_path(*tree, path@) is None,
        },
{
    let segments = split_path(path);
    let ghost segs = spec_split_path(path@);
    proof {
        crate::render_doc::lemma_str_views_props(segments@);
        assert(spec_str_views(segments@).skip(0) =~= segs);
    }
    match walk_modules(tree, tree.root, &segments, 0) {
        Some(found) => {
            return Some(found);
        },
        None => {},
    }
    let n: usize = tree.index.len();
    let mut i: usize = 0;
    proof {
        assert(tree.index@.skip(0) =~= tree.index@);
    }
    while i < n
        invariant
            n == tree.index@.len(),
            i <= n,
            segs == spec_split_path(path@),
            spec_str_views(segments@) == segs,
            segments@.len() == segs.len(),
            segs.len() >= 1,
            spec_walk(*tree, tree.root, segs) is None,
            spec_phase2(*tree, tree.index@, segs) == spec_phase2(
                *tree,
                tree.index@.skip(i as int),
                segs,
            ),
        decreases n - i,
    {
        proof {
            crate::render_doc::lemma_str_views_props(segments@);
            assert(tree.index@.skip(i as int)[0] == tree.index@[i as int]);
            assert(tree.index@.skip(i as int).drop_first() =~= tree.index@.skip(i as int + 1));
            assert(segs.last() == segments@[segments@.len() - 1]@);
        }
        let item = &tree.index[i];
        if item.crate_id == 0 {
            let name_matches = match &item.name {
                Some(nm) => *nm == segments[segments.len() - 1],
                None => false,
            };
            if name_matches {
                if segments.len() == 1 {
                    return Some(&tree.index[i]);
                }
                match tree.find_path(item.id) {
                    Some(pi) => {
                        if suffix_match(&tree.paths[pi].path, &segments) {
                            return Some(&tree.index[i]);
                        }
                    },
                    None => {},
                }
            }
        }
        i = i + 1;
    }
    proof {
        assert(tree.index@.skip(n as int).len() == 0);
    }
    None
}

} // verus!
