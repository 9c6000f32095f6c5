//! The dependency tree: assembly of a display tree from resolved crate
//! records, its recursive text rendering, and its depth measure.

use vstd::prelude::*;
use crate::text::str_eq;
use crate::types::Dependency;

verus! {

/// A child reference in the formatted tree.
pub struct TreeChild {
    pub name: String,
    pub req: String,
    pub optional: bool,
    /// Nothing when the child was not expanded (depth exceeded or
    /// unresolved), else an index into the node list.
    pub node_idx: Option<usize>,
    pub seen: bool,
    pub circular: bool,
}

/// A node in the dependency tree.
pub struct TreeNode {
    pub name: String,
    pub version: String,
    pub deps: Vec<TreeChild>,
}

/// Whether a child edge is expanded into a subtree of its own.
pub open spec fn spec_expandable(c: TreeChild) -> bool {
    c.node_idx is Some && !c.seen && !c.circular
}

/// Every expanded child edge points at an earlier node, so the edges form
/// a graph the renderer can walk down.
pub open spec fn nodes_wf(nodes: Seq<TreeNode>) -> bool {
    forall|j: int, k: int|
        #![trigger nodes[j].deps@[k]]
        0 <= j < nodes.len() && 0 <= k < nodes[j].deps@.len() && spec_expandable(nodes[j].deps@[k])
            ==> nodes[j].deps@[k].node_idx->Some_0 < j
}

/// The prefix the children of a node carry: nothing at the root, then the
/// parent's prefix extended by spacing or a continuation bar.
pub open spec fn spec_child_prefix(prefix: Seq<char>, is_last: bool, is_root: bool) -> Seq<char> {
    if is_root {
        Seq::<char>::empty()
    } else if is_last {
        prefix + "    "@
    } else {
        prefix + "|   "@
    }
}

/// The marker appended to a child line: circular, already seen, or
/// nothing.
pub open spec fn spec_child_suffix(c: TreeChild) -> Seq<char> {
    if c.circular {
        " (circular)"@
    } else if c.seen {
        " (seen)"@
    } else {
        Seq::<char>::empty()
    }
}

/// One child line of the rendering.
pub open spec fn spec_child_line(c: TreeChild, child_prefix: Seq<char>) -> Seq<char> {
    child_prefix + "+-- "@ + c.name@ + " "@ + c.req@ + (if c.optional {
        " (optional)"@
    } else {
        Seq::<char>::empty()
    }) + spec_child_suffix(c) + "\n"@
}

/// The rendering of the first `k` children of node `idx`: each child's
/// line, followed by its subtree when it was expanded.
pub open spec fn spec_tree_children(
    nodes: Seq<TreeNode>,
    idx: int,
    k: int,
    prefix: Seq<char>,
    is_last: bool,
    is_root: bool,
) -> Seq<char>
    decreases idx, 0nat, k
        when 0 <= idx < nodes.len() && k <= nodes[idx].deps@.len() && nodes_wf(nodes)
{
    let deps = nodes[idx].deps@;
    if k <= 0 {
        Seq::<char>::empty()
    } else {
        let c = deps[k - 1];
        let cp = spec_child_prefix(prefix, is_last, is_root);
        spec_tree_children(nodes, idx, k - 1, prefix, is_last, is_root) + spec_child_line(c, cp)
            + (if spec_expandable(c) {
            spec_tree_lines(nodes, c.node_idx->Some_0 as int, cp, k == deps.len(), false)
        } else {
            Seq::<char>::empty()
        })
    }
}

/// The rendering of the subtree rooted at node `idx`: the root node also
/// prints its own name and version line.
pub open spec fn spec_tree_lines(
    nodes: Seq<TreeNode>,
    idx: int,
    prefix: Seq<char>,
    is_last: bool,
    is_root: bool,
) -> Seq<char>
    decreases idx, 1nat, 0nat
        when 0 <= idx < nodes.len() && nodes_wf(nodes)
{
    (if is_root {
        nodes[idx].name@ + " v"@ + nodes[idx].version@ + "\n"@
    } else {
        Seq::<char>::empty()
    }) + spec_tree_children(nodes, idx, nodes[idx].deps@.len() as int, prefix, is_last, is_root)
}

/// Render one child line.
fn child_line(c: &TreeChild, child_prefix: &str) -> (r: String)
    ensures
        r@ == spec_child_line(*c, child_prefix@),
{
    let mut out = String::from_str(child_prefix);
    out.append("+-- ");
    out.append(c.name.as_str());
    out.append(" ");
    out.append(c.req.as_str());
    if c.optional {
        out.append(" (optional)");
    }
    if c.circular {
        out.append(" (circular)");
    } else if c.seen {
        out.append(" (seen)");
    }
    out.append("\n");
    proof {
        assert(out@ =~= spec_child_line(*c, child_prefix@));
    }
    out
}

/// Format the tree output recursively.
#[verifier::rlimit(100)]
pub fn format_tree(
    nodes: &Vec<TreeNode>,
    node_idx: usize,
    prefix: &str,
    is_last: bool,
    is_root: bool,
    output: &mut String,
)
    requires
        nodes_wf(nodes@),
        node_idx < nodes@.len(),
    ensures
        final(output)@ == old(output)@ + spec_tree_lines(
            nodes@,
            node_idx as int,
            prefix@,
            is_last,
            is_root,
        ),
    decreases node_idx,
{
    if is_root {
        output.append(nodes[node_idx].name.as_str());
        output.append(" v");
        output.append(nodes[node_idx].version.as_str());
        output.append("\n");
    }
    let child_prefix = if is_root {
        String::new()
    } else if is_last {
        let mut s = String::from_str(prefix);
        s.append("    ");
        s
    } else {
        let mut s = String::from_str(prefix);
        s.append("|   ");
        s
    };
    proof {
        assert(child_prefix@ == spec_child_prefix(prefix@, is_last, is_root));
    }
    let n: usize = nodes[node_idx].deps.len();
    let mut k: usize = 0;
    let ghost base = output@;
    while k < n
        invariant
            nodes_wf(nodes@),
            node_idx < nodes@.len(),
            n == nodes@[node_idx as int].deps@.len(),
            k <= n,
            child_prefix@ == spec_child_prefix(prefix@, is_last, is_root),
            output@ == base + spec_tree_children(
                nodes@,
                node_idx as int,
                k as int,
                prefix@,
                is_last,
                is_root,
            ),
        decreases n - k,
    {
        let c = &nodes[node_idx].deps[k];
        let line = child_line(c, child_prefix.as_str());
        output.append(line.as_str());
        let expand = match c.node_idx {
            Some(_) => !c.seen && !c.circular,
            None => false,
        };
        if expand {
            let ci = match c.node_idx {
                Some(i) => i,
                None => 0,
            };
            proof {
                assert(spec_expandable(nodes@[node_idx as int].deps@[k as int]));
            }
            let child_is_last = k + 1 == n;
            format_tree(nodes, ci, child_prefix.as_str(), child_is_last, false, output);
        }
        proof {
            assert(output@ =~= base + spec_tree_children(
                nodes@,
                node_idx as int,
                k as int + 1,
                prefix@,
                is_last,
                is_root,
            ));
        }
        k = k + 1;
    }
    proof {
        assert(final(output)@ =~= old(output)@ + spec_tree_lines(
            nodes@,
            node_idx as int,
            prefix@,
            is_last,
            is_root,
        ));
    }
}

/// The depth of the subtree at `idx` together with the visited set after
/// the walk: an already-visited node counts zero, a leaf counts zero, and
/// an inner node counts one more than its deepest expanded child.
pub open spec fn spec_calc_depth(nodes: Seq<TreeNode>, idx: int, seen: Seq<bool>) -> (nat, Seq<
    bool,
>)
    decreases idx, 1nat, 0nat
        when 0 <= idx < nodes.len() && seen.len() == nodes.len() && nodes_wf(nodes)
{
    if seen[idx] {
        (0nat, seen)
    } else {
        let seen1 = seen.update(idx, true);
        let r = spec_calc_children(nodes, idx, 0, seen1);
        if nodes[idx].deps@.len() == 0 {
            (0nat, r.1)
        } else {
            ((r.0 + 1) as nat, r.1)
        }
    }
}

/// The deepest expanded child of node `idx` from child position `k` on,
/// threading the visited set left to right.
pub open spec fn spec_calc_children(nodes: Seq<TreeNode>, idx: int, k: int, seen: Seq<bool>) -> (
    nat,
    Seq<bool>,
)
    decreases idx, 0nat, nodes[idx].deps@.len() - k
        when 0 <= idx < nodes.len() && 0 <= k && seen.len() == nodes.len() && nodes_wf(nodes)
{
    let deps = nodes[idx].deps@;
    if k >= deps.len() {
        (0nat, seen)
    } else {
        let c = deps[k];
        if spec_expandable(c) {
            let r1 = spec_calc_depth(nodes, c.node_idx->Some_0 as int, seen);
            let r2 = spec_calc_children(nodes, idx, k + 1, r1.1);
            (if r1.0 > r2.0 {
                r1.0
            } else {
                r2.0
            }, r2.1)
        } else {
            spec_calc_children(nodes, idx, k + 1, seen)
        }
    }
}

pub proof fn lemma_calc_depth_bound(nodes: Seq<TreeNode>, idx: int, seen: Seq<bool>)
    requires
        0 <= idx < nodes.len(),
        seen.len() == nodes.len(),
        nodes_wf(nodes),
    ensures
        spec_calc_depth(nodes, idx, seen).0 <= idx + 1,
        spec_calc_depth(nodes, idx, seen).1.len() == seen.len(),
    decreases idx, 1nat, 0nat,
{
    if !seen[idx] {
        lemma_calc_children_bound(nodes, idx, 0, seen.update(idx, true));
    }
}

pub proof fn lemma_calc_children_bound(nodes: Seq<TreeNode>, idx: int, k: int, seen: Seq<bool>)
    requires
        0 <= idx < nodes.len(),
        0 <= k,
        seen.len() == nodes.len(),
        nodes_wf(nodes),
    ensures
        spec_calc_children(nodes, idx, k, seen).0 <= idx,
        spec_calc_children(nodes, idx, k, seen).1.len() == seen.len(),
    decreases idx, 0nat, nodes[idx].deps@.len() - k,
{
    let deps = nodes[idx].deps@;
    if k < deps.len() {
        let c = deps[k];
        if spec_expandable(c) {
            lemma_calc_depth_bound(nodes, c.node_idx->Some_0 as int, seen);
            lemma_calc_children_bound(
                nodes,
                idx,
                k + 1,
                spec_calc_depth(nodes, c.node_idx->Some_0 as int, seen).1,
            );
        } else {
            lemma_calc_children_bound(nodes, idx, k + 1, seen);
        }
    }
}

/// Calculate the depth reached below node `idx`, marking visited nodes.
pub fn calc_depth(nodes: &Vec<TreeNode>, idx: usize, seen: &mut Vec<bool>) -> (r: usize)
    requires
        nodes_wf(nodes@),
        idx < nodes@.len(),
        old(seen)@.len() == nodes@.len(),
    ensures
        r as nat == spec_calc_depth(nodes@, idx as int, old(seen)@).0,
        final(seen)@ == spec_calc_depth(nodes@, idx as int, old(seen)@).1,
        final(seen)@.len() == old(seen)@.len(),
    decreases idx,
{
    if seen[idx] {
        return 0;
    }
    let ghost seen0 = seen@;
    seen.remove(idx);
    seen.insert(idx, true);
    proof {
        assert(seen@ =~= seen0.update(idx as int, true));
    }
    let ghost seen1 = seen@;
    let n: usize = nodes[idx].deps.len();
    let mut k: usize = 0;
    let mut mx: usize = 0;
    while k < n
        invariant
            nodes_wf(nodes@),
            idx < nodes@.len(),
            n == nodes@[idx as int].deps@.len(),
            k <= n,
            seen@.len() == nodes@.len(),
            seen1.len() == nodes@.len(),
            mx <= idx,
            spec_calc_children(nodes@, idx as int, 0, seen1) == ({
                let rest = spec_calc_children(nodes@, idx as int, k as int, seen@);
                ((if mx as nat > rest.0 {
                    mx as nat
                } else {
                    rest.0
                }), rest.1)
            }),
        decreases n - k,
    {
        let c = &nodes[idx].deps[k];
        let expand = match c.node_idx {
            Some(_) => !c.seen && !c.circular,
            None => false,
        };
        if expand {
            let ci = match c.node_idx {
                Some(i) => i,
                None => 0,
            };
            proof {
                assert(spec_expandable(nodes@[idx as int].deps@[k as int]));
                assert(ci < idx);
                lemma_calc_depth_bound(nodes@, ci as int, seen@);
            }
            let d = calc_depth(nodes, ci, seen);
            if d > mx {
                mx = d;
            }
        }
        k = k + 1;
    }
    proof {
        assert(spec_calc_children(nodes@, idx as int, n as int, seen@).0 == 0);
        assert(spec_calc_children(nodes@, idx as int, n as int, seen@).1 == seen@);
    }
    if n == 0 {
        0
    } else {
        let total: usize = nodes.len();
        proof {
            assert(idx < total);
        }
        mx + 1
    }
}

/// A resolved crate record: its chosen version and its dependency list.
pub struct ResolvedCrate {
    pub version: String,
    pub deps: Vec<Dependency>,
}

/// The first resolved record stored under the crate name, if any.
pub open spec fn spec_find_resolved(
    cache: Seq<(String, ResolvedCrate)>,
    name: Seq<char>,
) -> Option<ResolvedCrate>
    decreases cache.len(),
{
    if cache.len() == 0 {
        None
    } else if cache[0].0@ == name {
        Some(cache[0].1)
    } else {
        spec_find_resolved(cache.drop_first(), name)
    }
}

/// Look a crate name up in the resolved-crate table.
pub fn find_resolved(cache: &Vec<(String, ResolvedCrate)>, name: &str) -> (r: Option<usize>)
    ensures
        match r {
            Some(i) => i < cache@.len() && spec_find_resolved(cache@, name@) == Some(
                cache@[i as int].1,
            ),
            None => spec_find_resolved(cache@, name@) is None,
        },
{
    let n: usize = cache.len();
    let mut i: usize = 0;
    proof {
        assert(cache@.skip(0) =~= cache@);
    }
    while i < n
        invariant
            n == cache@.len(),
            i <= n,
            spec_find_resolved(cache@, name@) == spec_find_resolved(cache@.skip(i as int), name@),
        decreases n - i,
    {
        proof {
            assert(cache@.skip(i as int)[0] == cache@[i as int]);
            assert(cache@.skip(i as int).drop_first() =~= cache@.skip(i as int + 1));
        }
        if str_eq(cache[i].0.as_str(), name) {
            return Some(i);
        }
        i = i + 1;
    }
    proof {
        assert(cache@.skip(n as int).len() == 0);
    }
    None
}


/// Filter a dependency list down to its normal (non-dev, non-build)
/// entries, in order.
pub open spec fn spec_normal_deps(ds: Seq<Dependency>) -> Seq<Dependency>
    decreases ds.len(),
{
    if ds.len() == 0 {
        Seq::<Dependency>::empty()
    } else {
        spec_normal_deps(ds.drop_last()) + (if ds.last().kind@ == "normal"@ {
            seq![ds.last()]
        } else {
            Seq::<Dependency>::empty()
        })
    }
}

pub proof fn lemma_normal_deps_take(ds: Seq<Dependency>, i: int)
    requires
        0 <= i < ds.len(),
    ensures
        spec_normal_deps(ds.take(i + 1)) == spec_normal_deps(ds.take(i)) + (if ds[i].kind@
            == "normal"@ {
            seq![ds[i]]
        } else {
            Seq::<Dependency>::empty()
        }),
{
    assert(ds.take(i + 1).drop_last() =~= ds.take(i));
    assert(ds.take(i + 1).last() == ds[i]);
}

/// Whether the child edges carry exactly the names, requirements and
/// optional flags of the given dependencies, in order.
pub open spec fn spec_deps_surface(cs: Seq<TreeChild>, ds: Seq<Dependency>) -> bool {
    &&& cs.len() == ds.len()
    &&& forall|k: int|
        0 <= k < cs.len() ==> (#[trigger] cs[k]).name@ == ds[k].crate_id@ && cs[k].req@
            == ds[k].req@ && cs[k].optional == ds[k].optional
}

/// Every recorded index points at a node carrying the recorded name.
pub open spec fn spec_map_ok(map: Seq<(String, usize)>, nodes: Seq<TreeNode>) -> bool {
    forall|k: int|
        0 <= k < map.len() ==> (#[trigger] map[k]).1 < nodes.len() && nodes[map[k].1 as int].name@
            == map[k].0@
}

/// The first recorded index for a crate name, if any.
pub open spec fn spec_find_map(map: Seq<(String, usize)>, name: Seq<char>) -> Option<usize>
    decreases map.len(),
{
    if map.len() == 0 {
        None
    } else if map[0].0@ == name {
        Some(map[0].1)
    } else {
        spec_find_map(map.drop_first(), name)
    }
}

fn find_map(map: &Vec<(String, usize)>, name: &str) -> (r: Option<usize>)
    ensures
        r == spec_find_map(map@, name@),
{
    let n: usize = map.len();
    let mut i: usize = 0;
    proof {
        assert(map@.skip(0) =~= map@);
    }
    while i < n
        invariant
            n == map@.len(),
            i <= n,
            spec_find_map(map@, name@) == spec_find_map(map@.skip(i as int), name@),
        decreases n - i,
    {
        proof {
            assert(map@.skip(i as int)[0] == map@[i as int]);
            assert(map@.skip(i as int).drop_first() =~= map@.skip(i as int + 1));
        }
        if str_eq(map[i].0.as_str(), name) {
            return Some(map[i].1);
        }
        i = i + 1;
    }
    proof {
        assert(map@.skip(n as int).len() == 0);
    }
    None
}

fn contains_name(v: &Vec<String>, name: &str) -> (r: bool)
    ensures
        r == exists|j: int| 0 <= j < v@.len() && (#[trigger] v@[j])@ == name@,
{
    let n: usize = v.len();
    let mut i: usize = 0;
    while i < n
        invariant
            n == v@.len(),
            i <= n,
            forall|j: int| 0 <= j < i ==> (#[trigger] v@[j])@ != name@,
        decreases n - i,
    {
        if str_eq(v[i].as_str(), name) {
            return true;
        }
        i = i + 1;
    }
    false
}

fn remove_name(v: &mut Vec<String>, name: &str)
{
    let n: usize = v.len();
    let mut i: usize = 0;
    while i < n
        invariant
            n == old(v)@.len(),
            v@ == old(v)@,
            i <= n,
        decreases n - i,
    {
        if str_eq(v[i].as_str(), name) {
            v.remove(i);
            return;
        }
        i = i + 1;
    }
}

/// Build the display node for `crate_name` bottom up from the resolved
/// crate table, reusing nodes already built, marking repeats as seen and
/// in-progress crates as circular, and leaving crates beyond the depth
/// limit or absent from the table unexpanded.
///
/// Returns the node's position; the new node carries the crate's resolved
/// version (`?` when the table has none) and one child edge per normal
/// dependency, in order.
pub fn build_node(
    crate_name: &str,
    cache: &Vec<(String, ResolvedCrate)>,
    nodes: &mut Vec<TreeNode>,
    node_map: &mut Vec<(String, usize)>,
    building: &mut Vec<String>,
    depth: u32,
    max_depth: u32,
) -> (r: usize)
    requires
        nodes_wf(old(nodes)@),
        spec_map_ok(old(node_map)@, old(nodes)@),
        depth <= max_depth,
    ensures
        nodes_wf(final(nodes)@),
        spec_map_ok(final(node_map)@, final(nodes)@),
        old(nodes)@.len() <= final(nodes)@.len(),
        final(nodes)@.take(old(nodes)@.len() as int) == old(nodes)@,
        r < final(nodes)@.len(),
        final(nodes)@[r as int].name@ == crate_name@,
        spec_find_map(old(node_map)@, crate_name@) is None ==> (match spec_find_resolved(
            cache@,
            crate_name@,
        ) {
            Some(rc) => final(nodes)@[r as int].version@ == rc.version@ && spec_deps_surface(
                final(nodes)@[r as int].deps@,
                spec_normal_deps(rc.deps@),
            ),
            None => final(nodes)@[r as int].version@ == "?"@ && final(nodes)@[
                r as int
            ].deps@.len() == 0,
        }),
    decreases max_depth - depth,
{
    match find_map(node_map, crate_name) {
        Some(idx) => {
            proof {
                lemma_find_map_ok(node_map@, nodes@, crate_name@);
                assert(nodes@.take(nodes@.len() as int) =~= nodes@);
            }
            return idx;
        },
        None => {},
    }
    let ri = match find_resolved(cache, crate_name) {
        Some(ri) => ri,
        None => {
            // Crate not in the table: an empty placeholder node.
            let idx = nodes.len();
            nodes.push(
                TreeNode {
                    name: String::from_str(crate_name),
                    version: String::from_str("?"),
                    deps: Vec::new(),
                },
            );
            node_map.push((String::from_str(crate_name), idx));
            proof {
                assert(nodes@.take(old(nodes)@.len() as int) =~= old(nodes)@);
                assert forall|j: int, k: int|
                    #![trigger nodes@[j].deps@[k]]
                    0 <= j < nodes@.len() && 0 <= k < nodes@[j].deps@.len() && spec_expandable(
                        nodes@[j].deps@[k],
                    ) implies nodes@[j].deps@[k].node_idx->Some_0 < j by {
                    if j < old(nodes)@.len() {
                        assert(nodes@[j] == old(nodes)@[j]);
                    }
                }
                assert forall|k: int| 0 <= k < node_map@.len() implies (#[trigger] node_map@[k]).1
                    < nodes@.len() && nodes@[node_map@[k].1 as int].name@ == node_map@[k].0@ by {
                    if k < old(node_map)@.len() {
                        assert(node_map@[k] == old(node_map)@[k]);
                        assert(nodes@[node_map@[k].1 as int] == old(
                            nodes,
                        )@[node_map@[k].1 as int]);
                    }
                }
            }
            return idx;
        },
    };
    let ghost rc = cache@[ri as int].1;
    building.push(String::from_str(crate_name));
    let nd: usize = cache[ri].1.deps.len();
    let mut children: Vec<TreeChild> = Vec::new();
    let mut i: usize = 0;
    let ghost nodes0 = nodes@;
    proof {
        assert(rc.deps@.take(0) =~= Seq::<Dependency>::empty());
        assert(nodes@.take(nodes@.len() as int) =~= nodes@);
    }
    while i < nd
        invariant
            nd == rc.deps@.len(),
            rc == cache@[ri as int].1,
            ri < cache@.len(),
            i <= nd,
            depth <= max_depth,
            nodes_wf(nodes@),
            spec_map_ok(node_map@, nodes@),
            nodes0.len() <= nodes@.len(),
            nodes@.take(nodes0.len() as int) == nodes0,
            spec_deps_surface(children@, spec_normal_deps(rc.deps@.take(i as int))),
            forall|k: int|
                0 <= k < children@.len() && spec_expandable(#[trigger] children@[k])
                    ==> children@[k].node_idx->Some_0 < nodes@.len(),
        decreases nd - i,
    {
        let dep = &cache[ri].1.deps[i];
        if str_eq(dep.kind.as_str(), "normal") {
            let child = if contains_name(building, dep.crate_id.as_str()) {
                TreeChild {
                    name: dep.crate_id.clone(),
                    req: dep.req.clone(),
                    optional: dep.optional,
                    node_idx: None,
                    seen: false,
                    circular: true,
                }
            } else {
                match find_map(node_map, dep.crate_id.as_str()) {
                    Some(existing) => {
                        proof {
                            lemma_find_map_ok(node_map@, nodes@, dep.crate_id@);
                        }
                        TreeChild {
                            name: dep.crate_id.clone(),
                            req: dep.req.clone(),
                            optional: dep.optional,
                            node_idx: Some(existing),
                            seen: true,
                            circular: false,
                        }
                    },
                    None => {
                        let unresolved = match find_resolved(cache, dep.crate_id.as_str()) {
                            Some(_) => false,
                            None => true,
                        };
                        if depth == max_depth || unresolved {
                            TreeChild {
                                name: dep.crate_id.clone(),
                                req: dep.req.clone(),
                                optional: dep.optional,
                                node_idx: None,
                                seen: false,
                                circular: false,
                            }
                        } else {
                            let child_idx = build_node(
                                dep.crate_id.as_str(),
                                cache,
                                nodes,
                                node_map,
                                building,
                                depth + 1,
                                max_depth,
                            );
                            TreeChild {
                                name: dep.crate_id.clone(),
                                req: dep.req.clone(),
                                optional: dep.optional,
                                node_idx: Some(child_idx),
                                seen: false,
                                circular: false,
                            }
                        }
                    },
                }
            };
            children.push(child);
        }
        proof {
            lemma_normal_deps_take(rc.deps@, i as int);
            assert(nodes@.take(nodes0.len() as int) =~= nodes0);
        }
        i = i + 1;
    }
    remove_name(building, crate_name);
    let idx = nodes.len();
    let ghost pre_push = nodes@;
    nodes.push(
        TreeNode {
            name: String::from_str(crate_name),
            version: cache[ri].1.version.clone(),
            deps: children,
        },
    );
    node_map.push((String::from_str(crate_name), idx));
    proof {
        assert(rc.deps@.take(nd as int) =~= rc.deps@);
        assert(nodes@.take(nodes0.len() as int) =~= nodes0);
        assert forall|j: int, k: int|
            #![trigger nodes@[j].deps@[k]]
            0 <= j < nodes@.len() && 0 <= k < nodes@[j].deps@.len() && spec_expandable(
                nodes@[j].deps@[k],
            ) implies nodes@[j].deps@[k].node_idx->Some_0 < j by {
            if j < pre_push.len() {
                assert(nodes@[j] == pre_push[j]);
            }
        }
        assert forall|k: int| 0 <= k < node_map@.len() implies (#[trigger] node_map@[k]).1
            < nodes@.len() && nodes@[node_map@[k].1 as int].name@ == node_map@[k].0@ by {
            if k < node_map@.len() - 1 {
                assert(nodes@[node_map@[k].1 as int] == pre_push[node_map@[k].1 as int]);
            }
        }
    }
    idx
}

proof fn lemma_find_map_ok(map: Seq<(String, usize)>, nodes: Seq<TreeNode>, name: Seq<char>)
    requires
        spec_map_ok(map, nodes),
    ensures
        spec_find_map(map, name) matches Some(ix) ==> ix < nodes.len() && nodes[ix as int].name@
            == name,
    decreases map.len(),
{
    if map.len() > 0 && map[0].0@ != name {
        assert(forall|k: int|
            0 <= k < map.drop_first().len() ==> (#[trigger] map.drop_first()[k])
                == map[k + 1]);
        lemma_find_map_ok(map.drop_first(), nodes, name);
    }
}

} // verus!
