//! Search over a documentation tree: case-insensitive substring match on
//! item names, ranked exact-match first, then prefix matches, then by
//! name, ties kept in index order.

use vstd::prelude::*;
use crate::docmodel::DocTree;
use crate::render_doc::{format_search_results_by_index, spec_search_results_by_index};
use crate::text::{spec_dec, u64_string};

verus! {

/// The lowercased form of a text, a function of its characters alone.
pub uninterp spec fn lower_of(s: Seq<char>) -> Seq<char>;

/// Relies on str::to_lowercase: the result depends on the characters
/// alone, and an empty string stays empty.
#[verifier::external_body]
fn lowercase(s: &str) -> (r: String)
    ensures
        r@ == lower_of(s@),
        s@.len() == 0 ==> r@.len() == 0,
{
    s.to_lowercase()
}

/// Whether `q` occurs as a contiguous subsequence of `a`.
pub open spec fn spec_contains_sub(a: Seq<char>, q: Seq<char>) -> bool {
    exists|p: int| 0 <= p <= a.len() - q.len() && #[trigger] a.subrange(p, p + q.len()) == q
}

fn contains_sub(a: &str, q: &str) -> (r: bool)
    ensures
        r == spec_contains_sub(a@, q@),
{
    let na: usize = a.unicode_len();
    let nq: usize = q.unicode_len();
    if nq > na {
        proof {
            assert(!spec_contains_sub(a@, q@));
        }
        return false;
    }
    let mut p: usize = 0;
    while p <= na - nq
        invariant
            na == a@.len(),
            nq == q@.len(),
            nq <= na,
            p <= na - nq + 1,
            forall|x: int| 0 <= x < p ==> #[trigger] a@.subrange(x, x + q@.len()) != q@,
        decreases na - nq - p + 1,
    {
        let mut j: usize = 0;
        while j < nq && a.get_char(p + j) == q.get_char(j)
            invariant
                na == a@.len(),
                nq == q@.len(),
                nq <= na,
                p <= na - nq,
                j <= nq,
                forall|y: int| 0 <= y < j ==> a@[p + y] == q@[y],
            decreases nq - j,
        {
            j = j + 1;
        }
        if j == nq {
            proof {
                assert(a@.subrange(p as int, p + q@.len()) =~= q@);
            }
            return true;
        }
        p = p + 1;
    }
    proof {
        assert forall|x: int| 0 <= x <= a@.len() - q@.len() implies #[trigger] a@.subrange(
            x,
            x + q@.len(),
        ) != q@ by {
            assert(x < p);
        }
    }
    false
}

/// Whether `q` is a prefix of `a`.
pub open spec fn spec_starts_with(a: Seq<char>, q: Seq<char>) -> bool {
    a.len() >= q.len() && a.take(q.len() as int) == q
}

fn starts_with(a: &str, q: &str) -> (r: bool)
    ensures
        r == spec_starts_with(a@, q@),
{
    let na: usize = a.unicode_len();
    let nq: usize = q.unicode_len();
    if nq > na {
        return false;
    }
    let mut j: usize = 0;
    while j < nq && a.get_char(j) == q.get_char(j)
        invariant
            na == a@.len(),
            nq == q@.len(),
            nq <= na,
            j <= nq,
            forall|y: int| 0 <= y < j ==> a@[y] == q@[y],
        decreases nq - j,
    {
        j = j + 1;
    }
    if j == nq {
        proof {
            assert(a@.take(q@.len() as int) =~= q@);
        }
        true
    } else {
        proof {
            assert(a@.take(q@.len() as int)[j as int] != q@[j as int]);
        }
        false
    }
}

/// Strict lexicographic order on character sequences, by code point.
pub open spec fn spec_lex_lt(a: Seq<char>, b: Seq<char>) -> bool
    decreases a.len(),
{
    if b.len() == 0 {
        false
    } else if a.len() == 0 {
        true
    } else if (a[0] as int) < (b[0] as int) {
        true
    } else if (a[0] as int) > (b[0] as int) {
        false
    } else {
        spec_lex_lt(a.drop_first(), b.drop_first())
    }
}

pub proof fn lemma_lex_connex(a: Seq<char>, b: Seq<char>)
    ensures
        a =~= b || spec_lex_lt(a, b) || spec_lex_lt(b, a),
    decreases a.len(),
{
    if b.len() == 0 || a.len() == 0 {
    } else if (a[0] as int) == (b[0] as int) {
        lemma_lex_connex(a.drop_first(), b.drop_first());
        if !spec_lex_lt(a, b) && !spec_lex_lt(b, a) {
            assert(a.drop_first() =~= b.drop_first());
            assert(a.len() == b.len());
            assert forall|i: int| 0 <= i < a.len() implies a[i] == b[i] by {
                if i > 0 {
                    assert(a.drop_first()[i - 1] == b.drop_first()[i - 1]);
                }
            }
            assert(a =~= b);
        }
    }
}

pub proof fn lemma_lex_trans(a: Seq<char>, b: Seq<char>, c: Seq<char>)
    requires
        spec_lex_lt(a, b),
        spec_lex_lt(b, c),
    ensures
        spec_lex_lt(a, c),
    decreases a.len(),
{
    if a.len() == 0 {
    } else if (a[0] as int) == (b[0] as int) && (b[0] as int) == (c[0] as int) {
        lemma_lex_trans(a.drop_first(), b.drop_first(), c.drop_first());
    }
}

pub proof fn lemma_lex_irrefl(a: Seq<char>, b: Seq<char>)
    requires
        spec_lex_lt(a, b),
    ensures
        a != b,
    decreases a.len(),
{
    if a.len() > 0 && b.len() > 0 && (a[0] as int) == (b[0] as int) {
        lemma_lex_irrefl(a.drop_first(), b.drop_first());
        if a == b {
            assert(a.drop_first() =~= b.drop_first());
        }
    }
}

fn lex_lt(a: &str, b: &str) -> (r: bool)
    ensures
        r == spec_lex_lt(a@, b@),
{
    let na: usize = a.unicode_len();
    let nb: usize = b.unicode_len();
    let mut j: usize = 0;
    proof {
        assert(a@.skip(0) =~= a@);
        assert(b@.skip(0) =~= b@);
    }
    while j < na && j < nb && a.get_char(j) == b.get_char(j)
        invariant
            na == a@.len(),
            nb == b@.len(),
            j <= na,
            j <= nb,
            spec_lex_lt(a@, b@) == spec_lex_lt(a@.skip(j as int), b@.skip(j as int)),
        decreases na - j,
    {
        proof {
            assert(a@.skip(j as int)[0] == a@[j as int]);
            assert(b@.skip(j as int)[0] == b@[j as int]);
            assert(a@.skip(j as int).drop_first() =~= a@.skip(j as int + 1));
            assert(b@.skip(j as int).drop_first() =~= b@.skip(j as int + 1));
        }
        j = j + 1;
    }
    proof {
        if j < na {
            assert(a@.skip(j as int)[0] == a@[j as int]);
        }
        if j < nb {
            assert(b@.skip(j as int)[0] == b@[j as int]);
        }
    }
    if j == nb {
        false
    } else if j == na {
        true
    } else {
        let ca = a.get_char(j);
        let cb = b.get_char(j);
        (ca as u32) < (cb as u32)
    }
}

/// The lowercased display name a search ranks an item by, empty when the
/// item has no name.
pub open spec fn spec_lname(tree: DocTree, i: int) -> Seq<char> {
    match tree.index@[i].name {
        Some(n) => lower_of(n@),
        None => lower_of(Seq::<char>::empty()),
    }
}

/// The ranking order of two index positions for a lowercased query: exact
/// matches first, then prefix matches, then names in lexicographic order,
/// ties kept in index order.
pub open spec fn spec_rank_le(tree: DocTree, q: Seq<char>, i: int, j: int) -> bool {
    let an = spec_lname(tree, i);
    let bn = spec_lname(tree, j);
    if (an == q) != (bn == q) {
        an == q
    } else if spec_starts_with(an, q) != spec_starts_with(bn, q) {
        spec_starts_with(an, q)
    } else if an != bn {
        spec_lex_lt(an, bn)
    } else {
        i <= j
    }
}

pub proof fn lemma_rank_total(tree: DocTree, q: Seq<char>, i: int, j: int)
    ensures
        spec_rank_le(tree, q, i, j) || spec_rank_le(tree, q, j, i),
{
    lemma_lex_connex(spec_lname(tree, i), spec_lname(tree, j));
}

pub proof fn lemma_rank_trans(tree: DocTree, q: Seq<char>, i: int, j: int, k: int)
    requires
        spec_rank_le(tree, q, i, j),
        spec_rank_le(tree, q, j, k),
    ensures
        spec_rank_le(tree, q, i, k),
{
    let an = spec_lname(tree, i);
    let bn = spec_lname(tree, j);
    let cn = spec_lname(tree, k);
    if an != bn && bn != cn && spec_lex_lt(an, bn) && spec_lex_lt(bn, cn) {
        lemma_lex_trans(an, bn, cn);
        lemma_lex_irrefl(an, bn);
        lemma_lex_irrefl(bn, cn);
        lemma_lex_irrefl(an, cn);
    }
}

fn item_lname(tree: &DocTree, i: usize) -> (r: String)
    requires
        i < tree.index@.len(),
    ensures
        r@ == spec_lname(*tree, i as int),
{
    match &tree.index[i].name {
        Some(n) => lowercase(n.as_str()),
        None => {
            let r = lowercase("");
            proof {
                reveal_strlit("");
                assert(""@ =~= Seq::<char>::empty());
            }
            r
        },
    }
}

fn rank_le(tree: &DocTree, q: &str, i: usize, j: usize) -> (r: bool)
    requires
        i < tree.index@.len(),
        j < tree.index@.len(),
    ensures
        r == spec_rank_le(*tree, q@, i as int, j as int),
{
    let an = item_lname(tree, i);
    let bn = item_lname(tree, j);
    let ae = crate::text::str_eq(an.as_str(), q);
    let be = crate::text::str_eq(bn.as_str(), q);
    if ae != be {
        ae
    } else {
        let ap = starts_with(an.as_str(), q);
        let bp = starts_with(bn.as_str(), q);
        if ap != bp {
            ap
        } else if !crate::text::str_eq(an.as_str(), bn.as_str()) {
            lex_lt(an.as_str(), bn.as_str())
        } else {
            i <= j
        }
    }
}

/// Whether the item at position `i` matches the lowercased query: it
/// belongs to the local package and its lowercased name contains the
/// query.
pub open spec fn spec_query_match(tree: DocTree, i: int, q: Seq<char>) -> bool {
    &&& tree.index@[i].crate_id == 0
    &&& tree.index@[i].name is Some
    &&& spec_contains_sub(lower_of(tree.index@[i].name->Some_0@), q)
}

/// The matching index positions among the first `n`, in index order.
pub open spec fn spec_matching_upto(tree: DocTree, q: Seq<char>, n: int) -> Seq<usize>
    decreases n,
{
    if n <= 0 {
        Seq::<usize>::empty()
    } else {
        spec_matching_upto(tree, q, n - 1) + (if spec_query_match(tree, n - 1, q) {
            seq![(n - 1) as usize]
        } else {
            Seq::<usize>::empty()
        })
    }
}

/// Collect the positions of all matching items, in index order.
fn matching_indices(tree: &DocTree, q: &str) -> (r: Vec<usize>)
    ensures
        r@ == spec_matching_upto(*tree, q@, tree.index@.len() as int),
        forall|k: int| 0 <= k < r@.len() ==> #[trigger] r@[k] < tree.index@.len(),
{
    let n: usize = tree.index.len();
    let mut out: Vec<usize> = Vec::new();
    let mut i: usize = 0;
    while i < n
        invariant
            n == tree.index@.len(),
            i <= n,
            out@ == spec_matching_upto(*tree, q@, i as int),
            forall|k: int| 0 <= k < out@.len() ==> #[trigger] out@[k] < tree.index@.len(),
        decreases n - i,
    {
        let is_match = if tree.index[i].crate_id == 0 {
            match &tree.index[i].name {
                Some(nm) => {
                    let ln = lowercase(nm.as_str());
                    contains_sub(ln.as_str(), q)
                },
                None => false,
            }
        } else {
            false
        };
        if is_match {
            out.push(i);
        }
        i = i + 1;
    }
    out
}

/// Every element of `s` ranks at or below every later one.
pub open spec fn spec_ranked(tree: DocTree, q: Seq<char>, s: Seq<usize>) -> bool {
    forall|k1: int, k2: int|
        #![trigger s[k1], s[k2]]
        0 <= k1 < k2 < s.len() ==> spec_rank_le(tree, q, s[k1] as int, s[k2] as int)
}

/// Sort matching positions by rank, keeping ties in their given order.
fn sort_matches(tree: &DocTree, q: &str, v: Vec<usize>) -> (r: Vec<usize>)
    requires
        forall|k: int| 0 <= k < v@.len() ==> #[trigger] v@[k] < tree.index@.len(),
    ensures
        r@.to_multiset() == v@.to_multiset(),
        spec_ranked(*tree, q@, r@),
        forall|k: int| 0 <= k < r@.len() ==> #[trigger] r@[k] < tree.index@.len(),
{
    broadcast use vstd::seq_lib::group_to_multiset_ensures;

    let ghost orig = v@;
    let mut remaining = v;
    let mut out: Vec<usize> = Vec::new();
    proof {
        assert(orig.skip(0) =~= orig);
        assert(out@.to_multiset().add(orig.to_multiset()) =~= orig.to_multiset());
    }
    let ghost k: int = 0;
    #[verifier::loop_isolation(false)]
    while remaining.len() > 0
        invariant
            0 <= k <= orig.len(),
            remaining@ =~= orig.skip(k),
            out@.to_multiset().add(remaining@.to_multiset()) =~= orig.to_multiset(),
            spec_ranked(*tree, q@, out@),
            forall|x: int| 0 <= x < out@.len() ==> #[trigger] out@[x] < tree.index@.len(),
        decreases remaining@.len(),
    {
        proof {
            assert(orig.skip(k)[0] == orig[k]);
            assert(orig.skip(k).drop_first() =~= orig.skip(k + 1));
        }
        let x = remaining.remove(0);
        proof {
            assert(remaining@ =~= orig.skip(k + 1));
        }
        let nlen: usize = out.len();
        let mut p: usize = 0;
        while p < nlen && rank_le(tree, q, out[p], x)
            invariant
                nlen == out@.len(),
                p <= nlen,
                x < tree.index@.len(),
                forall|y: int| 0 <= y < out@.len() ==> #[trigger] out@[y] < tree.index@.len(),
                forall|y: int|
                    0 <= y < p ==> spec_rank_le(*tree, q@, #[trigger] out@[y] as int, x as int),
            decreases nlen - p,
        {
            p = p + 1;
        }
        let ghost old_out = out@;
        out.insert(p, x);
        proof {
            assert(p <= old_out.len());
            assert(out@ =~= old_out.take(p as int) + seq![x] + old_out.skip(p as int));
            assert(out@.len() == old_out.len() + 1);
            assert forall|y: int| 0 <= y < p implies #[trigger] out@[y] == old_out[y] by {
                assert(out@[y] == (old_out.take(p as int) + seq![x] + old_out.skip(p as int))[y]);
                assert((old_out.take(p as int) + seq![x] + old_out.skip(p as int))[y]
                    == old_out.take(p as int)[y]);
            }
            assert(out@[p as int] == x);
            assert forall|y: int| p < y < out@.len() implies #[trigger] out@[y] == old_out[y
                - 1] by {
                assert(out@[y] == (old_out.take(p as int) + seq![x] + old_out.skip(p as int))[y]);
                assert((old_out.take(p as int) + seq![x] + old_out.skip(p as int))[y]
                    == old_out.skip(p as int)[y - p - 1]);
                assert(old_out.skip(p as int)[y - p - 1] == old_out[y - 1]);
            }
            vstd::seq_lib::lemma_multiset_commutative(
                old_out.take(p as int) + seq![x],
                old_out.skip(p as int),
            );
            vstd::seq_lib::lemma_multiset_commutative(old_out.take(p as int), seq![x]);
            vstd::seq_lib::lemma_multiset_commutative(
                old_out.take(p as int),
                old_out.skip(p as int),
            );
            assert(old_out.take(p as int) + old_out.skip(p as int) =~= old_out);
            assert(out@.to_multiset() =~= old_out.to_multiset().insert(x));
            assert forall|k1: int, k2: int|
                #![trigger out@[k1], out@[k2]]
                0 <= k1 < k2 < out@.len() implies spec_rank_le(
                *tree,
                q@,
                out@[k1] as int,
                out@[k2] as int,
            ) by {
                if k1 < p && k2 == p {
                    assert(out@[k1] == old_out[k1]);
                } else if k1 == p && k2 > p {
                    assert(out@[k2] == old_out[k2 - 1]);
                    if p < old_out.len() {
                        assert(!spec_rank_le(*tree, q@, old_out[p as int] as int, x as int));
                        lemma_rank_total(*tree, q@, old_out[p as int] as int, x as int);
                        if k2 - 1 > p {
                            lemma_rank_trans(
                                *tree,
                                q@,
                                x as int,
                                old_out[p as int] as int,
                                old_out[k2 - 1] as int,
                            );
                        }
                    }
                } else if k1 < p && k2 > p {
                    assert(out@[k1] == old_out[k1]);
                    assert(out@[k2] == old_out[k2 - 1]);
                } else if k1 != p && k2 != p {
                    if k1 < p {
                        assert(out@[k1] == old_out[k1]);
                    } else {
                        assert(out@[k1] == old_out[k1 - 1]);
                    }
                    if k2 < p {
                        assert(out@[k2] == old_out[k2]);
                    } else {
                        assert(out@[k2] == old_out[k2 - 1]);
                    }
                }
            }
            k = k + 1;
        }
    }
    proof {
        assert(orig.skip(orig.len() as int).len() == 0);
        assert(out@.to_multiset() =~= orig.to_multiset());
    }
    out
}

/// The header line of a non-empty search page.
pub open spec fn spec_search_header(
    name: Seq<char>,
    version: Seq<char>,
    query: Seq<char>,
    total: nat,
    shown: nat,
) -> Seq<char> {
    "Found "@ + spec_dec(total) + " items matching '"@ + query + "' in "@ + name + " v"@ + version
        + " (showing "@ + spec_dec(shown) + "):\n\n"@
}

/// Search a documentation tree and render the result page: a header with
/// the match counts, then the ranked, numbered entries capped at the
/// requested limit (at most one hundred), or a no-match message.
///
/// The entries shown are a ranked arrangement of exactly the matching
/// items, cut off after the limit.
pub fn search_docs_text(
    tree: &DocTree,
    name: &str,
    version: &str,
    query: &str,
    limit: usize,
) -> (r: String)
    ensures
        ({
            let q = lower_of(query@);
            let ms = spec_matching_upto(*tree, q, tree.index@.len() as int);
            let cap: nat = if limit < 100 {
                limit as nat
            } else {
                100nat
            };
            let shown: nat = if ms.len() < cap {
                ms.len()
            } else {
                cap
            };
            if ms.len() == 0 {
                r@ == "No items matching '"@ + query@ + "' found in "@ + name@ + " v"@ + version@
                    + "."@
            } else {
                exists|full: Seq<usize>|
                    {
                        &&& (#[trigger] full.to_multiset()) == ms.to_multiset()
                        &&& spec_ranked(*tree, q, full)
                        &&& r@ == spec_search_header(name@, version@, query@, ms.len(), shown)
                            + spec_search_results_by_index(*tree, full.take(shown as int))
                    }
            }
        }),
{
    let q = lowercase(query);
    let cap: usize = if limit < 100 {
        limit
    } else {
        100
    };
    let matches = matching_indices(tree, q.as_str());
    let total = matches.len();
    let ghost ms = spec_matching_upto(*tree, q@, tree.index@.len() as int);
    let mut sorted = sort_matches(tree, q.as_str(), matches);
    proof {
        broadcast use vstd::seq_lib::group_to_multiset_ensures;

        assert(sorted@.to_multiset().len() == ms.to_multiset().len());
        assert(sorted@.len() == ms.len());
    }
    if sorted.len() == 0 {
        let mut out = String::from_str("No items matching '");
        out.append(query);
        out.append("' found in ");
        out.append(name);
        out.append(" v");
        out.append(version);
        out.append(".");
        proof {
            assert(out@ =~= "No items matching '"@ + query@ + "' found in "@ + name@ + " v"@
                + version@ + "."@);
        }
        return out;
    }
    let ghost full = sorted@;
    proof {
        assert(full.take(full.len() as int) =~= full);
    }
    while sorted.len() > cap
        invariant
            forall|k: int| 0 <= k < sorted@.len() ==> #[trigger] sorted@[k] < tree.index@.len(),
            sorted@ =~= full.take(sorted@.len() as int),
            sorted@.len() <= full.len(),
            sorted@.len() == full.len() || sorted@.len() >= cap,
        decreases sorted@.len(),
    {
        let ghost before = sorted@;
        sorted.pop();
        proof {
            assert(sorted@ =~= before.drop_last());
            assert(before.drop_last() =~= full.take(before.len() - 1));
        }
    }
    let shown = sorted.len();
    let mut out = String::from_str("Found ");
    let t = u64_string(total as u64);
    out.append(t.as_str());
    out.append(" items matching '");
    out.append(query);
    out.append("' in ");
    out.append(name);
    out.append(" v");
    out.append(version);
    out.append(" (showing ");
    let sh = u64_string(shown as u64);
    out.append(sh.as_str());
    out.append("):\n\n");
    let body = format_search_results_by_index(tree, &sorted);
    out.append(body.as_str());
    proof {
        let q2 = lower_of(query@);
        let capn: nat = if limit < 100 {
            limit as nat
        } else {
            100nat
        };
        let shownn: nat = if ms.len() < capn {
            ms.len()
        } else {
            capn
        };
        assert(full.len() == ms.len()) by {
            broadcast use vstd::seq_lib::group_to_multiset_ensures;

            assert(full.to_multiset().len() == ms.to_multiset().len());
        }
        assert(shown as nat == shownn);
        assert(out@ =~= spec_search_header(name@, version@, query@, ms.len(), shownn)
            + spec_search_results_by_index(*tree, full.take(shownn as int)));
        assert(full.to_multiset() == ms.to_multiset() && spec_ranked(*tree, q2, full) && out@
            == spec_search_header(name@, version@, query@, ms.len(), shownn)
            + spec_search_results_by_index(*tree, full.take(shownn as int)));
    }
    out
}

} // verus!
