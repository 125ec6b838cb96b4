//! The diagnostic graph of a statement: every node it reaches, once, each
//! with its inferred type or error, for visual debugging.
use vstd::prelude::*;

use fxhash::FxHashSet;

use crate::assembly::{AsmView, Assembly, LocalDef};
use crate::node_check::{check_ready, node_type, typecheck_node};
use crate::root_check::root_rule;
use crate::tpe::{NodeIdx, RootIdx, SigIdx, Type};
use crate::typecheck::TypeCheckError;

verus! {

/// fxhash's `FxHasher`, the hasher of the visited set; carried opaquely.
#[verifier::external_type_specification]
#[verifier::external_body]
pub struct ExFxHasher(fxhash::FxHasher);

/// std's `BuildHasherDefault`, which fxhash's `FxBuildHasher` is; carried opaquely.
#[verifier::external_type_specification]
#[verifier::external_body]
#[verifier::reject_recursive_types(H)]
pub struct ExBuildHasherDefault<H>(core::hash::BuildHasherDefault<H>);

/// Relies on `HashSet::insert` on fxhash's `FxHashSet` (std's set with
/// `FxBuildHasher`):
/// `FxHasher` hashes a key the same way every time, so afterwards the set
/// holds exactly the keys it held and `k`, and the result tells whether `k`
/// was new.
#[verifier::external_body]
fn visit(set: &mut FxHashSet<u32>, k: u32) -> (r: bool)
    ensures
        final(set)@ == old(set)@.insert(k),
        r == !old(set)@.contains(k),
{
    set.insert(k)
}

/// One node of a diagnostic graph.
pub struct DiagNode {
    pub id: NodeIdx,
    pub result: Result<Type, TypeCheckError>,
    pub children: Vec<NodeIdx>,
}

/// A statement, its result, and every node it reaches.
pub struct DiagGraph {
    pub root: RootIdx,
    pub result: Result<(), TypeCheckError>,
    pub root_children: Vec<NodeIdx>,
    pub nodes: Vec<DiagNode>,
}

/// `p` is a chain of nodes, each an operand of the one before.
pub open spec fn is_path(v: AsmView, p: Seq<NodeIdx>) -> bool {
    &&& p.len() >= 1
    &&& forall|k: int| 0 <= k < p.len() ==> (#[trigger] p[k]).0 < v.nodes.len()
    &&& forall|k: int|
        0 <= k < p.len() - 1 ==> v.nodes[p[k].0 as int].children().contains(#[trigger] p[k + 1])
}

/// Is `n` reached from one of the nodes `start`?
pub open spec fn reachable(v: AsmView, start: Seq<NodeIdx>, n: NodeIdx) -> bool {
    exists|p: Seq<NodeIdx>| is_path(v, p) && start.contains(p[0]) && p.last() == n
}

/// `e` describes node `e.id`, reached from `start`.
pub open spec fn entry_ok(
    v: AsmView,
    sig: SigIdx,
    locals: Seq<LocalDef>,
    start: Seq<NodeIdx>,
    e: DiagNode,
) -> bool {
    &&& e.id.0 < v.nodes.len()
    &&& e.result == node_type(v, sig, locals, e.id.0 as nat)
    &&& e.children@ == v.nodes[e.id.0 as int].children()
    &&& reachable(v, start, e.id)
}

/// `g` is the diagnostic graph of statement `r`: its result, its operands,
/// and one entry for each node it reaches.
pub open spec fn describes(
    v: AsmView,
    sig: SigIdx,
    locals: Seq<LocalDef>,
    r: RootIdx,
    g: DiagGraph,
) -> bool {
    let start = g.root_children@;
    &&& g.root == r
    &&& g.result == root_rule(v, sig, locals, v.roots[r.0 as int])
    &&& start == v.roots[r.0 as int].children()
    &&& forall|k: int| 0 <= k < g.nodes@.len() ==> entry_ok(v, sig, locals, start, #[trigger] g.nodes@[k])
    &&& forall|k1: int, k2: int|
        0 <= k1 < g.nodes@.len() && 0 <= k2 < g.nodes@.len() && k1 != k2 ==> g.nodes@[k1].id
            != g.nodes@[k2].id
    &&& forall|n: NodeIdx| reachable(v, start, n) ==> exists|k: int| 0 <= k < g.nodes@.len() && #[trigger] g.nodes@[k].id == n
}

/// A node in a set that holds the start nodes and is closed under operands is
/// in that set whenever it is reached.
proof fn lemma_reached_in_closed(v: AsmView, start: Seq<NodeIdx>, s: Set<int>, p: Seq<NodeIdx>, k: int)
    requires
        is_path(v, p),
        start.contains(p[0]),
        0 <= k < p.len(),
        forall|j: int| 0 <= j < start.len() ==> s.contains((#[trigger] start[j]).0 as int),
        forall|i: int, c: NodeIdx|
            s.contains(i) && 0 <= i < v.nodes.len() && #[trigger] v.nodes[i].children().contains(c)
                ==> s.contains(c.0 as int),
    ensures
        s.contains(p[k].0 as int),
    decreases k,
{
    if k > 0 {
        lemma_reached_in_closed(v, start, s, p, k - 1);
        let j = k - 1;
        assert(v.nodes[p[j].0 as int].children().contains(p[j + 1]));
    }
}

/// Builds the diagnostic graph of statement `r`.
pub fn diagnostic_graph(r: RootIdx, sig: SigIdx, locals: &[LocalDef], store: &Assembly) -> (g:
    DiagGraph)
    requires
        check_ready(store@, sig, locals@),
        r.0 < store@.roots.len(),
    ensures
        describes(store@, sig, locals@, r, g),
{
    let ghost v = store@;
    let ghost n_nodes = v.nodes.len();
    let stmt = store.get_root(r);
    proof {
        let i = r.0 as int;
        assert(v.root_ok(v.roots[i]));
    }
    let result = stmt.typecheck(sig, locals, store);
    let root_children = stmt.nodes();
    let ghost rc = root_children@;
    let mut stack: Vec<NodeIdx> = Vec::new();
    let mut i: usize = root_children.len();
    while i > 0
        invariant
            rc == root_children@,
            rc == v.roots[r.0 as int].children(),
            v.root_ok(v.roots[r.0 as int]),
            i <= rc.len(),
            forall|j: int| i <= j < rc.len() ==> stack@.contains(#[trigger] rc[j]),
            forall|j: int| 0 <= j < stack@.len() ==> rc.contains(#[trigger] stack@[j]),
        decreases i,
    {
        i -= 1;
        let c = root_children[i];
        let ghost prev = stack@;
        stack.push(c);
        proof {
            assert(stack@[stack@.len() - 1] == c);
            assert forall|j: int| i <= j < rc.len() implies stack@.contains(#[trigger] rc[j]) by {
                if j == i {
                    assert(stack@[stack@.len() - 1] == rc[j]);
                } else {
                    assert(prev.contains(rc[j]));
                    let w = choose|w: int| 0 <= w < prev.len() && prev[w] == rc[j];
                    assert(stack@[w] == rc[j]);
                }
            }
            assert forall|j: int| 0 <= j < stack@.len() implies rc.contains(#[trigger] stack@[j]) by {
                if j == stack@.len() - 1 {
                    assert(rc[i as int] == stack@[j]);
                }
            }
        }
    }
    proof {
        assert forall|j: int| 0 <= j < stack@.len() implies (#[trigger] stack@[j]).0 < n_nodes
            && reachable(v, rc, stack@[j]) by {
            let x = stack@[j];
            assert(rc.contains(x));
            let w = choose|w: int| 0 <= w < rc.len() && rc[w] == x;
            assert(v.root_ok(v.roots[r.0 as int]));
            assert(rc[w].0 < n_nodes);
            let p = seq![x];
            assert(is_path(v, p));
            assert(p[0] == x && p.last() == x);
        }
    }
    let mut set: FxHashSet<u32> = FxHashSet::default();
    let ghost mut seen: Set<int> = Set::empty();
    let mut out: Vec<DiagNode> = Vec::new();
    while stack.len() > 0
        invariant
            v == store@,
            n_nodes == v.nodes.len(),
            check_ready(v, sig, locals@),
            rc == v.roots[r.0 as int].children(),
            forall|j: int| 0 <= j < stack@.len() ==> (#[trigger] stack@[j]).0 < n_nodes
                && reachable(v, rc, stack@[j]),
            forall|k: int| 0 <= k < out@.len() ==> entry_ok(v, sig, locals@, rc, #[trigger] out@[k]),
            forall|k1: int, k2: int|
                0 <= k1 < out@.len() && 0 <= k2 < out@.len() && k1 != k2 ==> out@[k1].id
                    != out@[k2].id,
            seen.finite(),
            seen.len() == out@.len(),
            seen.subset_of(vstd::set_lib::set_int_range(0, n_nodes as int)),
            forall|x: u32| set@.contains(x) <==> seen.contains(x as int),
            forall|i: int| seen.contains(i) ==> exists|k: int| 0 <= k < out@.len() && #[trigger] out@[k].id.0 == i,
            forall|k: int| 0 <= k < out@.len() ==> seen.contains((#[trigger] out@[k]).id.0 as int),
            forall|k: int, j: int|
                0 <= k < out@.len() && 0 <= j < out@[k].children@.len() ==> set@.contains(
                    (#[trigger] out@[k].children@[j]).0,
                ) || stack@.contains(out@[k].children@[j]),
            forall|j: int|
                0 <= j < rc.len() ==> set@.contains((#[trigger] rc[j]).0) || stack@.contains(rc[j]),
        decreases n_nodes - out@.len(), stack@.len(),
    {
        proof {
            vstd::set_lib::lemma_int_range(0, n_nodes as int);
            vstd::set_lib::lemma_len_subset(seen, vstd::set_lib::set_int_range(0, n_nodes as int));
            assert(out@.len() <= n_nodes);
        }
        let ghost old_stack = stack@;
        let ghost old_set = set@;
        let n = match stack.pop() {
            Some(n) => n,
            None => {
                proof {
                    assert(false);
                }
                NodeIdx(0)
            },
        };
        proof {
            assert(n == old_stack[old_stack.len() - 1]);
            assert(stack@ == old_stack.drop_last());
        }
        if visit(&mut set, n.0) {
            let result = typecheck_node(n, sig, locals, store);
            let children = store.get_node(n).child_nodes();
            let ghost before_push = stack@;
            assert(before_push == old_stack.drop_last());
            let mut j: usize = children.len();
            while j > 0
                invariant
                    j <= children@.len(),
                    children@ == v.nodes[n.0 as int].children(),
                    forall|w: int| 0 <= w < before_push.len() ==> stack@[w] == before_push[w],
                    stack@.len() >= before_push.len(),
                    forall|w: int| j <= w < children@.len() ==> stack@.contains(#[trigger] children@[w]),
                    forall|w: int| before_push.len() <= w < stack@.len() ==> children@.contains(#[trigger] stack@[w]),
                decreases j,
            {
                j -= 1;
                let c = children[j];
                let ghost prev = stack@;
                stack.push(c);
                proof {
                    assert(stack@[stack@.len() - 1] == c);
                    assert forall|w: int| j <= w < children@.len() implies stack@.contains(#[trigger] children@[w]) by {
                        if w == j {
                            assert(stack@[stack@.len() - 1] == children@[w]);
                        } else {
                            let q = choose|q: int| 0 <= q < prev.len() && prev[q] == children@[w];
                            assert(stack@[q] == children@[w]);
                        }
                    }
                    assert forall|w: int| before_push.len() <= w < stack@.len() implies children@.contains(#[trigger] stack@[w]) by {
                        if w == stack@.len() - 1 {
                            assert(children@[j as int] == stack@[w]);
                        } else {
                            assert(stack@[w] == prev[w]);
                        }
                    }
                }
            }
            let ghost old_out = out@;
            out.push(DiagNode { id: n, result, children });
            proof {
                let e = out@[out@.len() - 1];
                assert(e.id == n);
                assert(v.node_ok(v.nodes[n.0 as int], n.0 as nat)) by {
                    let q = n.0 as int;
                    assert(v.node_ok(v.nodes[q], q as nat));
                }
                // the new entries of the stack are reached through n
                let pn = choose|p: Seq<NodeIdx>| is_path(v, p) && rc.contains(p[0]) && p.last() == n;
                assert forall|w: int| 0 <= w < stack@.len() implies (#[trigger] stack@[w]).0 < n_nodes
                    && reachable(v, rc, stack@[w]) by {
                    if w < before_push.len() {
                        assert(stack@[w] == before_push[w]);
                        assert(before_push[w] == old_stack[w]);
                    } else {
                        let c = stack@[w];
                        assert(children@.contains(c));
                        let q = choose|q: int| 0 <= q < children@.len() && children@[q] == c;
                        assert(v.nodes[n.0 as int].children()[q] == c);
                        let p2 = pn.push(c);
                        assert(is_path(v, p2)) by {
                            assert forall|k: int| 0 <= k < p2.len() - 1 implies v.nodes[p2[k].0 as int].children().contains(
                                #[trigger] p2[k + 1],
                            ) by {
                                if k == p2.len() - 2 {
                                    assert(p2[k] == n);
                                    assert(p2[k + 1] == c);
                                } else {
                                    assert(p2[k] == pn[k] && p2[k + 1] == pn[k + 1]);
                                }
                            }
                            assert forall|k: int| 0 <= k < p2.len() implies (#[trigger] p2[k]).0 < v.nodes.len() by {
                                if k < pn.len() {
                                    assert(p2[k] == pn[k]);
                                }
                            }
                        }
                        assert(p2[0] == pn[0]);
                        assert(p2.last() == c);
                    }
                }
                assert(!seen.contains(n.0 as int));
                seen = seen.insert(n.0 as int);
                assert forall|k: int| 0 <= k < out@.len() implies entry_ok(v, sig, locals@, rc, #[trigger] out@[k]) by {
                    if k < old_out.len() {
                        assert(out@[k] == old_out[k]);
                    }
                }
                assert forall|k1: int, k2: int|
                    0 <= k1 < out@.len() && 0 <= k2 < out@.len() && k1 != k2 implies out@[k1].id
                        != out@[k2].id by {
                    if k1 == old_out.len() {
                        assert(!(old_out[k2].id == n));
                    } else if k2 == old_out.len() {
                        assert(!(old_out[k1].id == n));
                    }
                }
                assert forall|i: int| seen.contains(i) implies exists|k: int| 0 <= k < out@.len() && #[trigger] out@[k].id.0 == i by {
                    if i == n.0 as int {
                        assert(out@[old_out.len() as int].id.0 == i);
                    } else {
                        let k = choose|k: int| 0 <= k < old_out.len() && #[trigger] old_out[k].id.0 == i;
                        assert(out@[k].id.0 == i);
                    }
                }
                assert forall|k: int| 0 <= k < out@.len() implies seen.contains((#[trigger] out@[k]).id.0 as int) by {
                    if k < old_out.len() {
                        assert(out@[k] == old_out[k]);
                    }
                }
                assert forall|k: int, j: int|
                    0 <= k < out@.len() && 0 <= j < out@[k].children@.len() implies set@.contains(
                        (#[trigger] out@[k].children@[j]).0,
                    ) || stack@.contains(out@[k].children@[j]) by {
                    let c = out@[k].children@[j];
                    if k == old_out.len() {
                        assert(stack@.contains(children@[j]));
                    } else {
                        assert(out@[k] == old_out[k]);
                        if !old_set.contains(c.0) {
                            assert(old_stack.contains(c));
                            let q = choose|q: int| 0 <= q < old_stack.len() && old_stack[q] == c;
                            if q == old_stack.len() - 1 {
                                assert(c == n);
                            } else {
                                assert(before_push[q] == old_stack[q]);
                                assert(stack@[q] == c);
                            }
                        }
                    }
                }
                assert forall|j: int| 0 <= j < rc.len() implies set@.contains((#[trigger] rc[j]).0)
                    || stack@.contains(rc[j]) by {
                    let c = rc[j];
                    if !old_set.contains(c.0) {
                        let q = choose|q: int| 0 <= q < old_stack.len() && old_stack[q] == c;
                        if q == old_stack.len() - 1 {
                            assert(c == n);
                        } else {
                            assert(before_push[q] == old_stack[q]);
                            assert(stack@[q] == c);
                        }
                    }
                }
                assert(seen.subset_of(vstd::set_lib::set_int_range(0, n_nodes as int)));
                vstd::set_lib::lemma_len_subset(seen, vstd::set_lib::set_int_range(0, n_nodes as int));
                assert(out@.len() <= n_nodes);
            }
        } else {
            proof {
                assert(old_set.contains(n.0));
                assert forall|j: int| 0 <= j < stack@.len() implies (#[trigger] stack@[j]).0 < n_nodes
                    && reachable(v, rc, stack@[j]) by {
                    assert(stack@[j] == old_stack[j]);
                }
                assert forall|k: int, j: int|
                    0 <= k < out@.len() && 0 <= j < out@[k].children@.len() implies set@.contains(
                        (#[trigger] out@[k].children@[j]).0,
                    ) || stack@.contains(out@[k].children@[j]) by {
                    let c = out@[k].children@[j];
                    if !old_set.contains(c.0) {
                        let q = choose|q: int| 0 <= q < old_stack.len() && old_stack[q] == c;
                        if q == old_stack.len() - 1 {
                            assert(c == n);
                        } else {
                            assert(stack@[q] == c);
                        }
                    }
                }
                assert forall|j: int| 0 <= j < rc.len() implies set@.contains((#[trigger] rc[j]).0)
                    || stack@.contains(rc[j]) by {
                    let c = rc[j];
                    if !old_set.contains(c.0) {
                        let q = choose|q: int| 0 <= q < old_stack.len() && old_stack[q] == c;
                        if q == old_stack.len() - 1 {
                            assert(c == n);
                        } else {
                            assert(stack@[q] == c);
                        }
                    }
                }
            }
        }
    }
    proof {
        assert forall|nd: NodeIdx| reachable(v, rc, nd) implies exists|k: int|
            0 <= k < out@.len() && #[trigger] out@[k].id == nd by {
            let p = choose|p: Seq<NodeIdx>| is_path(v, p) && rc.contains(p[0]) && p.last() == nd;
            assert forall|j: int| 0 <= j < rc.len() implies seen.contains((#[trigger] rc[j]).0 as int) by {
                assert(!stack@.contains(rc[j]));
                assert(set@.contains(rc[j].0));
            }
            assert forall|i: int, c: NodeIdx|
                seen.contains(i) && 0 <= i < v.nodes.len() && #[trigger] v.nodes[i].children().contains(c)
                    implies seen.contains(c.0 as int) by {
                let k = choose|k: int| 0 <= k < out@.len() && #[trigger] out@[k].id.0 == i;
                let q = choose|q: int| 0 <= q < v.nodes[i].children().len() && v.nodes[i].children()[q] == c;
                assert(out@[k].children@[q] == c);
                assert(!stack@.contains(c));
                assert(set@.contains(c.0));
            }
            lemma_reached_in_closed(v, rc, seen, p, p.len() - 1);
            let k = choose|k: int| 0 <= k < out@.len() && #[trigger] out@[k].id.0 == nd.0 as int;
            assert(out@[k].id == nd);
        }
    }
    DiagGraph { root: r, result, root_children, nodes: out }
}

} // verus!
