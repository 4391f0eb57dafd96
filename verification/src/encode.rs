use crate::atom::{child_fact, enode_fact, root_fact, ArgView, Atom, AtomView};
use crate::decode::model_view;
use crate::egraph::{GraphView, Id, SimpleEGraph};
use crate::error::ExtractError;
use vstd::prelude::*;

verus! {

impl AtomView {
    /// Whether every number in the atom fits the solver's 32-bit signed
    /// numbers.
    pub open spec fn representable(self) -> bool {
        forall|k: int|
            0 <= k < self.args.len() ==> ((#[trigger] self.args[k]) matches ArgView::Number(n)
                ==> i32::MIN <= n <= i32::MAX)
    }
}

impl GraphView {
    /// The fact `root(..)` for entry `r` of the root list.
    pub open spec fn root_fact_at(self, r: int) -> AtomView {
        root_fact(self.roots[r] as int)
    }

    /// The fact `enode(..)` for node `i` of class `e`.
    pub open spec fn enode_fact_at(self, e: int, i: int) -> AtomView {
        enode_fact(e, i, self.classes[e][i].op, self.classes[e][i].cost as int)
    }

    /// The fact `child(..)` for entry `k` of the child list of node `i` of
    /// class `e`.
    pub open spec fn child_fact_at(self, e: int, i: int, k: int) -> AtomView {
        child_fact(e, i, self.classes[e][i].children[k] as int)
    }

    /// `a` is the `root` fact of one of the first `r_end` roots.
    pub open spec fn is_root_fact(self, a: AtomView, r_end: int) -> bool {
        exists|r: int| 0 <= r < r_end && a == #[trigger] self.root_fact_at(r)
    }

    /// `a` is the `enode` fact of node `i` of class `e`, or the `child` fact
    /// of one of its first `k_end` children.
    pub open spec fn is_node_fact(self, a: AtomView, e: int, i: int, k_end: int) -> bool {
        ||| a == self.enode_fact_at(e, i)
        ||| exists|k: int| 0 <= k < k_end && a == #[trigger] self.child_fact_at(e, i, k)
    }

    /// `a` is a fact of one of the first `i_end` nodes of class `e`.
    pub open spec fn is_class_fact(self, a: AtomView, e: int, i_end: int) -> bool {
        exists|i: int|
            0 <= i < i_end && #[trigger] self.is_node_fact(
                a,
                e,
                i,
                self.classes[e][i].children.len() as int,
            )
    }

    /// `a` is a fact of one of the first `e_end` classes.
    pub open spec fn is_graph_fact(self, a: AtomView, e_end: int) -> bool {
        exists|e: int|
            0 <= e < e_end && #[trigger] self.is_class_fact(a, e, self.classes[e].len() as int)
    }

    /// The facts of the problem: `root(e)` for every root, `enode(e, i, op,
    /// cost)` for every node, and `child(e, i, c)` for every child reference.
    pub open spec fn is_fact(self, a: AtomView) -> bool {
        ||| self.is_root_fact(a, self.roots.len() as int)
        ||| self.is_graph_fact(a, self.classes.len() as int)
    }

    /// Whether the problem can be written down as facts: every number that a
    /// fact carries fits the solver's 32-bit signed numbers.
    pub open spec fn encodable(self) -> bool {
        forall|a: AtomView| #[trigger] self.is_fact(a) ==> a.representable()
    }
}

/// Whether `facts` lists exactly the facts of `g`, each of them once.
pub open spec fn facts_of(g: GraphView, facts: Seq<AtomView>) -> bool {
    &&& facts.no_duplicates()
    &&& forall|a: AtomView|
        #![trigger facts.contains(a)]
        #![trigger g.is_fact(a)]
        facts.contains(a) <==> g.is_fact(a)
}

/// The largest number a fact can carry.
pub const MAX_NUMBER: usize = 0x7fff_ffff;

/// Every atom that exists at run time holds 32-bit numbers only.
proof fn lemma_atom_representable(a: Atom)
    ensures
        a@.representable(),
{
    assert forall|k: int| 0 <= k < a@.args.len() implies ((#[trigger] a@.args[k]) matches ArgView::Number(
        n,
    ) ==> i32::MIN <= n <= i32::MAX) by {
        assert(a@.args[k] == a.args@[k]@);
    }
}

/// A fact of node `i` of class `e` has at least three arguments and starts
/// with the numbers `e` and `i`.
proof fn lemma_node_fact_shape(g: GraphView, a: AtomView, e: int, i: int, k_end: int)
    requires
        g.is_node_fact(a, e, i, k_end),
    ensures
        a.args.len() >= 3,
        a.args[0] == ArgView::Number(e),
        a.args[1] == ArgView::Number(i),
{
    if a == g.enode_fact_at(e, i) {
    } else {
        let k = choose|k: int| 0 <= k < k_end && a == #[trigger] g.child_fact_at(e, i, k);
        assert(a == g.child_fact_at(e, i, k));
    }
}

/// A `root` fact has exactly one argument.
proof fn lemma_root_fact_shape(g: GraphView, a: AtomView, r_end: int)
    requires
        g.is_root_fact(a, r_end),
    ensures
        a.args.len() == 1,
{
    let r = choose|r: int| 0 <= r < r_end && a == #[trigger] g.root_fact_at(r);
    assert(a == g.root_fact_at(r));
}

/// A fact of one of the nodes of class `e` is a fact of the graph.
proof fn lemma_node_fact_is_fact(g: GraphView, a: AtomView, e: int, i: int)
    requires
        g.has_node(e, i),
        g.is_node_fact(a, e, i, g.classes[e][i].children.len() as int),
    ensures
        g.is_fact(a),
{
    assert(g.is_class_fact(a, e, g.classes[e].len() as int));
    assert(g.is_graph_fact(a, g.classes.len() as int));
}

/// Whether entry `k` of `ids` repeats an earlier entry.
fn seen_before(ids: &Vec<Id>, k: usize) -> (b: bool)
    requires
        k < ids@.len(),
    ensures
        b == exists|j: int| 0 <= j < k && ids@[j] == ids@[k as int],
{
    let mut j: usize = 0;
    while j < k
        invariant
            j <= k,
            k < ids@.len(),
            forall|h: int| 0 <= h < j ==> ids@[h] != ids@[k as int],
        decreases k - j,
    {
        if ids[j] == ids[k] {
            return true;
        }
        j += 1;
    }
    false
}

/// Appends a fact that is not yet listed.
fn emit(facts: &mut Vec<Atom>, a: Atom)
    requires
        model_view(old(facts)@).no_duplicates(),
        !model_view(old(facts)@).contains(a@),
    ensures
        model_view(final(facts)@).no_duplicates(),
        forall|x: AtomView|
            #![trigger model_view(final(facts)@).contains(x)]
            #![trigger model_view(old(facts)@).contains(x)]
            model_view(final(facts)@).contains(x) <==> (model_view(old(facts)@).contains(x) || x
                == a@),
{
    let ghost before = model_view(facts@);
    let ghost av = a@;
    facts.push(a);
    proof {
        let after = model_view(facts@);
        assert(after =~= before.push(av));
        assert forall|x: AtomView|
            #![trigger after.contains(x)]
            #![trigger before.contains(x)]
            after.contains(x) <==> (before.contains(x) || x == av) by {
            if after.contains(x) {
                let j = choose|j: int| 0 <= j < after.len() && after[j] == x;
                if j < before.len() {
                    assert(before[j] == x);
                }
            }
            if before.contains(x) {
                let j = choose|j: int| 0 <= j < before.len() && before[j] == x;
                assert(after[j] == x);
            }
            if x == av {
                assert(after[before.len() as int] == x);
            }
        }
        assert forall|h: int, j: int| 0 <= h < after.len() && 0 <= j < after.len() && h != j implies after[h]
            != after[j] by {
            if h == before.len() {
                assert(before[j] == after[j]);
            } else if j == before.len() {
                assert(before[h] == after[h]);
            }
        }
    }
}

/// Appends the `root` facts, one for each distinct root. Gives up, with
/// `false`, at a root whose identifier no fact can carry.
fn emit_roots(graph: &SimpleEGraph, facts: &mut Vec<Atom>) -> (ok: bool)
    requires
        old(facts)@.len() == 0,
    ensures
        ok ==> model_view(final(facts)@).no_duplicates(),
        ok ==> forall|x: AtomView|
            #![trigger model_view(final(facts)@).contains(x)]
            #![trigger graph@.is_root_fact(x, graph@.roots.len() as int)]
            model_view(final(facts)@).contains(x) <==> graph@.is_root_fact(
                x,
                graph@.roots.len() as int,
            ),
        !ok ==> !graph@.encodable(),
{
    let ghost g = graph@;
    let mut r: usize = 0;
    while r < graph.roots.len()
        invariant
            r <= graph.roots@.len(),
            g == graph@,
            model_view(facts@).no_duplicates(),
            forall|x: AtomView|
                #![trigger model_view(facts@).contains(x)]
                #![trigger g.is_root_fact(x, r as int)]
                model_view(facts@).contains(x) <==> g.is_root_fact(x, r as int),
        decreases graph.roots@.len() - r,
    {
        let root = graph.roots[r];
        let ghost this = g.root_fact_at(r as int);
        if root > MAX_NUMBER {
            proof {
                assert(g.is_root_fact(this, g.roots.len() as int));
                assert(g.is_fact(this));
                assert(this.args[0] == ArgView::Number(root as int));
                assert(!this.representable());
            }
            return false;
        }
        if seen_before(&graph.roots, r) {
            proof {
                let j = choose|j: int| 0 <= j < r && graph.roots@[j] == graph.roots@[r as int];
                assert(this == g.root_fact_at(j));
                assert forall|x: AtomView|
                    #![trigger model_view(facts@).contains(x)]
                    #![trigger g.is_root_fact(x, r + 1)]
                    model_view(facts@).contains(x) <==> g.is_root_fact(x, r + 1) by {
                    if g.is_root_fact(x, r + 1) {
                        let h = choose|h: int| 0 <= h < r + 1 && x == #[trigger] g.root_fact_at(h);
                        if h == r {
                            assert(x == g.root_fact_at(j));
                        }
                        assert(g.is_root_fact(x, r as int));
                    }
                    if g.is_root_fact(x, r as int) {
                        let h = choose|h: int| 0 <= h < r && x == #[trigger] g.root_fact_at(h);
                        assert(0 <= h < r + 1);
                        assert(g.is_root_fact(x, r + 1));
                    }
                }
            }
        } else {
            proof {
                if model_view(facts@).contains(this) {
                    assert(g.is_root_fact(this, r as int));
                    let h = choose|h: int| 0 <= h < r && this == #[trigger] g.root_fact_at(h);
                    assert(this.args[0] == g.root_fact_at(h).args[0]);
                    assert(graph.roots@[h] == graph.roots@[r as int]);
                }
            }
            let ghost before = model_view(facts@);
            emit(facts, Atom::root(root as i32));
            proof {
                assert forall|x: AtomView|
                    #![trigger model_view(facts@).contains(x)]
                    #![trigger g.is_root_fact(x, r + 1)]
                    model_view(facts@).contains(x) <==> g.is_root_fact(x, r + 1) by {
                    if g.is_root_fact(x, r + 1) {
                        let h = choose|h: int| 0 <= h < r + 1 && x == #[trigger] g.root_fact_at(h);
                        if h < r {
                            assert(g.is_root_fact(x, r as int));
                            assert(before.contains(x));
                        }
                    }
                    if before.contains(x) {
                        assert(g.is_root_fact(x, r as int));
                        let h = choose|h: int| 0 <= h < r && x == #[trigger] g.root_fact_at(h);
                        assert(0 <= h < r + 1);
                        assert(g.is_root_fact(x, r + 1));
                    }
                    if x == this {
                        assert(x == g.root_fact_at(r as int));
                        assert(g.is_root_fact(x, r + 1));
                    }
                }
            }
        }
        r += 1;
    }
    true
}

/// Appends the facts of node `i` of class `e`: its `enode` fact and one
/// `child` fact for each distinct child. Gives up, with `false`, at a number
/// that no fact can carry.
fn emit_node(graph: &SimpleEGraph, e: usize, i: usize, facts: &mut Vec<Atom>) -> (ok: bool)
    requires
        graph@.has_node(e as int, i as int),
        model_view(old(facts)@).no_duplicates(),
        forall|x: AtomView|
            #![trigger model_view(old(facts)@).contains(x)]
            model_view(old(facts)@).contains(x) ==> !graph@.is_node_fact(
                x,
                e as int,
                i as int,
                graph@.classes[e as int][i as int].children.len() as int,
            ),
    ensures
        ok ==> model_view(final(facts)@).no_duplicates(),
        ok ==> forall|x: AtomView|
            #![trigger model_view(final(facts)@).contains(x)]
            #![trigger model_view(old(facts)@).contains(x)]
            #![trigger graph@.is_node_fact(x, e as int, i as int, graph@.classes[e as int][i as int].children.len() as int)]
            model_view(final(facts)@).contains(x) <==> (model_view(old(facts)@).contains(x)
                || graph@.is_node_fact(
                x,
                e as int,
                i as int,
                graph@.classes[e as int][i as int].children.len() as int,
            )),
        !ok ==> !graph@.encodable(),
{
    let ghost g = graph@;
    let ghost before = model_view(facts@);
    let node = &graph.classes[e].nodes[i];
    let ghost k_len = node.children@.len() as int;
    let ghost head = g.enode_fact_at(e as int, i as int);
    assert(g.classes[e as int][i as int] == node@);
    assert(g.is_node_fact(head, e as int, i as int, k_len));
    if e > MAX_NUMBER || i > MAX_NUMBER || node.cost > 0x7fff_ffff {
        proof {
            lemma_node_fact_is_fact(g, head, e as int, i as int);
            assert(head.args[0] == ArgView::Number(e as int));
            assert(head.args[1] == ArgView::Number(i as int));
            assert(head.args[3] == ArgView::Number(node.cost as int));
            assert(!head.representable());
        }
        return false;
    }
    emit(facts, Atom::enode(e as i32, i as i32, &node.op, node.cost as i32));
    let mut k: usize = 0;
    while k < node.children.len()
        invariant
            k <= node.children@.len(),
            g == graph@,
            g.has_node(e as int, i as int),
            g.classes[e as int][i as int] == node@,
            k_len == node.children@.len(),
            k_len == g.classes[e as int][i as int].children.len(),
            head == g.enode_fact_at(e as int, i as int),
            e <= MAX_NUMBER,
            i <= MAX_NUMBER,
            model_view(facts@).no_duplicates(),
            forall|x: AtomView|
                #![trigger before.contains(x)]
                before.contains(x) ==> !g.is_node_fact(x, e as int, i as int, k_len),
            forall|x: AtomView|
                #![trigger model_view(facts@).contains(x)]
                #![trigger before.contains(x)]
                #![trigger g.is_node_fact(x, e as int, i as int, k as int)]
                model_view(facts@).contains(x) <==> (before.contains(x) || g.is_node_fact(
                    x,
                    e as int,
                    i as int,
                    k as int,
                )),
        decreases node.children@.len() - k,
    {
        let child = node.children[k];
        let ghost this = g.child_fact_at(e as int, i as int, k as int);
        let ghost listed = model_view(facts@);
        assert(this.args[2] == ArgView::Number(child as int));
        assert(g.is_node_fact(this, e as int, i as int, k_len));
        if child > MAX_NUMBER {
            proof {
                lemma_node_fact_is_fact(g, this, e as int, i as int);
                assert(!this.representable());
            }
            return false;
        }
        if seen_before(&node.children, k) {
            proof {
                let j = choose|j: int|
                    0 <= j < k && node.children@[j] == node.children@[k as int];
                assert(this == g.child_fact_at(e as int, i as int, j));
                assert(g.is_node_fact(this, e as int, i as int, k as int));
                assert(listed.contains(this));
            }
        } else {
            proof {
                if g.is_node_fact(this, e as int, i as int, k as int) {
                    assert(this != head);
                    let j = choose|j: int|
                        0 <= j < k && this == #[trigger] g.child_fact_at(e as int, i as int, j);
                    assert(g.child_fact_at(e as int, i as int, j).args[2] == ArgView::Number(
                        node.children@[j] as int,
                    ));
                    assert(node.children@[j] == node.children@[k as int]);
                }
            }
            emit(facts, Atom::child(e as i32, i as i32, child as i32));
        }
        proof {
            assert(model_view(facts@).contains(this));
            assert(forall|x: AtomView|
                #![trigger model_view(facts@).contains(x)]
                #![trigger listed.contains(x)]
                model_view(facts@).contains(x) <==> (listed.contains(x) || x == this));
            assert forall|x: AtomView|
                #![trigger model_view(facts@).contains(x)]
                #![trigger before.contains(x)]
                #![trigger g.is_node_fact(x, e as int, i as int, k + 1)]
                model_view(facts@).contains(x) <==> (before.contains(x) || g.is_node_fact(
                    x,
                    e as int,
                    i as int,
                    k + 1,
                )) by {
                if g.is_node_fact(x, e as int, i as int, k + 1) && x != head {
                    let j = choose|j: int|
                        0 <= j < k + 1 && x == #[trigger] g.child_fact_at(e as int, i as int, j);
                    if j < k {
                        assert(g.is_node_fact(x, e as int, i as int, k as int));
                    } else {
                        assert(x == this);
                    }
                }
                if g.is_node_fact(x, e as int, i as int, k as int) && x != head {
                    let j = choose|j: int|
                        0 <= j < k && x == #[trigger] g.child_fact_at(e as int, i as int, j);
                    assert(0 <= j < k + 1);
                    assert(g.is_node_fact(x, e as int, i as int, k + 1));
                }
                if x == this {
                    assert(g.is_node_fact(x, e as int, i as int, k + 1));
                    assert(model_view(facts@).contains(x));
                }
            }
        }
        k += 1;
    }
    true
}

/// A fact of one of the first `i_end` nodes of class `e` has at least three
/// arguments, starts with the number `e`, and goes on with a node index
/// below `i_end`.
proof fn lemma_class_fact_shape(g: GraphView, a: AtomView, e: int, i_end: int)
    requires
        g.is_class_fact(a, e, i_end),
    ensures
        a.args.len() >= 3,
        a.args[0] == ArgView::Number(e),
        a.args[1] matches ArgView::Number(n) && 0 <= n < i_end,
{
    let i = choose|i: int|
        0 <= i < i_end && #[trigger] g.is_node_fact(
            a,
            e,
            i,
            g.classes[e][i].children.len() as int,
        );
    lemma_node_fact_shape(g, a, e, i, g.classes[e][i].children.len() as int);
}

/// A fact of one of the first `e_end` classes has at least three arguments
/// and starts with a class identifier below `e_end`.
proof fn lemma_graph_fact_shape(g: GraphView, a: AtomView, e_end: int)
    requires
        g.is_graph_fact(a, e_end),
    ensures
        a.args.len() >= 3,
        a.args[0] matches ArgView::Number(n) && 0 <= n < e_end,
{
    let e = choose|e: int|
        0 <= e < e_end && #[trigger] g.is_class_fact(a, e, g.classes[e].len() as int);
    lemma_class_fact_shape(g, a, e, g.classes[e].len() as int);
}

/// The facts of the first `i + 1` nodes of a class are those of the first
/// `i` nodes and those of node `i`.
proof fn lemma_class_fact_step(g: GraphView, a: AtomView, e: int, i: int)
    requires
        0 <= i,
    ensures
        g.is_class_fact(a, e, i + 1) <==> (g.is_class_fact(a, e, i) || g.is_node_fact(
            a,
            e,
            i,
            g.classes[e][i].children.len() as int,
        )),
{
    if g.is_class_fact(a, e, i + 1) {
        let h = choose|h: int|
            0 <= h < i + 1 && #[trigger] g.is_node_fact(
                a,
                e,
                h,
                g.classes[e][h].children.len() as int,
            );
        if h < i {
            assert(g.is_class_fact(a, e, i));
        }
    }
    if g.is_class_fact(a, e, i) {
        let h = choose|h: int|
            0 <= h < i && #[trigger] g.is_node_fact(
                a,
                e,
                h,
                g.classes[e][h].children.len() as int,
            );
        assert(0 <= h < i + 1);
    }
}

/// The facts of the first `e + 1` classes are those of the first `e`
/// classes and those of class `e`.
proof fn lemma_graph_fact_step(g: GraphView, a: AtomView, e: int)
    requires
        0 <= e,
    ensures
        g.is_graph_fact(a, e + 1) <==> (g.is_graph_fact(a, e) || g.is_class_fact(
            a,
            e,
            g.classes[e].len() as int,
        )),
{
    if g.is_graph_fact(a, e + 1) {
        let h = choose|h: int|
            0 <= h < e + 1 && #[trigger] g.is_class_fact(a, h, g.classes[h].len() as int);
        if h < e {
            assert(g.is_graph_fact(a, e));
        }
    }
    if g.is_graph_fact(a, e) {
        let h = choose|h: int|
            0 <= h < e && #[trigger] g.is_class_fact(a, h, g.classes[h].len() as int);
        assert(0 <= h < e + 1);
    }
}

impl GraphView {
    /// Whether every number of the problem that a fact carries is at most
    /// `i32::MAX`: every root, and for every node its class, its index, its
    /// cost and each of its children.
    pub open spec fn numbers_fit(self) -> bool {
        &&& forall|r: int| 0 <= r < self.roots.len() ==> #[trigger] self.roots[r] <= i32::MAX
        &&& forall|e: int, i: int| #[trigger]
            self.has_node(e, i) ==> {
                &&& e <= i32::MAX
                &&& i <= i32::MAX
                &&& self.classes[e][i].cost <= i32::MAX
            }
        &&& forall|e: int, i: int, k: int|
            self.has_node(e, i) && 0 <= k < self.classes[e][i].children.len()
                ==> #[trigger] self.classes[e][i].children[k] <= i32::MAX
    }
}

/// A problem can be encoded exactly when its numbers fit: its roots, and
/// for every node its class, its index, its cost and its children.
pub proof fn lemma_encodable_iff_numbers_fit(g: GraphView)
    ensures
        g.encodable() <==> g.numbers_fit(),
{
    if g.encodable() {
        assert forall|r: int| 0 <= r < g.roots.len() implies #[trigger] g.roots[r] <= i32::MAX by {
            let a = g.root_fact_at(r);
            assert(g.is_root_fact(a, g.roots.len() as int));
            assert(g.is_fact(a));
            assert(a.representable());
            assert(a.args[0] == ArgView::Number(g.roots[r] as int));
        }
        assert forall|e: int, i: int| #[trigger] g.has_node(e, i) implies e <= i32::MAX && i <= i32::MAX
            && g.classes[e][i].cost <= i32::MAX by {
            let a = g.enode_fact_at(e, i);
            lemma_node_fact_is_fact(g, a, e, i);
            assert(a.representable());
            assert(a.args[0] == ArgView::Number(e));
            assert(a.args[1] == ArgView::Number(i));
            assert(a.args[3] == ArgView::Number(g.classes[e][i].cost as int));
        }
        assert forall|e: int, i: int, k: int|
            g.has_node(e, i) && 0 <= k < g.classes[e][i].children.len()
                implies #[trigger] g.classes[e][i].children[k] <= i32::MAX by {
            let a = g.child_fact_at(e, i, k);
            assert(g.is_node_fact(a, e, i, g.classes[e][i].children.len() as int));
            lemma_node_fact_is_fact(g, a, e, i);
            assert(a.representable());
            assert(a.args[2] == ArgView::Number(g.classes[e][i].children[k] as int));
        }
    }
    if g.numbers_fit() {
        assert forall|a: AtomView| g.is_fact(a) implies a.representable() by {
            if g.is_root_fact(a, g.roots.len() as int) {
                let r = choose|r: int| 0 <= r < g.roots.len() && a == #[trigger] g.root_fact_at(r);
                assert(g.roots[r] <= i32::MAX);
            } else {
                let e = choose|e: int|
                    0 <= e < g.classes.len() && #[trigger] g.is_class_fact(
                        a,
                        e,
                        g.classes[e].len() as int,
                    );
                let i = choose|i: int|
                    0 <= i < g.classes[e].len() && #[trigger] g.is_node_fact(
                        a,
                        e,
                        i,
                        g.classes[e][i].children.len() as int,
                    );
                assert(g.has_node(e, i));
                assert(g.classes[e][i].cost <= i32::MAX);
                if a == g.enode_fact_at(e, i) {
                } else {
                    let k = choose|k: int|
                        0 <= k < g.classes[e][i].children.len() && a == #[trigger] g.child_fact_at(
                            e,
                            i,
                            k,
                        );
                    assert(g.classes[e][i].children[k] <= i32::MAX);
                }
            }
        }
    }
}

/// Writes the problem down as facts for the solver: `root(e)` for every
/// root, `enode(e, i, op, cost)` for every node, `child(e, i, c)` for every
/// child reference, each fact once.
///
/// Fails with [`ExtractError::EncodingFailure`] exactly when some fact would
/// carry a number beyond the solver's 32-bit signed numbers.
pub fn encode(graph: &SimpleEGraph) -> (r: Result<Vec<Atom>, ExtractError>)
    ensures
        match r {
            Ok(facts) => graph@.encodable() && facts_of(graph@, model_view(facts@)),
            Err(err) => err == ExtractError::EncodingFailure && !graph@.encodable(),
        },
{
    let ghost g = graph@;
    let ghost r_len = g.roots.len() as int;
    let mut facts: Vec<Atom> = Vec::new();
    if !emit_roots(graph, &mut facts) {
        return Err(ExtractError::EncodingFailure);
    }
    let mut e: usize = 0;
    while e < graph.classes.len()
        invariant
            e <= graph.classes@.len(),
            g == graph@,
            r_len == g.roots.len(),
            model_view(facts@).no_duplicates(),
            forall|x: AtomView|
                #![trigger model_view(facts@).contains(x)]
                #![trigger g.is_root_fact(x, r_len)]
                #![trigger g.is_graph_fact(x, e as int)]
                model_view(facts@).contains(x) <==> (g.is_root_fact(x, r_len) || g.is_graph_fact(
                    x,
                    e as int,
                )),
        decreases graph.classes@.len() - e,
    {
        let class = &graph.classes[e];
        let ghost i_len = class.nodes@.len() as int;
        assert(g.classes[e as int].len() == i_len);
        let mut i: usize = 0;
        while i < class.nodes.len()
            invariant
                i <= class.nodes@.len(),
                e < graph.classes@.len(),
                g == graph@,
                r_len == g.roots.len(),
                i_len == class.nodes@.len(),
                i_len == g.classes[e as int].len(),
                model_view(facts@).no_duplicates(),
                forall|x: AtomView|
                    #![trigger model_view(facts@).contains(x)]
                    #![trigger g.is_root_fact(x, r_len)]
                    #![trigger g.is_graph_fact(x, e as int)]
                    #![trigger g.is_class_fact(x, e as int, i as int)]
                    model_view(facts@).contains(x) <==> (g.is_root_fact(x, r_len)
                        || g.is_graph_fact(x, e as int) || g.is_class_fact(
                        x,
                        e as int,
                        i as int,
                    )),
            decreases class.nodes@.len() - i,
        {
            let ghost listed = model_view(facts@);
            let ghost k_len = g.classes[e as int][i as int].children.len() as int;
            proof {
                assert forall|x: AtomView| #![trigger listed.contains(x)] listed.contains(x) implies !g.is_node_fact(
                    x,
                    e as int,
                    i as int,
                    k_len,
                ) by {
                    if g.is_node_fact(x, e as int, i as int, k_len) {
                        lemma_node_fact_shape(g, x, e as int, i as int, k_len);
                        if g.is_root_fact(x, r_len) {
                            lemma_root_fact_shape(g, x, r_len);
                        } else if g.is_graph_fact(x, e as int) {
                            lemma_graph_fact_shape(g, x, e as int);
                        } else {
                            lemma_class_fact_shape(g, x, e as int, i as int);
                        }
                    }
                }
            }
            if !emit_node(graph, e, i, &mut facts) {
                return Err(ExtractError::EncodingFailure);
            }
            proof {
                assert forall|x: AtomView|
                    #![trigger model_view(facts@).contains(x)]
                    #![trigger g.is_root_fact(x, r_len)]
                    #![trigger g.is_graph_fact(x, e as int)]
                    #![trigger g.is_class_fact(x, e as int, i + 1)]
                    model_view(facts@).contains(x) <==> (g.is_root_fact(x, r_len)
                        || g.is_graph_fact(x, e as int) || g.is_class_fact(
                        x,
                        e as int,
                        i + 1,
                    )) by {
                    lemma_class_fact_step(g, x, e as int, i as int);
                    assert(model_view(facts@).contains(x) <==> (listed.contains(x)
                        || g.is_node_fact(x, e as int, i as int, k_len)));
                }
            }
            i += 1;
        }
        proof {
            assert forall|x: AtomView|
                #![trigger model_view(facts@).contains(x)]
                #![trigger g.is_root_fact(x, r_len)]
                #![trigger g.is_graph_fact(x, e + 1)]
                model_view(facts@).contains(x) <==> (g.is_root_fact(x, r_len) || g.is_graph_fact(
                    x,
                    e + 1,
                )) by {
                lemma_graph_fact_step(g, x, e as int);
            }
        }
        e += 1;
    }
    proof {
        assert forall|x: AtomView| g.is_fact(x) implies x.representable() by {
            assert(model_view(facts@).contains(x));
            let j = choose|j: int| 0 <= j < facts@.len() && model_view(facts@)[j] == x;
            lemma_atom_representable(facts@[j]);
        }
    }
    Ok(facts)
}

} // verus!
