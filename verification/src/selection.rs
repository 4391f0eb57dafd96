use crate::egraph::{GraphView, Id, SimpleEGraph};
use vstd::prelude::*;

verus! {

/// A selection: for each class the index of the node chosen for it, or
/// `None` where the class is left out. `choices[e]` belongs to class `e`.
#[derive(Clone, Debug, PartialEq, Eq)]
pub struct ExtractionResult {
    pub choices: Vec<Option<usize>>,
}

impl View for ExtractionResult {
    type V = Seq<Option<nat>>;

    open spec fn view(&self) -> Seq<Option<nat>> {
        Seq::new(
            self.choices@.len(),
            |e: int|
                match self.choices@[e] {
                    Some(i) => Some(i as nat),
                    None => None,
                },
        )
    }
}

/// The selection over `n` classes that chooses nothing.
pub open spec fn empty_selection(n: nat) -> Seq<Option<nat>> {
    Seq::new(n, |e: int| None)
}

impl ExtractionResult {
    /// A selection over `n_classes` classes with every class left out.
    pub fn new(n_classes: usize) -> (r: ExtractionResult)
        ensures
            r@ == empty_selection(n_classes as nat),
    {
        let mut choices: Vec<Option<usize>> = Vec::new();
        while choices.len() < n_classes
            invariant
                choices@.len() <= n_classes,
                forall|e: int| 0 <= e < choices@.len() ==> choices@[e] is None,
            decreases n_classes - choices@.len(),
        {
            choices.push(None);
        }
        let r = ExtractionResult { choices };
        assert(r@ =~= empty_selection(n_classes as nat));
        r
    }
}

impl GraphView {
    /// Whether `s` holds, for class `e`, the index of one of `e`'s nodes.
    pub open spec fn selects(self, s: Seq<Option<nat>>, e: int) -> bool {
        &&& 0 <= e < s.len()
        &&& e < self.classes.len()
        &&& s[e] matches Some(i) && i < self.classes[e].len()
    }

    /// The children of the node that `s` chooses for class `e`.
    pub open spec fn chosen_children(self, s: Seq<Option<nat>>, e: int) -> Seq<nat>
        recommends
            self.selects(s, e),
    {
        self.classes[e][s[e]->0 as int].children
    }

    /// Every entry of `s` is the index of a node of its class.
    pub open spec fn indices_in_range(self, s: Seq<Option<nat>>) -> bool {
        forall|e: int| 0 <= e < s.len() && s[e] is Some ==> #[trigger] self.selects(s, e)
    }

    /// Every root class has a node chosen.
    pub open spec fn covers_roots(self, s: Seq<Option<nat>>) -> bool {
        forall|r: int| 0 <= r < self.roots.len() ==> self.selects(s, #[trigger] self.roots[r] as int)
    }

    /// Every class that a chosen node refers to has a node chosen as well.
    pub open spec fn downward_closed(self, s: Seq<Option<nat>>) -> bool {
        forall|e: int, k: int|
            self.selects(s, e) && 0 <= k < self.chosen_children(s, e).len() ==> self.selects(
                s,
                #[trigger] self.chosen_children(s, e)[k] as int,
            )
    }

    /// A valid selection: one entry per class of the graph, each entry a node
    /// of its class, every root represented, and the chosen nodes closed
    /// under the child relation.
    pub open spec fn valid_selection(self, s: Seq<Option<nat>>) -> bool {
        &&& s.len() == self.classes.len()
        &&& self.indices_in_range(s)
        &&& self.covers_roots(s)
        &&& self.downward_closed(s)
    }

    /// What class `e` adds to the cost of `s`: the cost of its chosen node.
    pub open spec fn cost_at(self, s: Seq<Option<nat>>, e: int) -> nat {
        if self.selects(s, e) {
            self.classes[e][s[e]->0 as int].cost
        } else {
            0
        }
    }

    /// The cost of the choices that `s` makes for the first `n` classes.
    pub open spec fn cost_below(self, s: Seq<Option<nat>>, n: nat) -> nat
        decreases n,
    {
        if n == 0 {
            0
        } else {
            self.cost_below(s, (n - 1) as nat) + self.cost_at(s, n - 1)
        }
    }

    /// The total cost of `s`: the sum of the costs of its chosen nodes.
    pub open spec fn total_cost(self, s: Seq<Option<nat>>) -> nat {
        self.cost_below(s, s.len())
    }
}

/// Root coverage: a valid selection holds, for every root class, the index
/// of one of that class's nodes.
pub proof fn lemma_valid_selection_covers_roots(g: GraphView, s: Seq<Option<nat>>, r: int)
    requires
        g.valid_selection(s),
        0 <= r < g.roots.len(),
    ensures
        g.roots[r] < g.classes.len(),
        g.roots[r] < s.len(),
        s[g.roots[r] as int] matches Some(i) && i < g.classes[g.roots[r] as int].len(),
{
    assert(g.selects(s, g.roots[r] as int));
}

/// Downward closure: where a valid selection chooses node `i` for class
/// `e`, it also holds, for every class that this node refers to, the index
/// of one of that class's nodes.
pub proof fn lemma_valid_selection_is_closed(g: GraphView, s: Seq<Option<nat>>, e: int, k: int)
    requires
        g.valid_selection(s),
        0 <= e < s.len(),
        s[e] is Some,
        0 <= k < g.classes[e][s[e]->0 as int].children.len(),
    ensures
        ({
            let c = g.classes[e][s[e]->0 as int].children[k];
            &&& c < g.classes.len()
            &&& c < s.len()
            &&& s[c as int] matches Some(j) && j < g.classes[c as int].len()
        }),
{
    assert(g.selects(s, e));
    assert(g.selects(s, g.chosen_children(s, e)[k] as int));
}

impl SimpleEGraph {
    /// Whether `sel` holds, for class `e`, the index of one of `e`'s nodes.
    pub fn has_choice(&self, sel: &ExtractionResult, e: Id) -> (b: bool)
        ensures
            b == self@.selects(sel@, e as int),
    {
        if e >= sel.choices.len() || e >= self.classes.len() {
            return false;
        }
        match sel.choices[e] {
            Some(i) => i < self.classes[e].nodes.len(),
            None => false,
        }
    }

    /// Decides whether `sel` is a valid selection of this graph.
    pub fn is_valid_selection(&self, sel: &ExtractionResult) -> (b: bool)
        ensures
            b == self@.valid_selection(sel@),
    {
        let n = self.classes.len();
        if sel.choices.len() != n {
            return false;
        }
        let mut e: usize = 0;
        while e < n
            invariant
                e <= n,
                n == self.classes@.len(),
                n == sel.choices@.len(),
                forall|d: int| 0 <= d < e && sel@[d] is Some ==> #[trigger] self@.selects(sel@, d),
                forall|d: int, k: int|
                    0 <= d < e && self@.selects(sel@, d) && 0 <= k < self@.chosen_children(
                        sel@,
                        d,
                    ).len() ==> self@.selects(
                        sel@,
                        #[trigger] self@.chosen_children(sel@, d)[k] as int,
                    ),
            decreases n - e,
        {
            if let Some(i) = sel.choices[e] {
                if !self.has_choice(sel, e) {
                    return false;
                }
                let node = &self.classes[e].nodes[i];
                let mut k: usize = 0;
                while k < node.children.len()
                    invariant
                        k <= node.children@.len(),
                        self@.selects(sel@, e as int),
                        self@.chosen_children(sel@, e as int).len() == node.children@.len(),
                        forall|j: int|
                            0 <= j < node.children@.len() ==> self@.chosen_children(
                                sel@,
                                e as int,
                            )[j] == node.children@[j],
                        forall|j: int|
                            0 <= j < k ==> self@.selects(
                                sel@,
                                #[trigger] self@.chosen_children(sel@, e as int)[j] as int,
                            ),
                    decreases node.children@.len() - k,
                {
                    if !self.has_choice(sel, node.children[k]) {
                        assert(!self@.selects(
                            sel@,
                            self@.chosen_children(sel@, e as int)[k as int] as int,
                        ));
                        return false;
                    }
                    k += 1;
                }
            }
            e += 1;
        }
        let mut r: usize = 0;
        while r < self.roots.len()
            invariant
                r <= self.roots@.len(),
                forall|j: int| 0 <= j < r ==> self@.selects(sel@, #[trigger] self@.roots[j] as int),
            decreases self.roots@.len() - r,
        {
            if !self.has_choice(sel, self.roots[r]) {
                assert(!self@.selects(sel@, self@.roots[r as int] as int));
                return false;
            }
            r += 1;
        }
        true
    }

    /// The total cost of `sel`: the sum of the costs of the nodes it chooses.
    /// An entry that names no node of this graph adds nothing.
    pub fn total_cost(&self, sel: &ExtractionResult) -> (c: u128)
        ensures
            c == self@.total_cost(sel@),
    {
        let mut sum: u128 = 0;
        let mut e: usize = 0;
        while e < sel.choices.len()
            invariant
                e <= sel.choices@.len(),
                sum == self@.cost_below(sel@, e as nat),
                sum <= e * 0xffff_ffff,
            decreases sel.choices@.len() - e,
        {
            if self.has_choice(sel, e) {
                if let Some(i) = sel.choices[e] {
                    sum = sum + self.classes[e].nodes[i].cost as u128;
                }
            }
            e += 1;
        }
        sum
    }
}

} // verus!
