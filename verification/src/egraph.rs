use vstd::prelude::*;

verus! {

/// Identifier of an equivalence class: its position in the class table.
pub type Id = usize;

/// One alternative expression of a class.
#[derive(Clone, Debug, PartialEq, Eq)]
pub struct Node {
    /// Operator label; opaque to the extraction.
    pub op: String,
    /// Cost of choosing this node, already rounded to an integer.
    pub cost: u32,
    /// Classes this node refers to. Repeated and self-referring entries are
    /// allowed, and so are identifiers of classes that do not exist: a node
    /// with such a child can never be chosen.
    pub children: Vec<Id>,
}

/// An equivalence class: interchangeable nodes, addressed by position.
#[derive(Clone, Debug, PartialEq, Eq)]
pub struct Class {
    pub nodes: Vec<Node>,
}

/// The problem model: a read-only snapshot of an e-graph. The class with
/// identifier `e` is `classes[e]`, so identifiers are dense by construction.
#[derive(Clone, Debug, PartialEq, Eq)]
pub struct SimpleEGraph {
    pub classes: Vec<Class>,
    /// Classes that every selection has to represent.
    pub roots: Vec<Id>,
}

/// Mathematical model of a [`Node`].
pub ghost struct NodeView {
    pub op: Seq<char>,
    pub cost: nat,
    pub children: Seq<nat>,
}

/// Mathematical model of a [`SimpleEGraph`]: `classes[e][i]` is node `i` of
/// class `e`.
pub ghost struct GraphView {
    pub classes: Seq<Seq<NodeView>>,
    pub roots: Seq<nat>,
}

impl View for Node {
    type V = NodeView;

    open spec fn view(&self) -> NodeView {
        NodeView {
            op: self.op@,
            cost: self.cost as nat,
            children: Seq::new(self.children@.len(), |k: int| self.children@[k] as nat),
        }
    }
}

impl View for Class {
    type V = Seq<NodeView>;

    open spec fn view(&self) -> Seq<NodeView> {
        Seq::new(self.nodes@.len(), |i: int| self.nodes@[i]@)
    }
}

impl View for SimpleEGraph {
    type V = GraphView;

    open spec fn view(&self) -> GraphView {
        GraphView {
            classes: Seq::new(self.classes@.len(), |e: int| self.classes@[e]@),
            roots: Seq::new(self.roots@.len(), |r: int| self.roots@[r] as nat),
        }
    }
}

impl GraphView {
    /// Number of classes.
    pub open spec fn num_classes(self) -> nat {
        self.classes.len()
    }

    /// Whether `(e, i)` names a node of the graph.
    pub open spec fn has_node(self, e: int, i: int) -> bool {
        0 <= e < self.classes.len() && 0 <= i < self.classes[e].len()
    }
}

} // verus!
