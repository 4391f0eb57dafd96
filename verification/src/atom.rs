use vstd::prelude::*;

verus! {

/// An argument of an atom, as far as the extraction looks into it.
#[derive(Clone, Debug, PartialEq, Eq)]
pub enum Arg {
    /// A 32-bit signed number, the only numbers the solver knows.
    Number(i32),
    /// A quoted string.
    Text(String),
    /// Anything else: a nested term, `#inf`, `#sup`.
    Other,
}

/// A ground atom `name(args..)`: a fact handed to the solver, or an atom of
/// a model it reports.
#[derive(Clone, Debug, PartialEq, Eq)]
pub struct Atom {
    pub name: String,
    pub args: Vec<Arg>,
}

/// Mathematical model of an [`Arg`].
pub ghost enum ArgView {
    Number(int),
    Text(Seq<char>),
    Other,
}

/// Mathematical model of an [`Atom`].
pub ghost struct AtomView {
    pub name: Seq<char>,
    pub args: Seq<ArgView>,
}

impl View for Arg {
    type V = ArgView;

    open spec fn view(&self) -> ArgView {
        match self {
            Arg::Number(n) => ArgView::Number(*n as int),
            Arg::Text(s) => ArgView::Text(s@),
            Arg::Other => ArgView::Other,
        }
    }
}

impl View for Atom {
    type V = AtomView;

    open spec fn view(&self) -> AtomView {
        AtomView { name: self.name@, args: Seq::new(self.args@.len(), |k: int| self.args@[k]@) }
    }
}

/// Relation of the facts that name the root classes: `root(eclass)`.
pub const ROOT: &'static str = "root";

/// Relation of the facts that describe the nodes:
/// `enode(eclass, index, operator, cost)`.
pub const ENODE: &'static str = "enode";

/// Relation of the facts that describe the child references:
/// `child(eclass, index, child_eclass)`.
pub const CHILD: &'static str = "child";

/// Relation of the atoms in which a model reports its choices:
/// `sel(eclass, index)`.
pub const SEL: &'static str = "sel";

/// The fact `root(e)`.
pub open spec fn root_fact(e: int) -> AtomView {
    AtomView { name: ROOT@, args: seq![ArgView::Number(e)] }
}

/// The fact `enode(e, i, op, cost)`.
pub open spec fn enode_fact(e: int, i: int, op: Seq<char>, cost: int) -> AtomView {
    AtomView {
        name: ENODE@,
        args: seq![
            ArgView::Number(e),
            ArgView::Number(i),
            ArgView::Text(op),
            ArgView::Number(cost),
        ],
    }
}

/// The fact `child(e, i, c)`.
pub open spec fn child_fact(e: int, i: int, c: int) -> AtomView {
    AtomView {
        name: CHILD@,
        args: seq![ArgView::Number(e), ArgView::Number(i), ArgView::Number(c)],
    }
}

/// The atom `sel(e, i)`.
pub open spec fn sel_atom(e: int, i: int) -> AtomView {
    AtomView { name: SEL@, args: seq![ArgView::Number(e), ArgView::Number(i)] }
}

impl AtomView {
    /// Whether this is an atom `sel(e, i)` for some numbers `e` and `i`.
    pub open spec fn is_sel(self) -> bool {
        &&& self.name == SEL@
        &&& self.args.len() == 2
        &&& self.args[0] is Number
        &&& self.args[1] is Number
    }

    /// The class that an atom `sel(e, i)` speaks of.
    pub open spec fn sel_class(self) -> int
        recommends
            self.is_sel(),
    {
        self.args[0]->Number_0
    }

    /// The node index that an atom `sel(e, i)` chooses.
    pub open spec fn sel_index(self) -> int
        recommends
            self.is_sel(),
    {
        self.args[1]->Number_0
    }
}

impl Atom {
    /// Builds the fact `root(eclass)`.
    pub fn root(eclass: i32) -> (a: Atom)
        ensures
            a@ == root_fact(eclass as int),
    {
        let mut args: Vec<Arg> = Vec::new();
        args.push(Arg::Number(eclass));
        let a = Atom { name: ROOT.to_owned(), args };
        assert(a@.args =~= root_fact(eclass as int).args);
        a
    }

    /// Builds the fact `enode(eclass, index, op, cost)`.
    pub fn enode(eclass: i32, index: i32, op: &String, cost: i32) -> (a: Atom)
        ensures
            a@ == enode_fact(eclass as int, index as int, op@, cost as int),
    {
        let mut args: Vec<Arg> = Vec::new();
        args.push(Arg::Number(eclass));
        args.push(Arg::Number(index));
        args.push(Arg::Text(op.clone()));
        args.push(Arg::Number(cost));
        let a = Atom { name: ENODE.to_owned(), args };
        assert(a@.args =~= enode_fact(eclass as int, index as int, op@, cost as int).args);
        a
    }

    /// Builds the fact `child(eclass, index, child)`.
    pub fn child(eclass: i32, index: i32, child: i32) -> (a: Atom)
        ensures
            a@ == child_fact(eclass as int, index as int, child as int),
    {
        let mut args: Vec<Arg> = Vec::new();
        args.push(Arg::Number(eclass));
        args.push(Arg::Number(index));
        args.push(Arg::Number(child));
        let a = Atom { name: CHILD.to_owned(), args };
        assert(a@.args =~= child_fact(eclass as int, index as int, child as int).args);
        a
    }

    /// Builds the atom `sel(eclass, index)`.
    pub fn sel(eclass: i32, index: i32) -> (a: Atom)
        ensures
            a@ == sel_atom(eclass as int, index as int),
    {
        let mut args: Vec<Arg> = Vec::new();
        args.push(Arg::Number(eclass));
        args.push(Arg::Number(index));
        let a = Atom { name: SEL.to_owned(), args };
        assert(a@.args =~= sel_atom(eclass as int, index as int).args);
        a
    }

    /// Reads the atom as a choice `sel(eclass, index)`: the two numbers if it
    /// has exactly that shape, `None` for every other atom.
    pub fn as_sel(&self) -> (r: Option<(i32, i32)>)
        ensures
            r is Some <==> self@.is_sel(),
            r matches Some((e, i)) ==> self@ == sel_atom(e as int, i as int),
    {
        if self.name != SEL.to_owned() {
            return None;
        }
        if self.args.len() != 2 {
            return None;
        }
        match (&self.args[0], &self.args[1]) {
            (Arg::Number(e), Arg::Number(i)) => {
                assert(self@.args =~= sel_atom(*e as int, *i as int).args);
                Some((*e, *i))
            },
            _ => None,
        }
    }
}

} // verus!
