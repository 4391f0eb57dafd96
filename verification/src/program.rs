use vstd::prelude::*;

verus! {

/// Priority of the true cost of a selection. It is the highest level of the
/// objective: no lower level can outweigh a difference in cost.
pub const COST_PRIORITY: u32 = 4;

/// Priority of agreement with the tree-cost heuristic, which breaks ties
/// among selections of equal cost.
pub const TREE_MATCH_PRIORITY: u32 = 3;

/// Priority of the number of selected classes.
pub const CLASS_COUNT_PRIORITY: u32 = 2;

/// Priority of the symmetry-breaking score. It carries no meaning; it only
/// makes the answer reproducible.
pub const TIE_BREAK_PRIORITY: u32 = 1;

/// Bound on the tree cost that a node gathers from its children. A sum that
/// reaches the bound is dropped, which keeps grounding finite on cyclic and
/// heavily shared graphs.
pub const TREE_COST_BOUND: u32 = 20;

/// Name of the program part that holds the rules.
pub const PROGRAM_PART: &'static str = "base";

/// The rule program. It is the same for every problem: the facts alone
/// carry the data.
///
/// A model of the program together with the facts of a problem shows, as
/// `sel(E,I)` atoms, one node for every root class and for every class that
/// a shown node refers to, at most one node per class. Models are ranked by
/// four levels, a higher level first: total cost, agreement with the
/// tree-cost heuristic, number of selected classes, and a tie-break score.
pub const ASP_PROGRAM: &'static str = "
eclass(E) :- enode(E,_,_,_).

% A node may be selected once every class it refers to is selected.
{ sel(E,I) } :- enode(E,I,_,_), selclass(Ec) : child(E,I,Ec).

% Selecting a node of a class selects the class.
selclass(E) :- sel(E,_).

% A root class must be selected. This is a constraint on the models, not a
% rule that derives selclass(E).
:- root(E), not selclass(E).

% Redundant with the search, kept as a safeguard: one node per class.
:- eclass(E), #count { E,I : sel(E,I) } > 1.

% Level 4: the cost of the selected nodes.
#minimize { C@4,E,I : sel(E,I), enode(E,I,_,C) }.

% Level 3: prefer the nodes that a tree-cost extraction would pick. The tree
% cost of a node is its own cost plus the tree costs of its children; sums
% of 20 or more are dropped.
treecost(E,C1) :- eclass(E), C1 = #min { C,E,I : treecost(E,I,C) }.
treecost(E,I,C1 + Cs) :- enode(E,I,_,C1), Cs = #sum { C, Ec : child(E,I,Ec), treecost(Ec,C) }, Cs < 20.
treesel(E,I) :- treecost(E,I,C), treecost(E,C).
#maximize { 1@3,E : treesel(E,I), sel(E,I) }.

% Level 2: few selected classes.
#minimize { 1@2,E : sel(E,I) }.

% Level 1: break the remaining ties towards low indices.
#minimize { E*I@1,E,I : sel(E,I) }.

#show sel/2.
";

} // verus!
