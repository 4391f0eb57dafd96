use crate::atom::{Atom, AtomView};
use crate::error::ExtractError;
use crate::selection::ExtractionResult;
use vstd::prelude::*;

verus! {

/// The models of the atoms of a reported model, in the order reported.
pub open spec fn model_view(atoms: Seq<Atom>) -> Seq<AtomView> {
    Seq::new(atoms.len(), |k: int| atoms[k]@)
}

/// Whether a model can be read as a selection over `n` classes: every atom
/// is `sel(e, i)` with `e` a class and `i` not negative, and no class is
/// given two different indices.
pub open spec fn well_shaped(m: Seq<AtomView>, n: nat) -> bool {
    &&& forall|k: int|
        0 <= k < m.len() ==> {
            &&& (#[trigger] m[k]).is_sel()
            &&& 0 <= m[k].sel_class() < n
            &&& 0 <= m[k].sel_index()
        }
    &&& forall|j: int, k: int|
        0 <= j < m.len() && 0 <= k < m.len() && (#[trigger] m[j]).sel_class() == (
        #[trigger] m[k]).sel_class() ==> m[j].sel_index() == m[k].sel_index()
}

/// Whether some atom of the model speaks of class `e`.
pub open spec fn mentions(m: Seq<AtomView>, e: int) -> bool {
    exists|k: int| 0 <= k < m.len() && (#[trigger] m[k]).sel_class() == e
}

/// The index that the model chooses for class `e`, if it mentions `e`.
pub open spec fn chosen(m: Seq<AtomView>, e: int) -> Option<nat> {
    if mentions(m, e) {
        let k = choose|k: int| 0 <= k < m.len() && (#[trigger] m[k]).sel_class() == e;
        Some(m[k].sel_index() as nat)
    } else {
        None
    }
}

/// The selection over `n` classes that a well-shaped model describes.
/// Classes that the model does not mention are left out.
pub open spec fn decoded(m: Seq<AtomView>, n: nat) -> Seq<Option<nat>> {
    Seq::new(n, |e: int| chosen(m, e))
}

/// In a well-shaped model, any atom that speaks of a class tells what is
/// chosen for it.
pub proof fn lemma_chosen_by_any_atom(m: Seq<AtomView>, n: nat, k: int)
    requires
        well_shaped(m, n),
        0 <= k < m.len(),
    ensures
        chosen(m, m[k].sel_class()) == Some(m[k].sel_index() as nat),
{
    let e = m[k].sel_class();
    assert(mentions(m, e));
    let w = choose|w: int| 0 <= w < m.len() && (#[trigger] m[w]).sel_class() == e;
    assert(m[w].sel_index() == m[k].sel_index());
}

/// One choice per class: the selection that a well-shaped model describes
/// holds, for the class of each atom, the index that this atom names. So no
/// two atoms of the model choose differently for one class, and the
/// selection leaves out exactly the classes that no atom mentions.
pub proof fn lemma_decoded_one_choice_per_class(m: Seq<AtomView>, n: nat)
    requires
        well_shaped(m, n),
    ensures
        decoded(m, n).len() == n,
        forall|k: int|
            0 <= k < m.len() ==> decoded(m, n)[(#[trigger] m[k]).sel_class()] == Some(
                m[k].sel_index() as nat,
            ),
        forall|e: int| 0 <= e < n ==> (decoded(m, n)[e] is None <==> !mentions(m, e)),
{
    assert forall|k: int| 0 <= k < m.len() implies decoded(m, n)[(#[trigger] m[k]).sel_class()]
        == Some(m[k].sel_index() as nat) by {
        lemma_chosen_by_any_atom(m, n, k);
    }
}

/// The selection that a model describes depends on which atoms the model
/// holds, not on their order or on how often each is listed.
pub proof fn lemma_decoded_depends_on_atoms_only(m1: Seq<AtomView>, m2: Seq<AtomView>, n: nat)
    requires
        well_shaped(m1, n),
        forall|a: AtomView| m1.contains(a) <==> m2.contains(a),
    ensures
        well_shaped(m2, n),
        decoded(m2, n) == decoded(m1, n),
{
    assert forall|k: int| 0 <= k < m2.len() implies {
        &&& (#[trigger] m2[k]).is_sel()
        &&& 0 <= m2[k].sel_class() < n
        &&& 0 <= m2[k].sel_index()
    } by {
        assert(m2.contains(m2[k]));
        let j = choose|j: int| 0 <= j < m1.len() && m1[j] == m2[k];
        assert(m1[j].is_sel());
    }
    assert forall|j: int, k: int|
        0 <= j < m2.len() && 0 <= k < m2.len() && (#[trigger] m2[j]).sel_class() == (
        #[trigger] m2[k]).sel_class() implies m2[j].sel_index() == m2[k].sel_index() by {
        assert(m2.contains(m2[j]));
        assert(m2.contains(m2[k]));
        let a = choose|a: int| 0 <= a < m1.len() && m1[a] == m2[j];
        let b = choose|b: int| 0 <= b < m1.len() && m1[b] == m2[k];
        assert(m1[a].sel_class() == m1[b].sel_class());
    }
    assert forall|e: int| 0 <= e < n implies chosen(m2, e) == chosen(m1, e) by {
        if mentions(m1, e) {
            let a = choose|a: int| 0 <= a < m1.len() && (#[trigger] m1[a]).sel_class() == e;
            assert(m1.contains(m1[a]));
            let b = choose|b: int| 0 <= b < m2.len() && m2[b] == m1[a];
            assert(m2[b].sel_class() == e);
            lemma_chosen_by_any_atom(m1, n, a);
            lemma_chosen_by_any_atom(m2, n, b);
        } else if mentions(m2, e) {
            let b = choose|b: int| 0 <= b < m2.len() && (#[trigger] m2[b]).sel_class() == e;
            assert(m2.contains(m2[b]));
            let a = choose|a: int| 0 <= a < m1.len() && m1[a] == m2[b];
            assert(m1[a].sel_class() == e);
        }
    }
    assert(decoded(m2, n) =~= decoded(m1, n));
}

/// Decoding is idempotent: a model read twice over describes the selection
/// that the model read once describes.
pub proof fn lemma_decode_idempotent(m: Seq<AtomView>, n: nat)
    requires
        well_shaped(m, n),
    ensures
        well_shaped(m + m, n),
        decoded(m + m, n) == decoded(m, n),
{
    let mm = m + m;
    assert forall|a: AtomView| m.contains(a) <==> mm.contains(a) by {
        if m.contains(a) {
            let j = choose|j: int| 0 <= j < m.len() && m[j] == a;
            assert(mm[j] == a);
        }
        if mm.contains(a) {
            let j = choose|j: int| 0 <= j < mm.len() && mm[j] == a;
            if j < m.len() {
                assert(m[j] == a);
            } else {
                assert(m[j - m.len()] == a);
            }
        }
    }
    lemma_decoded_depends_on_atoms_only(m, mm, n);
}

/// Decodes a reported model into a selection over `n_classes` classes.
///
/// Every atom must be `sel(e, i)` with `e` below `n_classes` and `i` not
/// negative, and two atoms for one class must agree; any other model is an
/// internal-consistency failure.
pub fn decode(atoms: &Vec<Atom>, n_classes: usize) -> (r: Result<ExtractionResult, ExtractError>)
    ensures
        well_shaped(model_view(atoms@), n_classes as nat) ==> (r matches Ok(sel) && sel@ == decoded(
            model_view(atoms@),
            n_classes as nat,
        )),
        !well_shaped(model_view(atoms@), n_classes as nat) ==> r == Err::<ExtractionResult, _>(
            ExtractError::InternalConsistencyFailure,
        ),
{
    let ghost m = model_view(atoms@);
    let ghost n = n_classes as nat;
    let mut sel = ExtractionResult::new(n_classes);
    let mut k: usize = 0;
    assert(sel@.len() == sel.choices@.len());
    assert(sel@ =~= decoded(m.take(0), n));
    while k < atoms.len()
        invariant
            k <= atoms@.len(),
            m == model_view(atoms@),
            n == n_classes,
            sel.choices@.len() == n,
            well_shaped(m.take(k as int), n),
            sel@ == decoded(m.take(k as int), n),
        decreases atoms@.len() - k,
    {
        let ghost p = m.take(k as int);
        let ghost q = m.take(k + 1);
        assert(q.len() == k + 1);
        assert(forall|j: int| 0 <= j < k ==> q[j] == p[j]);
        assert(q[k as int] == m[k as int]);
        match atoms[k].as_sel() {
            None => {
                assert(!m[k as int].is_sel());
                return Err(ExtractError::InternalConsistencyFailure);
            },
            Some((e, i)) => {
                if e < 0 || i < 0 || e as usize >= n_classes {
                    assert(m[k as int].sel_class() == e);
                    assert(m[k as int].sel_index() == i);
                    return Err(ExtractError::InternalConsistencyFailure);
                }
                let class = e as usize;
                let index = i as usize;
                match sel.choices[class] {
                    Some(prev) => {
                        if prev != index {
                            proof {
                                assert(sel@[class as int] == chosen(p, class as int));
                                assert(mentions(p, class as int));
                                let w = choose|w: int|
                                    0 <= w < p.len() && (#[trigger] p[w]).sel_class() == class;
                                assert(m[w] == p[w]);
                                assert(m[w].sel_class() == m[k as int].sel_class());
                                assert(m[w].sel_index() != m[k as int].sel_index());
                            }
                            return Err(ExtractError::InternalConsistencyFailure);
                        }
                    },
                    None => {},
                }
                proof {
                    assert(sel@[class as int] == chosen(p, class as int));
                    assert forall|a: int, b: int|
                        0 <= a < q.len() && 0 <= b < q.len() && (#[trigger] q[a]).sel_class() == (
                        #[trigger] q[b]).sel_class() implies q[a].sel_index() == q[b].sel_index() by {
                        if a < k && b < k {
                            assert(p[a].sel_class() == p[b].sel_class());
                        } else if a < k {
                            lemma_chosen_by_any_atom(p, n, a);
                        } else if b < k {
                            lemma_chosen_by_any_atom(p, n, b);
                        }
                    }
                    assert(well_shaped(q, n));
                }
                let ghost before = sel@;
                sel.choices.set(class, Some(index));
                proof {
                    assert(m[k as int].sel_class() == class);
                    assert(m[k as int].sel_index() == index);
                    assert forall|c: int| 0 <= c < n implies sel@[c] == chosen(q, c) by {
                        if c == class {
                            lemma_chosen_by_any_atom(q, n, k as int);
                            assert(sel@[c] == Some(index as nat));
                        } else if mentions(q, c) {
                            assert(sel@[c] == before[c]);
                            let w = choose|w: int|
                                0 <= w < q.len() && (#[trigger] q[w]).sel_class() == c;
                            assert(w < k);
                            assert(p[w].sel_class() == c);
                            lemma_chosen_by_any_atom(p, n, w);
                            lemma_chosen_by_any_atom(q, n, w);
                        } else {
                            assert(sel@[c] == before[c]);
                            if mentions(p, c) {
                                let w = choose|w: int|
                                    0 <= w < p.len() && (#[trigger] p[w]).sel_class() == c;
                                assert(q[w].sel_class() == c);
                            }
                        }
                    }
                    assert(sel@ =~= decoded(q, n));
                }
            },
        }
        k += 1;
    }
    assert(m.take(k as int) =~= m);
    Ok(sel)
}

} // verus!
