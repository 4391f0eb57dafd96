use crate::decode::decoded;
use crate::session::{lemma_step_keeps_or_records, lemma_step_preserves_wf, EventView, Phase, SessionView};
use vstd::prelude::*;

verus! {

/// Whether `ev` reports a model that the graph of `s` accepts.
pub open spec fn is_accepted_model(s: SessionView, ev: EventView) -> bool {
    ev matches EventView::Model(m) && s.graph.accepts(m)
}

/// The selection that an accepted model describes for the graph of `s`.
pub open spec fn selection_of(s: SessionView, ev: EventView) -> Seq<Option<nat>>
    recommends
        is_accepted_model(s, ev),
{
    decoded(ev->Model_0, s.graph.classes.len())
}

impl SessionView {
    /// The state after the events `evs` were reported one after another.
    pub open spec fn run(self, evs: Seq<EventView>) -> SessionView
        decreases evs.len(),
    {
        if evs.len() == 0 {
            self
        } else {
            self.run(evs.drop_last()).step(evs.last())
        }
    }

    /// The position in `evs` of the last model that the run records, or
    /// `-1` where it records none.
    pub open spec fn last_recorded(self, evs: Seq<EventView>) -> int
        decreases evs.len(),
    {
        if evs.len() == 0 {
            -1
        } else if self.run(evs.drop_last()).phase == Phase::Solving && is_accepted_model(
            self,
            evs.last(),
        ) {
            evs.len() - 1
        } else {
            self.last_recorded(evs.drop_last())
        }
    }
}

/// A run leads from a reachable state to a reachable state, and leaves the
/// problem and the budget as they are.
pub proof fn lemma_run_preserves_wf(s: SessionView, evs: Seq<EventView>)
    requires
        s.wf(),
    ensures
        s.run(evs).wf(),
        s.run(evs).graph == s.graph,
        s.run(evs).budget_secs == s.budget_secs,
        s.run(evs).facts == s.facts,
    decreases evs.len(),
{
    if evs.len() > 0 {
        lemma_run_preserves_wf(s, evs.drop_last());
        lemma_step_preserves_wf(s.run(evs.drop_last()), evs.last());
        lemma_step_keeps_or_records(s.run(evs.drop_last()), evs.last());
    }
}

/// The selection that a session holds after a run is the selection of the
/// last model that the run recorded; where it recorded none, it is the one
/// held before.
pub proof fn lemma_run_holds_last_recorded(s: SessionView, evs: Seq<EventView>)
    requires
        s.wf(),
    ensures
        -1 <= s.last_recorded(evs) < evs.len(),
        s.last_recorded(evs) == -1 ==> s.run(evs).best == s.best,
        s.last_recorded(evs) >= 0 ==> is_accepted_model(s, evs[s.last_recorded(evs)]) && s.run(
            evs,
        ).best == Some(selection_of(s, evs[s.last_recorded(evs)])),
    decreases evs.len(),
{
    if evs.len() > 0 {
        let before = s.run(evs.drop_last());
        lemma_run_holds_last_recorded(s, evs.drop_last());
        lemma_run_preserves_wf(s, evs.drop_last());
        lemma_step_keeps_or_records(before, evs.last());
    }
}

/// A longer run records its last model no earlier than a shorter one.
pub proof fn lemma_last_recorded_grows(s: SessionView, evs: Seq<EventView>, a: int, b: int)
    requires
        0 <= a <= b <= evs.len(),
    ensures
        s.last_recorded(evs.take(a)) <= s.last_recorded(evs.take(b)),
        s.last_recorded(evs.take(b)) < b,
    decreases b - a,
{
    if a < b {
        lemma_last_recorded_grows(s, evs, a, b - 1);
        assert(evs.take(b).drop_last() =~= evs.take(b - 1));
    } else {
        lemma_last_recorded_below(s, evs.take(a));
    }
}

/// The last recorded model lies within the run.
pub proof fn lemma_last_recorded_below(s: SessionView, evs: Seq<EventView>)
    ensures
        -1 <= s.last_recorded(evs) < evs.len(),
    decreases evs.len(),
{
    if evs.len() > 0 {
        lemma_last_recorded_below(s, evs.drop_last());
    }
}

/// Monotonic improvement, as far as it lies with the session. The solver
/// reports its models in order of quality: of two models, the later costs no
/// more. Given that of the models in `evs`, the selection that the session
/// holds never gets more expensive: after `b` events it costs no more than
/// it did after `a <= b` events.
pub proof fn lemma_held_cost_never_rises(s: SessionView, evs: Seq<EventView>, a: int, b: int)
    requires
        s.wf(),
        s.best is None,
        0 <= a <= b <= evs.len(),
        forall|j: int, k: int|
            0 <= j < k < evs.len() && is_accepted_model(s, #[trigger] evs[j]) && is_accepted_model(
                s,
                #[trigger] evs[k],
            ) ==> s.graph.total_cost(selection_of(s, evs[k])) <= s.graph.total_cost(
                selection_of(s, evs[j]),
            ),
        s.run(evs.take(a)).best is Some,
    ensures
        s.run(evs.take(b)).best is Some,
        s.graph.total_cost(s.run(evs.take(b)).best->0) <= s.graph.total_cost(
            s.run(evs.take(a)).best->0,
        ),
{
    lemma_run_holds_last_recorded(s, evs.take(a));
    lemma_run_holds_last_recorded(s, evs.take(b));
    lemma_last_recorded_grows(s, evs, a, b);
    let ka = s.last_recorded(evs.take(a));
    let kb = s.last_recorded(evs.take(b));
    assert(evs.take(a)[ka] == evs[ka]);
    assert(evs.take(b)[kb] == evs[kb]);
}

} // verus!
