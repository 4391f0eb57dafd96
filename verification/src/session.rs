use crate::atom::{Atom, AtomView};
use crate::decode::{decode, decoded, model_view, well_shaped};
use crate::egraph::{GraphView, SimpleEGraph};
use crate::encode::{encode, facts_of};
use crate::error::ExtractError;
use crate::selection::ExtractionResult;
use vstd::prelude::*;

verus! {

/// How far an extraction has come. Each phase but the last waits for the
/// outcome of one request to the solver, which [`action_of`] names.
#[derive(Clone, Copy, Debug, PartialEq, Eq, Structural)]
pub enum Phase {
    /// Nothing has been handed to the solver yet.
    Idle,
    /// The solver holds the facts and the rule program.
    Loaded,
    /// The program is grounded against the facts.
    Grounded,
    /// A solve session is open and the next model is awaited.
    Solving,
    /// A model has just been recorded; the clock decides how to go on.
    Recorded,
    /// The search for a better model is being resumed.
    Resuming,
    /// The time budget is used up; the session is being closed.
    Timeout,
    /// The solver has no further model; the session is being closed.
    Exhausted,
    /// A failure ended the search early; the session is being closed.
    Aborted,
    /// The extraction is over and its outcome is fixed.
    Closed,
}

/// A request to the solver. The caller carries it out and reports what
/// came of it as an [`Event`].
#[derive(Clone, Copy, Debug, PartialEq, Eq, Structural)]
pub enum Action {
    /// Add the facts of the session and the rule program.
    Load,
    /// Ground the program.
    Ground,
    /// Open a session that yields one model after another, and start the
    /// clock.
    Solve,
    /// Wait for the next model.
    AwaitModel,
    /// Read the whole seconds that have passed since the session was
    /// opened.
    ReadClock,
    /// Drop the last model and search for a better one.
    Resume,
    /// Close the session.
    Close,
    /// Nothing is left to do: take the outcome.
    Finish,
}

/// What came of a request to the solver.
#[derive(Clone, Debug, PartialEq, Eq)]
pub enum Event {
    /// The request succeeded and has nothing to report.
    Done,
    /// The solver reported an error.
    Failed,
    /// The solver found a model; these are its shown atoms.
    Model(Vec<Atom>),
    /// The solver has no further model.
    NoModel,
    /// Whole seconds passed since the session was opened.
    Clock(u64),
}

/// Mathematical model of an [`Event`].
pub ghost enum EventView {
    Done,
    Failed,
    Model(Seq<AtomView>),
    NoModel,
    Clock(nat),
}

impl View for Event {
    type V = EventView;

    open spec fn view(&self) -> EventView {
        match self {
            Event::Done => EventView::Done,
            Event::Failed => EventView::Failed,
            Event::Model(atoms) => EventView::Model(model_view(atoms@)),
            Event::NoModel => EventView::NoModel,
            Event::Clock(secs) => EventView::Clock(*secs as nat),
        }
    }
}

/// The request that is outstanding in a phase.
pub open spec fn action_of(phase: Phase) -> Action {
    match phase {
        Phase::Idle => Action::Load,
        Phase::Loaded => Action::Ground,
        Phase::Grounded => Action::Solve,
        Phase::Solving => Action::AwaitModel,
        Phase::Recorded => Action::ReadClock,
        Phase::Resuming => Action::Resume,
        Phase::Timeout | Phase::Exhausted | Phase::Aborted => Action::Close,
        Phase::Closed => Action::Finish,
    }
}

/// Whether a solve session is open in a phase, so that it has to be closed
/// before the extraction can end.
pub open spec fn session_open(phase: Phase) -> bool {
    match phase {
        Phase::Idle | Phase::Loaded | Phase::Grounded | Phase::Closed => false,
        _ => true,
    }
}

impl GraphView {
    /// Whether a reported model is accepted: it reads as a selection, and
    /// that selection is valid for the graph.
    pub open spec fn accepts(self, m: Seq<AtomView>) -> bool {
        &&& well_shaped(m, self.classes.len())
        &&& self.valid_selection(decoded(m, self.classes.len()))
    }
}

/// Mathematical model of a [`Session`].
pub ghost struct SessionView {
    /// The problem.
    pub graph: GraphView,
    /// The facts that describe the problem to the solver.
    pub facts: Seq<AtomView>,
    /// Seconds after which no further model is asked for.
    pub budget_secs: nat,
    pub phase: Phase,
    /// The selection of the last recorded model.
    pub best: Option<Seq<Option<nat>>>,
    /// The failure that ended the extraction, if one did.
    pub failure: Option<ExtractError>,
}

impl SessionView {
    /// The state before anything is handed to the solver.
    pub open spec fn initial(graph: GraphView, facts: Seq<AtomView>, budget_secs: nat) -> SessionView {
        SessionView { graph, facts, budget_secs, phase: Phase::Idle, best: None, failure: None }
    }

    /// The state of an extraction that could not be encoded.
    pub open spec fn unencodable(graph: GraphView, budget_secs: nat) -> SessionView {
        SessionView {
            graph,
            facts: Seq::empty(),
            budget_secs,
            phase: Phase::Closed,
            best: None,
            failure: Some(ExtractError::EncodingFailure),
        }
    }

    /// The request that the caller has to carry out next.
    pub open spec fn action(self) -> Action {
        action_of(self.phase)
    }

    /// Ends the extraction with failure `e`; no session is open.
    pub open spec fn fail(self, e: ExtractError) -> SessionView {
        SessionView { phase: Phase::Closed, failure: Some(e), ..self }
    }

    /// Ends the search with failure `e`; the session is closed next.
    pub open spec fn abort(self, e: ExtractError) -> SessionView {
        SessionView { phase: Phase::Aborted, failure: Some(e), ..self }
    }

    /// Moves to phase `phase`.
    pub open spec fn goto(self, phase: Phase) -> SessionView {
        SessionView { phase, ..self }
    }

    /// A step before the session is opened: success leads on to `next`, an
    /// error of the solver ends the extraction with `on_failure`.
    pub open spec fn advance(self, ev: EventView, next: Phase, on_failure: ExtractError) -> SessionView {
        match ev {
            EventView::Done => self.goto(next),
            EventView::Failed => self.fail(on_failure),
            _ => self.fail(ExtractError::InternalConsistencyFailure),
        }
    }

    /// The step that awaits a model: an accepted model replaces the
    /// selection held so far.
    pub open spec fn await_model(self, ev: EventView) -> SessionView {
        match ev {
            EventView::Model(m) => if self.graph.accepts(m) {
                SessionView {
                    phase: Phase::Recorded,
                    best: Some(decoded(m, self.graph.classes.len())),
                    ..self
                }
            } else {
                self.abort(ExtractError::InternalConsistencyFailure)
            },
            EventView::NoModel => self.goto(Phase::Exhausted),
            EventView::Failed => self.abort(ExtractError::SolveFailure),
            _ => self.abort(ExtractError::InternalConsistencyFailure),
        }
    }

    /// The step after a model was recorded: the search goes on unless more
    /// seconds have passed than the budget allows.
    pub open spec fn check_clock(self, ev: EventView) -> SessionView {
        match ev {
            EventView::Clock(secs) => if secs > self.budget_secs {
                self.goto(Phase::Timeout)
            } else {
                self.goto(Phase::Resuming)
            },
            EventView::Failed => self.abort(ExtractError::SolveFailure),
            _ => self.abort(ExtractError::InternalConsistencyFailure),
        }
    }

    /// The step that resumes the search.
    pub open spec fn resume(self, ev: EventView) -> SessionView {
        match ev {
            EventView::Done => self.goto(Phase::Solving),
            EventView::Failed => self.abort(ExtractError::SolveFailure),
            _ => self.abort(ExtractError::InternalConsistencyFailure),
        }
    }

    /// The step that closes the session. An earlier failure stands; without
    /// one, a session that does not close cleanly is a failure itself.
    pub open spec fn close(self, ev: EventView) -> SessionView {
        SessionView {
            phase: Phase::Closed,
            failure: match self.failure {
                Some(e) => Some(e),
                None => match ev {
                    EventView::Done => None,
                    EventView::Failed => Some(ExtractError::SolveFailure),
                    _ => Some(ExtractError::InternalConsistencyFailure),
                },
            },
            ..self
        }
    }

    /// The transition function of the solve loop: the state after `ev` was
    /// reported in answer to the outstanding request.
    pub open spec fn step(self, ev: EventView) -> SessionView {
        match self.phase {
            Phase::Idle => self.advance(ev, Phase::Loaded, ExtractError::EncodingFailure),
            Phase::Loaded => self.advance(ev, Phase::Grounded, ExtractError::GroundingFailure),
            Phase::Grounded => self.advance(ev, Phase::Solving, ExtractError::SolveFailure),
            Phase::Solving => self.await_model(ev),
            Phase::Recorded => self.check_clock(ev),
            Phase::Resuming => self.resume(ev),
            Phase::Timeout | Phase::Exhausted | Phase::Aborted => self.close(ev),
            Phase::Closed => self,
        }
    }

    /// The outcome of the extraction, once it is closed: the failure if one
    /// occurred, else the last recorded selection, else the report that no
    /// model was found.
    pub open spec fn outcome(self) -> Option<Result<Seq<Option<nat>>, ExtractError>> {
        if self.phase != Phase::Closed {
            None
        } else {
            Some(
                match self.failure {
                    Some(e) => Err(e),
                    None => match self.best {
                        Some(s) => Ok(s),
                        None => Err(ExtractError::NoModelFound),
                    },
                },
            )
        }
    }

    /// What holds of every state that an extraction can reach.
    pub open spec fn wf(self) -> bool {
        &&& self.best matches Some(s) ==> self.graph.valid_selection(s)
        &&& self.graph.encodable() ==> facts_of(self.graph, self.facts)
        &&& !self.graph.encodable() ==> self == Self::unencodable(self.graph, self.budget_secs)
        &&& match self.phase {
            Phase::Idle | Phase::Loaded | Phase::Grounded => self.best is None && self.failure is None,
            Phase::Solving | Phase::Exhausted => self.failure is None,
            Phase::Recorded | Phase::Resuming | Phase::Timeout => self.best is Some
                && self.failure is None,
            Phase::Aborted => self.failure is Some,
            Phase::Closed => true,
        }
    }
}

/// Every step leads from a reachable state to a reachable state.
pub proof fn lemma_step_preserves_wf(s: SessionView, ev: EventView)
    requires
        s.wf(),
    ensures
        s.step(ev).wf(),
{
}

/// Every selection that an extraction returns is a valid selection of its
/// problem: it represents every root class, and with each chosen node the
/// classes that the node refers to. This holds however the extraction came
/// to its end, by exhaustion or by timeout.
pub proof fn lemma_returned_selection_is_valid(s: SessionView, sel: Seq<Option<nat>>)
    requires
        s.wf(),
        s.outcome() == Some(Ok::<Seq<Option<nat>>, ExtractError>(sel)),
    ensures
        s.graph.valid_selection(sel),
        s.graph.covers_roots(sel),
        s.graph.downward_closed(sel),
{
}

/// Timeout safety: however small the budget, a model that the solver has
/// reported is not lost. Once the model is recorded and the clock shows the
/// budget used up, the session is closed and the extraction returns the
/// selection of that model, which is valid.
pub proof fn lemma_timeout_returns_recorded_model(s: SessionView, m: Seq<AtomView>, secs: nat)
    requires
        s.wf(),
        s.phase == Phase::Solving,
        s.graph.accepts(m),
        secs > s.budget_secs,
    ensures
        ({
            let recorded = s.step(EventView::Model(m));
            let timed_out = recorded.step(EventView::Clock(secs));
            let closed = timed_out.step(EventView::Done);
            let sel = decoded(m, s.graph.classes.len());
            &&& recorded.action() == Action::ReadClock
            &&& timed_out.phase == Phase::Timeout
            &&& timed_out.action() == Action::Close
            &&& closed.outcome() == Some(Ok::<Seq<Option<nat>>, ExtractError>(sel))
            &&& s.graph.valid_selection(sel)
        }),
{
}

/// The session is closed on every way out: while a session is open, a step
/// either leaves it open or answers the request to close it.
pub proof fn lemma_open_session_is_closed_before_the_end(s: SessionView, ev: EventView)
    requires
        session_open(s.phase),
    ensures
        session_open(s.step(ev).phase) || (s.action() == Action::Close && s.step(ev).phase
            == Phase::Closed),
        !session_open(s.step(ev).phase) ==> s.step(ev).action() == Action::Finish,
{
}

/// A failure is final: no later step changes it, and it is what the
/// extraction returns.
pub proof fn lemma_failure_is_final(s: SessionView, ev: EventView, e: ExtractError)
    requires
        s.wf(),
        s.failure == Some(e),
    ensures
        s.step(ev).failure == Some(e),
        s.step(ev).outcome() is Some ==> s.step(ev).outcome() == Some(
            Err::<Seq<Option<nat>>, ExtractError>(e),
        ),
{
}

/// A step changes the selection that the session holds in one way only: by
/// recording an accepted model, whose selection replaces it.
pub proof fn lemma_step_keeps_or_records(s: SessionView, ev: EventView)
    ensures
        s.step(ev).best == s.best || (s.phase == Phase::Solving && (ev matches EventView::Model(m)
            && s.graph.accepts(m) && s.step(ev).best == Some(
            decoded(m, s.graph.classes.len()),
        ))),
        s.step(ev).graph == s.graph,
        s.step(ev).budget_secs == s.budget_secs,
        s.step(ev).facts == s.facts,
{
}

/// Seconds granted to the search unless the caller says otherwise.
pub const DEFAULT_TIME_BUDGET_SECS: u64 = 15;

/// Extraction by answer-set solving.
///
/// The extractor decides; the caller talks to the solver. [`begin`] encodes
/// a problem and opens a [`Session`]; from there on the caller carries out
/// the session's [`action`], reports the resulting [`Event`] to [`step`],
/// and repeats until the action is [`Action::Finish`].
///
/// [`begin`]: AspExtractor::begin
/// [`action`]: Session::action
/// [`step`]: Session::step
#[derive(Clone, Copy, Debug, PartialEq, Eq)]
pub struct AspExtractor {
    /// Seconds after which the search stops asking for better models. The
    /// clock is read only after a model is recorded, so a timeout always
    /// finds a complete model in hand.
    pub time_budget_secs: u64,
}

impl Default for AspExtractor {
    fn default() -> (r: AspExtractor)
        ensures
            r.time_budget_secs == DEFAULT_TIME_BUDGET_SECS,
    {
        AspExtractor { time_budget_secs: DEFAULT_TIME_BUDGET_SECS }
    }
}

/// One extraction in progress: the problem, its facts, and the state of the
/// solve loop.
pub struct Session {
    graph: SimpleEGraph,
    facts: Vec<Atom>,
    budget_secs: u64,
    phase: Phase,
    best: Option<ExtractionResult>,
    failure: Option<ExtractError>,
}

impl View for Session {
    type V = SessionView;

    closed spec fn view(&self) -> SessionView {
        SessionView {
            graph: self.graph@,
            facts: model_view(self.facts@),
            budget_secs: self.budget_secs as nat,
            phase: self.phase,
            best: match self.best {
                Some(sel) => Some(sel@),
                None => None,
            },
            failure: self.failure,
        }
    }
}

impl AspExtractor {
    /// An extractor with the default time budget.
    pub fn new() -> (r: AspExtractor)
        ensures
            r.time_budget_secs == DEFAULT_TIME_BUDGET_SECS,
    {
        AspExtractor { time_budget_secs: DEFAULT_TIME_BUDGET_SECS }
    }

    /// An extractor that stops asking for better models once more than
    /// `secs` seconds have passed.
    pub fn with_time_budget(secs: u64) -> (r: AspExtractor)
        ensures
            r.time_budget_secs == secs,
    {
        AspExtractor { time_budget_secs: secs }
    }

    /// Starts an extraction on `graph`.
    ///
    /// Where the problem can be encoded, the session starts out idle and
    /// holds the facts of the problem. Where it cannot, the session is
    /// closed from the start with an encoding failure.
    pub fn begin(&self, graph: SimpleEGraph) -> (session: Session)
        ensures
            session@.wf(),
            graph@.encodable() ==> session@ == SessionView::initial(
                graph@,
                session@.facts,
                self.time_budget_secs as nat,
            ),
            !graph@.encodable() ==> session@ == SessionView::unencodable(
                graph@,
                self.time_budget_secs as nat,
            ),
    {
        match encode(&graph) {
            Ok(facts) => Session {
                graph,
                facts,
                budget_secs: self.time_budget_secs,
                phase: Phase::Idle,
                best: None,
                failure: None,
            },
            Err(e) => {
                let facts: Vec<Atom> = Vec::new();
                assert(model_view(facts@) =~= Seq::empty());
                Session {
                    graph,
                    facts,
                    budget_secs: self.time_budget_secs,
                    phase: Phase::Closed,
                    best: None,
                    failure: Some(e),
                }
            },
        }
    }
}

impl Session {
    #[verifier::type_invariant]
    spec fn inv(self) -> bool {
        self@.wf()
    }

    /// The phase the extraction is in.
    pub fn phase(&self) -> (p: Phase)
        ensures
            p == self@.phase,
    {
        self.phase
    }

    /// The request that the caller has to carry out next.
    pub fn action(&self) -> (a: Action)
        ensures
            a == self@.action(),
    {
        match self.phase {
            Phase::Idle => Action::Load,
            Phase::Loaded => Action::Ground,
            Phase::Grounded => Action::Solve,
            Phase::Solving => Action::AwaitModel,
            Phase::Recorded => Action::ReadClock,
            Phase::Resuming => Action::Resume,
            Phase::Timeout | Phase::Exhausted | Phase::Aborted => Action::Close,
            Phase::Closed => Action::Finish,
        }
    }

    /// The problem that is being solved.
    pub fn graph(&self) -> (g: &SimpleEGraph)
        ensures
            g@ == self@.graph,
    {
        &self.graph
    }

    /// The facts that [`Action::Load`] hands to the solver: exactly the
    /// facts of the problem, each of them once.
    pub fn facts(&self) -> (f: &Vec<Atom>)
        ensures
            model_view(f@) == self@.facts,
            self@.graph.encodable() ==> facts_of(self@.graph, model_view(f@)),
    {
        proof {
            use_type_invariant(self);
        }
        &self.facts
    }

    /// The selection of the last recorded model, a valid selection of the
    /// problem.
    pub fn best(&self) -> (b: Option<&ExtractionResult>)
        ensures
            match b {
                Some(sel) => self@.best == Some(sel@) && self@.graph.valid_selection(sel@),
                None => self@.best is None,
            },
    {
        proof {
            use_type_invariant(self);
        }
        self.best.as_ref()
    }

    /// Takes in what came of the outstanding request and moves on.
    pub fn step(self, event: Event) -> (next: Session)
        ensures
            next@ == self@.step(event@),
            next@.wf(),
    {
        proof {
            use_type_invariant(&self);
            lemma_step_preserves_wf(self@, event@);
        }
        let Session { graph, facts, budget_secs, phase, best, failure } = self;
        let (phase, best, failure) = match phase {
            Phase::Idle => match event {
                Event::Done => (Phase::Loaded, best, failure),
                Event::Failed => (Phase::Closed, best, Some(ExtractError::EncodingFailure)),
                _ => (Phase::Closed, best, Some(ExtractError::InternalConsistencyFailure)),
            },
            Phase::Loaded => match event {
                Event::Done => (Phase::Grounded, best, failure),
                Event::Failed => (Phase::Closed, best, Some(ExtractError::GroundingFailure)),
                _ => (Phase::Closed, best, Some(ExtractError::InternalConsistencyFailure)),
            },
            Phase::Grounded => match event {
                Event::Done => (Phase::Solving, best, failure),
                Event::Failed => (Phase::Closed, best, Some(ExtractError::SolveFailure)),
                _ => (Phase::Closed, best, Some(ExtractError::InternalConsistencyFailure)),
            },
            Phase::Solving => match event {
                Event::Model(atoms) => match decode(&atoms, graph.classes.len()) {
                    Ok(sel) => if graph.is_valid_selection(&sel) {
                        (Phase::Recorded, Some(sel), failure)
                    } else {
                        (Phase::Aborted, best, Some(ExtractError::InternalConsistencyFailure))
                    },
                    Err(e) => (Phase::Aborted, best, Some(e)),
                },
                Event::NoModel => (Phase::Exhausted, best, failure),
                Event::Failed => (Phase::Aborted, best, Some(ExtractError::SolveFailure)),
                _ => (Phase::Aborted, best, Some(ExtractError::InternalConsistencyFailure)),
            },
            Phase::Recorded => match event {
                Event::Clock(secs) => if secs > budget_secs {
                    (Phase::Timeout, best, failure)
                } else {
                    (Phase::Resuming, best, failure)
                },
                Event::Failed => (Phase::Aborted, best, Some(ExtractError::SolveFailure)),
                _ => (Phase::Aborted, best, Some(ExtractError::InternalConsistencyFailure)),
            },
            Phase::Resuming => match event {
                Event::Done => (Phase::Solving, best, failure),
                Event::Failed => (Phase::Aborted, best, Some(ExtractError::SolveFailure)),
                _ => (Phase::Aborted, best, Some(ExtractError::InternalConsistencyFailure)),
            },
            Phase::Timeout | Phase::Exhausted | Phase::Aborted => match failure {
                Some(e) => (Phase::Closed, best, Some(e)),
                None => match event {
                    Event::Done => (Phase::Closed, best, None),
                    Event::Failed => (Phase::Closed, best, Some(ExtractError::SolveFailure)),
                    _ => (Phase::Closed, best, Some(ExtractError::InternalConsistencyFailure)),
                },
            },
            Phase::Closed => (Phase::Closed, best, failure),
        };
        Session { graph, facts, budget_secs, phase, best, failure }
    }

    /// The outcome of the extraction: `None` while it is still under way;
    /// once it is closed, the failure if one occurred, else the last
    /// recorded selection, else the report that no model was found.
    ///
    /// A selection that is handed out is a valid selection of the problem.
    pub fn into_outcome(self) -> (r: Option<Result<ExtractionResult, ExtractError>>)
        ensures
            match r {
                None => self@.outcome() is None,
                Some(Ok(sel)) => self@.outcome() == Some(
                    Ok::<Seq<Option<nat>>, ExtractError>(sel@),
                ) && self@.graph.valid_selection(sel@),
                Some(Err(e)) => self@.outcome() == Some(Err::<Seq<Option<nat>>, ExtractError>(e)),
            },
    {
        proof {
            use_type_invariant(&self);
        }
        if self.phase != Phase::Closed {
            return None;
        }
        match self.failure {
            Some(e) => Some(Err(e)),
            None => match self.best {
                Some(sel) => Some(Ok(sel)),
                None => Some(Err(ExtractError::NoModelFound)),
            },
        }
    }
}

} // verus!
