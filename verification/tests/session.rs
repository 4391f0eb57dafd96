use asp_extract::session::DEFAULT_TIME_BUDGET_SECS;
use asp_extract::{
    Action, Arg, AspExtractor, Atom, Class, Event, ExtractError, ExtractionResult, Node, Phase,
    Session, SimpleEGraph,
};

fn node(op: &str, cost: u32, children: Vec<usize>) -> Node {
    Node { op: op.to_string(), cost, children }
}

fn class(nodes: Vec<Node>) -> Class {
    Class { nodes }
}

/// Class 0 (root): `a` (cost 10, no children), `b` (cost 1, child 1).
/// Class 1: `c` (cost 0).
fn shared_graph() -> SimpleEGraph {
    SimpleEGraph {
        classes: vec![
            class(vec![node("a", 10, vec![]), node("b", 1, vec![1])]),
            class(vec![node("c", 0, vec![])]),
        ],
        roots: vec![0],
    }
}

/// Feeds the events in turn and returns the actions that answered them.
fn drive(mut session: Session, events: Vec<Event>) -> (Session, Vec<Action>) {
    let mut actions = Vec::new();
    for event in events {
        session = session.step(event);
        actions.push(session.action());
    }
    (session, actions)
}

/// A session on `shared_graph` that has just opened its solve session.
fn solving(extractor: &AspExtractor) -> Session {
    let session = extractor.begin(shared_graph());
    let (session, _) = drive(session, vec![Event::Done, Event::Done, Event::Done]);
    assert_eq!(session.phase(), Phase::Solving);
    session
}

fn outcome(session: Session) -> Result<ExtractionResult, ExtractError> {
    session.into_outcome().unwrap()
}

#[test]
fn default_budget_is_fifteen_seconds() {
    assert_eq!(DEFAULT_TIME_BUDGET_SECS, 15);
    assert_eq!(AspExtractor::new().time_budget_secs, 15);
    assert_eq!(AspExtractor::default().time_budget_secs, 15);
    assert_eq!(AspExtractor::with_time_budget(3).time_budget_secs, 3);
}

#[test]
fn session_starts_idle_with_the_facts_of_the_problem() {
    let session = AspExtractor::new().begin(shared_graph());
    assert_eq!(session.phase(), Phase::Idle);
    assert_eq!(session.action(), Action::Load);
    assert_eq!(session.graph(), &shared_graph());
    assert!(session.best().is_none());
    let facts = session.facts();
    assert_eq!(facts.len(), 5);
    assert!(facts.contains(&Atom::root(0)));
    assert!(facts.contains(&Atom::enode(0, 1, &"b".to_string(), 1)));
    assert!(facts.contains(&Atom::child(0, 1, 1)));
    assert!(session.into_outcome().is_none());
}

#[test]
fn session_walks_through_the_phases_to_exhaustion() {
    let session = AspExtractor::new().begin(shared_graph());
    let (session, actions) = drive(
        session,
        vec![
            Event::Done,
            Event::Done,
            Event::Done,
            Event::Model(vec![Atom::sel(0, 0)]),
            Event::Clock(0),
            Event::Done,
            Event::Model(vec![Atom::sel(0, 1), Atom::sel(1, 0)]),
            Event::Clock(2),
            Event::Done,
            Event::NoModel,
            Event::Done,
        ],
    );
    assert_eq!(
        actions,
        vec![
            Action::Ground,
            Action::Solve,
            Action::AwaitModel,
            Action::ReadClock,
            Action::Resume,
            Action::AwaitModel,
            Action::ReadClock,
            Action::Resume,
            Action::AwaitModel,
            Action::Close,
            Action::Finish,
        ]
    );
    assert_eq!(session.phase(), Phase::Closed);
    assert_eq!(outcome(session).unwrap().choices, vec![Some(1), Some(0)]);
}

#[test]
fn each_phase_names_its_request() {
    let session = AspExtractor::new().begin(shared_graph());
    assert_eq!((session.phase(), session.action()), (Phase::Idle, Action::Load));
    let session = session.step(Event::Done);
    assert_eq!((session.phase(), session.action()), (Phase::Loaded, Action::Ground));
    let session = session.step(Event::Done);
    assert_eq!((session.phase(), session.action()), (Phase::Grounded, Action::Solve));
    let session = session.step(Event::Done);
    assert_eq!((session.phase(), session.action()), (Phase::Solving, Action::AwaitModel));
    let session = session.step(Event::Model(vec![Atom::sel(0, 0)]));
    assert_eq!((session.phase(), session.action()), (Phase::Recorded, Action::ReadClock));
    let session = session.step(Event::Clock(1));
    assert_eq!((session.phase(), session.action()), (Phase::Resuming, Action::Resume));
    let session = session.step(Event::Done);
    assert_eq!((session.phase(), session.action()), (Phase::Solving, Action::AwaitModel));
    let session = session.step(Event::NoModel);
    assert_eq!((session.phase(), session.action()), (Phase::Exhausted, Action::Close));
    let session = session.step(Event::Done);
    assert_eq!((session.phase(), session.action()), (Phase::Closed, Action::Finish));
}

#[test]
fn outcome_is_withheld_until_the_session_is_closed() {
    let session = solving(&AspExtractor::new());
    assert!(session.into_outcome().is_none());
    let session = solving(&AspExtractor::new()).step(Event::Model(vec![Atom::sel(0, 0)]));
    assert!(session.into_outcome().is_none());
    let session = solving(&AspExtractor::new()).step(Event::NoModel);
    assert_eq!(session.phase(), Phase::Exhausted);
    assert!(session.into_outcome().is_none());
}

#[test]
fn best_is_the_last_recorded_model() {
    let session = solving(&AspExtractor::new());
    assert!(session.best().is_none());
    let session = session.step(Event::Model(vec![Atom::sel(0, 1), Atom::sel(1, 0)]));
    assert_eq!(session.best().unwrap().choices, vec![Some(1), Some(0)]);
    let (session, _) = drive(session, vec![Event::Clock(0), Event::Done]);
    let session = session.step(Event::Model(vec![Atom::sel(0, 0)]));
    assert_eq!(session.best().unwrap().choices, vec![Some(0), None]);
}

#[test]
fn tiny_budget_still_returns_the_first_model() {
    let session = solving(&AspExtractor::with_time_budget(0));
    let (session, actions) = drive(
        session,
        vec![Event::Model(vec![Atom::sel(0, 0)]), Event::Clock(1), Event::Done],
    );
    assert_eq!(actions, vec![Action::ReadClock, Action::Close, Action::Finish]);
    let sel = outcome(session).unwrap();
    assert_eq!(sel.choices, vec![Some(0), None]);
    assert!(shared_graph().is_valid_selection(&sel));
}

#[test]
fn budget_is_exceeded_only_by_more_seconds() {
    let at_budget = solving(&AspExtractor::new())
        .step(Event::Model(vec![Atom::sel(0, 0)]))
        .step(Event::Clock(15));
    assert_eq!(at_budget.phase(), Phase::Resuming);
    let beyond = solving(&AspExtractor::new())
        .step(Event::Model(vec![Atom::sel(0, 0)]))
        .step(Event::Clock(16));
    assert_eq!(beyond.phase(), Phase::Timeout);
    let zero = solving(&AspExtractor::with_time_budget(0))
        .step(Event::Model(vec![Atom::sel(0, 0)]))
        .step(Event::Clock(0));
    assert_eq!(zero.phase(), Phase::Resuming);
}

#[test]
fn unencodable_problem_is_closed_from_the_start() {
    let g = SimpleEGraph { classes: vec![class(vec![node("x", u32::MAX, vec![])])], roots: vec![0] };
    let session = AspExtractor::new().begin(g);
    assert_eq!(session.phase(), Phase::Closed);
    assert_eq!(session.action(), Action::Finish);
    assert!(session.facts().is_empty());
    assert_eq!(outcome(session), Err(ExtractError::EncodingFailure));
}

#[test]
fn rejected_facts_are_an_encoding_failure() {
    let session = AspExtractor::new().begin(shared_graph()).step(Event::Failed);
    assert_eq!(session.action(), Action::Finish);
    assert_eq!(outcome(session), Err(ExtractError::EncodingFailure));
}

#[test]
fn failed_grounding_is_a_grounding_failure() {
    let (session, actions) =
        drive(AspExtractor::new().begin(shared_graph()), vec![Event::Done, Event::Failed]);
    assert_eq!(actions, vec![Action::Ground, Action::Finish]);
    assert_eq!(outcome(session), Err(ExtractError::GroundingFailure));
}

#[test]
fn session_that_does_not_open_is_a_solve_failure() {
    let (session, actions) = drive(
        AspExtractor::new().begin(shared_graph()),
        vec![Event::Done, Event::Done, Event::Failed],
    );
    assert_eq!(actions, vec![Action::Ground, Action::Solve, Action::Finish]);
    assert_eq!(outcome(session), Err(ExtractError::SolveFailure));
}

#[test]
fn search_without_a_model_reports_no_model_found() {
    let (session, actions) = drive(solving(&AspExtractor::new()), vec![Event::NoModel, Event::Done]);
    assert_eq!(actions, vec![Action::Close, Action::Finish]);
    assert_eq!(outcome(session), Err(ExtractError::NoModelFound));
}

#[test]
fn malformed_model_is_an_internal_consistency_failure() {
    let bad = Atom { name: "selclass".to_string(), args: vec![Arg::Number(0)] };
    let (session, actions) =
        drive(solving(&AspExtractor::new()), vec![Event::Model(vec![bad]), Event::Done]);
    assert_eq!(actions, vec![Action::Close, Action::Finish]);
    assert_eq!(outcome(session), Err(ExtractError::InternalConsistencyFailure));
}

#[test]
fn illegal_model_is_an_internal_consistency_failure() {
    let without_child = vec![Atom::sel(0, 1)];
    let (session, actions) =
        drive(solving(&AspExtractor::new()), vec![Event::Model(without_child), Event::Done]);
    assert_eq!(actions, vec![Action::Close, Action::Finish]);
    assert_eq!(outcome(session), Err(ExtractError::InternalConsistencyFailure));

    let without_root = vec![Atom::sel(1, 0)];
    let (session, _) =
        drive(solving(&AspExtractor::new()), vec![Event::Model(without_root), Event::Done]);
    assert_eq!(outcome(session), Err(ExtractError::InternalConsistencyFailure));

    let no_such_node = vec![Atom::sel(0, 2)];
    let (session, _) =
        drive(solving(&AspExtractor::new()), vec![Event::Model(no_such_node), Event::Done]);
    assert_eq!(outcome(session), Err(ExtractError::InternalConsistencyFailure));
}

#[test]
fn failure_after_a_good_model_is_still_fatal() {
    let (session, actions) = drive(
        solving(&AspExtractor::new()),
        vec![
            Event::Model(vec![Atom::sel(0, 0)]),
            Event::Clock(0),
            Event::Done,
            Event::Model(vec![Atom::sel(0, 0), Atom::sel(0, 1)]),
            Event::Done,
        ],
    );
    assert_eq!(
        actions,
        vec![
            Action::ReadClock,
            Action::Resume,
            Action::AwaitModel,
            Action::Close,
            Action::Finish,
        ]
    );
    assert_eq!(outcome(session), Err(ExtractError::InternalConsistencyFailure));
}

#[test]
fn solver_error_while_solving_closes_the_session_first() {
    let (session, actions) = drive(solving(&AspExtractor::new()), vec![Event::Failed, Event::Done]);
    assert_eq!(actions, vec![Action::Close, Action::Finish]);
    assert_eq!(outcome(session), Err(ExtractError::SolveFailure));

    let (session, actions) = drive(
        solving(&AspExtractor::new()),
        vec![Event::Model(vec![Atom::sel(0, 0)]), Event::Clock(0), Event::Failed, Event::Done],
    );
    assert_eq!(actions, vec![Action::ReadClock, Action::Resume, Action::Close, Action::Finish]);
    assert_eq!(outcome(session), Err(ExtractError::SolveFailure));
}

#[test]
fn session_that_does_not_close_is_a_solve_failure() {
    let (session, _) = drive(
        solving(&AspExtractor::with_time_budget(0)),
        vec![Event::Model(vec![Atom::sel(0, 0)]), Event::Clock(5), Event::Failed],
    );
    assert_eq!(session.phase(), Phase::Closed);
    assert_eq!(outcome(session), Err(ExtractError::SolveFailure));
}

#[test]
fn earlier_failure_outlives_a_failing_close() {
    let (session, _) = drive(
        solving(&AspExtractor::new()),
        vec![Event::Model(vec![Atom::root(0)]), Event::Failed],
    );
    assert_eq!(outcome(session), Err(ExtractError::InternalConsistencyFailure));
}

#[test]
fn event_out_of_step_is_an_internal_consistency_failure() {
    let session = AspExtractor::new().begin(shared_graph()).step(Event::NoModel);
    assert_eq!(session.action(), Action::Finish);
    assert_eq!(outcome(session), Err(ExtractError::InternalConsistencyFailure));

    let (session, actions) = drive(solving(&AspExtractor::new()), vec![Event::Clock(3), Event::Done]);
    assert_eq!(actions, vec![Action::Close, Action::Finish]);
    assert_eq!(outcome(session), Err(ExtractError::InternalConsistencyFailure));

    let (session, actions) = drive(
        solving(&AspExtractor::new()),
        vec![Event::Model(vec![Atom::sel(0, 0)]), Event::Done, Event::Done],
    );
    assert_eq!(actions, vec![Action::ReadClock, Action::Close, Action::Finish]);
    assert_eq!(outcome(session), Err(ExtractError::InternalConsistencyFailure));

    let (session, _) = drive(
        solving(&AspExtractor::new()),
        vec![Event::NoModel, Event::Model(vec![Atom::sel(0, 0)])],
    );
    assert_eq!(session.phase(), Phase::Closed);
    assert_eq!(outcome(session), Err(ExtractError::InternalConsistencyFailure));
}

#[test]
fn closed_session_ignores_further_events() {
    let (session, _) = drive(
        solving(&AspExtractor::new()),
        vec![Event::Model(vec![Atom::sel(0, 0)]), Event::Clock(99), Event::Done],
    );
    assert_eq!(session.phase(), Phase::Closed);
    let (session, actions) = drive(
        session,
        vec![Event::Failed, Event::Model(vec![Atom::sel(0, 1), Atom::sel(1, 0)]), Event::NoModel],
    );
    assert_eq!(actions, vec![Action::Finish, Action::Finish, Action::Finish]);
    assert_eq!(outcome(session).unwrap().choices, vec![Some(0), None]);
}

#[test]
fn open_session_is_always_closed_before_the_end() {
    let endings: Vec<Vec<Event>> = vec![
        vec![Event::NoModel],
        vec![Event::Failed],
        vec![Event::Done],
        vec![Event::Clock(0)],
        vec![Event::Model(vec![Atom::root(0)])],
        vec![Event::Model(vec![Atom::sel(0, 0)]), Event::Clock(100)],
        vec![Event::Model(vec![Atom::sel(0, 0)]), Event::Failed],
        vec![Event::Model(vec![Atom::sel(0, 0)]), Event::Clock(0), Event::Failed],
    ];
    for events in endings {
        let (session, actions) = drive(solving(&AspExtractor::new()), events);
        assert_eq!(actions.last(), Some(&Action::Close), "actions: {:?}", actions);
        assert!(!actions.contains(&Action::Finish));
        let session = session.step(Event::Done);
        assert_eq!(session.action(), Action::Finish);
    }
}
