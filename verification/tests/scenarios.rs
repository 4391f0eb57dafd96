use asp_extract::encode::encode;
use asp_extract::{
    Action, AspExtractor, Atom, Class, Event, ExtractError, ExtractionResult, Node, SimpleEGraph,
};

fn node(op: &str, cost: u32, children: Vec<usize>) -> Node {
    Node { op: op.to_string(), cost, children }
}

fn class(nodes: Vec<Node>) -> Class {
    Class { nodes }
}

/// Runs a whole extraction against a solver that accepts everything and
/// reports `models` one after another, `secs` seconds apart.
fn extract_with(
    extractor: &AspExtractor,
    graph: SimpleEGraph,
    models: Vec<Vec<Atom>>,
    secs: u64,
) -> Result<ExtractionResult, ExtractError> {
    let mut session = extractor.begin(graph);
    let mut models = models.into_iter();
    let mut clock: u64 = 0;
    loop {
        let event = match session.action() {
            Action::Load | Action::Ground | Action::Solve | Action::Resume | Action::Close => {
                Event::Done
            }
            Action::AwaitModel => match models.next() {
                Some(model) => {
                    clock += secs;
                    Event::Model(model)
                }
                None => Event::NoModel,
            },
            Action::ReadClock => Event::Clock(clock),
            Action::Finish => break,
        };
        session = session.step(event);
    }
    session.into_outcome().unwrap()
}

#[test]
fn unreachable_class_is_left_out() {
    let g = SimpleEGraph {
        classes: vec![class(vec![node("x", 5, vec![])]), class(vec![node("y", 1, vec![])])],
        roots: vec![0],
    };
    let sel =
        extract_with(&AspExtractor::new(), g.clone(), vec![vec![Atom::sel(0, 0)]], 0).unwrap();
    assert_eq!(sel.choices, vec![Some(0), None]);
    assert_eq!(sel.choices.len(), g.classes.len());
    assert!(g.is_valid_selection(&sel));
    assert_eq!(g.total_cost(&sel), 5);
}

#[test]
fn cheaper_node_with_a_child_wins_over_a_dear_leaf() {
    let g = SimpleEGraph {
        classes: vec![
            class(vec![node("a", 10, vec![]), node("b", 1, vec![1])]),
            class(vec![node("c", 0, vec![])]),
        ],
        roots: vec![0],
    };
    let with_a = ExtractionResult { choices: vec![Some(0), None] };
    let with_b = ExtractionResult { choices: vec![Some(1), Some(0)] };
    assert!(g.is_valid_selection(&with_a));
    assert!(g.is_valid_selection(&with_b));
    assert!(!g.is_valid_selection(&ExtractionResult { choices: vec![Some(1), None] }));
    assert_eq!(g.total_cost(&with_a), 10);
    assert_eq!(g.total_cost(&with_b), 1);

    let models = vec![vec![Atom::sel(0, 0)], vec![Atom::sel(0, 1), Atom::sel(1, 0)]];
    let sel = extract_with(&AspExtractor::new(), g.clone(), models, 0).unwrap();
    assert_eq!(sel, with_b);
    assert_eq!(g.total_cost(&sel), 1);
}

#[test]
fn later_model_replaces_the_earlier_one_entirely() {
    let g = SimpleEGraph {
        classes: vec![
            class(vec![node("a", 10, vec![]), node("b", 12, vec![1])]),
            class(vec![node("c", 0, vec![])]),
        ],
        roots: vec![0],
    };
    let models = vec![vec![Atom::sel(0, 1), Atom::sel(1, 0)], vec![Atom::sel(0, 0)]];
    let sel = extract_with(&AspExtractor::new(), g.clone(), models, 0).unwrap();
    assert_eq!(sel.choices, vec![Some(0), None]);
    assert_eq!(g.total_cost(&sel), 10);
}

#[test]
fn cost_does_not_rise_over_improving_models() {
    let g = SimpleEGraph {
        classes: vec![
            class(vec![node("a", 10, vec![]), node("b", 1, vec![1]), node("d", 1, vec![2])]),
            class(vec![node("c", 3, vec![])]),
            class(vec![node("e", 0, vec![])]),
        ],
        roots: vec![0],
    };
    let models = vec![
        vec![Atom::sel(0, 0)],
        vec![Atom::sel(0, 1), Atom::sel(1, 0)],
        vec![Atom::sel(0, 2), Atom::sel(2, 0)],
    ];
    let extractor = AspExtractor::new();
    let mut costs = Vec::new();
    for consumed in 1..=models.len() {
        let sel = extract_with(&extractor, g.clone(), models[..consumed].to_vec(), 0).unwrap();
        assert!(g.is_valid_selection(&sel));
        costs.push(g.total_cost(&sel));
    }
    assert_eq!(costs, vec![10, 4, 1]);
    assert!(costs.windows(2).all(|pair| pair[1] <= pair[0]));
}

#[test]
fn timeout_returns_the_model_at_hand() {
    let g = SimpleEGraph {
        classes: vec![
            class(vec![node("a", 10, vec![]), node("b", 1, vec![1])]),
            class(vec![node("c", 0, vec![])]),
        ],
        roots: vec![0],
    };
    let models = vec![vec![Atom::sel(0, 0)], vec![Atom::sel(0, 1), Atom::sel(1, 0)]];
    let sel = extract_with(&AspExtractor::with_time_budget(0), g.clone(), models.clone(), 1).unwrap();
    assert_eq!(sel.choices, vec![Some(0), None]);
    assert!(g.is_valid_selection(&sel));

    let sel = extract_with(&AspExtractor::with_time_budget(1), g.clone(), models.clone(), 1).unwrap();
    assert_eq!(sel.choices, vec![Some(1), Some(0)]);

    let sel = extract_with(&AspExtractor::new(), g.clone(), models, 16).unwrap();
    assert_eq!(sel.choices, vec![Some(0), None]);
}

#[test]
fn cycle_resolves_to_one_choice_per_class() {
    let g = SimpleEGraph {
        classes: vec![class(vec![node("f", 1, vec![1])]), class(vec![node("g", 1, vec![0])])],
        roots: vec![0],
    };
    let facts = encode(&g).unwrap();
    assert_eq!(facts.len(), 5);
    assert!(facts.contains(&Atom::child(0, 0, 1)));
    assert!(facts.contains(&Atom::child(1, 0, 0)));

    let both = ExtractionResult { choices: vec![Some(0), Some(0)] };
    assert!(g.is_valid_selection(&both));
    assert!(!g.is_valid_selection(&ExtractionResult { choices: vec![Some(0), None] }));
    assert_eq!(g.total_cost(&both), 2);

    let models = vec![vec![Atom::sel(0, 0), Atom::sel(1, 0)]];
    let sel = extract_with(&AspExtractor::new(), g.clone(), models, 0).unwrap();
    assert_eq!(sel, both);

    assert_eq!(
        extract_with(&AspExtractor::new(), g, vec![], 0),
        Err(ExtractError::NoModelFound)
    );
}

#[test]
fn root_without_a_node_has_no_extraction() {
    let g = SimpleEGraph { classes: vec![class(vec![])], roots: vec![0] };
    assert!(!g.is_valid_selection(&ExtractionResult { choices: vec![None] }));
    assert!(!g.is_valid_selection(&ExtractionResult { choices: vec![Some(0)] }));
    assert_eq!(
        extract_with(&AspExtractor::new(), g, vec![], 0),
        Err(ExtractError::NoModelFound)
    );
}

#[test]
fn graph_without_roots_extracts_at_no_cost() {
    let g = SimpleEGraph { classes: vec![class(vec![node("x", 5, vec![])])], roots: vec![] };
    let sel = extract_with(&AspExtractor::new(), g.clone(), vec![vec![]], 0).unwrap();
    assert_eq!(sel.choices, vec![None]);
    assert_eq!(g.total_cost(&sel), 0);
}

#[test]
fn every_root_is_represented() {
    let g = SimpleEGraph {
        classes: vec![
            class(vec![node("x", 1, vec![2])]),
            class(vec![node("y", 1, vec![])]),
            class(vec![node("z", 1, vec![])]),
        ],
        roots: vec![0, 1],
    };
    let models = vec![vec![Atom::sel(0, 0), Atom::sel(1, 0), Atom::sel(2, 0)]];
    let sel = extract_with(&AspExtractor::new(), g.clone(), models, 0).unwrap();
    for root in &g.roots {
        let index = sel.choices[*root].unwrap();
        assert!(index < g.classes[*root].nodes.len());
    }
    for (eclass, choice) in sel.choices.iter().enumerate() {
        if let Some(index) = choice {
            for child in &g.classes[eclass].nodes[*index].children {
                assert!(sel.choices[*child].unwrap() < g.classes[*child].nodes.len());
            }
        }
    }
    let models = vec![vec![Atom::sel(0, 0), Atom::sel(2, 0)]];
    assert_eq!(
        extract_with(&AspExtractor::new(), g, models, 0),
        Err(ExtractError::InternalConsistencyFailure)
    );
}
