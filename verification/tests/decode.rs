use asp_extract::decode::decode;
use asp_extract::{Arg, Atom, ExtractError};

fn atom(name: &str, args: Vec<Arg>) -> Atom {
    Atom { name: name.to_string(), args }
}

#[test]
fn decode_fills_the_mentioned_classes() {
    let model = vec![Atom::sel(0, 1), Atom::sel(2, 0)];
    let sel = decode(&model, 3).unwrap();
    assert_eq!(sel.choices, vec![Some(1), None, Some(0)]);
}

#[test]
fn decode_of_the_empty_model_leaves_every_class_out() {
    let sel = decode(&vec![], 2).unwrap();
    assert_eq!(sel.choices, vec![None, None]);
}

#[test]
fn decode_does_not_depend_on_the_order_of_atoms() {
    let forward = decode(&vec![Atom::sel(0, 1), Atom::sel(1, 0)], 2).unwrap();
    let backward = decode(&vec![Atom::sel(1, 0), Atom::sel(0, 1)], 2).unwrap();
    assert_eq!(forward, backward);
    assert_eq!(forward.choices, vec![Some(1), Some(0)]);
}

#[test]
fn decode_twice_gives_the_same_choices() {
    let model = vec![Atom::sel(1, 3), Atom::sel(0, 2)];
    let first = decode(&model, 2).unwrap();
    let second = decode(&model, 2).unwrap();
    assert_eq!(first, second);
}

#[test]
fn decode_accepts_a_model_listed_twice_over() {
    let once = vec![Atom::sel(1, 3), Atom::sel(0, 2)];
    let mut twice = once.clone();
    twice.extend(once.clone());
    assert_eq!(decode(&twice, 2).unwrap(), decode(&once, 2).unwrap());
}

#[test]
fn decode_rejects_two_indices_for_one_class() {
    let model = vec![Atom::sel(0, 1), Atom::sel(0, 2)];
    assert_eq!(decode(&model, 1), Err(ExtractError::InternalConsistencyFailure));
}

#[test]
fn decode_rejects_another_relation() {
    let model = vec![Atom::sel(0, 0), atom("selclass", vec![Arg::Number(0), Arg::Number(0)])];
    assert_eq!(decode(&model, 1), Err(ExtractError::InternalConsistencyFailure));
    let model = vec![Atom::root(0)];
    assert_eq!(decode(&model, 1), Err(ExtractError::InternalConsistencyFailure));
}

#[test]
fn decode_rejects_another_arity() {
    let short = vec![atom("sel", vec![Arg::Number(0)])];
    assert_eq!(decode(&short, 1), Err(ExtractError::InternalConsistencyFailure));
    let long = vec![atom("sel", vec![Arg::Number(0), Arg::Number(0), Arg::Number(0)])];
    assert_eq!(decode(&long, 1), Err(ExtractError::InternalConsistencyFailure));
    let none = vec![atom("sel", vec![])];
    assert_eq!(decode(&none, 1), Err(ExtractError::InternalConsistencyFailure));
}

#[test]
fn decode_rejects_arguments_that_are_no_numbers() {
    let text = vec![atom("sel", vec![Arg::Number(0), Arg::Text("0".to_string())])];
    assert_eq!(decode(&text, 1), Err(ExtractError::InternalConsistencyFailure));
    let other = vec![atom("sel", vec![Arg::Other, Arg::Number(0)])];
    assert_eq!(decode(&other, 1), Err(ExtractError::InternalConsistencyFailure));
}

#[test]
fn decode_rejects_negative_numbers() {
    assert_eq!(decode(&vec![Atom::sel(-1, 0)], 1), Err(ExtractError::InternalConsistencyFailure));
    assert_eq!(decode(&vec![Atom::sel(0, -1)], 1), Err(ExtractError::InternalConsistencyFailure));
}

#[test]
fn decode_rejects_a_class_that_does_not_exist() {
    assert_eq!(decode(&vec![Atom::sel(1, 0)], 1), Err(ExtractError::InternalConsistencyFailure));
    assert_eq!(decode(&vec![Atom::sel(0, 0)], 0), Err(ExtractError::InternalConsistencyFailure));
}

#[test]
fn decode_keeps_large_indices() {
    let sel = decode(&vec![Atom::sel(0, i32::MAX)], 1).unwrap();
    assert_eq!(sel.choices, vec![Some(i32::MAX as usize)]);
}

#[test]
fn as_sel_reads_exactly_the_choice_atoms() {
    assert_eq!(Atom::sel(3, 4).as_sel(), Some((3, 4)));
    assert_eq!(Atom::sel(-3, 4).as_sel(), Some((-3, 4)));
    assert_eq!(Atom::root(3).as_sel(), None);
    assert_eq!(Atom::child(1, 2, 3).as_sel(), None);
    assert_eq!(atom("sel", vec![Arg::Number(1)]).as_sel(), None);
    assert_eq!(atom("Sel", vec![Arg::Number(1), Arg::Number(2)]).as_sel(), None);
    assert_eq!(atom("", vec![]).as_sel(), None);
}

#[test]
fn atom_constructors_build_the_fact_shapes() {
    assert_eq!(Atom::root(7), atom("root", vec![Arg::Number(7)]));
    assert_eq!(
        Atom::enode(1, 2, &"add".to_string(), 5),
        atom(
            "enode",
            vec![Arg::Number(1), Arg::Number(2), Arg::Text("add".to_string()), Arg::Number(5)]
        )
    );
    assert_eq!(
        Atom::child(1, 2, 3),
        atom("child", vec![Arg::Number(1), Arg::Number(2), Arg::Number(3)])
    );
    assert_eq!(Atom::sel(1, 2), atom("sel", vec![Arg::Number(1), Arg::Number(2)]));
}
