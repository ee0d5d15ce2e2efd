use component_future::{Action, Aggregator, Async, Poll};

/// Feeds `results` to a fresh aggregator over `count` components, in the
/// order it asks for them, and returns every action it took.
fn actions(count: usize, results: &[Poll<u32, String>]) -> Vec<Action<u32, String>> {
    let (mut aggregator, first) = Aggregator::start(count);
    let mut seen = vec![first.clone()];
    let mut action = first;
    let mut next = 0;
    while let Action::Invoke(_) = action {
        action = aggregator.record(results[next].clone());
        next += 1;
        seen.push(action.clone());
    }
    assert!(aggregator.is_finished());
    seen
}

fn ok(a: Async<u32>) -> Poll<u32, String> {
    Ok(a)
}

#[test]
fn no_components_stall() {
    assert_eq!(actions(0, &[]), vec![Action::Stalled]);
}

#[test]
fn all_nothing_to_do_stalls() {
    let r = ok(Async::NothingToDo);
    assert_eq!(
        actions(3, &[r.clone(), r.clone(), r]),
        vec![Action::Invoke(0), Action::Invoke(1), Action::Invoke(2), Action::Stalled]
    );
}

#[test]
fn error_short_circuits_round() {
    let results = [ok(Async::NotReady), Err(String::from("bad")), ok(Async::DidWork)];
    assert_eq!(
        actions(3, &results),
        vec![Action::Invoke(0), Action::Invoke(1), Action::Failed(String::from("bad"))]
    );
}

#[test]
fn ready_short_circuits_round() {
    let results = [ok(Async::DidWork), ok(Async::Ready(9)), ok(Async::DidWork)];
    assert_eq!(
        actions(3, &results),
        vec![Action::Invoke(0), Action::Invoke(1), Action::Ready(9)]
    );
}

#[test]
fn work_starts_a_new_round() {
    let results = [
        ok(Async::DidWork),
        ok(Async::NotReady),
        ok(Async::NothingToDo),
        ok(Async::Ready(4)),
    ];
    assert_eq!(
        actions(2, &results),
        vec![
            Action::Invoke(0),
            Action::Invoke(1),
            Action::Invoke(0),
            Action::Invoke(1),
            Action::Ready(4)
        ]
    );
}

#[test]
fn not_ready_round_ends_not_ready() {
    let results = [ok(Async::NothingToDo), ok(Async::NotReady), ok(Async::NothingToDo)];
    assert_eq!(
        actions(3, &results),
        vec![Action::Invoke(0), Action::Invoke(1), Action::Invoke(2), Action::NotReady]
    );
}

#[test]
fn not_ready_repeats_when_nothing_changed() {
    let results = [ok(Async::NotReady), ok(Async::NothingToDo)];
    let first = actions(2, &results);
    let again = actions(2, &results);
    assert_eq!(first.last(), Some(&Action::NotReady));
    assert_eq!(again, first);
}

#[test]
fn work_then_stall_in_later_round() {
    let results = [ok(Async::DidWork), ok(Async::NothingToDo)];
    assert_eq!(
        actions(1, &results),
        vec![Action::Invoke(0), Action::Invoke(0), Action::Stalled]
    );
}

#[test]
fn error_in_later_round() {
    let results = [ok(Async::DidWork), ok(Async::NothingToDo), Err(String::from("late"))];
    assert_eq!(
        actions(2, &results),
        vec![
            Action::Invoke(0),
            Action::Invoke(1),
            Action::Invoke(0),
            Action::Failed(String::from("late"))
        ]
    );
}

#[test]
fn single_component_not_ready() {
    assert_eq!(
        actions(1, &[ok(Async::NotReady)]),
        vec![Action::Invoke(0), Action::NotReady]
    );
}

#[test]
fn start_then_record_by_hand() {
    let (mut aggregator, first) = Aggregator::start::<u32, String>(2);
    assert_eq!(first, Action::Invoke(0));
    assert!(!aggregator.is_finished());
    assert_eq!(aggregator.record(ok(Async::NothingToDo)), Action::Invoke(1));
    assert_eq!(aggregator.record(ok(Async::Ready(5))), Action::Ready(5));
    assert!(aggregator.is_finished());
}
