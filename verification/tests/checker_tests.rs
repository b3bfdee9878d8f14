use alias_checker::checker::{check, AccessConflict, Event, FieldPath, Mode};

const X: FieldPath = FieldPath::Field(0);
const Y: FieldPath = FieldPath::Field(1);

#[test]
fn empty_trace_ok() {
    let events: Vec<Event> = Vec::new();
    assert_eq!(check(&events), Ok(()));
}

#[test]
fn sequential_borrows_ok() {
    let events = vec![
        Event::Start(X, Mode::Exclusive),
        Event::End(X),
        Event::Start(Y, Mode::Exclusive),
        Event::End(Y),
    ];
    assert_eq!(check(&events), Ok(()));
}

#[test]
fn split_borrow_without_end_ok() {
    let events = vec![Event::Start(X, Mode::Exclusive), Event::Start(Y, Mode::Exclusive)];
    assert_eq!(check(&events), Ok(()));
}

#[test]
fn call_with_live_borrow_conflicts() {
    let events = vec![Event::Start(X, Mode::Exclusive), Event::Call];
    assert_eq!(
        check(&events),
        Err(AccessConflict {
            path_a: X,
            path_b: FieldPath::Whole,
            first_event: 0,
            second_event: 1,
        })
    );
}

#[test]
fn release_then_call_ok() {
    let events = vec![Event::Start(X, Mode::Exclusive), Event::End(X), Event::Call];
    assert_eq!(check(&events), Ok(()));
}

#[test]
fn call_with_shared_borrow_conflicts() {
    let events = vec![Event::Start(Y, Mode::Shared), Event::Call];
    assert_eq!(
        check(&events),
        Err(AccessConflict {
            path_a: Y,
            path_b: FieldPath::Whole,
            first_event: 0,
            second_event: 1,
        })
    );
}

#[test]
fn call_reports_earliest_live_borrow() {
    let events = vec![
        Event::Start(X, Mode::Shared),
        Event::Start(Y, Mode::Shared),
        Event::Call,
    ];
    assert_eq!(
        check(&events),
        Err(AccessConflict {
            path_a: X,
            path_b: FieldPath::Whole,
            first_event: 0,
            second_event: 2,
        })
    );
}

#[test]
fn overlapping_exclusive_same_path_conflicts() {
    let events = vec![Event::Start(X, Mode::Exclusive), Event::Start(X, Mode::Exclusive)];
    assert_eq!(
        check(&events),
        Err(AccessConflict { path_a: X, path_b: X, first_event: 0, second_event: 1 })
    );
}

#[test]
fn overlapping_shared_same_path_ok() {
    let events = vec![
        Event::Start(X, Mode::Shared),
        Event::Start(X, Mode::Shared),
        Event::End(X),
        Event::End(X),
    ];
    assert_eq!(check(&events), Ok(()));
}

#[test]
fn shared_then_exclusive_same_path_conflicts() {
    let events = vec![Event::Start(X, Mode::Shared), Event::Start(X, Mode::Exclusive)];
    assert_eq!(
        check(&events),
        Err(AccessConflict { path_a: X, path_b: X, first_event: 0, second_event: 1 })
    );
}

#[test]
fn whole_record_borrow_then_field_borrow_conflicts() {
    let events = vec![
        Event::Start(FieldPath::Whole, Mode::Exclusive),
        Event::Start(Y, Mode::Shared),
    ];
    assert_eq!(
        check(&events),
        Err(AccessConflict {
            path_a: FieldPath::Whole,
            path_b: Y,
            first_event: 0,
            second_event: 1,
        })
    );
}

#[test]
fn end_then_reborrow_same_path_ok() {
    let events = vec![
        Event::Start(X, Mode::Exclusive),
        Event::End(X),
        Event::Start(X, Mode::Exclusive),
        Event::End(X),
    ];
    assert_eq!(check(&events), Ok(()));
}

#[test]
fn end_without_matching_borrow_is_no_op() {
    let events = vec![Event::End(X), Event::Call];
    assert_eq!(check(&events), Ok(()));
}

#[test]
fn end_removes_only_the_named_path() {
    // Ending `y` leaves the borrow of `x` live, so the call still clashes.
    let events = vec![
        Event::Start(X, Mode::Exclusive),
        Event::Start(Y, Mode::Exclusive),
        Event::End(Y),
        Event::Call,
    ];
    assert_eq!(
        check(&events),
        Err(AccessConflict {
            path_a: X,
            path_b: FieldPath::Whole,
            first_event: 0,
            second_event: 3,
        })
    );
}

#[test]
fn rerun_yields_same_result() {
    let events = vec![
        Event::Start(X, Mode::Exclusive),
        Event::Call,
        Event::End(X),
    ];
    let first = check(&events);
    let second = check(&events);
    assert_eq!(first, second);

    let ok_events = vec![Event::Start(X, Mode::Exclusive), Event::End(X)];
    let first_ok = check(&ok_events);
    let second_ok = check(&ok_events);
    assert_eq!(first_ok, second_ok);
}
