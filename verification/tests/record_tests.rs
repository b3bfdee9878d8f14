use alias_checker::checker::{AccessConflict, FieldPath};
use alias_checker::record::{
    error_call_mut_with_field_ref, error_call_mut_with_other_field_ref, error_multiple_field_refs,
    increment_x, success_call_mut_no_refs, success_single_field_ref, Point, FIELD_X, FIELD_Y,
};

#[test]
fn increment_x_adds_one_and_leaves_y() {
    let mut point = Point { x: 10, y: 20 };
    increment_x(&mut point);
    assert_eq!(point.x, 11);
    assert_eq!(point.y, 20);
}

#[test]
fn single_field_ref_trace_passes() {
    assert_eq!(success_single_field_ref(), Ok(()));
}

#[test]
fn multiple_field_refs_trace_is_split_borrow() {
    assert_eq!(error_multiple_field_refs(), Ok(()));
}

#[test]
fn call_without_refs_trace_passes() {
    assert_eq!(success_call_mut_no_refs(), Ok(()));
}

#[test]
fn call_with_field_ref_trace_conflicts() {
    assert_eq!(
        error_call_mut_with_field_ref(),
        Err(AccessConflict {
            path_a: FieldPath::Field(FIELD_X),
            path_b: FieldPath::Whole,
            first_event: 0,
            second_event: 1,
        })
    );
}

#[test]
fn call_with_other_field_ref_trace_conflicts() {
    assert_eq!(
        error_call_mut_with_other_field_ref(),
        Err(AccessConflict {
            path_a: FieldPath::Field(FIELD_Y),
            path_b: FieldPath::Whole,
            first_event: 0,
            second_event: 1,
        })
    );
}
