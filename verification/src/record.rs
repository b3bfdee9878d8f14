//! The two-field record the checker's traces speak of, and named borrow
//! patterns over it, each checked against the exclusive-access rule.

use crate::checker::check;
use crate::checker::conflict_report;
use crate::checker::lemma_call_alone_ok;
use crate::checker::lemma_call_while_borrow_live_conflicts;
use crate::checker::lemma_single_borrow_released_ok;
use crate::checker::lemma_split_borrow_full_ok;
use crate::checker::AccessConflict;
use crate::checker::Event;
use crate::checker::FieldPath;
use crate::checker::Mode;
use vstd::prelude::*;

verus! {

/// A record of two scalar fields, owned by one lexical scope at a time.
#[derive(Clone, Copy, PartialEq, Eq, Structural, Debug)]
pub struct Point {
    pub x: i32,
    pub y: i32,
}

/// The field path of `Point::x`.
pub const FIELD_X: u64 = 0;

/// The field path of `Point::y`.
pub const FIELD_Y: u64 = 1;

/// Adds one to the `x` field and leaves `y` alone. A call of this function
/// takes the whole record, so in an event trace it stands as a
/// whole-record call.
pub fn increment_x(point: &mut Point)
    requires
        old(point).x < i32::MAX,
    ensures
        final(point).x == old(point).x + 1,
        final(point).y == old(point).y,
{
    point.x = point.x + 1;
}

/// One exclusive borrow of `x`, used and released, with nothing else
/// live: the trace passes the checker.
pub fn success_single_field_ref() -> (r: Result<(), AccessConflict>)
    ensures
        r == Ok::<(), AccessConflict>(()),
{
    let mut events: Vec<Event> = Vec::new();
    events.push(Event::Start(FieldPath::Field(FIELD_X), Mode::Exclusive));
    events.push(Event::End(FieldPath::Field(FIELD_X)));
    proof {
        assert(events@ =~= seq![
            Event::Start(FieldPath::Field(FIELD_X), Mode::Exclusive),
            Event::End(FieldPath::Field(FIELD_X)),
        ]);
        lemma_single_borrow_released_ok(FieldPath::Field(FIELD_X), Mode::Exclusive);
    }
    check(&events)
}

/// Exclusive borrows of `x` and `y` held at the same time, then released.
/// The paths are disjoint fields, so this is the split-borrow case and the
/// trace passes; a checker that tracked only the whole record would have
/// rejected the second start.
pub fn error_multiple_field_refs() -> (r: Result<(), AccessConflict>)
    ensures
        r == Ok::<(), AccessConflict>(()),
{
    let mut events: Vec<Event> = Vec::new();
    events.push(Event::Start(FieldPath::Field(FIELD_X), Mode::Exclusive));
    events.push(Event::Start(FieldPath::Field(FIELD_Y), Mode::Exclusive));
    events.push(Event::End(FieldPath::Field(FIELD_X)));
    events.push(Event::End(FieldPath::Field(FIELD_Y)));
    proof {
        assert(events@ =~= seq![
            Event::Start(FieldPath::Field(FIELD_X), Mode::Exclusive),
            Event::Start(FieldPath::Field(FIELD_Y), Mode::Exclusive),
            Event::End(FieldPath::Field(FIELD_X)),
            Event::End(FieldPath::Field(FIELD_Y)),
        ]);
        lemma_split_borrow_full_ok(FieldPath::Field(FIELD_X), FieldPath::Field(FIELD_Y));
    }
    check(&events)
}

/// A whole-record call with no borrow live: the trace passes.
pub fn success_call_mut_no_refs() -> (r: Result<(), AccessConflict>)
    ensures
        r == Ok::<(), AccessConflict>(()),
{
    let mut events: Vec<Event> = Vec::new();
    events.push(Event::Call);
    proof {
        assert(events@ =~= seq![Event::Call]);
        lemma_call_alone_ok();
    }
    check(&events)
}

/// A whole-record call while an exclusive borrow of `x` is still live:
/// the call's path overlaps every field, so the checker reports the clash
/// between the borrow's start and the call.
pub fn error_call_mut_with_field_ref() -> (r: Result<(), AccessConflict>)
    ensures
        r == Err::<(), AccessConflict>(
            conflict_report(FieldPath::Field(FIELD_X), FieldPath::Whole, 0, 1),
        ),
{
    let mut events: Vec<Event> = Vec::new();
    events.push(Event::Start(FieldPath::Field(FIELD_X), Mode::Exclusive));
    events.push(Event::Call);
    events.push(Event::End(FieldPath::Field(FIELD_X)));
    proof {
        assert(events@ =~= seq![
            Event::Start(FieldPath::Field(FIELD_X), Mode::Exclusive),
            Event::Call,
            Event::End(FieldPath::Field(FIELD_X)),
        ]);
        lemma_call_while_borrow_live_conflicts(events@, FieldPath::Field(FIELD_X), Mode::Exclusive);
    }
    check(&events)
}

/// A whole-record call while an exclusive borrow of `y` is still live:
/// holding a different field from the one the call writes does not help,
/// since the call's path overlaps every field.
pub fn error_call_mut_with_other_field_ref() -> (r: Result<(), AccessConflict>)
    ensures
        r == Err::<(), AccessConflict>(
            conflict_report(FieldPath::Field(FIELD_Y), FieldPath::Whole, 0, 1),
        ),
{
    let mut events: Vec<Event> = Vec::new();
    events.push(Event::Start(FieldPath::Field(FIELD_Y), Mode::Exclusive));
    events.push(Event::Call);
    events.push(Event::End(FieldPath::Field(FIELD_Y)));
    proof {
        assert(events@ =~= seq![
            Event::Start(FieldPath::Field(FIELD_Y), Mode::Exclusive),
            Event::Call,
            Event::End(FieldPath::Field(FIELD_Y)),
        ]);
        lemma_call_while_borrow_live_conflicts(events@, FieldPath::Field(FIELD_Y), Mode::Exclusive);
    }
    check(&events)
}

} // verus!
