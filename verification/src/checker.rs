//! The alias checker: walks an ordered list of access events over one record
//! and reports the first pair of accesses that violates exclusive access.

use vstd::prelude::*;

verus! {

/// How an access path reaches the record: one named field, or the whole
/// record at once. Fields are identified by a small integer.
#[derive(Clone, Copy, PartialEq, Eq, Structural, Debug)]
pub enum FieldPath {
    Whole,
    Field(u64),
}

/// The mode of a borrow: an exclusive borrow grants read-and-write rights
/// and tolerates no overlapping access; a shared borrow is read-only and
/// may overlap other shared borrows.
#[derive(Clone, Copy, PartialEq, Eq, Structural, Debug)]
pub enum Mode {
    Exclusive,
    Shared,
}

/// One access event in program order: a borrow starts, a borrow ends, or
/// the whole record is passed to a call. A whole-record call acts as an
/// exclusive borrow of every field path for the duration of the call.
#[derive(Clone, Copy, PartialEq, Eq, Structural, Debug)]
pub enum Event {
    Start(FieldPath, Mode),
    End(FieldPath),
    Call,
}

/// A borrow that is currently live: its path, its mode, and the index of
/// the event that started it.
#[derive(Clone, Copy, PartialEq, Eq, Structural, Debug)]
pub struct LiveBorrow {
    pub path: FieldPath,
    pub mode: Mode,
    pub started_at: usize,
}

/// A violation of the exclusive-access rule: the two overlapping paths and
/// the indices of the two events that clashed, in event order.
#[derive(Clone, Copy, PartialEq, Eq, Structural, Debug)]
pub struct AccessConflict {
    pub path_a: FieldPath,
    pub path_b: FieldPath,
    pub first_event: usize,
    pub second_event: usize,
}

/// Two paths overlap when either is the whole record or they name the same
/// field.
pub open spec fn paths_overlap(a: FieldPath, b: FieldPath) -> bool {
    a == FieldPath::Whole || b == FieldPath::Whole || a == b
}

/// Two overlapping accesses clash unless both are shared.
pub open spec fn modes_clash(a: Mode, b: Mode) -> bool {
    a == Mode::Exclusive || b == Mode::Exclusive
}

/// A live borrow conflicts with a new access when their paths overlap and
/// at least one side is exclusive.
pub open spec fn borrows_conflict(b: LiveBorrow, path: FieldPath, mode: Mode) -> bool {
    paths_overlap(b.path, path) && modes_clash(b.mode, mode)
}

/// The first live borrow, in the order the borrows started, that conflicts
/// with a new access of the given path and mode; `None` when none does.
pub open spec fn find_conflict(live: Seq<LiveBorrow>, path: FieldPath, mode: Mode) -> Option<
    LiveBorrow,
>
    decreases live.len(),
{
    if live.len() == 0 {
        None
    } else if borrows_conflict(live[0], path, mode) {
        Some(live[0])
    } else {
        find_conflict(live.drop_first(), path, mode)
    }
}

/// The live set after a borrow of the given path ends: the earliest live
/// borrow of exactly that path is removed; when none matches, the end
/// event is a no-op.
pub open spec fn remove_first(live: Seq<LiveBorrow>, path: FieldPath) -> Seq<LiveBorrow>
    decreases live.len(),
{
    if live.len() == 0 {
        live
    } else if live[0].path == path {
        live.drop_first()
    } else {
        seq![live[0]] + remove_first(live.drop_first(), path)
    }
}

/// The conflict report for a clash between the access that started at
/// `first_event` (path `path_a`) and the one at `second_event` (path
/// `path_b`).
pub open spec fn conflict_report(
    path_a: FieldPath,
    path_b: FieldPath,
    first_event: usize,
    second_event: usize,
) -> AccessConflict {
    AccessConflict { path_a, path_b, first_event, second_event }
}

/// The result of checking the events from index `i` on, given the borrows
/// that are live when event `i` is reached. The first conflict in event
/// order is reported and checking stops there.
pub open spec fn check_from(events: Seq<Event>, i: int, live: Seq<LiveBorrow>) -> Result<
    (),
    AccessConflict,
>
    decreases events.len() - i,
{
    if i < 0 || i >= events.len() {
        Ok(())
    } else {
        match events[i] {
            Event::Start(path, mode) => match find_conflict(live, path, mode) {
                Some(b) => Err(conflict_report(b.path, path, b.started_at, i as usize)),
                None => check_from(
                    events,
                    i + 1,
                    live.push(LiveBorrow { path, mode, started_at: i as usize }),
                ),
            },
            Event::End(path) => check_from(events, i + 1, remove_first(live, path)),
            Event::Call => match find_conflict(live, FieldPath::Whole, Mode::Exclusive) {
                Some(b) => Err(
                    conflict_report(b.path, FieldPath::Whole, b.started_at, i as usize),
                ),
                None => check_from(events, i + 1, live),
            },
        }
    }
}

/// The result of checking a whole event list, starting with no live
/// borrows.
pub open spec fn spec_check(events: Seq<Event>) -> Result<(), AccessConflict> {
    check_from(events, 0, Seq::empty())
}

/// Whether a live borrow conflicts with a new access of `path` in `mode`.
pub fn borrow_conflicts_with(b: &LiveBorrow, path: FieldPath, mode: Mode) -> (r: bool)
    ensures
        r == borrows_conflict(*b, path, mode),
{
    let overlap = b.path == FieldPath::Whole || path == FieldPath::Whole || b.path == path;
    let clash = b.mode == Mode::Exclusive || mode == Mode::Exclusive;
    overlap && clash
}

/// The first live borrow that conflicts with a new access of `path` in
/// `mode`, scanning the live set in the order the borrows started.
fn find_conflict_exec(live: &Vec<LiveBorrow>, path: FieldPath, mode: Mode) -> (r: Option<
    LiveBorrow,
>)
    ensures
        r == find_conflict(live@, path, mode),
{
    proof {
        assert(live@.skip(0) =~= live@);
    }
    let mut j: usize = 0;
    while j < live.len()
        invariant
            j <= live.len(),
            find_conflict(live@, path, mode) == find_conflict(live@.skip(j as int), path, mode),
        decreases live.len() - j,
    {
        let b = live[j];
        proof {
            assert(live@.skip(j as int)[0] == live@[j as int]);
        }
        if borrow_conflicts_with(&b, path, mode) {
            return Some(b);
        }
        proof {
            assert(live@.skip(j as int).drop_first() =~= live@.skip(j as int + 1));
        }
        j += 1;
    }
    proof {
        assert(live@.skip(j as int) =~= Seq::<LiveBorrow>::empty());
    }
    None
}

proof fn lemma_remove_first_at(live: Seq<LiveBorrow>, path: FieldPath, idx: int)
    requires
        0 <= idx < live.len(),
        forall|k: int| 0 <= k < idx ==> live[k].path != path,
        live[idx].path == path,
    ensures
        remove_first(live, path) == live.remove(idx),
    decreases idx,
{
    if idx == 0 {
        assert(live.drop_first() =~= live.remove(0));
    } else {
        assert forall|k: int| 0 <= k < idx - 1 implies live.drop_first()[k].path != path by {
            assert(live.drop_first()[k] == live[k + 1]);
        }
        assert(live.drop_first()[idx - 1] == live[idx]);
        lemma_remove_first_at(live.drop_first(), path, idx - 1);
        assert(seq![live[0]] + live.drop_first().remove(idx - 1) =~= live.remove(idx));
    }
}

proof fn lemma_remove_first_absent(live: Seq<LiveBorrow>, path: FieldPath)
    requires
        forall|k: int| 0 <= k < live.len() ==> live[k].path != path,
    ensures
        remove_first(live, path) == live,
    decreases live.len(),
{
    if live.len() > 0 {
        assert forall|k: int|
            0 <= k < live.drop_first().len() implies live.drop_first()[k].path != path by {
            assert(live.drop_first()[k] == live[k + 1]);
        }
        lemma_remove_first_absent(live.drop_first(), path);
        assert(seq![live[0]] + live.drop_first() =~= live);
    }
}

/// Removes the earliest live borrow of exactly `path` from the live set;
/// when none matches, leaves the set unchanged.
fn remove_first_exec(live: &mut Vec<LiveBorrow>, path: FieldPath)
    ensures
        final(live)@ == remove_first(old(live)@, path),
{
    let mut j: usize = 0;
    while j < live.len()
        invariant
            j <= live.len(),
            live@ == old(live)@,
            forall|k: int| 0 <= k < j ==> live@[k].path != path,
        decreases live.len() - j,
    {
        if live[j].path == path {
            proof {
                lemma_remove_first_at(live@, path, j as int);
            }
            live.remove(j);
            return;
        }
        j += 1;
    }
    proof {
        lemma_remove_first_absent(live@, path);
    }
}

/// Checks an ordered list of access events over one record: walks the
/// events in order, keeps the set of live borrows, and reports the first
/// pair of accesses whose paths overlap with at least one exclusive side.
/// A whole-record call is treated as an exclusive borrow of every field
/// path bracketing the call, so it clashes with any live borrow.
pub fn check(events: &Vec<Event>) -> (r: Result<(), AccessConflict>)
    ensures
        r == spec_check(events@),
{
    let mut live: Vec<LiveBorrow> = Vec::new();
    let mut i: usize = 0;
    while i < events.len()
        invariant
            i <= events.len(),
            spec_check(events@) == check_from(events@, i as int, live@),
        decreases events.len() - i,
    {
        let e = events[i];
        match e {
            Event::Start(path, mode) => {
                match find_conflict_exec(&live, path, mode) {
                    Some(b) => {
                        return Err(AccessConflict {
                            path_a: b.path,
                            path_b: path,
                            first_event: b.started_at,
                            second_event: i,
                        });
                    },
                    None => {
                        live.push(LiveBorrow { path, mode, started_at: i });
                    },
                }
            },
            Event::End(path) => {
                remove_first_exec(&mut live, path);
            },
            Event::Call => {
                match find_conflict_exec(&live, FieldPath::Whole, Mode::Exclusive) {
                    Some(b) => {
                        return Err(AccessConflict {
                            path_a: b.path,
                            path_b: FieldPath::Whole,
                            first_event: b.started_at,
                            second_event: i,
                        });
                    },
                    None => {},
                }
            },
        }
        i += 1;
    }
    Ok(())
}

proof fn lemma_find_conflict_finds(live: Seq<LiveBorrow>, path: FieldPath, mode: Mode, j: int)
    requires
        0 <= j < live.len(),
        borrows_conflict(live[j], path, mode),
    ensures
        find_conflict(live, path, mode) is Some,
    decreases j,
{
    if !borrows_conflict(live[0], path, mode) {
        assert(j != 0);
        assert(live.drop_first()[j - 1] == live[j]);
        lemma_find_conflict_finds(live.drop_first(), path, mode, j - 1);
    }
}

/// Two borrows of distinct field paths never conflict, whatever their
/// modes: this is the split-borrow rule. Only a same-field overlap or the
/// whole record on one side can clash.
pub proof fn lemma_disjoint_fields_never_conflict(b: LiveBorrow, path: FieldPath, mode: Mode)
    requires
        b.path is Field,
        path is Field,
        b.path != path,
    ensures
        !borrows_conflict(b, path, mode),
{
}

/// Two exclusive borrows of distinct field paths may be live at once: the
/// checker accepts a trace that starts both without releasing either, as
/// long as no whole-record call overlaps them.
pub proof fn lemma_split_borrow_accepted(p1: FieldPath, p2: FieldPath)
    requires
        p1 is Field,
        p2 is Field,
        p1 != p2,
    ensures
        spec_check(
            seq![Event::Start(p1, Mode::Exclusive), Event::Start(p2, Mode::Exclusive)],
        ) == Ok::<(), AccessConflict>(()),
{
    let events = seq![Event::Start(p1, Mode::Exclusive), Event::Start(p2, Mode::Exclusive)];
    let live0 = Seq::<LiveBorrow>::empty();
    let b1 = LiveBorrow { path: p1, mode: Mode::Exclusive, started_at: 0 };
    let live1 = live0.push(b1);
    assert(find_conflict(live0, p1, Mode::Exclusive) == Option::<LiveBorrow>::None);
    assert(check_from(events, 0, live0) == check_from(events, 1, live1));
    assert(live1[0] == b1);
    assert(!borrows_conflict(b1, p2, Mode::Exclusive));
    assert(live1.drop_first() =~= live0);
    assert(find_conflict(live0, p2, Mode::Exclusive) == Option::<LiveBorrow>::None);
    assert(find_conflict(live1, p2, Mode::Exclusive) == Option::<LiveBorrow>::None);
    let b2 = LiveBorrow { path: p2, mode: Mode::Exclusive, started_at: 1 };
    assert(check_from(events, 1, live1) == check_from(events, 2, live1.push(b2)));
}

/// While an exclusive borrow of some path is live, a second exclusive
/// borrow of the same path is always rejected: the checker reports a
/// conflict at the second start.
pub proof fn lemma_overlapping_exclusive_same_path_rejected(
    events: Seq<Event>,
    i: int,
    live: Seq<LiveBorrow>,
    j: int,
    path: FieldPath,
)
    requires
        0 <= i < events.len(),
        events[i] == Event::Start(path, Mode::Exclusive),
        0 <= j < live.len(),
        live[j].path == path,
        live[j].mode == Mode::Exclusive,
    ensures
        check_from(events, i, live) is Err,
{
    assert(borrows_conflict(live[j], path, Mode::Exclusive));
    lemma_find_conflict_finds(live, path, Mode::Exclusive, j);
}

/// A whole-record call while any borrow is live is always rejected,
/// whatever the borrow's path and mode: the call's path overlaps every
/// live path, and the call side is exclusive. The conflict names the
/// earliest live borrow.
pub proof fn lemma_whole_record_call_rejected(events: Seq<Event>, i: int, live: Seq<LiveBorrow>)
    requires
        0 <= i < events.len(),
        events[i] == Event::Call,
        live.len() > 0,
    ensures
        check_from(events, i, live) == Err::<(), AccessConflict>(
            conflict_report(live[0].path, FieldPath::Whole, live[0].started_at, i as usize),
        ),
{
    assert(borrows_conflict(live[0], FieldPath::Whole, Mode::Exclusive));
    assert(find_conflict(live, FieldPath::Whole, Mode::Exclusive) == Some(live[0]));
}

/// Re-running the checker on the same event list yields the same result:
/// the outcome is a function of the events alone, so two runs agree.
pub proof fn lemma_check_idempotent(
    events: Seq<Event>,
    r1: Result<(), AccessConflict>,
    r2: Result<(), AccessConflict>,
)
    requires
        r1 == spec_check(events),
        r2 == spec_check(events),
    ensures
        r1 == r2,
{
}

/// A borrow of any path and mode that ends before anything else happens
/// leaves nothing live: the two-event trace is accepted.
pub proof fn lemma_single_borrow_released_ok(path: FieldPath, mode: Mode)
    ensures
        spec_check(seq![Event::Start(path, mode), Event::End(path)]) == Ok::<
            (),
            AccessConflict,
        >(()),
{
    let events = seq![Event::Start(path, mode), Event::End(path)];
    let live0 = Seq::<LiveBorrow>::empty();
    let b = LiveBorrow { path, mode, started_at: 0 };
    let live1 = live0.push(b);
    assert(find_conflict(live0, path, mode) == Option::<LiveBorrow>::None);
    assert(check_from(events, 0, live0) == check_from(events, 1, live1));
    assert(live1[0] == b);
    assert(remove_first(live1, path) == live1.drop_first());
    assert(live1.drop_first() =~= live0);
    assert(check_from(events, 1, live1) == check_from(events, 2, live0));
}

/// Two exclusive borrows of distinct fields, both live at once and then
/// released in order, pass the checker: the full split-borrow trace.
pub proof fn lemma_split_borrow_full_ok(p1: FieldPath, p2: FieldPath)
    requires
        p1 is Field,
        p2 is Field,
        p1 != p2,
    ensures
        spec_check(
            seq![
                Event::Start(p1, Mode::Exclusive),
                Event::Start(p2, Mode::Exclusive),
                Event::End(p1),
                Event::End(p2),
            ],
        ) == Ok::<(), AccessConflict>(()),
{
    let events = seq![
        Event::Start(p1, Mode::Exclusive),
        Event::Start(p2, Mode::Exclusive),
        Event::End(p1),
        Event::End(p2),
    ];
    let live0 = Seq::<LiveBorrow>::empty();
    let b1 = LiveBorrow { path: p1, mode: Mode::Exclusive, started_at: 0 };
    let b2 = LiveBorrow { path: p2, mode: Mode::Exclusive, started_at: 1 };
    let live1 = live0.push(b1);
    let live2 = live1.push(b2);
    assert(find_conflict(live0, p1, Mode::Exclusive) == Option::<LiveBorrow>::None);
    assert(check_from(events, 0, live0) == check_from(events, 1, live1));
    assert(live1[0] == b1);
    assert(live1.drop_first() =~= live0);
    assert(find_conflict(live0, p2, Mode::Exclusive) == Option::<LiveBorrow>::None);
    assert(find_conflict(live1, p2, Mode::Exclusive) == Option::<LiveBorrow>::None);
    assert(check_from(events, 1, live1) == check_from(events, 2, live2));
    assert(live2[0] == b1);
    assert(remove_first(live2, p1) == live2.drop_first());
    let live3 = live2.drop_first();
    assert(live3 =~= live0.push(b2));
    assert(check_from(events, 2, live2) == check_from(events, 3, live3));
    assert(live3[0] == b2);
    assert(remove_first(live3, p2) == live3.drop_first());
    assert(live3.drop_first() =~= live0);
    assert(check_from(events, 3, live3) == check_from(events, 4, live0));
}

/// A whole-record call with no live borrow passes: the one-event trace is
/// accepted, and the call leaves nothing live behind.
pub proof fn lemma_call_alone_ok()
    ensures
        spec_check(seq![Event::Call]) == Ok::<(), AccessConflict>(()),
{
    let events = seq![Event::Call];
    let live0 = Seq::<LiveBorrow>::empty();
    assert(find_conflict(live0, FieldPath::Whole, Mode::Exclusive) == Option::<
        LiveBorrow,
    >::None);
    assert(check_from(events, 0, live0) == check_from(events, 1, live0));
}

/// A whole-record call made while the very first borrow is still live is
/// rejected, whatever the borrow's path and mode, and whatever events
/// follow: the checker stops at that clash, naming the borrow's path and
/// the two event indices.
pub proof fn lemma_call_while_borrow_live_conflicts(events: Seq<Event>, path: FieldPath, mode: Mode)
    requires
        events.len() >= 2,
        events[0] == Event::Start(path, mode),
        events[1] == Event::Call,
    ensures
        spec_check(events) == Err::<(), AccessConflict>(
            conflict_report(path, FieldPath::Whole, 0, 1),
        ),
{
    let live0 = Seq::<LiveBorrow>::empty();
    let b = LiveBorrow { path, mode, started_at: 0 };
    let live1 = live0.push(b);
    assert(find_conflict(live0, path, mode) == Option::<LiveBorrow>::None);
    assert(check_from(events, 0, live0) == check_from(events, 1, live1));
    assert(live1[0] == b);
    assert(borrows_conflict(b, FieldPath::Whole, Mode::Exclusive));
    assert(find_conflict(live1, FieldPath::Whole, Mode::Exclusive) == Some(b));
    assert(check_from(events, 1, live1) == Err::<(), AccessConflict>(
        conflict_report(path, FieldPath::Whole, 0, 1),
    ));
}

/// A borrow that ends before a whole-record call does not clash with it:
/// the three-event trace is accepted, whatever the borrow's path and mode.
pub proof fn lemma_release_then_call_ok(path: FieldPath, mode: Mode)
    ensures
        spec_check(seq![Event::Start(path, mode), Event::End(path), Event::Call]) == Ok::<
            (),
            AccessConflict,
        >(()),
{
    let events = seq![Event::Start(path, mode), Event::End(path), Event::Call];
    let live0 = Seq::<LiveBorrow>::empty();
    let b = LiveBorrow { path, mode, started_at: 0 };
    let live1 = live0.push(b);
    assert(find_conflict(live0, path, mode) == Option::<LiveBorrow>::None);
    assert(check_from(events, 0, live0) == check_from(events, 1, live1));
    assert(live1[0] == b);
    assert(remove_first(live1, path) == live1.drop_first());
    assert(live1.drop_first() =~= live0);
    assert(check_from(events, 1, live1) == check_from(events, 2, live0));
    assert(find_conflict(live0, FieldPath::Whole, Mode::Exclusive) == Option::<
        LiveBorrow,
    >::None);
    assert(check_from(events, 2, live0) == check_from(events, 3, live0));
}

} // verus!
