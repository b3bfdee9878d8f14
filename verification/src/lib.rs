//! A checker for exclusive access to the fields of a record.
//!
//! A record is borrowed through field paths: either one named field or the
//! whole record at once. The checker walks an ordered list of access events
//! (borrow starts, borrow ends, whole-record calls) and reports the first
//! pair of accesses that violates the exclusive-access rule: two live
//! borrows may not overlap unless both are shared, and a whole-record call
//! overlaps every live borrow.

pub mod checker;
pub mod record;
