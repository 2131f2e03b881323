use crate::clock::{expired, has_expired};
use crate::errors::Errors;
use crate::record::{Election, ElectionView};
use vstd::prelude::*;

verus! {

/// Whether an election may be torn down at `now`: only once its window is
/// over.
pub open spec fn closing(e: ElectionView, now: int) -> Result<(), Errors> {
    if expired(e.started_at, e.duration, now) {
        Ok(())
    } else {
        Err(Errors::ElectionHasNotEnded)
    }
}

/// Decides at the time `now` whether the election may be closed. On `Ok` the
/// host removes the record; on an error it keeps it. No counter is read and
/// no winner is named.
pub fn close_election(election: &Election, now: i64) -> (closed: Result<(), Errors>)
    ensures
        closed == closing(election@, now as int),
{
    if has_expired(election.started_at, election.duration, now) {
        Ok(())
    } else {
        Err(Errors::ElectionHasNotEnded)
    }
}

} // verus!
