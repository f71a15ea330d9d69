//! Detaching from the terminal.

use vstd::prelude::*;
use crate::text::joined;

verus! {

/// What a run is told after the attempt to detach: nothing where it went
/// well, and where it did not, that the process could not be made a daemon,
/// with the reason given.
pub fn daemonize(detached: Result<(), String>) -> (r: Result<(), String>)
    ensures
        detached is Ok ==> r is Ok,
        detached is Err ==> r is Err && r->Err_0@ == "Couldn't daemonize; "@ + detached->Err_0@,
{
    match detached {
        Ok(()) => Ok(()),
        Err(reason) => Err(joined("Couldn't daemonize; ", reason.as_str())),
    }
}

} // verus!
