use vstd::prelude::*;

verus! {

/// Lifecycle state of a component managed by the nucleus.
#[derive(Debug, Clone, Copy, PartialEq, Eq, Structural)]
pub enum State {
    NEW,
    INSTALLED,
    STARTING,
    RUNNING,
    STOPPING,
    ERRORED,
    BROKEN,
    FINISHED,
}

} // verus!
