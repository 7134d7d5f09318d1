use vstd::prelude::*;

verus! {

/// What the daemon remembers between runs: whether its last run sent a
/// digest. The launch agent starts it twice in a row, so every other start
/// only clears the mark.
#[derive(Clone, Copy, Debug, PartialEq, Eq, Default)]
pub struct RunDaemon {
    pub did_run: bool,
}

impl RunDaemon {
    pub fn new(did_run: bool) -> (r: RunDaemon)
        ensures
            r.did_run == did_run,
    {
        RunDaemon { did_run }
    }

    /// Whether this run should analyse the repository and send a digest.
    pub fn should_report(&self) -> (r: bool)
        ensures
            r == !self.did_run,
    {
        !self.did_run
    }

    /// What to remember once this run is over: a run that skipped clears
    /// the mark, a run that sent its digest sets it.
    pub fn after_run(&self) -> (r: RunDaemon)
        ensures
            r.did_run == !self.did_run,
    {
        RunDaemon { did_run: !self.did_run }
    }
}

} // verus!
