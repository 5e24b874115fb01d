use vstd::prelude::*;

verus! {

/// The one-shot command-line surface: offline mode, play a single episode,
/// flush offline changes, and an optional series nickname. The embedding
/// application fills this in from its argument parser.
#[derive(Debug)]
pub struct CmdOptions {
    /// Run without a connection; mutations are journaled locally.
    pub offline: bool,
    /// Play a single episode from the last watched series and exit.
    pub single: bool,
    /// Push all journaled changes to the remote and exit.
    pub sync: bool,
    /// The nickname of the series to watch.
    pub series: Option<String>,
}

impl Default for CmdOptions {
    /// Interactive online mode with no preselected series.
    fn default() -> (r: Self)
        ensures
            !r.offline,
            !r.single,
            !r.sync,
            r.series is None,
    {
        CmdOptions { offline: false, single: false, sync: false, series: None }
    }
}

} // verus!
