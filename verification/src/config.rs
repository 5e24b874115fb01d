use vstd::prelude::*;
use vstd::string::StringExecFns;

verus! {

/// A percentage between 0 and 100, stored as a whole number.
#[derive(Clone, Copy, Debug, PartialEq, Eq, Structural)]
pub struct Percentage {
    percent: u8,
}

impl Percentage {
    pub closed spec fn spec_percent(self) -> u8 {
        self.percent
    }

    /// A percentage never exceeds 100.
    #[verifier::type_invariant]
    pub closed spec fn inv(self) -> bool {
        self.percent <= 100
    }

    pub fn new(percent: u8) -> (r: Percentage)
        requires
            percent <= 100,
        ensures
            r.spec_percent() == percent,
    {
        Percentage { percent }
    }

    /// The stored whole-number percentage.
    pub fn as_percent(self) -> (r: u8)
        ensures
            r == self.spec_percent(),
            r <= 100,
    {
        proof {
            use_type_invariant(&self);
        }
        self.percent
    }

    pub open spec fn is_valid(self) -> bool {
        self.spec_percent() <= 100
    }
}

/// How episodes are played and when one counts as watched: the player to
/// spawn, the arguments every series gets, the watched threshold, and how
/// long to wait before the next episode starts.
#[derive(Clone, Debug)]
pub struct EpisodeConfig {
    /// The video player to spawn.
    pub player: String,
    /// Arguments handed to the player for every series, before the
    /// per-series ones.
    pub player_args: Vec<String>,
    /// The percentage of an episode to watch before progress is made.
    pub pcnt_must_watch: Percentage,
    /// Seconds to wait between episodes when playing several in a row.
    pub seconds_before_next: u32,
}

impl EpisodeConfig {
    pub fn new() -> (r: EpisodeConfig)
        ensures
            r.player@ == "mpv"@,
            r.player_args@.len() == 0,
            r.pcnt_must_watch.spec_percent() == 50,
            r.seconds_before_next == 3,
    {
        proof {
            reveal_strlit("mpv");
        }
        EpisodeConfig {
            player: mpv_name(),
            player_args: Vec::new(),
            pcnt_must_watch: Percentage::new(50),
            seconds_before_next: 3,
        }
    }
}

fn mpv_name() -> (r: String)
    ensures
        r@ == "mpv"@,
{
    proof {
        reveal_strlit("mpv");
    }
    String::from_str("mpv")
}

/// Global configuration: where the series folders live and how watching
/// sessions behave.
#[derive(Clone, Debug)]
pub struct Config {
    /// The directory beneath which per-series directories live.
    pub series_dir: String,
    /// Whether starting a rewatch resets the start and end dates.
    pub reset_dates_on_rewatch: bool,
    pub episode: EpisodeConfig,
}

impl Config {
    pub fn new(series_dir: String) -> (r: Config)
        ensures
            r.series_dir@ == series_dir@,
            !r.reset_dates_on_rewatch,
            r.episode.player@ == "mpv"@,
            r.episode.player_args@.len() == 0,
            r.episode.pcnt_must_watch.spec_percent() == 50,
            r.episode.seconds_before_next == 3,
    {
        Config { series_dir, reset_dates_on_rewatch: false, episode: EpisodeConfig::new() }
    }
}

} // verus!
