use crate::config::Config;
use crate::err::Error;
use crate::remote;
use crate::remote::{Date, RemoteService, Status};
use vstd::prelude::*;

verus! {

/// The entry a `set_status` call produces: the date side effects of the
/// status table, then the new status.
pub open spec fn set_status_spec(
    e: remote::SeriesEntry,
    status: Status,
    reset_dates: bool,
    today: Date,
) -> remote::SeriesEntry {
    let stepped = if status == Status::Watching && e.start_date is None {
        remote::SeriesEntry { start_date: Some(today), ..e }
    } else if status == Status::Rewatching && (e.start_date is None || (e.status
        == Status::Completed && reset_dates)) {
        remote::SeriesEntry { start_date: Some(today), ..e }
    } else if status == Status::Completed && (e.end_date is None || (e.status
        == Status::Rewatching && reset_dates)) {
        remote::SeriesEntry { end_date: Some(today), ..e }
    } else if status == Status::Dropped && e.end_date is None {
        remote::SeriesEntry { end_date: Some(today), ..e }
    } else {
        e
    };
    remote::SeriesEntry { status, ..stepped }
}

/// A tracking record together with its dirty flag: any mutation through the
/// setters marks the entry as needing a push to the remote.
#[derive(Clone, Copy, Debug)]
pub struct SeriesEntry {
    entry: remote::SeriesEntry,
    needs_sync: bool,
}

impl SeriesEntry {
    /// The tracked record.
    pub closed spec fn spec_entry(self) -> remote::SeriesEntry {
        self.entry
    }

    /// Whether a local change has not yet reached the remote.
    pub closed spec fn spec_needs_sync(self) -> bool {
        self.needs_sync
    }

    /// An entry as the remote reported it: nothing to push yet.
    pub fn from_entry(entry: remote::SeriesEntry) -> (r: Self)
        ensures
            r.spec_entry() == entry,
            !r.spec_needs_sync(),
    {
        SeriesEntry { entry, needs_sync: false }
    }

    /// A fresh entry for a series the user has not added remotely.
    pub fn from_id(id: remote::SeriesID) -> (r: Self)
        ensures
            r.spec_entry() == remote::SeriesEntry::spec_new(id),
            !r.spec_needs_sync(),
    {
        SeriesEntry { entry: remote::SeriesEntry::new(id), needs_sync: false }
    }

    /// The entry for a series as the remote knows it: the user's list entry
    /// if present, else fresh defaults.
    pub fn from_remote<R: RemoteService>(remote_svc: &R, info: &remote::SeriesInfo) -> (r: Result<
        Self,
        Error,
    >)
        ensures
            r matches Ok(e) ==> !e.spec_needs_sync() && e.spec_entry().id == info.id,
    {
        match remote_svc.get_list_entry(info.id) {
            Ok(Some(entry)) => Ok(Self::from_entry(entry)),
            Ok(None) => Ok(Self::from_id(info.id)),
            Err(e) => Err(e),
        }
    }

    pub fn inner(&self) -> (r: &remote::SeriesEntry)
        ensures
            *r == self.spec_entry(),
    {
        &self.entry
    }

    pub fn needs_sync(&self) -> (r: bool)
        ensures
            r == self.spec_needs_sync(),
    {
        self.needs_sync
    }

    pub fn id(&self) -> (r: remote::SeriesID)
        ensures
            r == self.spec_entry().id,
    {
        self.entry.id
    }

    pub fn status(&self) -> (r: Status)
        ensures
            r == self.spec_entry().status,
    {
        self.entry.status
    }

    pub fn watched_eps(&self) -> (r: u32)
        ensures
            r == self.spec_entry().watched_eps,
    {
        self.entry.watched_eps
    }

    pub fn score(&self) -> (r: Option<u8>)
        ensures
            r == self.spec_entry().score,
    {
        self.entry.score
    }

    pub fn times_rewatched(&self) -> (r: u32)
        ensures
            r == self.spec_entry().times_rewatched,
    {
        self.entry.times_rewatched
    }

    pub fn start_date(&self) -> (r: Option<Date>)
        ensures
            r == self.spec_entry().start_date,
    {
        self.entry.start_date
    }

    pub fn end_date(&self) -> (r: Option<Date>)
        ensures
            r == self.spec_entry().end_date,
    {
        self.entry.end_date
    }

    /// Set the watched episode count; the entry then needs a sync.
    pub fn set_watched_eps(&mut self, watched: u32)
        ensures
            final(self).spec_entry() == (remote::SeriesEntry {
                watched_eps: watched,
                ..old(self).spec_entry()
            }),
            final(self).spec_needs_sync(),
    {
        self.entry.watched_eps = watched;
        self.needs_sync = true;
    }

    /// Set the score; the entry then needs a sync.
    pub fn set_score(&mut self, score: Option<u8>)
        requires
            score matches Some(v) ==> v <= 100,
        ensures
            final(self).spec_entry() == (remote::SeriesEntry {
                score,
                ..old(self).spec_entry()
            }),
            final(self).spec_needs_sync(),
    {
        self.entry.score = score;
        self.needs_sync = true;
    }

    /// Set the rewatch count; the entry then needs a sync.
    pub fn set_times_rewatched(&mut self, times_rewatched: u32)
        ensures
            final(self).spec_entry() == (remote::SeriesEntry {
                times_rewatched,
                ..old(self).spec_entry()
            }),
            final(self).spec_needs_sync(),
    {
        self.entry.times_rewatched = times_rewatched;
        self.needs_sync = true;
    }

    /// Parse a raw score through the service and store it; a score of zero
    /// clears the stored score, and input the service cannot parse is
    /// rejected without changing anything.
    pub fn set_score_from_str<R: RemoteService>(&mut self, remote_svc: &R, raw: &str) -> (r:
        Result<(), Error>)
        ensures
            r is Ok ==> final(self).spec_needs_sync() && (final(self).spec_entry()
                == (remote::SeriesEntry { score: final(self).spec_entry().score, ..old(self).spec_entry() }))
                && (final(self).spec_entry().score matches Some(v) ==> 0 < v <= 100),
            r is Err ==> *final(self) == *old(self) && (r matches Err(e) ==> e is InvalidScore),
    {
        match remote_svc.parse_score(raw) {
            Some(0) => {
                self.set_score(None);
                Ok(())
            },
            Some(v) => {
                self.set_score(Some(v));
                Ok(())
            },
            None => Err(Error::InvalidScore),
        }
    }

    /// Set the watch status, applying the date side effects of the status
    /// table for `today`; the entry then needs a sync.
    pub fn set_status(&mut self, status: Status, config: &Config, today: Date)
        requires
            today.is_valid(),
        ensures
            final(self).spec_entry() == set_status_spec(
                old(self).spec_entry(),
                status,
                config.reset_dates_on_rewatch,
                today,
            ),
            final(self).spec_needs_sync(),
    {
        match status {
            Status::Watching => {
                if self.entry.start_date.is_none() {
                    self.entry.start_date = Some(today);
                }
            },
            Status::Rewatching => {
                if self.entry.start_date.is_none() || (self.entry.status == Status::Completed
                    && config.reset_dates_on_rewatch) {
                    self.entry.start_date = Some(today);
                }
            },
            Status::Completed => {
                if self.entry.end_date.is_none() || (self.entry.status == Status::Rewatching
                    && config.reset_dates_on_rewatch) {
                    self.entry.end_date = Some(today);
                }
            },
            Status::Dropped => {
                if self.entry.end_date.is_none() {
                    self.entry.end_date = Some(today);
                }
            },
            _ => {},
        }
        self.entry.status = status;
        self.needs_sync = true;
    }

    /// Push the entry to the remote unconditionally. Offline, this succeeds
    /// at once and leaves the dirty flag as it is; online, a successful push
    /// clears the flag and a failed one leaves everything unchanged.
    pub fn force_sync_to_remote<R: RemoteService>(&mut self, remote_svc: &R) -> (r: Result<
        (),
        Error,
    >)
        ensures
            remote_svc.spec_is_offline() ==> r is Ok && *final(self) == *old(self),
            r is Ok ==> final(self).spec_entry() == old(self).spec_entry(),
            !remote_svc.spec_is_offline() && r is Ok ==> !final(self).spec_needs_sync(),
            r is Err ==> *final(self) == *old(self),
    {
        if remote_svc.is_offline() {
            return Ok(());
        }
        match remote_svc.update_list_entry(&self.entry) {
            Ok(()) => {
                self.needs_sync = false;
                Ok(())
            },
            Err(e) => Err(e),
        }
    }

    /// Push the entry only when it has local changes.
    pub fn sync_to_remote<R: RemoteService>(&mut self, remote_svc: &R) -> (r: Result<(), Error>)
        ensures
            !old(self).spec_needs_sync() ==> r is Ok && *final(self) == *old(self),
            remote_svc.spec_is_offline() ==> r is Ok && *final(self) == *old(self),
            r is Ok ==> final(self).spec_entry() == old(self).spec_entry(),
            !remote_svc.spec_is_offline() && r is Ok ==> !final(self).spec_needs_sync(),
            r is Err ==> *final(self) == *old(self),
    {
        if !self.needs_sync {
            return Ok(());
        }
        self.force_sync_to_remote(remote_svc)
    }

    /// Replace the entry with whatever the remote reports, or fresh defaults
    /// when the user has not added the series there. Offline, nothing
    /// happens.
    pub fn force_sync_from_remote<R: RemoteService>(&mut self, remote_svc: &R) -> (r: Result<
        (),
        Error,
    >)
        ensures
            remote_svc.spec_is_offline() ==> r is Ok && *final(self) == *old(self),
            r is Ok ==> final(self).spec_entry().id == old(self).spec_entry().id,
            !remote_svc.spec_is_offline() && r is Ok ==> !final(self).spec_needs_sync(),
            r is Err ==> *final(self) == *old(self),
    {
        if remote_svc.is_offline() {
            return Ok(());
        }
        match remote_svc.get_list_entry(self.entry.id) {
            Ok(Some(entry)) => {
                *self = Self::from_entry(entry);
                Ok(())
            },
            Ok(None) => {
                *self = Self::from_id(self.entry.id);
                Ok(())
            },
            Err(e) => Err(e),
        }
    }

    /// Pull from the remote only when there are no local changes: local
    /// changes win until they have been pushed.
    pub fn sync_from_remote<R: RemoteService>(&mut self, remote_svc: &R) -> (r: Result<(), Error>)
        ensures
            old(self).spec_needs_sync() ==> r is Ok && *final(self) == *old(self),
            remote_svc.spec_is_offline() ==> r is Ok && *final(self) == *old(self),
            r is Ok ==> final(self).spec_entry().id == old(self).spec_entry().id,
            r is Ok ==> valid_pull(*old(self), final(self).spec_entry(), remote_svc.spec_is_offline()),
            r is Ok && !(*final(self) == *old(self)) ==> !final(self).spec_needs_sync(),
            r is Err ==> *final(self) == *old(self),
    {
        if self.needs_sync {
            return Ok(());
        }
        self.force_sync_from_remote(remote_svc)
    }
}

/// What a pull can leave behind: the local entry untouched, or — only when
/// the entry was clean and the service online — some entry for the same
/// series as the remote reported it.
pub open spec fn valid_pull(before: SeriesEntry, mid: remote::SeriesEntry, offline: bool) -> bool {
    ||| mid == before.spec_entry()
    ||| (!before.spec_needs_sync() && !offline && mid.id == before.spec_entry().id)
}

/// A path with no leading slash is relative to the library root.
pub open spec fn is_relative(p: Seq<char>) -> bool {
    !(p.len() > 0 && p[0] == '/')
}

/// The directory as a prefix: with exactly one trailing slash.
pub open spec fn dir_prefix(dir: Seq<char>) -> Seq<char> {
    if dir.len() > 0 && dir.last() == '/' {
        dir
    } else {
        dir.push('/')
    }
}

/// A relative path is resolved against the library root; an absolute path
/// stands alone.
pub open spec fn full_path_spec(p: Seq<char>, dir: Seq<char>) -> Seq<char> {
    if is_relative(p) {
        dir_prefix(dir) + p
    } else {
        p
    }
}

/// A path under the library root is stored relative to it. A remainder that
/// would itself start with a slash (a doubled separator) is left alone, so
/// the stored path never flips from relative to absolute.
pub open spec fn stripped_path_spec(p: Seq<char>, dir: Seq<char>) -> Seq<char> {
    let pre = dir_prefix(dir);
    if p.len() > pre.len() && p.subrange(0, pre.len() as int) == pre && p[pre.len() as int]
        != '/' {
        p.subrange(pre.len() as int, p.len() as int)
    } else {
        p
    }
}

/// The plain value of a series binding.
pub struct SeriesConfigView {
    pub id: remote::SeriesID,
    pub nickname: Seq<char>,
    pub path: Seq<char>,
    pub episode_matcher: Option<Seq<char>>,
    pub player_args: Seq<Seq<char>>,
}

/// The user-facing binding of a catalog entry to a directory on disk.
#[derive(Debug)]
pub struct SeriesConfig {
    pub id: remote::SeriesID,
    pub nickname: String,
    /// Stored relative to the library root when the directory lies beneath
    /// it; use `full_path` to resolve it and `set_path` to change it.
    pub path: String,
    pub episode_matcher: crate::parser::EpisodeMatcher,
    pub player_args: Vec<String>,
}

impl View for SeriesConfig {
    type V = SeriesConfigView;

    open spec fn view(&self) -> SeriesConfigView {
        SeriesConfigView {
            id: self.id,
            nickname: self.nickname@,
            path: self.path@,
            episode_matcher: self.episode_matcher.spec_pattern(),
            player_args: self.player_args@.map_values(|s: String| s@),
        }
    }
}

impl SeriesConfig {
    /// Bind a catalog id to a directory under a nickname; the path is stored
    /// relative to the library root when it lies beneath it.
    pub fn new(
        id: remote::SeriesID,
        nickname: String,
        path: String,
        episode_matcher: crate::parser::EpisodeMatcher,
        config: &Config,
    ) -> (r: Self)
        ensures
            r@ == (SeriesConfigView {
                id,
                nickname: nickname@,
                path: stripped_path_spec(path@, config.series_dir@),
                episode_matcher: episode_matcher.spec_pattern(),
                player_args: Seq::empty(),
            }),
            r.episode_matcher == episode_matcher,
    {
        let stored = Self::stripped_path(path, config);
        let r = SeriesConfig {
            id,
            nickname,
            path: stored,
            episode_matcher,
            player_args: Vec::new(),
        };
        proof {
            assert(r.player_args@.map_values(|s: String| s@) =~= Seq::<Seq<char>>::empty());
        }
        r
    }

    /// The absolute path of the series directory.
    pub fn full_path(&self, config: &Config) -> (r: String)
        ensures
            r@ == full_path_spec(self@.path, config.series_dir@),
    {
        let pchars = crate::text::str_to_chars(self.path.as_str());
        if pchars.len() > 0 && pchars[0] == '/' {
            crate::text::clone_string(&self.path)
        } else {
            let mut out = crate::text::str_to_chars(config.series_dir.as_str());
            if !(out.len() > 0 && out[out.len() - 1] == '/') {
                out.push('/');
            }
            proof {
                assert(out@ == dir_prefix(config.series_dir@));
            }
            out.extend_from_slice(pchars.as_slice());
            crate::text::chars_to_string(&out)
        }
    }

    /// Store a new directory path, relative to the library root when
    /// possible.
    pub fn set_path(&mut self, path: String, config: &Config)
        ensures
            final(self)@ == (SeriesConfigView {
                path: stripped_path_spec(path@, config.series_dir@),
                ..old(self)@
            }),
    {
        self.path = Self::stripped_path(path, config);
    }

    fn stripped_path(path: String, config: &Config) -> (r: String)
        ensures
            r@ == stripped_path_spec(path@, config.series_dir@),
    {
        let pre = {
            let mut pre = crate::text::str_to_chars(config.series_dir.as_str());
            if !(pre.len() > 0 && pre[pre.len() - 1] == '/') {
                pre.push('/');
            }
            pre
        };
        proof {
            assert(pre@ == dir_prefix(config.series_dir@));
        }
        let pchars = crate::text::str_to_chars(path.as_str());
        if pchars.len() <= pre.len() {
            return path;
        }
        let mut i: usize = 0;
        while i < pre.len()
            invariant
                pre@.len() < pchars@.len(),
                pchars@ == path@,
                pre@ == dir_prefix(config.series_dir@),
                i <= pre@.len(),
                forall|m: int| 0 <= m < i ==> pchars@[m] == pre@[m],
            decreases pre@.len() - i,
        {
            if pchars[i] != pre[i] {
                proof {
                    assert(pchars@.subrange(0, pre@.len() as int)[i as int] != pre@[i as int]);
                }
                return path;
            }
            i = i + 1;
        }
        proof {
            assert(pchars@.subrange(0, pre@.len() as int) =~= pre@);
        }
        if pchars[pre.len()] == '/' {
            return path;
        }
        let mut out: Vec<char> = Vec::new();
        let mut j: usize = pre.len();
        while j < pchars.len()
            invariant
                pre@.len() <= j <= pchars@.len(),
                out@ == pchars@.subrange(pre@.len() as int, j as int),
            decreases pchars@.len() - j,
        {
            out.push(pchars[j]);
            proof {
                assert(pchars@.subrange(pre@.len() as int, j + 1) =~= pchars@.subrange(
                    pre@.len() as int,
                    j as int,
                ).push(pchars@[j as int]));
            }
            j = j + 1;
        }
        crate::text::chars_to_string(&out)
    }

    /// A copy with the same binding.
    pub fn duplicate(&self) -> (r: Self)
        ensures
            r@ == self@,
    {
        let mut player_args: Vec<String> = Vec::new();
        let mut i: usize = 0;
        while i < self.player_args.len()
            invariant
                i <= self.player_args@.len(),
                player_args@.map_values(|s: String| s@) == self.player_args@.subrange(
                    0,
                    i as int,
                ).map_values(|s: String| s@),
            decreases self.player_args@.len() - i,
        {
            player_args.push(crate::text::clone_string(&self.player_args[i]));
            proof {
                assert(self.player_args@.subrange(0, i + 1).map_values(|s: String| s@)
                    =~= self.player_args@.subrange(0, i as int).map_values(|s: String| s@).push(
                    self.player_args@[i as int]@,
                ));
            }
            i = i + 1;
        }
        proof {
            assert(self.player_args@.subrange(0, self.player_args@.len() as int)
                =~= self.player_args@);
        }
        SeriesConfig {
            id: self.id,
            nickname: crate::text::clone_string(&self.nickname),
            path: crate::text::clone_string(&self.path),
            episode_matcher: self.episode_matcher.duplicate(),
            player_args,
        }
    }
}

/// The nickname of the series watched most recently.
pub struct LastWatched(Option<String>);

impl LastWatched {
    /// The stored nickname, if any.
    pub closed spec fn spec_nickname(self) -> Option<Seq<char>> {
        match self.0 {
            Some(s) => Some(s@),
            None => None,
        }
    }

    /// Wrap what was read from storage; an absent or empty record is `None`.
    pub fn new(initial: Option<String>) -> (r: Self)
        ensures
            r.spec_nickname() == (match initial {
                Some(s) => if s@.len() == 0 {
                    None
                } else {
                    Some(s@)
                },
                None => None::<Seq<char>>,
            }),
    {
        match initial {
            Some(s) => if s.as_str().is_empty() {
                LastWatched(None)
            } else {
                LastWatched(Some(s))
            },
            None => LastWatched(None),
        }
    }

    pub fn get(&self) -> (r: &Option<String>)
        ensures
            match r {
                Some(s) => self.spec_nickname() == Some(s@),
                None => self.spec_nickname() is None,
            },
    {
        &self.0
    }

    /// Remember a nickname; reports whether it differs from the stored one
    /// (only then does the caller need to write it back).
    pub fn set(&mut self, nickname: &String) -> (r: bool)
        ensures
            r == !(old(self).spec_nickname() == Some(nickname@)),
            r ==> final(self).spec_nickname() == Some(nickname@),
            !r ==> *final(self) == *old(self),
    {
        let is_different = match &self.0 {
            Some(existing) => !existing.eq(nickname),
            None => true,
        };
        if is_different {
            self.0 = Some(crate::text::clone_string(nickname));
        }
        is_different
    }
}

/// The rewatch count after one more finished rewatch, wrapping at the top.
pub open spec fn bump_times(t: u32) -> u32 {
    if t == u32::MAX {
        0
    } else {
        (t + 1) as u32
    }
}

/// Whether `begin_watching`'s transition changes the entry at all.
pub open spec fn begin_mutates(e: remote::SeriesEntry, episodes: u32) -> bool {
    match e.status {
        Status::Watching | Status::Rewatching => episodes > 0 && e.watched_eps >= episodes,
        _ => true,
    }
}

/// The transition `begin_watching` drives, applied to the entry state after
/// the pull: an exhausted watch becomes a rewatch, a completed series starts
/// a rewatch, a planned or held series starts watching, a dropped series
/// restarts from zero.
pub open spec fn begin_transition(
    e: remote::SeriesEntry,
    episodes: u32,
    reset_dates: bool,
    today: Date,
) -> remote::SeriesEntry {
    match e.status {
        Status::Watching | Status::Rewatching => if episodes > 0 && e.watched_eps >= episodes {
            let stepped = remote::SeriesEntry {
                watched_eps: 0,
                ..set_status_spec(e, Status::Rewatching, reset_dates, today)
            };
            if e.status == Status::Rewatching {
                remote::SeriesEntry { times_rewatched: bump_times(stepped.times_rewatched), ..stepped }
            } else {
                stepped
            }
        } else {
            e
        },
        Status::Completed => remote::SeriesEntry {
            watched_eps: 0,
            ..set_status_spec(e, Status::Rewatching, reset_dates, today)
        },
        Status::PlanToWatch | Status::OnHold => set_status_spec(
            e,
            Status::Watching,
            reset_dates,
            today,
        ),
        Status::Dropped => remote::SeriesEntry {
            watched_eps: 0,
            ..set_status_spec(e, Status::Watching, reset_dates, today)
        },
    }
}

/// The transition `series_complete` drives: a rewatch that ends counts once
/// more, then the series is completed.
pub open spec fn series_complete_spec(
    e: remote::SeriesEntry,
    reset_dates: bool,
    today: Date,
) -> remote::SeriesEntry {
    let stepped = if e.status == Status::Rewatching {
        remote::SeriesEntry { times_rewatched: bump_times(e.times_rewatched), ..e }
    } else {
        e
    };
    set_status_spec(stepped, Status::Completed, reset_dates, today)
}

/// The transition `episode_completed` drives: one more episode, completing
/// the series when the last episode is reached; an unknown episode count
/// never completes.
pub open spec fn completed_transition(
    e: remote::SeriesEntry,
    episodes: u32,
    reset_dates: bool,
    today: Date,
) -> remote::SeriesEntry {
    let new_progress = (e.watched_eps + 1) as u32;
    if episodes == 0 || new_progress < episodes {
        remote::SeriesEntry { watched_eps: new_progress, ..e }
    } else if new_progress == episodes {
        series_complete_spec(
            remote::SeriesEntry { watched_eps: new_progress, ..e },
            reset_dates,
            today,
        )
    } else {
        series_complete_spec(e, reset_dates, today)
    }
}

/// The transition `episode_regressed` drives: one episode back (never below
/// zero), staying in a rewatch when one is under way.
pub open spec fn regressed_transition(
    e: remote::SeriesEntry,
    reset_dates: bool,
    today: Date,
) -> remote::SeriesEntry {
    let stepped = remote::SeriesEntry {
        watched_eps: if e.watched_eps > 0 {
            (e.watched_eps - 1) as u32
        } else {
            0
        },
        ..e
    };
    let next_status = if e.status == Status::Rewatching || (e.status == Status::Completed
        && e.times_rewatched > 0) {
        Status::Rewatching
    } else {
        Status::Watching
    };
    set_status_spec(stepped, next_status, reset_dates, today)
}

/// The wall-clock instant (in milliseconds) from which an episode counts as
/// watched, saturating at the top of the clock.
pub open spec fn watch_gate_spec(now_millis: u64, episode_length: u32, pcnt: u8) -> u64 {
    let delta = episode_length * 60000 * pcnt / 100;
    if now_millis + delta > u64::MAX {
        u64::MAX
    } else {
        (now_millis + delta) as u64
    }
}

/// One local series: its catalog facts, tracking record, binding and the
/// episodes found on disk.
#[derive(Debug)]
pub struct Series {
    pub info: remote::SeriesInfo,
    pub entry: SeriesEntry,
    pub config: SeriesConfig,
    pub episodes: crate::episodes::EpisodeMap,
}

impl Series {
    /// The bound the session transitions keep: the watched count never
    /// passes a known episode count.
    pub open spec fn watched_in_bounds(self) -> bool {
        self.info.episodes > 0 ==> self.entry.spec_entry().watched_eps <= self.info.episodes
    }

    /// Whether the repository will accept this series' records: the three
    /// ids agree and the nickname does not already name a different series.
    pub open spec fn save_accepted_by(self, db: crate::repository::Repository) -> bool {
        &&& self.config@.id == self.info@.id
        &&& self.entry.spec_entry().id == self.config@.id
        &&& match crate::repository::find_nick(db.spec_rows(), self.config@.nickname, 0) {
            Some(i) => db.spec_rows()[i].config@.id == self.config@.id,
            None => true,
        }
    }

    /// Persist the series' three records.
    pub fn save(&self, db: &mut crate::repository::Repository) -> (r: Result<(), Error>)
        requires
            old(db).wf(),
        ensures
            final(db).wf(),
            r is Ok ==> {
                &&& crate::repository::find_nick(final(db).spec_rows(), self.config@.nickname, 0)
                    matches Some(i) && final(db).spec_rows()[i].config@ == self.config@
                    && final(db).spec_rows()[i].info@ == self.info@
                    && final(db).spec_rows()[i].entry == self.entry
            },
            r is Err ==> *final(db) == *old(db),
            r matches Err(e) ==> e is DatabaseConstraint,
            self.save_accepted_by(*old(db)) ==> r is Ok,
    {
        db.save(&self.config, &self.info, &self.entry)
    }

    /// The absolute path of an episode's file, if it is on disk.
    pub fn episode_path(&self, episode: u32, config: &Config) -> (r: Option<String>)
        ensures
            match r {
                Some(p) => exists|i: int|
                    0 <= i < self.episodes.spec_eps().len() && #[trigger] self.episodes.spec_eps()[i]
                        == (episode, episode_file_of(p@, self.config@.path, config.series_dir@)),
                None => !self.episodes.spec_contains(episode),
            },
    {
        match self.episodes.get(episode) {
            Some(filename) => {
                let dir = self.config.full_path(config);
                let mut chars = crate::text::str_to_chars(dir.as_str());
                chars.push('/');
                let fchars = crate::text::str_to_chars(filename.as_str());
                chars.extend_from_slice(fchars.as_slice());
                let joined = crate::text::chars_to_string(&chars);
                proof {
                    assert(joined@.subrange(
                        full_path_spec(self.config@.path, config.series_dir@).len() as int + 1,
                        joined@.len() as int,
                    ) =~= filename@);
                }
                Some(joined)
            },
            None => None,
        }
    }

    /// Start a watching session: reconcile with the remote, drive the status
    /// transition, push the result and persist it.
    pub fn begin_watching<R: RemoteService>(
        &mut self,
        remote_svc: &R,
        config: &Config,
        db: &mut crate::repository::Repository,
        today: Date,
    ) -> (r: Result<(), Error>)
        requires
            today.is_valid(),
            old(db).wf(),
        ensures
            final(db).wf(),
            final(self).info == old(self).info,
            final(self).config == old(self).config,
            final(self).episodes == old(self).episodes,
            r is Ok ==> exists|mid: remote::SeriesEntry|
                {
                    &&& #[trigger] valid_pull(old(self).entry, mid, remote_svc.spec_is_offline())
                    &&& final(self).entry.spec_entry() == begin_transition(
                        mid,
                        old(self).info.episodes,
                        config.reset_dates_on_rewatch,
                        today,
                    )
                },
            r is Ok ==> (final(self).entry.spec_entry().status == Status::Watching
                || final(self).entry.spec_entry().status == Status::Rewatching),
            r is Ok && remote_svc.spec_is_offline() ==> final(self).entry.spec_needs_sync()
                == (old(self).entry.spec_needs_sync() || begin_mutates(
                old(self).entry.spec_entry(),
                old(self).info.episodes,
            )),
            r is Ok && !remote_svc.spec_is_offline() ==> !final(self).entry.spec_needs_sync(),
            // on failure the entry is either untouched (the pull failed) or
            // holds the transition, journaled for a later push
            r is Err ==> final(self).entry == old(self).entry || exists|mid: remote::SeriesEntry|
                {
                    &&& #[trigger] valid_pull(old(self).entry, mid, remote_svc.spec_is_offline())
                    &&& final(self).entry.spec_entry() == begin_transition(
                        mid,
                        old(self).info.episodes,
                        config.reset_dates_on_rewatch,
                        today,
                    )
                },
            // offline, nothing outside decides: success is owed when the
            // repository accepts the records
            remote_svc.spec_is_offline() && old(self).save_accepted_by(*old(db)) ==> r is Ok,
            // on success the repository holds the final records
            r is Ok ==> {
                &&& crate::repository::find_nick(
                    final(db).spec_rows(),
                    old(self).config@.nickname,
                    0,
                ) matches Some(i) && final(db).spec_rows()[i].config@ == old(self).config@
                    && final(db).spec_rows()[i].info@ == old(self).info@
                    && final(db).spec_rows()[i].entry == final(self).entry
            },
    {
        proof {
            assert(old(self).save_accepted_by(*old(db)) ==> old(self).entry.spec_entry().id == old(
                self,
            ).config@.id);
        }
        match self.entry.sync_from_remote(remote_svc) {
            Ok(()) => {},
            Err(e) => {
                return Err(e);
            },
        }
        let ghost mid = self.entry.spec_entry();
        let last_status = self.entry.status();
        match last_status {
            Status::Watching | Status::Rewatching => {
                if self.info.episodes > 0 && self.entry.watched_eps() >= self.info.episodes {
                    self.entry.set_status(Status::Rewatching, config, today);
                    self.entry.set_watched_eps(0);
                    if last_status == Status::Rewatching {
                        let times = self.entry.times_rewatched();
                        self.entry.set_times_rewatched(
                            if times == u32::MAX {
                                0
                            } else {
                                times + 1
                            },
                        );
                    }
                }
            },
            Status::Completed => {
                self.entry.set_status(Status::Rewatching, config, today);
                self.entry.set_watched_eps(0);
            },
            Status::PlanToWatch | Status::OnHold => {
                self.entry.set_status(Status::Watching, config, today);
            },
            Status::Dropped => {
                self.entry.set_status(Status::Watching, config, today);
                self.entry.set_watched_eps(0);
            },
        }
        proof {
            assert(self.entry.spec_entry() == begin_transition(
                mid,
                self.info.episodes,
                config.reset_dates_on_rewatch,
                today,
            ));
            assert(self.entry.spec_entry().id == mid.id);
        }
        match self.entry.sync_to_remote(remote_svc) {
            Ok(()) => {},
            Err(e) => {
                return Err(e);
            },
        }
        self.save(db)
    }

    /// One more episode has been watched; completing the last episode
    /// completes the series.
    pub fn episode_completed<R: RemoteService>(
        &mut self,
        remote_svc: &R,
        config: &Config,
        db: &mut crate::repository::Repository,
        today: Date,
    ) -> (r: Result<(), Error>)
        requires
            today.is_valid(),
            old(self).entry.spec_entry().watched_eps < u32::MAX,
            // the rewatch counter is only ever bumped when the final episode
            // is reached, so only then does its bound matter
            old(self).info.episodes > 0 && old(self).entry.spec_entry().watched_eps + 1 >= old(
                self,
            ).info.episodes ==> old(self).entry.spec_entry().times_rewatched < u32::MAX,
            old(db).wf(),
        ensures
            final(db).wf(),
            final(self).info == old(self).info,
            final(self).config == old(self).config,
            final(self).episodes == old(self).episodes,
            // the transition is applied whether or not the sync or the save
            // succeeds afterwards: a failed push leaves the change journaled
            final(self).entry.spec_entry() == completed_transition(
                old(self).entry.spec_entry(),
                old(self).info.episodes,
                config.reset_dates_on_rewatch,
                today,
            ),
            remote_svc.spec_is_offline() ==> final(self).entry.spec_needs_sync(),
            r is Ok ==> final(self).entry.spec_needs_sync() == remote_svc.spec_is_offline(),
            old(self).watched_in_bounds() ==> final(self).watched_in_bounds(),
            // offline, nothing outside decides: success is owed when the
            // repository accepts the records
            remote_svc.spec_is_offline() && old(self).save_accepted_by(*old(db)) ==> r is Ok,
            // on success the repository holds the final records
            r is Ok ==> {
                &&& crate::repository::find_nick(
                    final(db).spec_rows(),
                    old(self).config@.nickname,
                    0,
                ) matches Some(i) && final(db).spec_rows()[i].config@ == old(self).config@
                    && final(db).spec_rows()[i].info@ == old(self).info@
                    && final(db).spec_rows()[i].entry == final(self).entry
            },
    {
        let new_progress = self.entry.watched_eps() + 1;
        if self.info.episodes == 0 || new_progress < self.info.episodes {
            self.entry.set_watched_eps(new_progress);
        } else if new_progress == self.info.episodes {
            self.entry.set_watched_eps(new_progress);
            self.complete_in_place(config, today);
        } else {
            self.complete_in_place(config, today);
        }
        proof {
            if old(self).watched_in_bounds() {
                lemma_watched_in_bounds(
                    old(self).entry.spec_entry(),
                    self.info.episodes,
                    config.reset_dates_on_rewatch,
                    today,
                );
            }
        }
        match self.entry.sync_to_remote(remote_svc) {
            Ok(()) => {},
            Err(e) => {
                return Err(e);
            },
        }
        self.save(db)
    }

    /// One episode has been unwatched; the count never goes below zero, and
    /// a rewatch under way stays a rewatch.
    pub fn episode_regressed<R: RemoteService>(
        &mut self,
        remote_svc: &R,
        config: &Config,
        db: &mut crate::repository::Repository,
        today: Date,
    ) -> (r: Result<(), Error>)
        requires
            today.is_valid(),
            old(db).wf(),
        ensures
            final(db).wf(),
            final(self).info == old(self).info,
            final(self).config == old(self).config,
            final(self).episodes == old(self).episodes,
            // the transition is applied whether or not the sync or the save
            // succeeds afterwards: a failed push leaves the change journaled
            final(self).entry.spec_entry() == regressed_transition(
                old(self).entry.spec_entry(),
                config.reset_dates_on_rewatch,
                today,
            ),
            remote_svc.spec_is_offline() ==> final(self).entry.spec_needs_sync(),
            r is Ok ==> final(self).entry.spec_needs_sync() == remote_svc.spec_is_offline(),
            old(self).watched_in_bounds() ==> final(self).watched_in_bounds(),
            // offline, nothing outside decides: success is owed when the
            // repository accepts the records
            remote_svc.spec_is_offline() && old(self).save_accepted_by(*old(db)) ==> r is Ok,
            // on success the repository holds the final records
            r is Ok ==> {
                &&& crate::repository::find_nick(
                    final(db).spec_rows(),
                    old(self).config@.nickname,
                    0,
                ) matches Some(i) && final(db).spec_rows()[i].config@ == old(self).config@
                    && final(db).spec_rows()[i].info@ == old(self).info@
                    && final(db).spec_rows()[i].entry == final(self).entry
            },
    {
        let watched = self.entry.watched_eps();
        self.entry.set_watched_eps(if watched > 0 { watched - 1 } else { 0 });
        let new_status = if self.entry.status() == Status::Rewatching || (self.entry.status()
            == Status::Completed && self.entry.times_rewatched() > 0) {
            Status::Rewatching
        } else {
            Status::Watching
        };
        self.entry.set_status(new_status, config, today);
        match self.entry.sync_to_remote(remote_svc) {
            Ok(()) => {},
            Err(e) => {
                return Err(e);
            },
        }
        self.save(db)
    }

    /// The series has been watched to the end: count a finished rewatch and
    /// mark the series completed.
    pub fn series_complete<R: RemoteService>(
        &mut self,
        remote_svc: &R,
        config: &Config,
        db: &mut crate::repository::Repository,
        today: Date,
    ) -> (r: Result<(), Error>)
        requires
            today.is_valid(),
            // only a finishing rewatch bumps the counter
            old(self).entry.spec_entry().status == Status::Rewatching ==> old(
                self,
            ).entry.spec_entry().times_rewatched < u32::MAX,
            old(db).wf(),
        ensures
            final(db).wf(),
            final(self).info == old(self).info,
            final(self).config == old(self).config,
            final(self).episodes == old(self).episodes,
            // the transition is applied whether or not the sync or the save
            // succeeds afterwards: a failed push leaves the change journaled
            final(self).entry.spec_entry() == series_complete_spec(
                old(self).entry.spec_entry(),
                config.reset_dates_on_rewatch,
                today,
            ),
            remote_svc.spec_is_offline() ==> final(self).entry.spec_needs_sync(),
            r is Ok ==> final(self).entry.spec_needs_sync() == remote_svc.spec_is_offline(),
            // offline, nothing outside decides: success is owed when the
            // repository accepts the records
            remote_svc.spec_is_offline() && old(self).save_accepted_by(*old(db)) ==> r is Ok,
            // on success the repository holds the final records
            r is Ok ==> {
                &&& crate::repository::find_nick(
                    final(db).spec_rows(),
                    old(self).config@.nickname,
                    0,
                ) matches Some(i) && final(db).spec_rows()[i].config@ == old(self).config@
                    && final(db).spec_rows()[i].info@ == old(self).info@
                    && final(db).spec_rows()[i].entry == final(self).entry
            },
    {
        self.complete_in_place(config, today);
        match self.entry.sync_to_remote(remote_svc) {
            Ok(()) => {},
            Err(e) => {
                return Err(e);
            },
        }
        self.save(db)
    }

    /// The pure part of completing a series, without sync or persistence.
    fn complete_in_place(&mut self, config: &Config, today: Date)
        requires
            today.is_valid(),
            old(self).entry.spec_entry().status == Status::Rewatching ==> old(
                self,
            ).entry.spec_entry().times_rewatched < u32::MAX,
        ensures
            final(self).entry.spec_entry() == series_complete_spec(
                old(self).entry.spec_entry(),
                config.reset_dates_on_rewatch,
                today,
            ),
            final(self).entry.spec_needs_sync(),
            final(self).info == old(self).info,
            final(self).config == old(self).config,
            final(self).episodes == old(self).episodes,
    {
        if self.entry.status() == Status::Rewatching {
            let times = self.entry.times_rewatched();
            self.entry.set_times_rewatched(times + 1);
        }
        self.entry.set_status(Status::Completed, config, today);
    }

    /// The wall-clock instant from which the current episode counts as
    /// watched: the session start plus the configured share of the episode
    /// length.
    pub fn next_watch_progress_time(&self, config: &Config, now_millis: u64) -> (r: u64)
        ensures
            r == watch_gate_spec(
                now_millis,
                self.info.episode_length,
                config.episode.pcnt_must_watch.spec_percent(),
            ),
    {
        let pcnt = config.episode.pcnt_must_watch.as_percent();
        let len64: u64 = self.info.episode_length as u64;
        let pcnt64: u64 = pcnt as u64;
        proof {
            assert(len64 * 60000 <= 257698037700000) by (nonlinear_arith)
                requires
                    len64 <= 4294967295,
            ;
            assert(len64 * 60000 * pcnt64 <= 25769803770000000) by (nonlinear_arith)
                requires
                    len64 * 60000 <= 257698037700000,
                    pcnt64 <= 100,
            ;
        }
        let delta: u64 = len64 * 60000 * pcnt64 / 100;
        if now_millis > u64::MAX - delta {
            u64::MAX
        } else {
            now_millis + delta
        }
    }

    /// Whether unwatched episodes remain, as far as the catalog knows.
    pub fn has_unwatched_episodes(&self) -> (r: bool)
        ensures
            r == (self.info.episodes > 0 && self.info.episodes
                > self.entry.spec_entry().watched_eps),
    {
        self.info.episodes > 0 && self.info.episodes > self.entry.watched_eps()
    }
}

/// When a rewatch completes, the rewatch count rises by exactly one.
pub proof fn lemma_rewatch_completion_counts(e: remote::SeriesEntry, reset_dates: bool, today: Date)
    requires
        e.status == Status::Rewatching,
        e.times_rewatched < u32::MAX,
    ensures
        series_complete_spec(e, reset_dates, today).times_rewatched == e.times_rewatched + 1,
        series_complete_spec(e, reset_dates, today).status == Status::Completed,
{
}

/// Completing the final episode completes the series, with the end date set
/// to today when it was not already set.
pub proof fn lemma_complete_final_episode(
    e: remote::SeriesEntry,
    episodes: u32,
    reset_dates: bool,
    today: Date,
)
    requires
        episodes > 0,
        e.watched_eps + 1 == episodes,
    ensures
        completed_transition(e, episodes, reset_dates, today).status == Status::Completed,
        completed_transition(e, episodes, reset_dates, today).watched_eps == episodes,
        e.end_date is None ==> completed_transition(e, episodes, reset_dates, today).end_date
            == Some(today),
{
}

/// Regressing at zero watched episodes stays at zero.
pub proof fn lemma_regress_at_zero(e: remote::SeriesEntry, reset_dates: bool, today: Date)
    requires
        e.watched_eps == 0,
    ensures
        regressed_transition(e, reset_dates, today).watched_eps == 0,
{
}

/// The session transitions keep the watched count within a known episode
/// count.
pub proof fn lemma_watched_in_bounds(
    e: remote::SeriesEntry,
    episodes: u32,
    reset_dates: bool,
    today: Date,
)
    requires
        episodes > 0 ==> e.watched_eps <= episodes,
        e.watched_eps < u32::MAX,
    ensures
        episodes > 0 ==> completed_transition(e, episodes, reset_dates, today).watched_eps
            <= episodes,
        episodes > 0 ==> regressed_transition(e, reset_dates, today).watched_eps <= episodes,
        episodes > 0 ==> begin_transition(e, episodes, reset_dates, today).watched_eps <= episodes,
{
}

/// The file an episode path resolves to: the part after the series
/// directory.
pub open spec fn episode_file_of(joined: Seq<char>, path: Seq<char>, series_dir: Seq<char>) -> Seq<
    char,
> {
    joined.subrange(full_path_spec(path, series_dir).len() as int + 1, joined.len() as int)
}

/// Where the base name of a path starts: after the last slash.
pub open spec fn base_start(p: Seq<char>, from: int) -> int
    decreases from,
{
    if 0 < from <= p.len() && p[from - 1] != '/' {
        base_start(p, from - 1)
    } else {
        from
    }
}

/// The base name of a path: everything after the last slash.
fn base_name(p: &str) -> (r: String)
    ensures
        r@ == p@.subrange(base_start(p@, p@.len() as int), p@.len() as int),
{
    let chars = crate::text::str_to_chars(p);
    let mut k: usize = chars.len();
    while k > 0 && chars[k - 1] != '/'
        invariant
            k <= chars@.len(),
            chars@ == p@,
            base_start(p@, p@.len() as int) == base_start(p@, k as int),
        decreases k,
    {
        k = k - 1;
    }
    let mut out: Vec<char> = Vec::new();
    let mut i: usize = k;
    while i < chars.len()
        invariant
            k <= i <= chars@.len(),
            chars@ == p@,
            out@ == p@.subrange(k as int, i as int),
        decreases chars@.len() - i,
    {
        out.push(chars[i]);
        proof {
            assert(p@.subrange(k as int, i + 1) =~= p@.subrange(k as int, i as int).push(
                p@[i as int],
            ));
        }
        i = i + 1;
    }
    crate::text::chars_to_string(&out)
}

/// User-supplied parameters for adding a series: a catalog id, a directory
/// and a custom matcher pattern, each optional.
#[derive(Debug)]
pub struct SeriesParameters {
    pub id: Option<u32>,
    pub path: Option<String>,
    pub matcher: Option<String>,
}

/// The name/value pairs as plain values.
pub open spec fn pairs_view(pairs: Seq<(String, String)>) -> Seq<(Seq<char>, Seq<char>)> {
    pairs.map_values(|p: (String, String)| (p.0@, p.1@))
}

/// One name/value pair applied to the parameters gathered so far; `None`
/// is a numeric value that does not parse.
pub open spec fn params_step(
    cur: (Option<u32>, Option<Seq<char>>, Option<Seq<char>>),
    name: Seq<char>,
    value: Seq<char>,
) -> Option<(Option<u32>, Option<Seq<char>>, Option<Seq<char>>)> {
    let ln = crate::text::lower_seq(name);
    if ln == "id"@ {
        match crate::score::parse_u32_spec(value) {
            Some(v) => Some((Some(v), cur.1, cur.2)),
            None => None,
        }
    } else if ln == "path"@ {
        Some((cur.0, Some(value), cur.2))
    } else if ln == "matcher"@ {
        Some((cur.0, cur.1, Some(value)))
    } else {
        Some(cur)
    }
}

/// The first `n` pairs folded over empty parameters, later pairs winning.
pub open spec fn params_fold(pairs: Seq<(Seq<char>, Seq<char>)>, n: int) -> Option<
    (Option<u32>, Option<Seq<char>>, Option<Seq<char>>),
>
    decreases n,
{
    if n <= 0 {
        Some((None, None, None))
    } else {
        match params_fold(pairs, n - 1) {
            None => None,
            Some(cur) => params_step(cur, pairs[n - 1].0, pairs[n - 1].1),
        }
    }
}

impl SeriesParameters {
    /// The parameters as plain values.
    pub open spec fn spec_params(self) -> (Option<u32>, Option<Seq<char>>, Option<Seq<char>>) {
        (
            self.id,
            match self.path {
                Some(p) => Some(p@),
                None => None,
            },
            match self.matcher {
                Some(m) => Some(m@),
                None => None,
            },
        )
    }

    /// Gather parameters from name/value pairs. Names are matched without
    /// regard to ASCII case, unknown names are ignored, later pairs win, and
    /// a malformed id fails the whole list.
    pub fn from_name_value_pairs(pairs: &Vec<(String, String)>) -> (r: Result<
        SeriesParameters,
        Error,
    >)
        ensures
            r matches Ok(p) ==> params_fold(pairs_view(pairs@), pairs@.len() as int) == Some(
                p.spec_params(),
            ),
            r is Ok <==> params_fold(pairs_view(pairs@), pairs@.len() as int) is Some,
            r matches Err(e) ==> e is ParseNum,
    {
        let id_name = crate::text::str_to_chars("id");
        let path_name = crate::text::str_to_chars("path");
        let matcher_name = crate::text::str_to_chars("matcher");
        let mut params = SeriesParameters { id: None, path: None, matcher: None };
        let mut i: usize = 0;
        while i < pairs.len()
            invariant
                i <= pairs@.len(),
                id_name@ == "id"@,
                path_name@ == "path"@,
                matcher_name@ == "matcher"@,
                params_fold(pairs_view(pairs@), i as int) == Some(params.spec_params()),
            decreases pairs@.len() - i,
        {
            let name_chars = crate::text::str_to_chars(pairs[i].0.as_str());
            let lowered = crate::text::lower_chars(&name_chars);
            if crate::text::eq_chars(&lowered, &id_name) {
                match crate::score::parse_u32_str(pairs[i].1.as_str()) {
                    Some(v) => {
                        params.id = Some(v);
                    },
                    None => {
                        proof {
                            assert(params_fold(pairs_view(pairs@), i + 1) is None);
                            lemma_params_fold_none(
                                pairs_view(pairs@),
                                i + 1,
                                pairs@.len() as int,
                            );
                        }
                        return Err(
                            Error::ParseNum { value: crate::text::clone_string(&pairs[i].1) },
                        );
                    },
                }
            } else if crate::text::eq_chars(&lowered, &path_name) {
                params.path = Some(crate::text::clone_string(&pairs[i].1));
            } else if crate::text::eq_chars(&lowered, &matcher_name) {
                params.matcher = Some(crate::text::clone_string(&pairs[i].1));
            }
            i = i + 1;
        }
        Ok(params)
    }
}

/// Once the fold has failed, it stays failed.
proof fn lemma_params_fold_none(pairs: Seq<(Seq<char>, Seq<char>)>, n: int, m: int)
    requires
        n <= m,
        params_fold(pairs, n) is None,
    ensures
        params_fold(pairs, m) is None,
    decreases m - n,
{
    if n < m {
        lemma_params_fold_none(pairs, n, m - 1);
    }
}

impl Default for SeriesParameters {
    /// No id, no path, no custom matcher.
    fn default() -> (r: Self)
        ensures
            r.id is None,
            r.path is None,
            r.matcher is None,
    {
        SeriesParameters { id: None, path: None, matcher: None }
    }
}

/// Whether a matcher value carries the pattern `from_remote` builds for
/// these parameters: the substituted custom pattern, or the built-in
/// matcher when none was given.
pub open spec fn matcher_for_params(
    m: crate::parser::EpisodeMatcher,
    params: SeriesParameters,
) -> bool {
    m.spec_pattern() == (match params.matcher {
        Some(p) => Some(crate::parser::substituted_pattern(p@)),
        None => None::<Seq<char>>,
    })
}

impl Series {
    /// The episode map was built from exactly these files, with this series'
    /// own matcher: it is non-empty, every stored pair comes from a file
    /// whose title is compatible with the single stored title, every file
    /// that parses has its episode number in the map, and the title itself
    /// was parsed from one of the files.
    pub open spec fn episodes_from(self, dir_files: Seq<String>) -> bool {
        let m = self.config.episode_matcher;
        &&& self.episodes.spec_eps().len() > 0
        &&& forall|i: int, j: int|
            0 <= i < j < self.episodes.spec_eps().len() ==> (
            #[trigger] self.episodes.spec_eps()[i]).0 != (
            #[trigger] self.episodes.spec_eps()[j]).0
        &&& forall|i: int|
            0 <= i < self.episodes.spec_eps().len() ==> crate::episodes::file_yields(
                m,
                dir_files,
                dir_files.len() as int,
                (#[trigger] self.episodes.spec_eps()[i]).0,
                self.episodes.spec_eps()[i].1,
                self.episodes.spec_title(),
            )
        &&& forall|fidx: int|
            0 <= fidx < dir_files.len() && #[trigger] crate::parser::parse_spec(
                m,
                dir_files[fidx]@,
            ) is Some ==> crate::episodes::has_key(
                self.episodes.spec_eps(),
                crate::parser::parsed_ep(m, dir_files[fidx]@),
            )
        &&& forall|fidx: int|
            0 <= fidx < dir_files.len() && #[trigger] crate::parser::parse_spec(
                m,
                dir_files[fidx]@,
            ) is Some ==> crate::episodes::titles_compatible(
                crate::parser::parsed_title(m, dir_files[fidx]@),
                self.episodes.spec_title(),
            )
        &&& forall|i: int|
            0 <= i < self.episodes.spec_eps().len() ==> crate::episodes::last_file_wins(
                m,
                dir_files,
                dir_files.len() as int,
                (#[trigger] self.episodes.spec_eps()[i]).0,
                self.episodes.spec_eps()[i].1,
            )
        &&& crate::episodes::some_file_titled(
            m,
            dir_files,
            dir_files.len() as int,
            self.episodes.spec_title(),
        )
    }

    /// Assemble a new series: build the matcher, parse the directory
    /// listing, resolve the catalog entry (by the given id, else by the
    /// directory's base name), fetch the user's list entry and bind it all
    /// under the nickname.
    pub fn from_remote<R: RemoteService>(
        nickname: String,
        params: SeriesParameters,
        config: &Config,
        remote_svc: &R,
        path: String,
        dir_files: &Vec<String>,
    ) -> (r: Result<Series, Error>)
        ensures
            r matches Ok(s) ==> {
                &&& s.config@.nickname == nickname@
                &&& s.config@.id == s.info.id
                &&& s.entry.spec_entry().id == s.info.id
                &&& s.config@.path == stripped_path_spec(path@, config.series_dir@)
                &&& (params.id matches Some(pid) ==> s.info.id == pid)
                &&& (params.matcher is None ==> s.config@.episode_matcher is None)
                &&& (params.matcher matches Some(p) ==> s.config@.episode_matcher == Some(
                    crate::parser::substituted_pattern(p@),
                ))
                &&& s.episodes_from(dir_files@)
            },
            // a custom pattern that lacks a group or does not compile fails
            (params.matcher matches Some(p) && !(crate::parser::contains_sub(
                crate::parser::substituted_pattern(p@),
                "(?P<title>"@,
            ) && crate::parser::contains_sub(
                crate::parser::substituted_pattern(p@),
                "(?P<episode>"@,
            ) && crate::parser::regex_ok(crate::parser::substituted_pattern(p@)))) ==> (r matches Err(
                e,
            ) && (e is MissingEpisodeMatcherGroup || e is Regex)),
            // a directory in which no file parses to an episode fails with
            // NoEpisodes (given a usable pattern)
            ((params.matcher matches Some(p2) ==> (crate::parser::contains_sub(
                crate::parser::substituted_pattern(p2@),
                "(?P<title>"@,
            ) && crate::parser::contains_sub(
                crate::parser::substituted_pattern(p2@),
                "(?P<episode>"@,
            ) && crate::parser::regex_ok(crate::parser::substituted_pattern(p2@)))) && (forall|
                m: crate::parser::EpisodeMatcher,
            |
                #[trigger] matcher_for_params(m, params) ==> forall|fidx: int|
                    0 <= fidx < dir_files@.len() ==> crate::parser::parse_spec(
                        m,
                        #[trigger] dir_files@[fidx]@,
                    ) is None)) ==> (r matches Err(e2) && e2 is NoEpisodes),
    {
        let matcher = match &params.matcher {
            Some(pattern) => match crate::parser::episode_matcher_with_pattern(pattern.as_str()) {
                Ok(m) => m,
                Err(e) => {
                    return Err(e);
                },
            },
            None => crate::parser::EpisodeMatcher::new(),
        };
        proof {
            assert(matcher_for_params(matcher, params));
        }
        let episodes = match crate::episodes::EpisodeMap::parse(path.as_str(), dir_files, &matcher) {
            Ok(m) => m,
            Err(e) => {
                proof {
                    if e is MultipleTitles {
                        let (fi, fj) = choose|fi: int, fj: int|
                            {
                                &&& 0 <= fi < dir_files@.len()
                                &&& 0 <= fj < dir_files@.len()
                                &&& #[trigger] crate::parser::parse_spec(
                                    matcher,
                                    dir_files@[fi]@,
                                ) is Some
                                &&& #[trigger] crate::parser::parse_spec(
                                    matcher,
                                    dir_files@[fj]@,
                                ) is Some
                                &&& !crate::episodes::titles_compatible(
                                    crate::parser::parsed_title(matcher, dir_files@[fi]@),
                                    crate::parser::parsed_title(matcher, dir_files@[fj]@),
                                )
                            };
                        assert(crate::parser::parse_spec(matcher, dir_files@[fi]@) is Some);
                    }
                }
                return Err(e);
            },
        };
        proof {
            // some file parsed, so the all-files-unparseable premise is refuted
            let tfidx = choose|fidx: int|
                0 <= fidx < dir_files@.len() && #[trigger] crate::parser::parse_spec(
                    matcher,
                    dir_files@[fidx]@,
                ) is Some && crate::parser::parsed_title(matcher, dir_files@[fidx]@)
                == episodes.spec_title();
            assert(crate::parser::parse_spec(matcher, dir_files@[tfidx]@) is Some);
        }
        let info = match params.id {
            Some(id) => {
                let selector = crate::resolver::SeriesInfoSelector::ID(id);
                match selector.best_match_from_remote(remote_svc) {
                    Ok(info) => info,
                    Err(e) => {
                        return Err(e);
                    },
                }
            },
            None => {
                let base = base_name(path.as_str());
                let title = crate::resolver::parse_folder_title(base.as_str());
                let selector = crate::resolver::SeriesInfoSelector::Name(title);
                match selector.best_match_from_remote(remote_svc) {
                    Ok(info) => info,
                    Err(e) => {
                        return Err(e);
                    },
                }
            },
        };
        let entry = match SeriesEntry::from_remote(remote_svc, &info) {
            Ok(entry) => entry,
            Err(e) => {
                return Err(e);
            },
        };
        let sconfig = SeriesConfig::new(info.id, nickname, path, matcher, config);
        Ok(Series { info, entry, config: sconfig, episodes })
    }

    /// Load a stored series and parse its directory listing again.
    pub fn load(
        db: &crate::repository::Repository,
        config: &Config,
        nickname: &String,
        dir_files: &Vec<String>,
    ) -> (r: Result<Series, Error>)
        ensures
            r matches Ok(s) ==> {
                &&& crate::repository::find_nick(db.spec_rows(), nickname@, 0) matches Some(i)
                    && db.spec_rows()[i].config@ == s.config@
                    && db.spec_rows()[i].info@ == s.info@
                    && db.spec_rows()[i].entry == s.entry
                &&& s.episodes_from(dir_files@)
            },
            // an unknown nickname is the only failure besides the directory
            r matches Err(e) ==> (match crate::repository::find_nick(
                db.spec_rows(),
                nickname@,
                0,
            ) {
                Some(i) => {
                    let m = db.spec_rows()[i].config.episode_matcher;
                    &&& e is NoEpisodes || e is MultipleTitles
                    &&& (e is NoEpisodes ==> forall|fidx: int|
                        0 <= fidx < dir_files@.len() ==> crate::parser::parse_spec(
                            m,
                            #[trigger] dir_files@[fidx]@,
                        ) is None)
                    &&& (e is MultipleTitles ==> crate::episodes::incompatible_pair(
                        m,
                        dir_files@,
                    ))
                },
                None => e is NoMatchingSeries,
            }),
            // success is owed when the series is known and its directory is
            // consistent: some file parses and all parsed titles agree
            (match crate::repository::find_nick(db.spec_rows(), nickname@, 0) {
                Some(i) => {
                    let m = db.spec_rows()[i].config.episode_matcher;
                    &&& exists|fidx: int|
                        0 <= fidx < dir_files@.len() && #[trigger] crate::parser::parse_spec(
                            m,
                            dir_files@[fidx]@,
                        ) is Some
                    &&& forall|fa: int, fb: int|
                        0 <= fa < dir_files@.len() && 0 <= fb < dir_files@.len()
                            && #[trigger] crate::parser::parse_spec(m, dir_files@[fa]@) is Some
                            && #[trigger] crate::parser::parse_spec(m, dir_files@[fb]@) is Some
                            ==> crate::episodes::titles_compatible(
                            crate::parser::parsed_title(m, dir_files@[fa]@),
                            crate::parser::parsed_title(m, dir_files@[fb]@),
                        )
                },
                None => false,
            }) ==> r is Ok,
    {
        match db.load(nickname) {
            None => Err(Error::NoMatchingSeries { name: crate::text::clone_string(nickname) }),
            Some(stored) => {
                let (sconfig, info, entry) = stored;
                let ghost i = crate::repository::find_nick(db.spec_rows(), nickname@, 0)->0;
                let ghost m_st = db.spec_rows()[i].config.episode_matcher;
                proof {
                    // the copy handed back and the stored record share one
                    // pattern, so they parse alike
                    assert(sconfig.episode_matcher.spec_pattern() == m_st.spec_pattern());
                }
                let path = sconfig.full_path(config);
                let episodes = match crate::episodes::EpisodeMap::parse(
                    path.as_str(),
                    dir_files,
                    &sconfig.episode_matcher,
                ) {
                    Ok(m) => m,
                    Err(e) => {
                        proof {
                            if e is NoEpisodes {
                                assert forall|fidx: int|
                                    0 <= fidx < dir_files@.len() implies crate::parser::parse_spec(
                                    m_st,
                                    #[trigger] dir_files@[fidx]@,
                                ) is None by {
                                    crate::parser::lemma_parse_congruent(
                                        sconfig.episode_matcher,
                                        m_st,
                                        dir_files@[fidx]@,
                                    );
                                }
                            }
                            if e is MultipleTitles {
                                let (fa, fb) = choose|fa: int, fb: int|
                                    {
                                        &&& 0 <= fa < dir_files@.len()
                                        &&& 0 <= fb < dir_files@.len()
                                        &&& #[trigger] crate::parser::parse_spec(
                                            sconfig.episode_matcher,
                                            dir_files@[fa]@,
                                        ) is Some
                                        &&& #[trigger] crate::parser::parse_spec(
                                            sconfig.episode_matcher,
                                            dir_files@[fb]@,
                                        ) is Some
                                        &&& !crate::episodes::titles_compatible(
                                            crate::parser::parsed_title(
                                                sconfig.episode_matcher,
                                                dir_files@[fa]@,
                                            ),
                                            crate::parser::parsed_title(
                                                sconfig.episode_matcher,
                                                dir_files@[fb]@,
                                            ),
                                        )
                                    };
                                crate::parser::lemma_parse_congruent(
                                    sconfig.episode_matcher,
                                    m_st,
                                    dir_files@[fa]@,
                                );
                                crate::parser::lemma_parse_congruent(
                                    sconfig.episode_matcher,
                                    m_st,
                                    dir_files@[fb]@,
                                );
                                assert(crate::episodes::incompatible_pair(m_st, dir_files@));
                            }
                        }
                        return Err(e);
                    },
                };
                proof {
                    // the success-owed premise cannot fail past this point
                    let tfidx = choose|fidx: int|
                        0 <= fidx < dir_files@.len() && #[trigger] crate::parser::parse_spec(
                            sconfig.episode_matcher,
                            dir_files@[fidx]@,
                        ) is Some && crate::parser::parsed_title(
                            sconfig.episode_matcher,
                            dir_files@[fidx]@,
                        ) == episodes.spec_title();
                    assert(crate::parser::parse_spec(
                        sconfig.episode_matcher,
                        dir_files@[tfidx]@,
                    ) is Some);
                }
                Ok(Series { info, entry, config: sconfig, episodes })
            },
        }
    }
}

} // verus!
