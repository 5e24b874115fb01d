use anup::config::Config;
use anup::episodes::EpisodeMap;
use anup::parser::EpisodeMatcher;
use anup::remote;
use anup::remote::{Date, Remote, Status};
use anup::repository::Repository;
use anup::series::{Series, SeriesConfig, SeriesEntry};

fn today() -> Date {
    Date::new(2020, 6, 15)
}

fn make_series(status: Status, watched: u32, episodes: u32, times_rewatched: u32) -> Series {
    let config = Config::new(String::from("/library"));
    let files: Vec<String> = (1..=episodes.max(1))
        .map(|n| format!("ShowX - {:02}.mkv", n))
        .collect();
    let map = EpisodeMap::parse("/library/ShowX", &files, &EpisodeMatcher::new()).unwrap();
    let info = remote::SeriesInfo {
        id: 42,
        title: remote::SeriesTitle {
            romaji: String::from("ShowX"),
            preferred: String::from("ShowX"),
        },
        episodes,
        episode_length: 24,
    };
    let entry = SeriesEntry::from_entry(remote::SeriesEntry {
        id: 42,
        watched_eps: watched,
        score: None,
        status,
        times_rewatched,
        start_date: None,
        end_date: None,
    });
    let sconfig = SeriesConfig::new(
        42,
        String::from("showx"),
        String::from("/library/ShowX"),
        EpisodeMatcher::new(),
        &config,
    );
    Series { info, entry, config: sconfig, episodes: map }
}

#[test]
fn complete_final_episode() {
    // {status: Watching, watched: 11, episodes: 12} and the final episode.
    let mut series = make_series(Status::Watching, 11, 12, 0);
    series.entry.set_watched_eps(11);  // mark dirty so the pull is skipped
    let remote_svc = Remote::offline();
    let config = Config::new(String::from("/library"));
    let mut db = Repository::new();
    series.episode_completed(&remote_svc, &config, &mut db, today()).unwrap();
    assert_eq!(series.entry.status(), Status::Completed);
    assert_eq!(series.entry.watched_eps(), 12);
    assert_eq!(series.entry.end_date(), Some(today()));
    assert!(series.entry.needs_sync());
}

#[test]
fn episode_completed_mid_series() {
    let mut series = make_series(Status::Watching, 4, 12, 0);
    let remote_svc = Remote::offline();
    let config = Config::new(String::from("/library"));
    let mut db = Repository::new();
    series.episode_completed(&remote_svc, &config, &mut db, today()).unwrap();
    assert_eq!(series.entry.status(), Status::Watching);
    assert_eq!(series.entry.watched_eps(), 5);
    assert_eq!(series.entry.end_date(), None);
}

#[test]
fn episode_completed_never_completes_unknown_count() {
    let mut series = make_series(Status::Watching, 250, 0, 0);
    let remote_svc = Remote::offline();
    let config = Config::new(String::from("/library"));
    let mut db = Repository::new();
    series.episode_completed(&remote_svc, &config, &mut db, today()).unwrap();
    assert_eq!(series.entry.status(), Status::Watching);
    assert_eq!(series.entry.watched_eps(), 251);
}

#[test]
fn rewatch_cycle() {
    // Completed 12/12 -> begin_watching starts a rewatch, finishing it
    // counts the rewatch exactly once.
    let mut series = make_series(Status::Completed, 12, 12, 0);
    let remote_svc = Remote::offline();
    let config = Config::new(String::from("/library"));
    let mut db = Repository::new();

    series.begin_watching(&remote_svc, &config, &mut db, today()).unwrap();
    assert_eq!(series.entry.status(), Status::Rewatching);
    assert_eq!(series.entry.watched_eps(), 0);

    for _ in 0..11 {
        series.episode_completed(&remote_svc, &config, &mut db, today()).unwrap();
    }
    assert_eq!(series.entry.watched_eps(), 11);
    assert_eq!(series.entry.status(), Status::Rewatching);

    series.episode_completed(&remote_svc, &config, &mut db, today()).unwrap();
    assert_eq!(series.entry.status(), Status::Completed);
    assert_eq!(series.entry.times_rewatched(), 1);
}

#[test]
fn series_complete_counts_rewatch_exactly_once() {
    let mut series = make_series(Status::Rewatching, 12, 12, 3);
    let remote_svc = Remote::offline();
    let config = Config::new(String::from("/library"));
    let mut db = Repository::new();
    series.series_complete(&remote_svc, &config, &mut db, today()).unwrap();
    assert_eq!(series.entry.times_rewatched(), 4);
    assert_eq!(series.entry.status(), Status::Completed);
}

#[test]
fn series_complete_without_rewatch_keeps_count() {
    let mut series = make_series(Status::Watching, 12, 12, 2);
    let remote_svc = Remote::offline();
    let config = Config::new(String::from("/library"));
    let mut db = Repository::new();
    series.series_complete(&remote_svc, &config, &mut db, today()).unwrap();
    assert_eq!(series.entry.times_rewatched(), 2);
    assert_eq!(series.entry.status(), Status::Completed);
}

#[test]
fn episode_regressed_at_zero_stays_at_zero() {
    let mut series = make_series(Status::Watching, 0, 12, 0);
    let remote_svc = Remote::offline();
    let config = Config::new(String::from("/library"));
    let mut db = Repository::new();
    series.episode_regressed(&remote_svc, &config, &mut db, today()).unwrap();
    assert_eq!(series.entry.watched_eps(), 0);
    assert!(series.entry.needs_sync());
}

#[test]
fn episode_regressed_steps_back() {
    let mut series = make_series(Status::Watching, 5, 12, 0);
    let remote_svc = Remote::offline();
    let config = Config::new(String::from("/library"));
    let mut db = Repository::new();
    series.episode_regressed(&remote_svc, &config, &mut db, today()).unwrap();
    assert_eq!(series.entry.watched_eps(), 4);
    assert_eq!(series.entry.status(), Status::Watching);
}

#[test]
fn episode_regressed_stays_in_rewatch() {
    let mut series = make_series(Status::Completed, 12, 12, 1);
    let remote_svc = Remote::offline();
    let config = Config::new(String::from("/library"));
    let mut db = Repository::new();
    series.episode_regressed(&remote_svc, &config, &mut db, today()).unwrap();
    assert_eq!(series.entry.watched_eps(), 11);
    assert_eq!(series.entry.status(), Status::Rewatching);
}

#[test]
fn begin_watching_from_planned() {
    let mut series = make_series(Status::PlanToWatch, 0, 12, 0);
    series.entry.set_watched_eps(0);  // mark dirty so the pull is skipped
    let remote_svc = Remote::offline();
    let config = Config::new(String::from("/library"));
    let mut db = Repository::new();
    series.begin_watching(&remote_svc, &config, &mut db, today()).unwrap();
    assert_eq!(series.entry.status(), Status::Watching);
    assert_eq!(series.entry.watched_eps(), 0);
    assert_eq!(series.entry.start_date(), Some(today()));
    assert!(series.entry.needs_sync());
}

#[test]
fn begin_watching_exhausted_watch_starts_rewatch() {
    let mut series = make_series(Status::Watching, 12, 12, 0);
    series.entry.set_watched_eps(12);
    let remote_svc = Remote::offline();
    let config = Config::new(String::from("/library"));
    let mut db = Repository::new();
    series.begin_watching(&remote_svc, &config, &mut db, today()).unwrap();
    assert_eq!(series.entry.status(), Status::Rewatching);
    assert_eq!(series.entry.watched_eps(), 0);
}

#[test]
fn begin_watching_from_dropped_restarts() {
    let mut series = make_series(Status::Dropped, 7, 12, 0);
    series.entry.set_watched_eps(7);
    let remote_svc = Remote::offline();
    let config = Config::new(String::from("/library"));
    let mut db = Repository::new();
    series.begin_watching(&remote_svc, &config, &mut db, today()).unwrap();
    assert_eq!(series.entry.status(), Status::Watching);
    assert_eq!(series.entry.watched_eps(), 0);
}

#[test]
fn watched_count_stays_within_episode_count() {
    let mut series = make_series(Status::Watching, 11, 12, 0);
    series.entry.set_watched_eps(11);
    let remote_svc = Remote::offline();
    let config = Config::new(String::from("/library"));
    let mut db = Repository::new();
    for _ in 0..5 {
        series.episode_completed(&remote_svc, &config, &mut db, today()).unwrap();
        assert!(series.entry.watched_eps() <= series.info.episodes);
    }
}

#[test]
fn time_gate_instant() {
    // 24 minutes at 50 percent: progress from 12 minutes in.
    let series = make_series(Status::Watching, 0, 12, 0);
    let config = Config::new(String::from("/library"));
    let start: u64 = 1_000_000;
    let gate = series.next_watch_progress_time(&config, start);
    assert_eq!(gate, start + 12 * 60 * 1000);

    // five minutes in, the episode does not count yet
    let now = start + 5 * 60 * 1000;
    assert!(now < gate);
}

#[test]
fn episode_path_joins_directory_and_file() {
    let series = make_series(Status::Watching, 0, 2, 0);
    let config = Config::new(String::from("/library"));
    let p = series.episode_path(1, &config).unwrap();
    assert_eq!(p.as_str(), "/library/ShowX/ShowX - 01.mkv");
    assert!(series.episode_path(99, &config).is_none());
}

#[test]
fn has_unwatched_episodes_reports_remaining() {
    let series = make_series(Status::Watching, 5, 12, 0);
    assert!(series.has_unwatched_episodes());
    let done = make_series(Status::Watching, 12, 12, 0);
    assert!(!done.has_unwatched_episodes());
    let unknown = make_series(Status::Watching, 5, 0, 0);
    assert!(!unknown.has_unwatched_episodes());
}
