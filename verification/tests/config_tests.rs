use anup::config::{Config, EpisodeConfig, Percentage};
use anup::log::{LogItem, LogItemStatus, StatusLog};
use anup::options::CmdOptions;
use anup::parser::EpisodeMatcher;
use anup::remote::Status;
use anup::series::{LastWatched, SeriesConfig, SeriesParameters};

#[test]
fn config_defaults() {
    let config = Config::new(String::from("/library"));
    assert_eq!(config.series_dir.as_str(), "/library");
    assert!(!config.reset_dates_on_rewatch);
    assert_eq!(config.episode.pcnt_must_watch.as_percent(), 50);
    assert_eq!(config.episode.seconds_before_next, 3);
    assert_eq!(config.episode.player.as_str(), "mpv");
    assert!(config.episode.player_args.is_empty());
}

#[test]
fn percentage_holds_its_value() {
    let p = Percentage::new(85);
    assert_eq!(p.as_percent(), 85);
    let e = EpisodeConfig {
        player: String::from("mpv"),
        player_args: Vec::new(),
        pcnt_must_watch: Percentage::new(100),
        seconds_before_next: 0,
    };
    assert_eq!(e.pcnt_must_watch.as_percent(), 100);
}

#[test]
fn status_codes_round_trip() {
    for status in [
        Status::Watching,
        Status::Completed,
        Status::OnHold,
        Status::Dropped,
        Status::PlanToWatch,
        Status::Rewatching,
    ] {
        assert_eq!(Status::from_code(status.to_code()), Some(status));
    }
    assert_eq!(Status::from_code(0), None);
    assert_eq!(Status::from_code(7), None);
    assert_eq!(Status::Watching.to_code(), 1);
    assert_eq!(Status::Rewatching.to_code(), 6);
}

#[test]
fn status_default_is_plan_to_watch() {
    assert_eq!(Status::default(), Status::PlanToWatch);
    assert_eq!(Status::Completed.name(), "Completed");
    assert_eq!(Status::PlanToWatch.name(), "Plan To Watch");
}

#[test]
fn series_config_stores_path_relative_to_library() {
    let config = Config::new(String::from("/library"));
    let sc = SeriesConfig::new(
        1,
        String::from("showx"),
        String::from("/library/ShowX"),
        EpisodeMatcher::new(),
        &config,
    );
    assert_eq!(sc.path.as_str(), "ShowX");
    assert_eq!(sc.full_path(&config).as_str(), "/library/ShowX");
}

#[test]
fn series_config_keeps_outside_path_absolute() {
    let config = Config::new(String::from("/library"));
    let sc = SeriesConfig::new(
        1,
        String::from("showx"),
        String::from("/elsewhere/ShowX"),
        EpisodeMatcher::new(),
        &config,
    );
    assert_eq!(sc.path.as_str(), "/elsewhere/ShowX");
    assert_eq!(sc.full_path(&config).as_str(), "/elsewhere/ShowX");
}

#[test]
fn series_config_keeps_doubled_separator_path_absolute() {
    let config = Config::new(String::from("/library"));
    let sc = SeriesConfig::new(
        1,
        String::from("showx"),
        String::from("/library//ShowX"),
        EpisodeMatcher::new(),
        &config,
    );
    assert_eq!(sc.path.as_str(), "/library//ShowX");
    assert_eq!(sc.full_path(&config).as_str(), "/library//ShowX");
}

#[test]
fn series_config_set_path() {
    let config = Config::new(String::from("/library"));
    let mut sc = SeriesConfig::new(
        1,
        String::from("showx"),
        String::from("/library/ShowX"),
        EpisodeMatcher::new(),
        &config,
    );
    sc.set_path(String::from("/library/Moved"), &config);
    assert_eq!(sc.path.as_str(), "Moved");
}

#[test]
fn last_watched_empty_record_means_none() {
    let last = LastWatched::new(Some(String::new()));
    assert!(last.get().is_none());
    let kept = LastWatched::new(Some(String::from("showx")));
    assert_eq!(kept.get().as_deref(), Some("showx"));
}

#[test]
fn last_watched_set_reports_changes() {
    let mut last = LastWatched::new(None);
    assert!(last.get().is_none());
    assert!(last.set(&String::from("showx")));
    assert_eq!(last.get().as_deref(), Some("showx"));
    assert!(!last.set(&String::from("showx")));
    assert!(last.set(&String::from("other")));
    assert_eq!(last.get().as_deref(), Some("other"));
}

#[test]
fn parameters_from_pairs() {
    let pairs = vec![
        (String::from("ID"), String::from("42")),
        (String::from("path"), String::from("/library/ShowX")),
        (String::from("matcher"), String::from("{title} {episode}")),
        (String::from("unknown"), String::from("ignored")),
    ];
    let params = SeriesParameters::from_name_value_pairs(&pairs).unwrap();
    assert_eq!(params.id, Some(42));
    assert_eq!(params.path.as_deref(), Some("/library/ShowX"));
    assert_eq!(params.matcher.as_deref(), Some("{title} {episode}"));
}

#[test]
fn parameters_later_pairs_win() {
    let pairs = vec![
        (String::from("id"), String::from("1")),
        (String::from("id"), String::from("2")),
    ];
    let params = SeriesParameters::from_name_value_pairs(&pairs).unwrap();
    assert_eq!(params.id, Some(2));
}

#[test]
fn parameters_bad_id_fails() {
    let pairs = vec![(String::from("id"), String::from("abc"))];
    let r = SeriesParameters::from_name_value_pairs(&pairs);
    assert!(matches!(r, Err(anup::err::Error::ParseNum { .. })));
}

#[test]
fn cmd_options_default() {
    let opts = CmdOptions::default();
    assert!(!opts.offline && !opts.single && !opts.sync);
    assert!(opts.series.is_none());
}

#[test]
fn log_item_status_resolution() {
    assert!(!LogItemStatus::Pending.is_resolved());
    assert!(LogItemStatus::Failed(None).is_resolved());
    assert!(LogItemStatus::Failed(Some(String::from("boom"))).is_resolved());
}

#[test]
fn log_item_text_lines() {
    let pending = LogItem::pending(String::from("syncing"));
    assert_eq!(pending.text_items().as_slice(), ["syncing...\n"]);

    let failed = LogItem::failed(String::from("syncing"), None);
    assert_eq!(failed.text_items().as_slice(), ["syncing... ", "failed\n"]);

    let detailed = LogItem::failed(String::from("syncing"), Some(String::from("network error")));
    assert_eq!(
        detailed.text_items().as_slice(),
        ["syncing... ", "failed\n", ".. network error\n"]
    );
}

#[test]
fn status_log_trims_oldest_entries() {
    let mut log = StatusLog::new();
    for i in 0..5 {
        log.push(LogItem::pending(format!("event {}", i)));
    }
    assert_eq!(log.len(), 5);
    // four rows with a border leave room for two entries
    log.adjust_to_size(4, true);
    assert_eq!(log.len(), 2);
    log.pop_front();
    assert_eq!(log.len(), 1);
    log.pop_front();
    log.pop_front();
    assert_eq!(log.len(), 0);
}
