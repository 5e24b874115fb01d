use anup::config::Config;
use anup::err::Error;
use anup::remote;
use anup::remote::{Date, Remote, RemoteService, ScoreParser, Status};
use anup::series::SeriesEntry;
use std::cell::RefCell;

fn today() -> Date {
    Date::new(2020, 6, 15)
}

struct OnlineRemote {
    update_calls: RefCell<u32>,
    fail_updates: bool,
}

impl OnlineRemote {
    fn new(fail_updates: bool) -> Self {
        OnlineRemote { update_calls: RefCell::new(0), fail_updates }
    }
}

impl ScoreParser for OnlineRemote {
    fn parse_score(&self, score: &str) -> Option<u8> {
        anup::score::parse_score_str(score)
    }

    fn score_to_str(&self, score: u8) -> String {
        anup::score::score_to_string(score)
    }
}

impl RemoteService for OnlineRemote {
    fn spec_is_offline(&self) -> bool {
        false
    }

    fn is_offline(&self) -> bool {
        false
    }

    fn search_info_by_name(&self, _name: &str) -> Result<Vec<remote::SeriesInfo>, Error> {
        Ok(Vec::new())
    }

    fn search_info_by_id(&self, id: u32) -> Result<remote::SeriesInfo, Error> {
        Err(Error::NotFound { id })
    }

    fn get_list_entry(&self, _id: u32) -> Result<Option<remote::SeriesEntry>, Error> {
        Ok(None)
    }

    fn update_list_entry(&self, _entry: &remote::SeriesEntry) -> Result<(), Error> {
        *self.update_calls.borrow_mut() += 1;
        if self.fail_updates {
            Err(Error::Network)
        } else {
            Ok(())
        }
    }
}

#[test]
fn setters_mark_entry_dirty() {
    let config = Config::new(String::from("/library"));

    let mut e = SeriesEntry::from_id(7);
    assert!(!e.needs_sync());
    e.set_watched_eps(3);
    assert!(e.needs_sync());

    let mut e = SeriesEntry::from_id(7);
    e.set_score(Some(85));
    assert!(e.needs_sync());

    let mut e = SeriesEntry::from_id(7);
    e.set_times_rewatched(2);
    assert!(e.needs_sync());

    let mut e = SeriesEntry::from_id(7);
    e.set_status(Status::Watching, &config, today());
    assert!(e.needs_sync());
}

#[test]
fn fresh_entry_defaults() {
    let e = SeriesEntry::from_id(42);
    assert_eq!(e.id(), 42);
    assert_eq!(e.watched_eps(), 0);
    assert_eq!(e.score(), None);
    assert_eq!(e.status(), Status::PlanToWatch);
    assert_eq!(e.times_rewatched(), 0);
    assert_eq!(e.start_date(), None);
    assert_eq!(e.end_date(), None);
}

#[test]
fn set_status_watching_sets_start_date_once() {
    let config = Config::new(String::from("/library"));
    let mut e = SeriesEntry::from_id(1);
    e.set_status(Status::Watching, &config, today());
    assert_eq!(e.start_date(), Some(today()));

    let other_day = Date::new(2021, 1, 2);
    e.set_status(Status::Watching, &config, other_day);
    assert_eq!(e.start_date(), Some(today()));
}

#[test]
fn set_status_completed_sets_end_date_once() {
    let config = Config::new(String::from("/library"));
    let mut e = SeriesEntry::from_id(1);
    e.set_status(Status::Completed, &config, today());
    assert_eq!(e.end_date(), Some(today()));

    let other_day = Date::new(2021, 1, 2);
    e.set_status(Status::Completed, &config, other_day);
    assert_eq!(e.end_date(), Some(today()));
}

#[test]
fn set_status_dropped_sets_end_date_once() {
    let config = Config::new(String::from("/library"));
    let mut e = SeriesEntry::from_id(1);
    e.set_status(Status::Dropped, &config, today());
    assert_eq!(e.end_date(), Some(today()));
}

#[test]
fn set_status_on_hold_changes_no_dates() {
    let config = Config::new(String::from("/library"));
    let mut e = SeriesEntry::from_id(1);
    e.set_status(Status::OnHold, &config, today());
    assert_eq!(e.start_date(), None);
    assert_eq!(e.end_date(), None);
    assert_eq!(e.status(), Status::OnHold);
}

#[test]
fn rewatch_after_completion_resets_start_date_when_configured() {
    let mut config = Config::new(String::from("/library"));
    config.reset_dates_on_rewatch = true;
    let mut e = SeriesEntry::from_id(1);
    e.set_status(Status::Watching, &config, today());
    e.set_status(Status::Completed, &config, today());
    let later = Date::new(2021, 3, 4);
    e.set_status(Status::Rewatching, &config, later);
    assert_eq!(e.start_date(), Some(later));
}

#[test]
fn rewatch_after_completion_keeps_start_date_by_default() {
    let config = Config::new(String::from("/library"));
    let mut e = SeriesEntry::from_id(1);
    e.set_status(Status::Watching, &config, today());
    e.set_status(Status::Completed, &config, today());
    let later = Date::new(2021, 3, 4);
    e.set_status(Status::Rewatching, &config, later);
    assert_eq!(e.start_date(), Some(today()));
}

#[test]
fn push_offline_keeps_dirty_flag() {
    let offline = Remote::offline();
    let mut e = SeriesEntry::from_id(1);
    e.set_watched_eps(5);
    assert!(e.needs_sync());
    e.sync_to_remote(&offline).unwrap();
    assert!(e.needs_sync());
}

#[test]
fn push_online_clears_dirty_flag() {
    let online = OnlineRemote::new(false);
    let mut e = SeriesEntry::from_id(1);
    e.set_watched_eps(5);
    e.sync_to_remote(&online).unwrap();
    assert!(!e.needs_sync());
    assert_eq!(*online.update_calls.borrow(), 1);
}

#[test]
fn clean_entry_is_not_pushed() {
    let online = OnlineRemote::new(false);
    let mut e = SeriesEntry::from_id(1);
    e.sync_to_remote(&online).unwrap();
    assert_eq!(*online.update_calls.borrow(), 0);
}

#[test]
fn failed_push_keeps_dirty_flag() {
    let online = OnlineRemote::new(true);
    let mut e = SeriesEntry::from_id(1);
    e.set_watched_eps(5);
    let r = e.sync_to_remote(&online);
    assert!(matches!(r, Err(Error::Network)));
    assert!(e.needs_sync());
}

#[test]
fn pull_skipped_when_dirty() {
    let online = OnlineRemote::new(false);
    let mut e = SeriesEntry::from_id(1);
    e.set_watched_eps(5);
    e.sync_from_remote(&online).unwrap();
    assert_eq!(e.watched_eps(), 5);
    assert!(e.needs_sync());
}

#[test]
fn pull_replaces_clean_entry_with_defaults_when_remote_has_none() {
    let online = OnlineRemote::new(false);
    let mut e = SeriesEntry::from_entry(remote::SeriesEntry {
        id: 9,
        watched_eps: 4,
        score: None,
        status: Status::Watching,
        times_rewatched: 0,
        start_date: None,
        end_date: None,
    });
    e.sync_from_remote(&online).unwrap();
    assert_eq!(e.watched_eps(), 0);
    assert_eq!(e.status(), Status::PlanToWatch);
    assert_eq!(e.id(), 9);
}

#[test]
fn score_from_string_is_validated() {
    let offline = Remote::offline();
    let mut e = SeriesEntry::from_id(1);

    e.set_score_from_str(&offline, "85").unwrap();
    assert_eq!(e.score(), Some(85));
    assert!(e.needs_sync());

    // zero clears the score
    e.set_score_from_str(&offline, "0").unwrap();
    assert_eq!(e.score(), None);

    let r = e.set_score_from_str(&offline, "not a score");
    assert!(matches!(r, Err(Error::InvalidScore)));
    assert_eq!(e.score(), None);

    let r = e.set_score_from_str(&offline, "101");
    assert!(matches!(r, Err(Error::InvalidScore)));
}

#[test]
fn service_score_round_trip() {
    let offline = Remote::offline();
    for v in 0..=100u8 {
        let rendered = offline.score_to_str(v);
        assert_eq!(offline.parse_score(rendered.as_str()), Some(v));
    }
}
