use anup::config::Config;
use anup::err::Error;
use anup::parser::EpisodeMatcher;
use anup::remote;
use anup::remote::{Date, Remote, RemoteService, ScoreParser, Status};
use anup::repository::Repository;
use anup::series::{SeriesConfig, SeriesEntry};
use std::cell::RefCell;

fn make_info(id: u32, name: &str, episodes: u32) -> remote::SeriesInfo {
    remote::SeriesInfo {
        id,
        title: remote::SeriesTitle { romaji: name.to_string(), preferred: name.to_string() },
        episodes,
        episode_length: 24,
    }
}

fn make_config(id: u32, nickname: &str) -> SeriesConfig {
    let config = Config::new(String::from("/library"));
    SeriesConfig::new(
        id,
        nickname.to_string(),
        format!("/library/{}", nickname),
        EpisodeMatcher::new(),
        &config,
    )
}

#[test]
fn save_then_load_is_structural_identity() {
    let mut db = Repository::new();
    let sconfig = make_config(42, "showx");
    let info = make_info(42, "ShowX", 12);
    let mut entry = SeriesEntry::from_id(42);
    entry.set_watched_eps(5);
    entry.set_status(Status::Watching, &Config::new(String::from("/library")), Date::new(2020, 6, 15));

    db.save(&sconfig, &info, &entry).unwrap();
    let (lconfig, linfo, lentry) = db.load(&String::from("showx")).unwrap();

    assert_eq!(lconfig.id, sconfig.id);
    assert_eq!(lconfig.nickname.as_str(), "showx");
    assert_eq!(lconfig.path.as_str(), "showx");
    assert_eq!(lconfig.player_args.len(), 0);
    assert_eq!(linfo.id, info.id);
    assert_eq!(linfo.title.romaji.as_str(), "ShowX");
    assert_eq!(linfo.episodes, 12);
    assert_eq!(linfo.episode_length, 24);
    assert_eq!(lentry.inner(), entry.inner());
    assert_eq!(lentry.needs_sync(), entry.needs_sync());
}

#[test]
fn save_updates_existing_series() {
    let mut db = Repository::new();
    let sconfig = make_config(42, "showx");
    let info = make_info(42, "ShowX", 12);
    let mut entry = SeriesEntry::from_id(42);
    db.save(&sconfig, &info, &entry).unwrap();

    entry.set_watched_eps(9);
    db.save(&sconfig, &info, &entry).unwrap();
    assert_eq!(db.len(), 1);
    let (_, _, lentry) = db.load(&String::from("showx")).unwrap();
    assert_eq!(lentry.watched_eps(), 9);
}

#[test]
fn save_rejects_nickname_of_other_series() {
    let mut db = Repository::new();
    db.save(&make_config(1, "one"), &make_info(1, "One", 12), &SeriesEntry::from_id(1)).unwrap();
    let r = db.save(&make_config(2, "one"), &make_info(2, "Two", 12), &SeriesEntry::from_id(2));
    assert!(matches!(r, Err(Error::DatabaseConstraint { .. })));
    assert_eq!(db.len(), 1);
}

#[test]
fn save_rejects_mismatched_ids() {
    let mut db = Repository::new();
    let r = db.save(&make_config(1, "one"), &make_info(2, "Two", 12), &SeriesEntry::from_id(1));
    assert!(matches!(r, Err(Error::DatabaseConstraint { .. })));
    assert_eq!(db.len(), 0);
}

#[test]
fn delete_removes_all_three_records() {
    let mut db = Repository::new();
    db.save(&make_config(1, "one"), &make_info(1, "One", 12), &SeriesEntry::from_id(1)).unwrap();
    db.save(&make_config(2, "two"), &make_info(2, "Two", 12), &SeriesEntry::from_id(2)).unwrap();

    assert!(db.delete(&String::from("one")));
    assert_eq!(db.len(), 1);
    assert!(db.load(&String::from("one")).is_none());
    assert!(db.load(&String::from("two")).is_some());

    assert!(!db.delete(&String::from("one")));
    assert_eq!(db.len(), 1);
}

struct FlakyRemote {
    update_calls: RefCell<u32>,
    fail_id: u32,
}

impl ScoreParser for FlakyRemote {
    fn parse_score(&self, score: &str) -> Option<u8> {
        anup::score::parse_score_str(score)
    }

    fn score_to_str(&self, score: u8) -> String {
        anup::score::score_to_string(score)
    }
}

impl RemoteService for FlakyRemote {
    fn spec_is_offline(&self) -> bool {
        false
    }

    fn is_offline(&self) -> bool {
        false
    }

    fn search_info_by_name(&self, _name: &str) -> Result<Vec<remote::SeriesInfo>, Error> {
        Ok(Vec::new())
    }

    fn search_info_by_id(&self, id: u32) -> Result<remote::SeriesInfo, Error> {
        Err(Error::NotFound { id })
    }

    fn get_list_entry(&self, _id: u32) -> Result<Option<remote::SeriesEntry>, Error> {
        Ok(None)
    }

    fn update_list_entry(&self, entry: &remote::SeriesEntry) -> Result<(), Error> {
        *self.update_calls.borrow_mut() += 1;
        if entry.id == self.fail_id {
            Err(Error::Network)
        } else {
            Ok(())
        }
    }
}

#[test]
fn offline_journal_then_flush() {
    // Complete an episode offline: the change is journaled, nothing is sent.
    let mut db = Repository::new();
    let sconfig = make_config(42, "showx");
    let info = make_info(42, "ShowX", 12);
    let mut entry = SeriesEntry::from_id(42);
    entry.set_watched_eps(5);
    let offline = Remote::offline();
    entry.sync_to_remote(&offline).unwrap();
    assert!(entry.needs_sync());
    db.save(&sconfig, &info, &entry).unwrap();

    // Back online: one push for the one dirty entry, then the flag is clear.
    let online = FlakyRemote { update_calls: RefCell::new(0), fail_id: 0 };
    let failed = db.sync_all(&online);
    assert_eq!(*online.update_calls.borrow(), 1);
    assert!(failed.is_empty());
    let (_, _, lentry) = db.load(&String::from("showx")).unwrap();
    assert!(!lentry.needs_sync());
}

#[test]
fn sync_all_continues_after_a_failure() {
    let mut db = Repository::new();
    for (id, nick) in [(1u32, "one"), (2u32, "two"), (3u32, "three")] {
        let mut entry = SeriesEntry::from_id(id);
        entry.set_watched_eps(id);
        db.save(&make_config(id, nick), &make_info(id, nick, 12), &entry).unwrap();
    }

    let online = FlakyRemote { update_calls: RefCell::new(0), fail_id: 2 };
    let failed = db.sync_all(&online);
    assert_eq!(*online.update_calls.borrow(), 3);
    assert_eq!(failed, vec![2]);
    assert!(!db.load(&String::from("one")).unwrap().2.needs_sync());
    assert!(db.load(&String::from("two")).unwrap().2.needs_sync());
    assert!(!db.load(&String::from("three")).unwrap().2.needs_sync());
}

#[test]
fn sync_all_is_a_no_op_offline() {
    let mut db = Repository::new();
    let mut entry = SeriesEntry::from_id(1);
    entry.set_watched_eps(1);
    db.save(&make_config(1, "one"), &make_info(1, "One", 12), &entry).unwrap();
    let failed = db.sync_all(&Remote::offline());
    assert!(failed.is_empty());
    assert!(db.load(&String::from("one")).unwrap().2.needs_sync());
}
