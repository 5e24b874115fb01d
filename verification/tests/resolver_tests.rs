use anup::config::Config;
use anup::err::Error;
use anup::remote;
use anup::remote::{Remote, RemoteService, ScoreParser};
use anup::remote::{Date, Status};
use anup::repository::Repository;
use anup::resolver::{best_matching_info, closest_match, parse_folder_title, SeriesInfoSelector};
use anup::series::{Series, SeriesParameters};

fn make_info(id: u32, romaji: &str) -> remote::SeriesInfo {
    remote::SeriesInfo {
        id,
        title: remote::SeriesTitle { romaji: romaji.to_string(), preferred: romaji.to_string() },
        episodes: 12,
        episode_length: 24,
    }
}

#[test]
fn exact_title_wins() {
    let items = vec![make_info(1, "Other Series"), make_info(2, "ShowX")];
    let idx = best_matching_info("showx", &items).unwrap();
    assert_eq!(idx, 1);
}

#[test]
fn dissimilar_titles_do_not_match() {
    let items = vec![make_info(1, "Completely Different"), make_info(2, "Nothing Alike")];
    let r = best_matching_info("showx", &items);
    assert!(matches!(r, Err(Error::NoMatchingSeries { .. })));
}

#[test]
fn empty_result_list_does_not_match() {
    let items: Vec<remote::SeriesInfo> = Vec::new();
    let r = best_matching_info("showx", &items);
    assert!(matches!(r, Err(Error::NoMatchingSeries { .. })));
}

#[test]
fn near_title_still_matches() {
    // one substitution in ten characters: well above the threshold
    let items = vec![make_info(7, "Show Title")];
    let idx = best_matching_info("shaw title", &items).unwrap();
    assert_eq!(idx, 0);
}

#[test]
fn tie_prefers_the_earlier_result() {
    let items = vec![make_info(1, "ShowX"), make_info(2, "ShowX")];
    let idx = closest_match("showx", 750, &items).unwrap();
    assert_eq!(idx, 0);
}

#[test]
fn folder_title_parsing() {
    assert_eq!(parse_folder_title("ShowX").as_str(), "ShowX");
    assert_eq!(parse_folder_title("[Group] ShowX").as_str(), "ShowX");
    assert_eq!(parse_folder_title("Show_X_1080p").as_str(), "Show X");
    assert_eq!(parse_folder_title("  ShowX  ").as_str(), "ShowX");
}

struct CatalogRemote {
    catalog: Vec<remote::SeriesInfo>,
}

impl ScoreParser for CatalogRemote {
    fn parse_score(&self, score: &str) -> Option<u8> {
        anup::score::parse_score_str(score)
    }

    fn score_to_str(&self, score: u8) -> String {
        anup::score::score_to_string(score)
    }
}

impl RemoteService for CatalogRemote {
    fn spec_is_offline(&self) -> bool {
        false
    }

    fn is_offline(&self) -> bool {
        false
    }

    fn search_info_by_name(&self, _name: &str) -> Result<Vec<remote::SeriesInfo>, Error> {
        Ok(self.catalog.iter().map(|i| i.duplicate()).collect())
    }

    fn search_info_by_id(&self, id: u32) -> Result<remote::SeriesInfo, Error> {
        match self.catalog.iter().find(|i| i.id == id) {
            Some(info) => Ok(info.duplicate()),
            None => Err(Error::NotFound { id }),
        }
    }

    fn get_list_entry(&self, _id: u32) -> Result<Option<remote::SeriesEntry>, Error> {
        Ok(None)
    }

    fn update_list_entry(&self, _entry: &remote::SeriesEntry) -> Result<(), Error> {
        Ok(())
    }
}

#[test]
fn selector_resolves_by_id() {
    let remote_svc = CatalogRemote { catalog: vec![make_info(42, "ShowX")] };
    let selector = SeriesInfoSelector::ID(42);
    let info = selector.best_match_from_remote(&remote_svc).unwrap();
    assert_eq!(info.id, 42);
}

#[test]
fn selector_resolves_by_name() {
    let remote_svc = CatalogRemote {
        catalog: vec![make_info(1, "Another"), make_info(42, "ShowX")],
    };
    let selector = SeriesInfoSelector::Name(String::from("ShowX"));
    let info = selector.best_match_from_remote(&remote_svc).unwrap();
    assert_eq!(info.id, 42);
}

#[test]
fn selector_unknown_id_fails() {
    let remote_svc = CatalogRemote { catalog: vec![make_info(42, "ShowX")] };
    let selector = SeriesInfoSelector::ID(7);
    let r = selector.best_match_from_remote(&remote_svc);
    assert!(matches!(r, Err(Error::NotFound { id: 7 })));
}

#[test]
fn offline_remote_finds_nothing() {
    let offline = Remote::offline();
    let selector = SeriesInfoSelector::Name(String::from("ShowX"));
    assert!(matches!(
        selector.best_match_from_remote(&offline),
        Err(Error::NotFound { id: 0 })
    ));
    let by_id = SeriesInfoSelector::ID(42);
    assert!(matches!(by_id.best_match_from_remote(&offline), Err(Error::NotFound { id: 42 })));
}

#[test]
fn fresh_add_then_watch_first_episode() {
    // Empty repository; the directory holds one episode file. Adding the
    // series resolves it via the catalog and begins watching episode one.
    let remote_svc = CatalogRemote { catalog: vec![make_info(42, "ShowX")] };
    let config = Config::new(String::from("/library"));
    let files = vec![String::from("[Group] ShowX - 01 (1080p).mkv")];

    let mut series = Series::from_remote(
        String::from("showx"),
        SeriesParameters::default(),
        &config,
        &remote_svc,
        String::from("/library/ShowX"),
        &files,
    )
    .unwrap();
    assert_eq!(series.info.id, 42);
    assert_eq!(series.config.nickname.as_str(), "showx");
    assert_eq!(series.episodes.len(), 1);

    let mut db = Repository::new();
    let today = Date::new(2020, 6, 15);
    series.begin_watching(&remote_svc, &config, &mut db, today).unwrap();
    assert_eq!(series.entry.status(), Status::Watching);
    assert_eq!(series.entry.watched_eps(), 0);
    assert_eq!(series.entry.start_date(), Some(today));
    // online: the change was pushed at once
    assert!(!series.entry.needs_sync());
    assert_eq!(db.len(), 1);
}

#[test]
fn fresh_add_by_explicit_id() {
    let remote_svc = CatalogRemote { catalog: vec![make_info(42, "ShowX")] };
    let config = Config::new(String::from("/library"));
    let files = vec![String::from("ShowX - 01.mkv")];
    let params = SeriesParameters { id: Some(42), path: None, matcher: None };

    let series = Series::from_remote(
        String::from("showx"),
        params,
        &config,
        &remote_svc,
        String::from("/library/ShowX"),
        &files,
    )
    .unwrap();
    assert_eq!(series.info.id, 42);
    assert_eq!(series.entry.id(), 42);
}

#[test]
fn load_round_trips_through_repository() {
    let remote_svc = CatalogRemote { catalog: vec![make_info(42, "ShowX")] };
    let config = Config::new(String::from("/library"));
    let files = vec![String::from("ShowX - 01.mkv")];
    let series = Series::from_remote(
        String::from("showx"),
        SeriesParameters::default(),
        &config,
        &remote_svc,
        String::from("/library/ShowX"),
        &files,
    )
    .unwrap();

    let mut db = Repository::new();
    series.save(&mut db).unwrap();
    let loaded = Series::load(&db, &config, &String::from("showx"), &files).unwrap();
    assert_eq!(loaded.info.id, 42);
    assert_eq!(loaded.config.nickname.as_str(), "showx");
    assert_eq!(loaded.episodes.len(), 1);
}
