use anup::episodes::EpisodeMap;
use anup::err::Error;
use anup::parser::EpisodeMatcher;

fn files(names: &[&str]) -> Vec<String> {
    names.iter().map(|n| n.to_string()).collect()
}

#[test]
fn map_collects_episodes() {
    let matcher = EpisodeMatcher::new();
    let list = files(&["ShowX - 01.mkv", "ShowX - 02.mkv", "ShowX - 03.mkv", "notes.txt"]);
    let map = EpisodeMap::parse("/library/ShowX", &list, &matcher).unwrap();
    assert_eq!(map.len(), 3);
    assert_eq!(map.title().as_str(), "ShowX");
    assert_eq!(map.get(2).unwrap().as_str(), "ShowX - 02.mkv");
    assert!(map.get(4).is_none());
    assert_eq!(map.highest(), Some(3));
    let mut keys = map.keys();
    keys.sort();
    assert_eq!(keys, vec![1, 2, 3]);
}

#[test]
fn multiple_titles_in_directory() {
    let matcher = EpisodeMatcher::new();
    let list = files(&["ShowA - 01.mkv", "ShowB - 02.mkv"]);
    let r = EpisodeMap::parse("/library/mixed", &list, &matcher);
    match r {
        Err(Error::MultipleTitles { expecting, found }) => {
            assert_eq!(expecting.as_str(), "ShowA");
            assert_eq!(found.as_str(), "ShowB");
        }
        _ => panic!("expected a multiple-titles failure"),
    }
}

#[test]
fn titles_compared_case_insensitively() {
    let matcher = EpisodeMatcher::new();
    let list = files(&["showx - 01.mkv", "SHOWX - 02.mkv"]);
    let map = EpisodeMap::parse("/library/ShowX", &list, &matcher).unwrap();
    assert_eq!(map.len(), 2);
    assert_eq!(map.title().as_str(), "showx");
}

#[test]
fn no_episodes_in_directory() {
    let matcher = EpisodeMatcher::new();
    let list = files(&["cover.jpg", "readme.txt"]);
    let r = EpisodeMap::parse("/library/empty", &list, &matcher);
    match r {
        Err(Error::NoEpisodes { path }) => assert_eq!(path.as_str(), "/library/empty"),
        _ => panic!("expected a no-episodes failure"),
    }
}

#[test]
fn duplicate_episode_numbers_later_file_wins() {
    let matcher = EpisodeMatcher::new();
    let list = files(&["ShowX - 01.mkv", "ShowX - 01 (v2).mkv"]);
    let map = EpisodeMap::parse("/library/ShowX", &list, &matcher).unwrap();
    assert_eq!(map.len(), 1);
    assert_eq!(map.get(1).unwrap().as_str(), "ShowX - 01 (v2).mkv");
}

#[test]
fn unparsed_files_are_skipped_silently() {
    let matcher = EpisodeMatcher::new();
    let list = files(&["ShowX - 01.mkv", ".hidden", "extras"]);
    let map = EpisodeMap::parse("/library/ShowX", &list, &matcher).unwrap();
    assert_eq!(map.len(), 1);
}
