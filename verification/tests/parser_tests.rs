use anup::err::Error;
use anup::parser::{episode_matcher_with_pattern, EpisodeMatcher};

#[test]
fn default_matcher_common_convention() {
    let m = EpisodeMatcher::new();
    let (title, ep) = m.parse("[Group] ShowX - 01 (1080p).mkv").unwrap();
    assert_eq!(title.as_str(), "ShowX");
    assert_eq!(ep, 1);
}

#[test]
fn default_matcher_plain_name() {
    let m = EpisodeMatcher::new();
    let (title, ep) = m.parse("ShowA - 01.mkv").unwrap();
    assert_eq!(title.as_str(), "ShowA");
    assert_eq!(ep, 1);
}

#[test]
fn default_matcher_underscores_become_spaces() {
    let m = EpisodeMatcher::new();
    let (title, ep) = m.parse("Show_X_-_02.mkv").unwrap();
    assert_eq!(title.as_str(), "Show X");
    assert_eq!(ep, 2);
}

#[test]
fn default_matcher_strips_trailing_tags() {
    let m = EpisodeMatcher::new();
    let (title, ep) = m.parse("ShowX 1080p x265 - 03.mkv").unwrap();
    assert_eq!(title.as_str(), "ShowX");
    assert_eq!(ep, 3);
}

#[test]
fn default_matcher_no_separator() {
    let m = EpisodeMatcher::new();
    let (title, ep) = m.parse("Show 12.mkv").unwrap();
    assert_eq!(title.as_str(), "Show");
    assert_eq!(ep, 12);
}

#[test]
fn default_matcher_no_match() {
    let m = EpisodeMatcher::new();
    let r = m.parse("no episode here.txt");
    assert!(matches!(r, Err(Error::NoEpMatches { .. })));
}

#[test]
fn default_matcher_episode_too_large() {
    let m = EpisodeMatcher::new();
    let r = m.parse("Show - 99999999999999999999.mkv");
    assert!(matches!(r, Err(Error::ExpectedEpNumber { .. })));
}

#[test]
fn custom_matcher_with_groups() {
    let m = episode_matcher_with_pattern("{title} ep{episode}\\.mkv").unwrap();
    let (title, ep) = m.parse("MyShow ep05.mkv").unwrap();
    assert_eq!(title.as_str(), "MyShow");
    assert_eq!(ep, 5);
}

#[test]
fn custom_matcher_no_match() {
    let m = episode_matcher_with_pattern("{title} ep{episode}\\.mkv").unwrap();
    let r = m.parse("MyShow - 05.mkv");
    assert!(matches!(r, Err(Error::NoEpMatches { .. })));
}

#[test]
fn custom_matcher_missing_title_group() {
    let r = episode_matcher_with_pattern("ep{episode}\\.mkv");
    match r {
        Err(Error::MissingEpisodeMatcherGroup { group }) => {
            assert_eq!(group.as_str(), "title");
        }
        _ => panic!("expected a missing title group"),
    }
}

#[test]
fn custom_matcher_missing_episode_group() {
    let r = episode_matcher_with_pattern("{title}\\.mkv");
    match r {
        Err(Error::MissingEpisodeMatcherGroup { group }) => {
            assert_eq!(group.as_str(), "episode");
        }
        _ => panic!("expected a missing episode group"),
    }
}

#[test]
fn custom_matcher_invalid_regex() {
    let r = episode_matcher_with_pattern("{title}{episode}(");
    assert!(matches!(r, Err(Error::Regex { .. })));
}

#[test]
fn error_kind_names_are_nonempty() {
    let m = EpisodeMatcher::new();
    let err = m.parse("nothing").unwrap_err();
    assert!(!err.kind().is_empty());
}
