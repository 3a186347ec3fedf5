use anime_search::types::{
    clone_episodes, clone_roads, Episode, EpisodeRoad, PlatformSearchResult, Rule, SearchResultItem,
};

fn rule() -> Rule {
    Rule {
        name: "demo".to_string(),
        version: "1.0".to_string(),
        base_url: "https://example.com".to_string(),
        search_url: "https://example.com/search?q=@keyword".to_string(),
        use_post: true,
        search_list: "//li".to_string(),
        search_name: "a".to_string(),
        search_result: "a".to_string(),
        chapter_roads: "//div".to_string(),
        chapter_result: "a".to_string(),
        color: "blue".to_string(),
        tags: vec!["x".to_string(), "y".to_string()],
        magic: true,
    }
}

fn road() -> EpisodeRoad {
    EpisodeRoad {
        name: Some("线路1".to_string()),
        episodes: vec![Episode { name: "01".to_string(), url: "https://x/1".to_string() }],
    }
}

#[test]
fn clones_are_equal() {
    assert_eq!(rule().clone(), rule());
    assert_eq!(road().clone(), road());
    let item = SearchResultItem {
        name: "t".to_string(),
        url: "https://x/t".to_string(),
        tags: Some(vec!["a".to_string()]),
        episodes: Some(vec![road(), road()]),
    };
    assert_eq!(item.clone(), item);
    assert_eq!(clone_roads(&vec![road()]), vec![road()]);
    assert_eq!(clone_episodes(&road().episodes), road().episodes);
}

#[test]
fn a_rule_has_chapters_when_both_selectors_are_there() {
    assert!(rule().has_chapters());
    let mut r = rule();
    r.chapter_roads = String::new();
    assert!(!r.has_chapters());
    let mut r = rule();
    r.chapter_result = String::new();
    assert!(!r.has_chapters());
}

#[test]
fn results_with_items_and_with_an_error() {
    let item = SearchResultItem {
        name: "t".to_string(),
        url: "https://x/t".to_string(),
        tags: None,
        episodes: None,
    };
    let r = PlatformSearchResult::with_items(vec![item.clone(), item.clone()]);
    assert_eq!(r.count, 2);
    assert_eq!(r.items.len(), 2);
    assert_eq!(r.error, None);
    let r = PlatformSearchResult::with_items(Vec::new());
    assert_eq!(r.count, 0);
    assert_eq!(r.error, None);
    let r = PlatformSearchResult::with_error("boom".to_string());
    assert_eq!(r.count, 0);
    assert!(r.items.is_empty());
    assert_eq!(r.error.as_deref(), Some("boom"));
}
