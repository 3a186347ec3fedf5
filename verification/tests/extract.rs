use anime_search::extract::{
    assemble_roads, build_episode, build_item, collect_episodes, collect_items, make_road_label,
    Candidate, EpisodeEntry,
};

fn candidate(name: &str, href: &str) -> Candidate {
    Candidate { name: name.to_string(), href: href.to_string() }
}

fn entry(content: &str, href: Option<&str>) -> EpisodeEntry {
    EpisodeEntry { content: content.to_string(), href: href.map(|h| h.to_string()) }
}

#[test]
fn every_valid_candidate_becomes_an_item_in_order() {
    let candidates: Vec<Candidate> =
        (1..=6).map(|i| candidate(&format!("t{}", i), &format!("/v/{}", i))).collect();
    let items = collect_items(candidates, "https://x.test/");
    assert_eq!(items.len(), 6);
    for (i, item) in items.iter().enumerate() {
        assert_eq!(item.name, format!("t{}", i + 1));
        assert_eq!(item.url, format!("https://x.test/v/{}", i + 1));
        assert_eq!(item.tags, None);
        assert_eq!(item.episodes, None);
    }
}

#[test]
fn candidates_without_name_or_link_have_no_item() {
    let candidates = vec![
        candidate("", "/v/0"),
        candidate("a", "/v/1"),
        candidate("b", ""),
        candidate("", ""),
        candidate("c", "https://y.test/3"),
        candidate("d", "//z.test/4"),
    ];
    let items = collect_items(candidates, "https://x.test");
    let got: Vec<(&str, &str)> = items.iter().map(|i| (i.name.as_str(), i.url.as_str())).collect();
    assert_eq!(
        got,
        vec![("a", "https://x.test/v/1"), ("c", "https://y.test/3"), ("d", "https://z.test/4")]
    );
    assert!(collect_items(Vec::new(), "https://x.test").is_empty());
}

#[test]
fn build_item_wants_name_and_link() {
    assert!(build_item(candidate("", "/v"), "https://x.test").is_none());
    assert!(build_item(candidate("a", ""), "https://x.test").is_none());
    let item = build_item(candidate("a", "v"), "https://x.test").unwrap();
    assert_eq!(item.name, "a");
    assert_eq!(item.url, "https://x.test/v");
}

#[test]
fn an_episode_wants_name_and_link() {
    assert!(build_episode(&entry("  ", Some("/p/1")), "https://x.test").is_none());
    assert!(build_episode(&entry("01", None), "https://x.test").is_none());
    assert!(build_episode(&entry("01", Some("")), "https://x.test").is_none());
    let e = build_episode(&entry(" 第01集\n", Some("/p/1")), "https://x.test").unwrap();
    assert_eq!(e.name, "第01集");
    assert_eq!(e.url, "https://x.test/p/1");
}

#[test]
fn episodes_keep_their_order() {
    let entries = vec![
        entry("01", Some("/p/1")),
        entry("", Some("/p/2")),
        entry("03", Some("/p/3")),
        entry("04", None),
    ];
    let episodes = collect_episodes(&entries, "https://x.test");
    let names: Vec<&str> = episodes.iter().map(|e| e.name.as_str()).collect();
    assert_eq!(names, vec!["01", "03"]);
    assert_eq!(episodes[1].url, "https://x.test/p/3");
}

#[test]
fn road_labels() {
    assert_eq!(make_road_label(0), "线路1");
    assert_eq!(make_road_label(1), "线路2");
    assert_eq!(make_road_label(9), "线路10");
    assert_eq!(make_road_label(41), "线路42");
}

#[test]
fn roads_are_labeled_by_the_index_of_their_play_source() {
    let sources = vec![
        vec![entry("01", Some("/a/1"))],
        vec![entry("01", None)],
        Vec::new(),
        vec![entry("01", Some("/d/1")), entry("02", Some("/d/2"))],
    ];
    let roads = assemble_roads(&sources, "https://x.test");
    assert_eq!(roads.len(), 2);
    assert_eq!(roads[0].name.as_deref(), Some("线路1"));
    assert_eq!(roads[0].episodes.len(), 1);
    assert_eq!(roads[1].name.as_deref(), Some("线路4"));
    assert_eq!(roads[1].episodes.len(), 2);
    assert_eq!(roads[1].episodes[1].url, "https://x.test/d/2");
}

#[test]
fn the_only_road_has_no_label() {
    let sources = vec![Vec::new(), vec![entry("01", Some("/b/1"))], vec![entry("", Some("/c"))]];
    let roads = assemble_roads(&sources, "https://x.test");
    assert_eq!(roads.len(), 1);
    assert_eq!(roads[0].name, None);
    assert_eq!(roads[0].episodes[0].url, "https://x.test/b/1");
    let one = vec![vec![entry("01", Some("/b/1"))]];
    assert_eq!(assemble_roads(&one, "https://x.test")[0].name, None);
}

#[test]
fn no_sources_no_roads() {
    assert!(assemble_roads(&Vec::new(), "https://x.test").is_empty());
    assert!(assemble_roads(&vec![Vec::new(), Vec::new()], "https://x.test").is_empty());
}
