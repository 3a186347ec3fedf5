use anime_search::http_client::HttpClientError;
use anime_search::orchestrator::{
    format_event, make_completion_event, search_events, Completion, SearchSession,
};
use anime_search::search::search_with_rule;
use anime_search::types::{
    PlatformSearchResult, Rule, SearchResultItem, StreamEvent, StreamProgress,
};

fn rule(name: &str, color: &str) -> Rule {
    Rule {
        name: name.to_string(),
        version: "1".to_string(),
        base_url: "https://example.com".to_string(),
        search_url: "https://example.com/s?q=@keyword".to_string(),
        use_post: false,
        search_list: "//li".to_string(),
        search_name: "a".to_string(),
        search_result: "a".to_string(),
        chapter_roads: String::new(),
        chapter_result: String::new(),
        color: color.to_string(),
        tags: vec!["t1".to_string(), "t2".to_string()],
        magic: false,
    }
}

fn item(n: usize) -> SearchResultItem {
    SearchResultItem {
        name: format!("title {}", n),
        url: format!("https://example.com/v/{}", n),
        tags: None,
        episodes: None,
    }
}

fn found(n: usize) -> PlatformSearchResult {
    PlatformSearchResult::with_items((1..=n).map(item).collect())
}

fn completed_of(event: &StreamEvent) -> Option<usize> {
    match event {
        StreamEvent::Progress { progress } => Some(progress.completed),
        StreamEvent::Result { progress, .. } => Some(progress.completed),
        _ => None,
    }
}

#[test]
fn five_rules_give_init_five_events_and_done() {
    let finished = vec![
        Completion { rule: rule("c", "green"), result: found(2) },
        Completion { rule: rule("a", "blue"), result: found(0) },
        Completion {
            rule: rule("e", "pink"),
            result: PlatformSearchResult::with_error("boom".to_string()),
        },
        Completion { rule: rule("b", "black"), result: found(1) },
        Completion { rule: rule("d", "white"), result: found(0) },
    ];
    let events = search_events(5, finished);
    assert_eq!(events.len(), 7);
    assert_eq!(events[0], StreamEvent::Init { total: 5 });
    assert_eq!(events[6], StreamEvent::Done { done: true });
    let counts: Vec<Option<usize>> = events[1..6].iter().map(completed_of).collect();
    assert_eq!(counts, vec![Some(1), Some(2), Some(3), Some(4), Some(5)]);
    for e in &events[1..6] {
        match e {
            StreamEvent::Progress { progress } => assert_eq!(progress.total, 5),
            StreamEvent::Result { progress, .. } => assert_eq!(progress.total, 5),
            other => panic!("unexpected {:?}", other),
        }
    }
    assert_eq!(events.iter().filter(|e| matches!(e, StreamEvent::Init { .. })).count(), 1);
    assert_eq!(events.iter().filter(|e| matches!(e, StreamEvent::Done { .. })).count(), 1);
    assert!(matches!(events[1], StreamEvent::Result { .. }));
    assert!(matches!(events[2], StreamEvent::Progress { .. }));
    assert!(matches!(events[3], StreamEvent::Result { .. }));
    assert!(matches!(events[5], StreamEvent::Progress { .. }));
}

#[test]
fn a_search_over_no_rules_opens_and_closes() {
    let events = search_events(0, Vec::new());
    assert_eq!(events, vec![StreamEvent::Init { total: 0 }, StreamEvent::Done { done: true }]);
}

#[test]
fn sources_beyond_the_total_are_not_counted() {
    let finished = vec![
        Completion { rule: rule("a", "blue"), result: found(1) },
        Completion { rule: rule("b", "blue"), result: found(1) },
        Completion { rule: rule("c", "blue"), result: found(1) },
    ];
    let events = search_events(2, finished);
    assert_eq!(events.len(), 4);
    assert_eq!(completed_of(&events[2]), Some(2));
    assert_eq!(events[3], StreamEvent::Done { done: true });
}

#[test]
fn a_search_may_close_before_every_source_finished() {
    let finished = vec![Completion { rule: rule("a", "blue"), result: found(1) }];
    let events = search_events(3, finished);
    assert_eq!(events.len(), 3);
    assert_eq!(events[0], StreamEvent::Init { total: 3 });
    assert_eq!(completed_of(&events[1]), Some(1));
    assert_eq!(events[2], StreamEvent::Done { done: true });
}

#[test]
fn a_timeout_is_reported_in_red_and_siblings_are_not_touched() {
    let a = rule("a", "blue");
    let b = rule("b", "green");
    let c = rule("c", "pink");
    let page = "<html><body><ul><li><a href=\"/v/1\">one</a></li></ul></body></html>";
    let finished = vec![
        Completion { rule: a.clone(), result: search_with_rule(&a, &Ok(page.to_string())) },
        Completion { rule: b.clone(), result: search_with_rule(&b, &Err(HttpClientError::Timeout)) },
        Completion { rule: c.clone(), result: search_with_rule(&c, &Ok(page.to_string())) },
    ];
    let events = search_events(3, finished);
    assert_eq!(events.len(), 5);
    match &events[2] {
        StreamEvent::Result { progress, result } => {
            assert_eq!(*progress, StreamProgress { completed: 2, total: 3 });
            assert_eq!(result.name, "b");
            assert_eq!(result.color, "red");
            assert_eq!(result.error.as_deref(), Some("请求超时"));
            assert!(result.items.is_empty());
            assert_eq!(result.tags, vec!["t1".to_string(), "t2".to_string()]);
        },
        other => panic!("unexpected {:?}", other),
    }
    for (k, name, color) in [(1usize, "a", "blue"), (3usize, "c", "pink")] {
        match &events[k] {
            StreamEvent::Result { progress, result } => {
                assert_eq!(progress.completed, k);
                assert_eq!(result.name, name);
                assert_eq!(result.color, color);
                assert_eq!(result.error, None);
                assert_eq!(result.items.len(), 1);
                assert_eq!(result.items[0].url, "https://example.com/v/1");
            },
            other => panic!("unexpected {:?}", other),
        }
    }
}

#[test]
fn the_event_of_a_source_does_not_depend_on_its_siblings() {
    let a = rule("a", "blue");
    let alone = search_events(2, vec![
        Completion { rule: a.clone(), result: found(2) },
        Completion { rule: rule("b", "green"), result: found(1) },
    ]);
    let beside_a_failure = search_events(2, vec![
        Completion { rule: a.clone(), result: found(2) },
        Completion {
            rule: rule("b", "green"),
            result: PlatformSearchResult::with_error("boom".to_string()),
        },
    ]);
    assert_eq!(alone[1], beside_a_failure[1]);
    assert_ne!(alone[2], beside_a_failure[2]);
}

#[test]
fn a_silent_success_is_a_bare_progress() {
    let p = StreamProgress { completed: 1, total: 4 };
    let e = make_completion_event(&rule("a", "blue"), found(0), p);
    assert_eq!(e, StreamEvent::Progress { progress: p });
}

#[test]
fn a_success_keeps_the_color_of_the_rule() {
    let p = StreamProgress { completed: 3, total: 4 };
    match make_completion_event(&rule("a", "blue"), found(2), p) {
        StreamEvent::Result { progress, result } => {
            assert_eq!(progress, p);
            assert_eq!(result.name, "a");
            assert_eq!(result.color, "blue");
            assert_eq!(result.items, vec![item(1), item(2)]);
            assert_eq!(result.error, None);
        },
        other => panic!("unexpected {:?}", other),
    }
}

#[test]
fn a_session_counts_up_to_its_total() {
    let (mut session, init) = SearchSession::start(2);
    assert_eq!(init, StreamEvent::Init { total: 2 });
    assert_eq!(session.progress(), StreamProgress { completed: 0, total: 2 });
    assert!(!session.is_complete());
    let first = session.complete(&rule("a", "blue"), found(0)).unwrap();
    assert_eq!(first, StreamEvent::Progress { progress: StreamProgress { completed: 1, total: 2 } });
    let second = session.complete(&rule("b", "blue"), found(0)).unwrap();
    assert_eq!(completed_of(&second), Some(2));
    assert!(session.is_complete());
    assert!(session.complete(&rule("c", "blue"), found(1)).is_none());
    assert_eq!(session.progress(), StreamProgress { completed: 2, total: 2 });
    assert_eq!(session.finish(), StreamEvent::Done { done: true });
}

#[test]
fn an_event_is_framed_by_a_line_feed() {
    assert_eq!(format_event("{\"done\":true}"), "{\"done\":true}\n");
    assert_eq!(format_event(""), "\n");
}
