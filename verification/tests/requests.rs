use anime_search::requests::{
    bearer_token, flag_value, parse_episodes_flag, parse_names, plan_search, select_rules,
    RequestError, UpdateCollectionRequest, V0SearchFilter, V0SearchRequest,
};
use anime_search::types::Rule;

fn rule(name: &str) -> Rule {
    Rule {
        name: name.to_string(),
        version: "1".to_string(),
        base_url: "https://example.com".to_string(),
        search_url: "https://example.com/s?q=@keyword".to_string(),
        use_post: false,
        search_list: "//li".to_string(),
        search_name: "a".to_string(),
        search_result: "a".to_string(),
        chapter_roads: String::new(),
        chapter_result: String::new(),
        color: "blue".to_string(),
        tags: Vec::new(),
        magic: false,
    }
}

fn all() -> Vec<Rule> {
    vec![rule("AGE"), rule("mx"), rule("xf")]
}

fn names_of(rules: &[Rule]) -> Vec<&str> {
    rules.iter().map(|r| r.name.as_str()).collect()
}

#[test]
fn the_episodes_flag() {
    assert!(parse_episodes_flag("1"));
    assert!(parse_episodes_flag(" 1 "));
    assert!(parse_episodes_flag("true"));
    assert!(parse_episodes_flag("TRUE"));
    assert!(parse_episodes_flag(" True\n"));
    assert!(!parse_episodes_flag("0"));
    assert!(!parse_episodes_flag(""));
    assert!(!parse_episodes_flag("yes"));
    assert!(!parse_episodes_flag("11"));
    assert!(!parse_episodes_flag("false"));
    assert!(!parse_episodes_flag("tr ue"));
    for s in ["1", "true", "TrUe", " x ", "İ", "TRUE\u{3000}"] {
        assert_eq!(parse_episodes_flag(s), s.trim() == "1" || s.trim().to_lowercase() == "true");
    }
}

#[test]
fn the_value_of_a_flag() {
    assert!(flag_value("1", "1"));
    assert!(flag_value("TRUE", "true"));
    assert!(!flag_value("true", "TRUE"));
    assert!(!flag_value("0", "0"));
}

#[test]
fn names_are_the_trimmed_pieces_between_commas() {
    assert_eq!(parse_names("AGE, mx ,xf"), vec!["AGE", "mx", "xf"]);
    assert_eq!(parse_names("AGE"), vec!["AGE"]);
    assert_eq!(parse_names(""), vec![""]);
    assert_eq!(parse_names("a,,b,"), vec!["a", "", "b", ""]);
}

#[test]
fn rules_are_selected_by_name_in_their_own_order() {
    assert_eq!(names_of(&select_rules(&all(), "xf, AGE")), vec!["AGE", "xf"]);
    assert_eq!(names_of(&select_rules(&all(), "mx")), vec!["mx"]);
    assert_eq!(names_of(&select_rules(&all(), "mx,mx")), vec!["mx"]);
    assert!(select_rules(&all(), "age").is_empty());
    assert!(select_rules(&all(), "").is_empty());
    assert!(select_rules(&Vec::new(), "mx").is_empty());
}

#[test]
fn a_request_needs_a_title() {
    assert_eq!(plan_search(None, Some("mx"), None, &all()), Err(RequestError::KeywordRequired));
    assert_eq!(plan_search(Some("  "), Some("mx"), None, &all()), Err(RequestError::KeywordRequired));
    assert_eq!(plan_search(Some(""), None, None, &all()), Err(RequestError::KeywordRequired));
    assert_eq!(RequestError::KeywordRequired.message(), "Anime name is required");
}

#[test]
fn a_request_needs_rules() {
    assert_eq!(plan_search(Some("k"), None, None, &all()), Err(RequestError::RulesRequired));
    assert_eq!(plan_search(Some("k"), Some(" "), None, &all()), Err(RequestError::RulesRequired));
    assert_eq!(
        RequestError::RulesRequired.message(),
        "Rules are required. Use 'rules' field to specify rule names (comma separated)"
    );
}

#[test]
fn a_request_needs_a_rule_that_is_known() {
    assert_eq!(
        plan_search(Some("k"), Some("nope,none"), None, &all()),
        Err(RequestError::NoMatchingRules)
    );
    assert_eq!(plan_search(Some("k"), Some(","), None, &all()), Err(RequestError::NoMatchingRules));
    assert_eq!(RequestError::NoMatchingRules.message(), "No matching rules found");
}

#[test]
fn a_plan() {
    let plan = plan_search(Some("  进击的巨人 "), Some(" xf,AGE "), Some("true"), &all()).unwrap();
    assert_eq!(plan.keyword, "进击的巨人");
    assert_eq!(names_of(&plan.rules), vec!["AGE", "xf"]);
    assert!(plan.fetch_episodes);
    let plan = plan_search(Some("k"), Some("mx"), None, &all()).unwrap();
    assert!(!plan.fetch_episodes);
    assert_eq!(names_of(&plan.rules), vec!["mx"]);
    let plan = plan_search(Some("k"), Some("mx"), Some("no"), &all()).unwrap();
    assert!(!plan.fetch_episodes);
}

#[test]
fn the_token_of_a_header() {
    assert_eq!(bearer_token(Some("Bearer abc")), Some("abc".to_string()));
    assert_eq!(bearer_token(Some("Bearer  x")), Some(" x".to_string()));
    assert_eq!(bearer_token(Some("Bearer ")), None);
    assert_eq!(bearer_token(Some("Bearer")), None);
    assert_eq!(bearer_token(Some("bearer abc")), None);
    assert_eq!(bearer_token(Some("Basic abc")), None);
    assert_eq!(bearer_token(Some("")), None);
    assert_eq!(bearer_token(None), None);
}

#[test]
fn a_search_request_becomes_what_the_client_takes() {
    let request = V0SearchRequest {
        keyword: "k".to_string(),
        filter: Some(V0SearchFilter {
            subject_type: Some(vec![2]),
            tag: Some(vec!["a".to_string()]),
            air_date: None,
            rating: Some(vec![">=7".to_string()]),
            rank: None,
            nsfw: Some(false),
        }),
        limit: Some(10),
        offset: None,
    };
    let (search, page) = request.into_search();
    assert_eq!(search.keyword, "k");
    let filter = search.filter.unwrap();
    assert_eq!(filter.subject_type, Some(vec![2]));
    assert_eq!(filter.tag, Some(vec!["a".to_string()]));
    assert_eq!(filter.air_date, None);
    assert_eq!(filter.rating, Some(vec![">=7".to_string()]));
    assert_eq!(filter.rank, None);
    assert_eq!(filter.nsfw, Some(false));
    assert_eq!(page.limit, Some(10));
    assert_eq!(page.offset, None);
    let bare = V0SearchRequest { keyword: "k".to_string(), filter: None, limit: None, offset: Some(3) };
    let (search, page) = bare.into_search();
    assert!(search.filter.is_none());
    assert_eq!(page.offset, Some(3));
}

#[test]
fn a_collection_change_becomes_what_the_client_takes() {
    let request = UpdateCollectionRequest {
        collection_type: Some(3),
        rate: Some(8),
        ep_status: None,
        vol_status: Some(1),
        comment: Some("good".to_string()),
        private: Some(true),
        tags: Some(vec!["x".to_string()]),
    };
    let modify = request.into_modify();
    assert_eq!(modify.collection_type, Some(3));
    assert_eq!(modify.rate, Some(8));
    assert_eq!(modify.ep_status, None);
    assert_eq!(modify.vol_status, Some(1));
    assert_eq!(modify.comment.as_deref(), Some("good"));
    assert_eq!(modify.private, Some(true));
    assert_eq!(modify.tags, Some(vec!["x".to_string()]));
}
