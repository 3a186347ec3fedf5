use anime_search::engine::SearchError;
use anime_search::http_client::{HttpClientError, Method};
use anime_search::links::UrlParts;
use anime_search::search::{
    attach_episodes, episode_fetch_count, execute_search, execute_search_with_episodes,
    fetch_episodes, post_request_from, search_request, search_with_rule,
    search_with_rule_and_episodes, to_platform_result, unique_fields, MAX_EPISODE_ITEMS,
};
use anime_search::types::{Episode, EpisodeRoad, Rule, SearchResultItem};

fn rule() -> Rule {
    Rule {
        name: "demo".to_string(),
        version: "1.0".to_string(),
        base_url: "https://example.com".to_string(),
        search_url: "https://example.com/search?q=@keyword".to_string(),
        use_post: false,
        search_list: "//div[@class='i']".to_string(),
        search_name: "a".to_string(),
        search_result: "a".to_string(),
        chapter_roads: "//div[@class='road']".to_string(),
        chapter_result: "a".to_string(),
        color: "blue".to_string(),
        tags: vec!["anime".to_string()],
        magic: false,
    }
}

fn pair(k: &str, v: &str) -> (String, String) {
    (k.to_string(), v.to_string())
}

fn item(n: usize) -> SearchResultItem {
    SearchResultItem {
        name: format!("title {}", n),
        url: format!("https://example.com/v/{}", n),
        tags: None,
        episodes: None,
    }
}

fn result_page(n: usize) -> String {
    let mut html = String::from("<html><body>");
    for i in 1..=n {
        html.push_str(&format!("<div class=\"i\"><a href=\"/v/{}\">title {}</a></div>", i, i));
    }
    html.push_str("</body></html>");
    html
}

const DETAIL: &str =
    "<html><body><div class=\"road\"><a href=\"/p/1\">01</a><a href=\"/p/2\">02</a></div></body></html>";

#[test]
fn the_keyword_is_percent_encoded_into_the_url() {
    let r = search_request(&rule(), "进击 的/巨人").unwrap();
    assert_eq!(r.method, Method::Get);
    assert_eq!(
        r.url,
        "https://example.com/search?q=%E8%BF%9B%E5%87%BB%20%E7%9A%84%2F%E5%B7%A8%E4%BA%BA"
    );
    assert!(r.form.is_empty());
    assert_eq!(
        r.headers,
        vec![
            pair("Referer", "https://example.com"),
            pair("Accept-Language", "zh-CN,zh;q=0.9,en;q=0.8"),
            pair("Connection", "keep-alive"),
        ]
    );
}

#[test]
fn unreserved_characters_stay() {
    let r = search_request(&rule(), "aZ09-._~").unwrap();
    assert_eq!(r.url, "https://example.com/search?q=aZ09-._~");
    let r = search_request(&rule(), "a+b&c=d").unwrap();
    assert_eq!(r.url, "https://example.com/search?q=a%2Bb%26c%3Dd");
    let r = search_request(&rule(), "").unwrap();
    assert_eq!(r.url, "https://example.com/search?q=");
}

#[test]
fn every_place_holder_is_filled() {
    let mut r = rule();
    r.search_url = "https://example.com/@keyword/s?q=@keyword".to_string();
    assert_eq!(search_request(&r, "k t").unwrap().url, "https://example.com/k%20t/s?q=k%20t");
    r.search_url = "https://example.com/list".to_string();
    assert_eq!(search_request(&r, "k").unwrap().url, "https://example.com/list");
}

#[test]
fn a_posting_rule_posts_the_query_as_a_form() {
    let mut r = rule();
    r.use_post = true;
    r.search_url = "https://example.com/search.php?wd=@keyword&type=1&wd=last#top".to_string();
    let q = search_request(&r, "进击").unwrap();
    assert_eq!(q.method, Method::PostForm);
    assert_eq!(q.url, "https://example.com/search.php");
    assert_eq!(q.form, vec![pair("type", "1"), pair("wd", "last")]);
    assert_eq!(q.headers[0], pair("Referer", "https://example.com"));
}

#[test]
fn the_form_holds_the_decoded_keyword() {
    let mut r = rule();
    r.use_post = true;
    r.search_url = "https://example.com/index.php/search?wd=@keyword".to_string();
    let q = search_request(&r, "进击 的").unwrap();
    assert_eq!(q.url, "https://example.com/index.php/search");
    assert_eq!(q.form, vec![pair("wd", "进击 的")]);
}

#[test]
fn a_posting_rule_needs_an_absolute_url() {
    let mut r = rule();
    r.use_post = true;
    r.search_url = "/search?wd=@keyword".to_string();
    let e = search_request(&r, "x").unwrap_err();
    assert_eq!(e, SearchError::InvalidUrl("relative URL without a base".to_string()));
    assert_eq!(e.message(), "relative URL without a base");
}

#[test]
fn a_posted_search_keeps_the_port() {
    let mut r = rule();
    r.use_post = true;
    r.search_url = "https://x.test:8443/s?wd=@keyword&t=1".to_string();
    r.base_url = "https://x.test:8443".to_string();
    let q = search_request(&r, "k").unwrap();
    assert_eq!(q.method, Method::PostForm);
    assert_eq!(q.url, "https://x.test:8443/s");
    assert_eq!(q.form, vec![pair("wd", "k"), pair("t", "1")]);
    assert_eq!(
        q.headers,
        vec![
            pair("Referer", "https://x.test:8443"),
            pair("Accept-Language", "zh-CN,zh;q=0.9,en;q=0.8"),
            pair("Connection", "keep-alive"),
        ]
    );
}

#[test]
fn a_posted_search_goes_to_the_url_as_it_is_written() {
    let mut r = rule();
    r.use_post = true;
    r.search_url = "http://user:pw@X.test:80/a/b/?wd=@keyword".to_string();
    let q = search_request(&r, "k t").unwrap();
    assert_eq!(q.url, "http://user:pw@X.test:80/a/b/");
    assert_eq!(q.form, vec![pair("wd", "k t")]);
    r.search_url = "https://x.test/search".to_string();
    let q = search_request(&r, "k").unwrap();
    assert_eq!(q.url, "https://x.test/search");
    assert!(q.form.is_empty());
    r.search_url = "https://x.test?wd=@keyword".to_string();
    let q = search_request(&r, "k").unwrap();
    assert_eq!(q.url, "https://x.test");
    assert_eq!(q.form, vec![pair("wd", "k")]);
}

#[test]
fn post_request_from_parts() {
    let parts = UrlParts {
        scheme: "https".to_string(),
        host: Some("x.test".to_string()),
        query: vec![pair("wd", "k"), pair("t", "1"), pair("wd", "z")],
    };
    let url = "https://x.test:8443/s?wd=k&t=1&wd=z";
    let q = post_request_from(url, Ok(parts), "https://x.test:8443").unwrap();
    assert_eq!(q.method, Method::PostForm);
    assert_eq!(q.url, "https://x.test:8443/s");
    assert_eq!(q.form, vec![pair("t", "1"), pair("wd", "z")]);
    assert_eq!(q.headers[0], pair("Referer", "https://x.test:8443"));
}

#[test]
fn post_request_from_a_parse_error() {
    let refused = Err("empty host".to_string());
    let e = post_request_from("https:///s?a=1", refused, "https://example.com").unwrap_err();
    assert_eq!(e, SearchError::InvalidUrl("empty host".to_string()));
}

#[test]
fn unique_fields_keeps_the_last_value_of_each_key() {
    let pairs = vec![pair("a", "1"), pair("b", "2"), pair("a", "3"), pair("c", "4"), pair("b", "5")];
    assert_eq!(unique_fields(&pairs), vec![pair("a", "3"), pair("c", "4"), pair("b", "5")]);
    assert!(unique_fields(&Vec::new()).is_empty());
    let single = vec![pair("a", "1")];
    assert_eq!(unique_fields(&single), single);
}

#[test]
fn a_failed_fetch_is_the_error_of_the_search() {
    let page = Err(HttpClientError::BadStatus(503));
    let e = execute_search(&rule(), &page).unwrap_err();
    assert_eq!(e, SearchError::Http(HttpClientError::BadStatus(503)));
    assert_eq!(e.message(), "响应异常状态码: 503");
}

#[test]
fn a_timeout_gives_a_result_with_an_error_and_no_items() {
    let r = search_with_rule(&rule(), &Err(HttpClientError::Timeout));
    assert!(r.items.is_empty());
    assert_eq!(r.count, 0);
    assert_eq!(r.error.as_deref(), Some("请求超时"));
    let r = search_with_rule_and_episodes(&rule(), &Err(HttpClientError::Timeout), &Vec::new());
    assert!(r.items.is_empty());
    assert_eq!(r.error.as_deref(), Some("请求超时"));
}

#[test]
fn a_page_gives_a_result_with_its_items() {
    let r = search_with_rule(&rule(), &Ok(result_page(3)));
    assert_eq!(r.count, 3);
    assert_eq!(r.items.len(), 3);
    assert!(r.error.is_none());
    assert_eq!(r.items[2].name, "title 3");
    assert_eq!(r.items[2].url, "https://example.com/v/3");
}

#[test]
fn an_extraction_error_is_the_error_of_the_result() {
    let mut broken = rule();
    broken.search_list = "//div[".to_string();
    let r = search_with_rule(&broken, &Ok(result_page(3)));
    assert!(r.items.is_empty());
    assert_eq!(r.count, 0);
    assert_eq!(r.error.as_deref(), Some("无效的列表 XPath: //div["));
}

#[test]
fn a_page_without_items_gives_an_empty_result() {
    let r = search_with_rule(&rule(), &Ok(result_page(0)));
    assert!(r.items.is_empty());
    assert_eq!(r.count, 0);
    assert!(r.error.is_none());
}

#[test]
fn fetch_count_is_capped_at_five() {
    assert_eq!(MAX_EPISODE_ITEMS, 5);
    assert_eq!(episode_fetch_count(&rule(), 0), 0);
    assert_eq!(episode_fetch_count(&rule(), 3), 3);
    assert_eq!(episode_fetch_count(&rule(), 5), 5);
    assert_eq!(episode_fetch_count(&rule(), 8), 5);
    let mut plain = rule();
    plain.chapter_roads = String::new();
    assert_eq!(episode_fetch_count(&plain, 8), 0);
    let mut plain = rule();
    plain.chapter_result = String::new();
    assert_eq!(episode_fetch_count(&plain, 8), 0);
}

#[test]
fn only_the_first_five_items_get_episodes() {
    let items: Vec<SearchResultItem> = (1..=8).map(item).collect();
    let pages: Vec<Result<String, HttpClientError>> =
        (0..8).map(|_| Ok(DETAIL.to_string())).collect();
    let out = execute_search_with_episodes(&rule(), items, &pages);
    assert_eq!(out.len(), 8);
    for (i, it) in out.iter().enumerate() {
        assert_eq!(it.name, format!("title {}", i + 1));
        assert_eq!(it.url, format!("https://example.com/v/{}", i + 1));
        if i < 5 {
            let roads = it.episodes.as_ref().expect("episodes");
            assert_eq!(roads.len(), 1);
            assert_eq!(roads[0].name, None);
            assert_eq!(roads[0].episodes.len(), 2);
            assert_eq!(roads[0].episodes[1].url, "https://example.com/p/2");
        } else {
            assert!(it.episodes.is_none());
        }
    }
}

#[test]
fn a_failed_detail_page_leaves_the_item_without_episodes() {
    let items: Vec<SearchResultItem> = (1..=3).map(item).collect();
    let pages: Vec<Result<String, HttpClientError>> = vec![
        Ok(DETAIL.to_string()),
        Err(HttpClientError::Timeout),
        Ok("<html><body><p>nothing</p></body></html>".to_string()),
    ];
    let out = execute_search_with_episodes(&rule(), items, &pages);
    assert!(out[0].episodes.is_some());
    assert!(out[1].episodes.is_none());
    assert!(out[2].episodes.is_none());
}

#[test]
fn missing_pages_leave_items_as_they_are() {
    let items: Vec<SearchResultItem> = (1..=3).map(item).collect();
    let pages: Vec<Result<String, HttpClientError>> = vec![Ok(DETAIL.to_string())];
    let out = execute_search_with_episodes(&rule(), items, &pages);
    assert!(out[0].episodes.is_some());
    assert!(out[1].episodes.is_none());
    assert!(out[2].episodes.is_none());
}

#[test]
fn a_rule_without_chapter_selectors_fetches_nothing() {
    let mut plain = rule();
    plain.chapter_roads = String::new();
    let roads = fetch_episodes(&plain, "https://example.com/v/1", &Ok(DETAIL.to_string())).unwrap();
    assert!(roads.is_empty());
    let roads = fetch_episodes(&plain, "https://example.com/v/1", &Err(HttpClientError::Timeout))
        .unwrap();
    assert!(roads.is_empty());
    let items: Vec<SearchResultItem> = (1..=2).map(item).collect();
    let pages: Vec<Result<String, HttpClientError>> =
        (0..2).map(|_| Ok(DETAIL.to_string())).collect();
    let out = execute_search_with_episodes(&plain, items, &pages);
    assert!(out.iter().all(|i| i.episodes.is_none()));
}

#[test]
fn fetch_episodes_reads_the_detail_page() {
    let roads = fetch_episodes(&rule(), "https://play.test/v/1", &Ok(DETAIL.to_string())).unwrap();
    assert_eq!(roads.len(), 1);
    assert_eq!(roads[0].episodes[0].url, "https://play.test/p/1");
    let e = fetch_episodes(&rule(), "https://play.test/v/1", &Err(HttpClientError::Timeout))
        .unwrap_err();
    assert_eq!(e, SearchError::Http(HttpClientError::Timeout));
}

#[test]
fn attach_episodes_takes_roads_where_there_are_any() {
    let road = EpisodeRoad {
        name: None,
        episodes: vec![Episode { name: "01".to_string(), url: "https://x/1".to_string() }],
    };
    let with = attach_episodes(item(1), Ok(vec![road.clone()]));
    assert_eq!(with.episodes, Some(vec![road]));
    assert_eq!(with.name, "title 1");
    assert_eq!(attach_episodes(item(1), Ok(Vec::new())), item(1));
    assert_eq!(attach_episodes(item(1), Err(SearchError::NodeContext)), item(1));
}

#[test]
fn search_with_episodes_end_to_end() {
    let pages: Vec<Result<String, HttpClientError>> =
        (0..5).map(|_| Ok(DETAIL.to_string())).collect();
    let r = search_with_rule_and_episodes(&rule(), &Ok(result_page(8)), &pages);
    assert_eq!(r.count, 8);
    assert!(r.error.is_none());
    assert_eq!(r.items.iter().filter(|i| i.episodes.is_some()).count(), 5);
    assert!(r.items[..5].iter().all(|i| i.episodes.is_some()));
    assert!(r.items[5..].iter().all(|i| i.episodes.is_none()));
}

#[test]
fn to_platform_result_of_both_outcomes() {
    let r = to_platform_result(Ok(vec![item(1), item(2)]));
    assert_eq!(r.count, 2);
    assert_eq!(r.items, vec![item(1), item(2)]);
    assert_eq!(r.error, None);
    let r = to_platform_result(Err(SearchError::XPathContext));
    assert_eq!(r.count, 0);
    assert!(r.items.is_empty());
    assert_eq!(r.error.as_deref(), Some("创建 XPath 上下文失败"));
}
