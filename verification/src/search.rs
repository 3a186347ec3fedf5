//! The search of one source.
//!
//! A search is a request, a page and what is read in it. `search_request` says
//! which request a rule makes for a keyword. `search_with_rule` turns what came
//! back into the result for the source. Where episodes are wanted,
//! `episode_fetch_count` says for how many of the items a detail page is to be
//! fetched, and `search_with_rule_and_episodes` reads those pages too.

use crate::dom::document_source;
use crate::engine::{
    candidates_read, is_episodes_outcome, is_page_outcome, is_search_outcome, items_outcome,
    parse_episodes_xpath, parse_search_results_xpath, roads_outcome, selected, SearchError,
    SearchErrorModel,
};
use crate::extract::{kept_items, lemma_item_source, CandidateModel};
use crate::http_client::{
    get_request, page_headers, page_model, post_form_request, HttpClientError,
    HttpClientErrorModel, HttpRequest, HttpRequestModel, Method,
};
use crate::links::{
    parse_model, parse_url, parsed_url, strip_query, without_query, UrlParts, UrlPartsModel,
};
use crate::text::{replace_all, replaced, same_text};
use crate::xpath::normalized_xpath;
use libxml::tree::Document;
use crate::types::{
    EpisodeRoad, EpisodeRoadModel, PlatformSearchResult, PlatformSearchResultModel, Rule,
    RuleModel, SearchResultItem, SearchResultItemModel,
};
use vstd::prelude::*;
use vstd::string::*;

verus! {

/// For how many items of one search detail pages are fetched at most.
pub const MAX_EPISODE_ITEMS: usize = 5;

/// The bytes that a percent-encoding leaves as they are: letters, digits, `-`,
/// `.`, `_` and `~`.
pub open spec fn is_unreserved(b: u8) -> bool {
    ||| (0x30 <= b && b <= 0x39)
    ||| (0x41 <= b && b <= 0x5a)
    ||| (0x61 <= b && b <= 0x7a)
    ||| b == 0x2d
    ||| b == 0x2e
    ||| b == 0x5f
    ||| b == 0x7e
}

/// The upper-case hexadecimal digit for `d`.
pub open spec fn hex_char(d: int) -> char {
    if d == 0 {
        '0'
    } else if d == 1 {
        '1'
    } else if d == 2 {
        '2'
    } else if d == 3 {
        '3'
    } else if d == 4 {
        '4'
    } else if d == 5 {
        '5'
    } else if d == 6 {
        '6'
    } else if d == 7 {
        '7'
    } else if d == 8 {
        '8'
    } else if d == 9 {
        '9'
    } else if d == 10 {
        'A'
    } else if d == 11 {
        'B'
    } else if d == 12 {
        'C'
    } else if d == 13 {
        'D'
    } else if d == 14 {
        'E'
    } else {
        'F'
    }
}

/// One byte, percent-encoded: itself where it is unreserved, else `%` and its
/// two hexadecimal digits.
pub open spec fn encoded_byte(b: u8) -> Seq<char> {
    if is_unreserved(b) {
        seq![b as char]
    } else {
        seq!['%', hex_char(b as int / 16), hex_char(b as int % 16)]
    }
}

/// `bytes`, percent-encoded byte by byte.
pub open spec fn percent_encoded(bytes: Seq<u8>) -> Seq<char>
    decreases bytes.len(),
{
    if bytes.len() == 0 {
        Seq::empty()
    } else {
        percent_encoded(bytes.drop_last()) + encoded_byte(bytes.last())
    }
}

/// Percent-encodes `keyword` with `urlencoding::encode`, which encodes every
/// byte of the UTF-8 form of its argument except letters, digits, `-`, `.`, `_`
/// and `~`, with upper-case hexadecimal digits.
#[verifier::external_body]
pub(crate) fn encode_keyword(keyword: &str) -> (r: String)
    ensures
        r@ == percent_encoded(keyword.spec_bytes()),
{
    urlencoding::encode(keyword).into_owned()
}

/// The place holder for the keyword in a search URL: `@keyword`.
pub open spec fn keyword_token() -> Seq<char> {
    seq!['@', 'k', 'e', 'y', 'w', 'o', 'r', 'd']
}

/// The search URL of `rule` for a keyword with the given UTF-8 form: the rule's
/// URL with the percent-encoded keyword in each place of the place holder.
pub open spec fn search_url_for(rule: RuleModel, keyword: Seq<u8>) -> Seq<char> {
    replaced(rule.search_url, keyword_token(), percent_encoded(keyword))
}

/// Whether a pair after the one at `i` has the same key.
pub open spec fn has_later_key(pairs: Seq<(Seq<char>, Seq<char>)>, i: int) -> bool {
    exists|j: int| i < j < pairs.len() && (#[trigger] pairs[j]).0 == pairs[i].0
}

/// The fields among the first `n` pairs: each pair whose key does not come again
/// later, in order.
pub open spec fn fields_upto(pairs: Seq<(Seq<char>, Seq<char>)>, n: nat) -> Seq<
    (Seq<char>, Seq<char>),
>
    decreases n,
{
    if n == 0 {
        Seq::empty()
    } else {
        let before = fields_upto(pairs, (n - 1) as nat);
        if has_later_key(pairs, n - 1) {
            before
        } else {
            before.push(pairs[n - 1])
        }
    }
}

/// The form fields that the pairs of a query string make: one for each key, with
/// the value that the key has where it comes last. They are what a map from key
/// to value holds after the pairs were put into it one by one, in the order in
/// which the keys come last.
pub open spec fn form_fields(pairs: Seq<(Seq<char>, Seq<char>)>) -> Seq<(Seq<char>, Seq<char>)> {
    fields_upto(pairs, pairs.len())
}

proof fn lemma_fields_grow(pairs: Seq<(Seq<char>, Seq<char>)>, i: nat, j: nat)
    requires
        i <= j,
    ensures
        fields_upto(pairs, i).len() <= fields_upto(pairs, j).len(),
        i < j && !has_later_key(pairs, i as int) ==> fields_upto(pairs, i).len() < fields_upto(
            pairs,
            j,
        ).len(),
    decreases j - i,
{
    if i < j {
        lemma_fields_grow(pairs, i, (j - 1) as nat);
    }
}

proof fn lemma_field_source_upto(pairs: Seq<(Seq<char>, Seq<char>)>, n: nat, k: int) -> (i: int)
    requires
        0 <= k < fields_upto(pairs, n).len(),
    ensures
        0 <= i < n,
        !has_later_key(pairs, i),
        fields_upto(pairs, n)[k] == pairs[i],
        fields_upto(pairs, i as nat).len() == k,
    decreases n,
{
    if k < fields_upto(pairs, (n - 1) as nat).len() {
        lemma_field_source_upto(pairs, (n - 1) as nat, k)
    } else {
        n - 1
    }
}

/// Every form field is a pair whose key does not come again later, which the
/// result names; so a field holds the value that its key has where it comes
/// last.
pub proof fn lemma_field_source(pairs: Seq<(Seq<char>, Seq<char>)>, k: int) -> (i: int)
    requires
        0 <= k < form_fields(pairs).len(),
    ensures
        0 <= i < pairs.len(),
        form_fields(pairs)[k] == pairs[i],
        forall|j: int| i < j < pairs.len() ==> (#[trigger] pairs[j]).0 != pairs[i].0,
{
    lemma_field_source_upto(pairs, pairs.len(), k)
}

/// No two form fields have the same key.
pub proof fn lemma_fields_have_distinct_keys(pairs: Seq<(Seq<char>, Seq<char>)>, a: int, b: int)
    requires
        0 <= a < b < form_fields(pairs).len(),
    ensures
        form_fields(pairs)[a].0 != form_fields(pairs)[b].0,
{
    let i = lemma_field_source_upto(pairs, pairs.len(), a);
    let j = lemma_field_source_upto(pairs, pairs.len(), b);
    if j <= i {
        lemma_fields_grow(pairs, j as nat, i as nat);
    }
    assert(i < j);
    assert(pairs[j].0 != pairs[i].0);
}

/// Every key of the pairs has a form field, which the result names.
pub proof fn lemma_every_key_has_a_field(pairs: Seq<(Seq<char>, Seq<char>)>, i: int) -> (k: int)
    requires
        0 <= i < pairs.len(),
    ensures
        0 <= k < form_fields(pairs).len(),
        form_fields(pairs)[k].0 == pairs[i].0,
    decreases pairs.len() - i,
{
    if has_later_key(pairs, i) {
        let j = choose|j: int| i < j < pairs.len() && (#[trigger] pairs[j]).0 == pairs[i].0;
        lemma_every_key_has_a_field(pairs, j)
    } else {
        lemma_field_at_rank(pairs, i as nat, pairs.len());
        fields_upto(pairs, i as nat).len() as int
    }
}

proof fn lemma_field_at_rank(pairs: Seq<(Seq<char>, Seq<char>)>, i: nat, n: nat)
    requires
        i < n,
        !has_later_key(pairs, i as int),
    ensures
        fields_upto(pairs, i).len() < fields_upto(pairs, n).len(),
        fields_upto(pairs, n)[fields_upto(pairs, i).len() as int] == pairs[i as int],
    decreases n,
{
    if i < n - 1 {
        lemma_field_at_rank(pairs, i, (n - 1) as nat);
    }
}

/// The request that posts the query of the search URL `url` as a form, given
/// what the URL parser made of `url`: it goes to `url` with nothing but its
/// query taken away, posts the fields of the query, and carries `referer`. A
/// search URL that did not parse gives the parser's error.
pub open spec fn post_request_for(
    url: Seq<char>,
    parsed: Result<UrlPartsModel, Seq<char>>,
    referer: Seq<char>,
) -> Result<HttpRequestModel, SearchErrorModel> {
    match parsed {
        Ok(parts) => Ok(
            HttpRequestModel {
                method: Method::PostForm,
                url: without_query(url),
                form: form_fields(parts.query),
                headers: page_headers(Some(referer)),
            },
        ),
        Err(message) => Err(SearchErrorModel::InvalidUrl(message)),
    }
}

/// The request that `rule` makes for a keyword with the given UTF-8 form.
pub open spec fn search_request_for(rule: RuleModel, keyword: Seq<u8>) -> Result<
    HttpRequestModel,
    SearchErrorModel,
> {
    let url = search_url_for(rule, keyword);
    if rule.use_post {
        post_request_for(url, parsed_url(url), rule.base_url)
    } else {
        Ok(
            HttpRequestModel {
                method: Method::Get,
                url,
                form: Seq::empty(),
                headers: page_headers(Some(rule.base_url)),
            },
        )
    }
}

/// The form fields of the pairs of a query string.
pub fn unique_fields(pairs: &Vec<(String, String)>) -> (fields: Vec<(String, String)>)
    ensures
        fields.deep_view() == form_fields(pairs.deep_view()),
{
    let ghost all = pairs.deep_view();
    let n = pairs.len();
    let mut fields: Vec<(String, String)> = Vec::new();
    let mut i: usize = 0;
    proof {
        assert(fields.deep_view() =~= Seq::<(Seq<char>, Seq<char>)>::empty());
    }
    while i < n
        invariant
            i <= n,
            n == pairs.len(),
            all == pairs.deep_view(),
            fields.deep_view() == fields_upto(all, i as nat),
        decreases n - i,
    {
        let mut later = false;
        let mut j: usize = i + 1;
        while j < n && !later
            invariant
                i < j <= n,
                n == pairs.len(),
                all == pairs.deep_view(),
                later ==> has_later_key(all, i as int),
                !later ==> forall|k: int| i < k < j ==> (#[trigger] all[k]).0 != all[i as int].0,
            decreases n - j + (if later { 0int } else { 1int }),
        {
            proof {
                assert(all[j as int] == pairs@[j as int].deep_view());
                assert(all[i as int] == pairs@[i as int].deep_view());
            }
            if same_text(pairs[j].0.as_str(), pairs[i].0.as_str()) {
                later = true;
            } else {
                j += 1;
            }
        }
        if !later {
            let ghost before = fields.deep_view();
            fields.push((pairs[i].0.clone(), pairs[i].1.clone()));
            proof {
                assert(all[i as int] == pairs@[i as int].deep_view());
                assert(fields.deep_view() =~= before.push(all[i as int]));
            }
        }
        i += 1;
    }
    fields
}

/// The model of a request, or of the error that stood in its way.
pub open spec fn request_model(r: Result<HttpRequest, SearchError>) -> Result<
    HttpRequestModel,
    SearchErrorModel,
> {
    match r {
        Ok(request) => Ok(request@),
        Err(e) => Err(e@),
    }
}

/// The request that posts the query of the search URL `url` as a form, given
/// what the URL parser made of `url`. Scheme, user, host, port and path of the
/// target are those of `url`, as they are written there.
pub fn post_request_from(url: &str, parsed: Result<UrlParts, String>, referer: &str) -> (r:
    Result<HttpRequest, SearchError>)
    ensures
        request_model(r) == post_request_for(url@, parse_model(parsed), referer@),
        parsed is Ok ==> (r matches Ok(request) && request@.url.is_prefix_of(url@)
            && !request@.url.contains('?')),
{
    match parsed {
        Ok(parts) => {
            let target = strip_query(url);
            let form = unique_fields(&parts.query);
            Ok(post_form_request(target.as_str(), form, Some(referer)))
        },
        Err(message) => Err(SearchError::InvalidUrl(message)),
    }
}

/// The request that `rule` makes for `keyword`.
pub fn search_request(rule: &Rule, keyword: &str) -> (r: Result<HttpRequest, SearchError>)
    ensures
        request_model(r) == search_request_for(rule@, keyword.spec_bytes()),
        !rule@.use_post ==> r is Ok,
{
    proof {
        reveal_strlit("@keyword");
        assert("@keyword"@ =~= keyword_token());
    }
    let encoded = encode_keyword(keyword);
    let url = replace_all(rule.search_url.as_str(), "@keyword", encoded.as_str());
    if rule.use_post {
        post_request_from(url.as_str(), parse_url(url.as_str()), rule.base_url.as_str())
    } else {
        let request = get_request(url.as_str(), Some(rule.base_url.as_str()));
        assert(request@.form =~= Seq::<(Seq<char>, Seq<char>)>::empty());
        Ok(request)
    }
}

/// Whether `outcome` is what the search of `rule` can give for the fetched
/// result page: the error of the fetch, or what reading the page gives.
pub open spec fn is_execute_outcome(
    rule: RuleModel,
    page: Result<Seq<char>, HttpClientErrorModel>,
    outcome: Result<Seq<SearchResultItemModel>, SearchErrorModel>,
) -> bool {
    match page {
        Ok(html) => is_search_outcome(rule, html, outcome),
        Err(e) => outcome == Err::<Seq<SearchResultItemModel>, SearchErrorModel>(
            SearchErrorModel::Http(e),
        ),
    }
}

/// The items of the fetched result page `page`, by `rule`.
pub fn execute_search(rule: &Rule, page: &Result<String, HttpClientError>) -> (r: Result<
    Vec<SearchResultItem>,
    SearchError,
>)
    ensures
        is_execute_outcome(rule@, page_model(*page), items_outcome(r)),
        r matches Ok(items) ==> forall|k: int|
            0 <= k < items.len() ==> (#[trigger] items.deep_view()[k]).wf(),
{
    match page {
        Ok(html) => parse_search_results_xpath(rule, html.as_str()),
        Err(e) => Err(SearchError::Http(e.clone())),
    }
}

/// The request for the detail page at `detail_url`: none where the rule has no
/// selectors for episodes, else a request that gets the page and carries the
/// rule's base URL as its referer.
pub fn episode_request(rule: &Rule, detail_url: &str) -> (r: Option<HttpRequest>)
    ensures
        r is Some <==> rule@.has_chapters(),
        r matches Some(request) ==> request@ == (HttpRequestModel {
            method: Method::Get,
            url: detail_url@,
            form: Seq::empty(),
            headers: page_headers(Some(rule@.base_url)),
        }),
{
    if !rule.has_chapters() {
        return None;
    }
    let request = get_request(detail_url, Some(rule.base_url.as_str()));
    assert(request@.form =~= Seq::<(Seq<char>, Seq<char>)>::empty());
    Some(request)
}

/// Whether `outcome` is what fetching the episodes of the title at `detail_url`
/// can give: no roads for a rule that has no selectors for them, else the error
/// of the fetch, or what reading the detail page gives.
pub open spec fn is_fetch_outcome(
    rule: RuleModel,
    detail_url: Seq<char>,
    page: Result<Seq<char>, HttpClientErrorModel>,
    outcome: Result<Seq<EpisodeRoadModel>, SearchErrorModel>,
) -> bool {
    if !rule.has_chapters() {
        outcome == Ok::<Seq<EpisodeRoadModel>, SearchErrorModel>(Seq::empty())
    } else {
        match page {
            Ok(html) => is_episodes_outcome(rule, html, detail_url, outcome),
            Err(e) => outcome == Err::<Seq<EpisodeRoadModel>, SearchErrorModel>(
                SearchErrorModel::Http(e),
            ),
        }
    }
}

/// The roads of the title at `detail_url`, given its fetched detail page.
pub fn fetch_episodes(rule: &Rule, detail_url: &str, page: &Result<String, HttpClientError>) -> (r:
    Result<Vec<EpisodeRoad>, SearchError>)
    ensures
        is_fetch_outcome(rule@, detail_url@, page_model(*page), roads_outcome(r)),
{
    if !rule.has_chapters() {
        let roads: Vec<EpisodeRoad> = Vec::new();
        assert(roads.deep_view() =~= Seq::<EpisodeRoadModel>::empty());
        return Ok(roads);
    }
    match page {
        Ok(html) => parse_episodes_xpath(rule, html.as_str(), detail_url),
        Err(e) => Err(SearchError::Http(e.clone())),
    }
}

/// For how many of `items` items a detail page is fetched: for none where the
/// rule has no selectors for episodes, else for the first five at most.
pub open spec fn fetch_count(rule: RuleModel, items: nat) -> nat {
    if !rule.has_chapters() {
        0
    } else if items < MAX_EPISODE_ITEMS {
        items
    } else {
        MAX_EPISODE_ITEMS as nat
    }
}

/// For how many of `items` items a detail page is fetched.
pub fn episode_fetch_count(rule: &Rule, items: usize) -> (n: usize)
    ensures
        n == fetch_count(rule@, items as nat),
        n <= MAX_EPISODE_ITEMS,
        n <= items,
{
    if !rule.has_chapters() {
        0
    } else if items < MAX_EPISODE_ITEMS {
        items
    } else {
        MAX_EPISODE_ITEMS
    }
}

/// An item with the roads that were fetched for it: it takes them where there
/// are any, and stays as it is where there are none or the fetch failed.
pub open spec fn with_episodes(
    item: SearchResultItemModel,
    fetched: Result<Seq<EpisodeRoadModel>, SearchErrorModel>,
) -> SearchResultItemModel {
    match fetched {
        Ok(roads) => if roads.len() > 0 {
            SearchResultItemModel { episodes: Some(roads), ..item }
        } else {
            item
        },
        Err(_) => item,
    }
}

/// Gives `item` the roads that were fetched for it.
pub fn attach_episodes(item: SearchResultItem, fetched: Result<Vec<EpisodeRoad>, SearchError>)
    -> (r: SearchResultItem)
    ensures
        r@ == with_episodes(item@, roads_outcome(fetched)),
{
    match fetched {
        Ok(roads) => {
            if roads.len() > 0 {
                SearchResultItem {
                    name: item.name,
                    url: item.url,
                    tags: item.tags,
                    episodes: Some(roads),
                }
            } else {
                item
            }
        },
        Err(_) => item,
    }
}

/// Whether `after` is `before` with the episodes that the detail page `page` can
/// give by `rule`.
pub open spec fn episodes_fetched(
    rule: RuleModel,
    before: SearchResultItemModel,
    page: Result<Seq<char>, HttpClientErrorModel>,
    after: SearchResultItemModel,
) -> bool {
    exists|fetched: Result<Seq<EpisodeRoadModel>, SearchErrorModel>|
        #[trigger] is_fetch_outcome(rule, before.url, page, fetched) && after == with_episodes(
            before,
            fetched,
        )
}

/// Whether `after` is what `before` becomes when episodes are fetched: the items
/// are the same in number and order; each of the first few, as many as
/// `fetch_count` says and as there are pages, has the episodes that its page
/// gives; every other item is as it was.
pub open spec fn episodes_attached(
    rule: RuleModel,
    before: Seq<SearchResultItemModel>,
    pages: Seq<Result<String, HttpClientError>>,
    after: Seq<SearchResultItemModel>,
) -> bool {
    &&& after.len() == before.len()
    &&& forall|i: int|
        0 <= i < before.len() ==> if i < fetch_count(rule, before.len()) && i < pages.len() {
            episodes_fetched(rule, before[i], page_model(pages[i]), #[trigger] after[i])
        } else {
            after[i] == before[i]
        }
}

/// Gives the first items of a search their episodes. `pages[i]` is the fetched
/// detail page of `items[i]`; pages beyond the first five, and all pages where
/// the rule has no selectors for episodes, are not looked at.
pub fn execute_search_with_episodes(
    rule: &Rule,
    items: Vec<SearchResultItem>,
    pages: &Vec<Result<String, HttpClientError>>,
) -> (r: Vec<SearchResultItem>)
    ensures
        episodes_attached(rule@, items.deep_view(), pages@, r.deep_view()),
        forall|i: int|
            MAX_EPISODE_ITEMS <= i < items.len() ==> (#[trigger] r.deep_view()[i])
                == items.deep_view()[i],
{
    let ghost before = items.deep_view();
    let ghost given = items@;
    let n = items.len();
    let limit = episode_fetch_count(rule, n);
    let mut out: Vec<SearchResultItem> = Vec::new();
    let mut i: usize = 0;
    for item in it: items
        invariant
            it.seq() == given,
            i == it.index(),
            n == given.len(),
            before.len() == n,
            forall|k: int| 0 <= k < n ==> (#[trigger] given[k])@ == before[k],
            limit == fetch_count(rule@, n as nat),
            limit <= MAX_EPISODE_ITEMS,
            out.len() == i,
            forall|k: int|
                0 <= k < i ==> if k < limit && k < pages.len() {
                    episodes_fetched(
                        rule@,
                        before[k],
                        page_model(pages@[k]),
                        #[trigger] out.deep_view()[k],
                    )
                } else {
                    out.deep_view()[k] == before[k]
                },
    {
        let ghost done = out.deep_view();
        if i < limit && i < pages.len() {
            let fetched = fetch_episodes(rule, item.url.as_str(), &pages[i]);
            let ghost outcome = roads_outcome(fetched);
            let attached = attach_episodes(item, fetched);
            proof {
                assert(is_fetch_outcome(
                    rule@,
                    before[i as int].url,
                    page_model(pages@[i as int]),
                    outcome,
                ));
                assert(episodes_fetched(
                    rule@,
                    before[i as int],
                    page_model(pages@[i as int]),
                    attached@,
                ));
            }
            out.push(attached);
        } else {
            out.push(item);
        }
        proof {
            let now = out.deep_view();
            assert forall|k: int| 0 <= k < i + 1 implies if k < limit && k < pages.len() {
                episodes_fetched(rule@, before[k], page_model(pages@[k]), #[trigger] now[k])
            } else {
                now[k] == before[k]
            } by {
                if k < i {
                    assert(now[k] == done[k]);
                }
            }
        }
        i += 1;
    }
    out
}

/// The result for a source, given the outcome of its search: its items, or the
/// text of its error.
pub open spec fn platform_result(outcome: Result<Seq<SearchResultItemModel>, SearchErrorModel>)
    -> PlatformSearchResultModel {
    match outcome {
        Ok(items) => PlatformSearchResultModel { items, count: items.len(), error: None },
        Err(e) => PlatformSearchResultModel {
            items: Seq::empty(),
            count: 0,
            error: Some(e.message()),
        },
    }
}

/// The result for a source, given the outcome of its search.
pub fn to_platform_result(outcome: Result<Vec<SearchResultItem>, SearchError>) -> (r:
    PlatformSearchResult)
    ensures
        r@ == platform_result(items_outcome(outcome)),
        r@.wf(),
{
    match outcome {
        Ok(items) => PlatformSearchResult::with_items(items),
        Err(e) => {
            let r = PlatformSearchResult::with_error(e.message());
            assert(r@.items =~= Seq::<SearchResultItemModel>::empty());
            r
        },
    }
}

/// Whether `result` is what the search of `rule` can come to for the fetched
/// result page.
pub open spec fn is_search_result(
    rule: RuleModel,
    page: Result<Seq<char>, HttpClientErrorModel>,
    result: PlatformSearchResultModel,
) -> bool {
    exists|outcome: Result<Seq<SearchResultItemModel>, SearchErrorModel>|
        #[trigger] is_execute_outcome(rule, page, outcome) && result == platform_result(outcome)
}

/// The result of searching the source of `rule`, given its fetched result page.
/// A fetch that failed gives a result with the text of its error and no items.
pub fn search_with_rule(rule: &Rule, page: &Result<String, HttpClientError>) -> (r:
    PlatformSearchResult)
    ensures
        is_search_result(rule@, page_model(*page), r@),
        r@.wf(),
        page matches Err(e) ==> r@ == platform_result(
            Err::<Seq<SearchResultItemModel>, SearchErrorModel>(SearchErrorModel::Http(e@)),
        ),
{
    let outcome = execute_search(rule, page);
    let ghost model = items_outcome(outcome);
    let r = to_platform_result(outcome);
    proof {
        assert(is_execute_outcome(rule@, page_model(*page), model));
    }
    r
}

/// Whether `result` is what the search of `rule` with episodes can come to: the
/// result of a search that failed, or the items of one that succeeded with their
/// episodes attached.
pub open spec fn is_search_result_with_episodes(
    rule: RuleModel,
    page: Result<Seq<char>, HttpClientErrorModel>,
    pages: Seq<Result<String, HttpClientError>>,
    result: PlatformSearchResultModel,
) -> bool {
    exists|outcome: Result<Seq<SearchResultItemModel>, SearchErrorModel>|
        #[trigger] is_execute_outcome(rule, page, outcome) && match outcome {
            Ok(items) => result.error is None && result.count == result.items.len()
                && episodes_attached(rule, items, pages, result.items),
            Err(e) => result == platform_result(outcome),
        }
}

/// However many items a search with episodes finds, and whatever pages are
/// given, no item after the fifth has episodes.
pub proof fn lemma_no_episodes_after_the_fifth(
    rule: RuleModel,
    page: Result<Seq<char>, HttpClientErrorModel>,
    pages: Seq<Result<String, HttpClientError>>,
    result: PlatformSearchResultModel,
    i: int,
)
    requires
        is_search_result_with_episodes(rule, page, pages, result),
        MAX_EPISODE_ITEMS <= i < result.items.len(),
    ensures
        result.items[i].episodes is None,
{
    let outcome = choose|outcome: Result<Seq<SearchResultItemModel>, SearchErrorModel>|
        #[trigger] is_execute_outcome(rule, page, outcome) && match outcome {
            Ok(items) => result.error is None && result.count == result.items.len()
                && episodes_attached(rule, items, pages, result.items),
            Err(e) => result == platform_result(outcome),
        };
    let items = outcome->Ok_0;
    let html = page->Ok_0;
    assert(outcome is Ok && page is Ok);
    assert(result.items[i] == items[i]);
    let document = choose|document: Document|
        #[trigger] document_source(document) == html && is_page_outcome(rule, document, outcome);
    let nodes = selected(document, None, normalized_xpath(rule.search_list))->0;
    let candidates = choose|candidates: Seq<CandidateModel>|
        #[trigger] candidates_read(
            candidates,
            document,
            nodes,
            normalized_xpath(rule.search_name),
            normalized_xpath(rule.search_result),
        ) && items == kept_items(candidates, rule.base_url);
    lemma_item_source(candidates, rule.base_url, i);
}

/// The result of searching the source of `rule` with episodes, given its fetched
/// result page and the fetched detail pages of its first items.
pub fn search_with_rule_and_episodes(
    rule: &Rule,
    page: &Result<String, HttpClientError>,
    pages: &Vec<Result<String, HttpClientError>>,
) -> (r: PlatformSearchResult)
    ensures
        is_search_result_with_episodes(rule@, page_model(*page), pages@, r@),
        r@.wf(),
        page matches Err(e) ==> r@ == platform_result(
            Err::<Seq<SearchResultItemModel>, SearchErrorModel>(SearchErrorModel::Http(e@)),
        ),
{
    let outcome = execute_search(rule, page);
    let ghost model = items_outcome(outcome);
    proof {
        assert(is_execute_outcome(rule@, page_model(*page), model));
    }
    match outcome {
        Ok(items) => {
            let with = execute_search_with_episodes(rule, items, pages);
            PlatformSearchResult::with_items(with)
        },
        Err(e) => to_platform_result(Err(e)),
    }
}

} // verus!
