//! The extraction engine: from a rule and a page to result records.
//!
//! `parse_search_results_xpath` reads a result page, `parse_episodes_xpath` a
//! detail page. Both parse the markup, evaluate the rule's selectors, read text
//! and attributes at the nodes found, and hand what they read to the functions
//! of `extract`.
//!
//! The contracts say which document is read, which expression is evaluated below
//! which node and which text or attribute is taken, in the names that `dom`
//! gives to what the parser and the evaluator return. They leave open whether an
//! evaluation context can be created: that may fail at any time, and what is
//! returned then is stated too. At a node below which no context can be moved,
//! nothing is read.

use crate::dom::{
    context_document, context_moves, context_scope, document_source, evaluate, get_attribute,
    get_content, html_parses, max_html_bytes, new_context, node_attribute, node_content, parse_html,
    set_context_node, xpath_nodes, HtmlParseFailure,
};
use crate::extract::{
    assemble_roads, assembled_roads, collect_items, item_rank, kept_episodes, kept_items,
    lemma_all_valid_all_kept, lemma_item_source, lemma_rank_bounds, lemma_rank_order,
    lemma_road_rank_order, lemma_road_source, road_label, road_rank, Candidate, CandidateModel,
    EpisodeEntry, EpisodeEntryModel,
};
use crate::http_client::{HttpClientError, HttpClientErrorModel};
use crate::links::{base_url_of, extract_base_url, parsed_url, resolved_url};
use crate::text::{concat2, contains_char, trim, trimmed};
use crate::types::{
    EpisodeRoad, EpisodeRoadModel, Rule, RuleModel, SearchResultItem, SearchResultItemModel,
};
use crate::xpath::{normalize_xpath, normalized_xpath, relative_xpath, relativize_xpath};
use libxml::tree::{Document, Node};
use libxml::xpath::Context;
use vstd::prelude::*;
use vstd::string::*;

verus! {

/// Why the search of one source gave no items.
#[derive(Debug, PartialEq, Eq)]
pub enum SearchError {
    /// The page could not be fetched.
    Http(HttpClientError),
    /// The search URL of a rule that posts its query is no URL; the text is the
    /// URL parser's.
    InvalidUrl(String),
    /// The page could not be parsed.
    HtmlParse(HtmlParseFailure),
    /// No evaluation context could be created for the page.
    XPathContext,
    /// The evaluator refuses the rule's list selector, given in the form in
    /// which it was evaluated.
    InvalidListXPath(String),
    /// The evaluator refuses the rule's selector for play sources, given in the
    /// form in which it was evaluated.
    InvalidRoadsXPath(String),
    /// No evaluation context could be created for a node of the page.
    NodeContext,
}

pub ghost enum SearchErrorModel {
    Http(HttpClientErrorModel),
    InvalidUrl(Seq<char>),
    HtmlParse(HtmlParseFailure),
    XPathContext,
    InvalidListXPath(Seq<char>),
    InvalidRoadsXPath(Seq<char>),
    NodeContext,
}

impl DeepView for SearchError {
    type V = SearchErrorModel;

    open spec fn deep_view(&self) -> SearchErrorModel {
        match self {
            SearchError::Http(e) => SearchErrorModel::Http(e@),
            SearchError::InvalidUrl(message) => SearchErrorModel::InvalidUrl(message@),
            SearchError::HtmlParse(failure) => SearchErrorModel::HtmlParse(*failure),
            SearchError::XPathContext => SearchErrorModel::XPathContext,
            SearchError::InvalidListXPath(xpath) => SearchErrorModel::InvalidListXPath(xpath@),
            SearchError::InvalidRoadsXPath(xpath) => SearchErrorModel::InvalidRoadsXPath(xpath@),
            SearchError::NodeContext => SearchErrorModel::NodeContext,
        }
    }
}

impl View for SearchError {
    type V = SearchErrorModel;

    open spec fn view(&self) -> SearchErrorModel {
        self.deep_view()
    }
}

/// The text with which the parser reports a failure.
pub open spec fn parse_failure_text(failure: HtmlParseFailure) -> Seq<char> {
    match failure {
        HtmlParseFailure::GotNullPointer => "Got a Null pointer"@,
        HtmlParseFailure::FileOpenError => "Unable to open path to file."@,
        HtmlParseFailure::DocumentTooLarge => "Document too large for i32."@,
    }
}

impl SearchErrorModel {
    /// The text shown for the error.
    pub open spec fn message(self) -> Seq<char> {
        match self {
            SearchErrorModel::Http(e) => e.message(),
            SearchErrorModel::InvalidUrl(message) => message,
            SearchErrorModel::HtmlParse(failure) => "HTML 解析失败: "@ + parse_failure_text(
                failure,
            ),
            SearchErrorModel::XPathContext => "创建 XPath 上下文失败"@,
            SearchErrorModel::InvalidListXPath(xpath) => "无效的列表 XPath: "@ + xpath,
            SearchErrorModel::InvalidRoadsXPath(xpath) => "无效的播放源 XPath: "@ + xpath,
            SearchErrorModel::NodeContext => "创建子节点上下文失败"@,
        }
    }
}

impl SearchError {
    /// The text shown for the error.
    pub fn message(&self) -> (r: String)
        ensures
            r@ == self@.message(),
    {
        match self {
            SearchError::Http(e) => e.message(),
            SearchError::InvalidUrl(message) => message.clone(),
            SearchError::HtmlParse(failure) => {
                let text = match failure {
                    HtmlParseFailure::GotNullPointer => "Got a Null pointer",
                    HtmlParseFailure::FileOpenError => "Unable to open path to file.",
                    HtmlParseFailure::DocumentTooLarge => "Document too large for i32.",
                };
                concat2("HTML 解析失败: ", text)
            },
            SearchError::XPathContext => String::from_str("创建 XPath 上下文失败"),
            SearchError::InvalidListXPath(xpath) => concat2(
                "无效的列表 XPath: ",
                xpath.as_str(),
            ),
            SearchError::InvalidRoadsXPath(xpath) => concat2(
                "无效的播放源 XPath: ",
                xpath.as_str(),
            ),
            SearchError::NodeContext => String::from_str("创建子节点上下文失败"),
        }
    }
}

/// The nodes that `xpath` selects below `scope`. An expression that holds a NUL
/// character selects nothing: it is refused before the evaluator sees it.
pub open spec fn selected(document: Document, scope: Option<Node>, xpath: Seq<char>) -> Option<
    Seq<Node>,
> {
    if xpath.contains('\0') {
        None
    } else {
        xpath_nodes(document, scope, xpath)
    }
}

/// The text of a node: its content, trimmed.
pub open spec fn node_text(node: Node) -> Seq<char> {
    trimmed(node_content(node))
}

/// The text that `xpath` finds below `node`: the text of the first node it
/// selects, and the text of `node` itself where it selects none or is refused.
pub open spec fn text_below(document: Document, node: Node, xpath: Seq<char>) -> Seq<char> {
    match selected(document, Some(node), relative_xpath(xpath)) {
        Some(found) => if found.len() > 0 {
            node_text(found[0])
        } else {
            node_text(node)
        },
        None => node_text(node),
    }
}

/// The link that the node `target`, found below `node`, stands for: its `href`
/// attribute, else its `data-href` attribute, else the first `href` of an anchor
/// below `node`, else nothing.
pub open spec fn link_at(document: Document, node: Node, target: Node) -> Seq<char> {
    match node_attribute(target, "href"@) {
        Some(href) => href,
        None => match node_attribute(target, "data-href"@) {
            Some(href) => href,
            None => match selected(document, Some(node), ".//a/@href"@) {
                Some(anchors) => if anchors.len() > 0 {
                    node_content(anchors[0])
                } else {
                    Seq::empty()
                },
                None => Seq::empty(),
            },
        },
    }
}

/// The link that `xpath` finds below `node`: the link at the first node it
/// selects, and nothing where it selects none or is refused.
pub open spec fn href_below(document: Document, node: Node, xpath: Seq<char>) -> Seq<char> {
    match selected(document, Some(node), relative_xpath(xpath)) {
        Some(found) => if found.len() > 0 {
            link_at(document, node, found[0])
        } else {
            Seq::empty()
        },
        None => Seq::empty(),
    }
}

/// What is read at an episode node: its content and its `href` attribute.
pub open spec fn entry_at(node: Node) -> EpisodeEntryModel {
    EpisodeEntryModel { content: node_content(node), href: node_attribute(node, "href"@) }
}

/// What is read below a play source: an entry for each node that `xpath`
/// selects, in order, and nothing where it is refused.
pub open spec fn entries_below(document: Document, road: Node, xpath: Seq<char>) -> Seq<
    EpisodeEntryModel,
> {
    entries_selected(document, road, relative_xpath(xpath))
}

/// The text that is read at `node` with `xpath`: what `xpath` finds below the
/// node, and nothing where no context can be moved below the node.
pub open spec fn text_read(document: Document, node: Node, xpath: Seq<char>) -> Seq<char> {
    if context_moves(document, node) {
        text_below(document, node, xpath)
    } else {
        Seq::empty()
    }
}

/// The link that is read at `node` with `xpath`: what `xpath` finds below the
/// node, and nothing where no context can be moved below the node.
pub open spec fn href_read(document: Document, node: Node, xpath: Seq<char>) -> Seq<char> {
    if context_moves(document, node) {
        href_below(document, node, xpath)
    } else {
        Seq::empty()
    }
}

/// The entries that are read at the play source `road` with `xpath`: those
/// below it, and none where no context can be moved below it.
pub open spec fn entries_read(document: Document, road: Node, xpath: Seq<char>) -> Seq<
    EpisodeEntryModel,
> {
    if context_moves(document, road) {
        entries_below(document, road, xpath)
    } else {
        Seq::empty()
    }
}

/// Whether `candidates` is what is read at `nodes`: for each node, in order, the
/// text that is read there with `name_xpath` and the link that is read there
/// with `href_xpath`.
pub open spec fn candidates_read(
    candidates: Seq<CandidateModel>,
    document: Document,
    nodes: Seq<Node>,
    name_xpath: Seq<char>,
    href_xpath: Seq<char>,
) -> bool {
    &&& candidates.len() == nodes.len()
    &&& forall|i: int|
        0 <= i < nodes.len() ==> {
            &&& (#[trigger] candidates[i]).name == text_read(document, nodes[i], name_xpath)
            &&& candidates[i].href == href_read(document, nodes[i], href_xpath)
        }
}

/// Whether `sources` is what is read at the play sources `roads`: for each, in
/// order, the entries that are read there with `xpath`.
pub open spec fn sources_read(
    sources: Seq<Seq<EpisodeEntryModel>>,
    document: Document,
    roads: Seq<Node>,
    xpath: Seq<char>,
) -> bool {
    &&& sources.len() == roads.len()
    &&& forall|i: int|
        0 <= i < roads.len() ==> (#[trigger] sources[i]) == entries_read(
            document,
            roads[i],
            xpath,
        )
}

/// Whether `items` are the items of the candidates that are read at `nodes` by
/// `rule`.
pub open spec fn items_read(
    items: Seq<SearchResultItemModel>,
    rule: RuleModel,
    document: Document,
    nodes: Seq<Node>,
) -> bool {
    exists|candidates: Seq<CandidateModel>|
        #[trigger] candidates_read(
            candidates,
            document,
            nodes,
            normalized_xpath(rule.search_name),
            normalized_xpath(rule.search_result),
        ) && items == kept_items(candidates, rule.base_url)
}

/// Whether `roads` are assembled from what is read at the play sources `nodes`
/// by `rule`, with links resolved against `url_base`.
pub open spec fn roads_read(
    roads: Seq<EpisodeRoadModel>,
    rule: RuleModel,
    url_base: Seq<char>,
    document: Document,
    nodes: Seq<Node>,
) -> bool {
    exists|sources: Seq<Seq<EpisodeEntryModel>>|
        #[trigger] sources_read(sources, document, nodes, normalized_xpath(rule.chapter_result))
            && roads == assembled_roads(sources, url_base)
}

/// Whether `outcome` is what reading the result page `document` by `rule` can
/// give.
///
/// A list selector that the evaluator refuses gives that error, with the
/// selector as it was evaluated. Otherwise the items are those of the candidates
/// read at the nodes that the list selector finds. At any point the lack of an
/// evaluation context may end the reading with its own error.
pub open spec fn is_page_outcome(
    rule: RuleModel,
    document: Document,
    outcome: Result<Seq<SearchResultItemModel>, SearchErrorModel>,
) -> bool {
    let list_xpath = normalized_xpath(rule.search_list);
    match selected(document, None, list_xpath) {
        None => outcome == Err::<Seq<SearchResultItemModel>, SearchErrorModel>(
            SearchErrorModel::XPathContext,
        ) || outcome == Err::<Seq<SearchResultItemModel>, SearchErrorModel>(
            SearchErrorModel::InvalidListXPath(list_xpath),
        ),
        Some(nodes) => outcome == Err::<Seq<SearchResultItemModel>, SearchErrorModel>(
            SearchErrorModel::XPathContext,
        ) || outcome == Err::<Seq<SearchResultItemModel>, SearchErrorModel>(
            SearchErrorModel::NodeContext,
        ) || (outcome matches Ok(items) && items_read(items, rule, document, nodes)),
    }
}

/// Whether `outcome` is what reading the result page `html` by `rule` can give:
/// the parse error for markup that does not parse, else what reading a document
/// parsed from the markup gives.
pub open spec fn is_search_outcome(
    rule: RuleModel,
    html: Seq<char>,
    outcome: Result<Seq<SearchResultItemModel>, SearchErrorModel>,
) -> bool {
    if html_parses(html) {
        exists|document: Document|
            #[trigger] document_source(document) == html && is_page_outcome(
                rule,
                document,
                outcome,
            )
    } else {
        outcome matches Err(SearchErrorModel::HtmlParse(_))
    }
}

/// Whether `outcome` is what reading the detail page `document` by `rule` can
/// give, with links resolved against `url_base`.
///
/// A selector for play sources that the evaluator refuses gives that error.
/// Otherwise the roads are assembled from what is read below the play sources
/// that the selector finds. At any point the lack of an evaluation context may
/// end the reading with its own error.
pub open spec fn is_detail_outcome(
    rule: RuleModel,
    document: Document,
    url_base: Seq<char>,
    outcome: Result<Seq<EpisodeRoadModel>, SearchErrorModel>,
) -> bool {
    let roads_xpath = normalized_xpath(rule.chapter_roads);
    match selected(document, None, roads_xpath) {
        None => outcome == Err::<Seq<EpisodeRoadModel>, SearchErrorModel>(
            SearchErrorModel::XPathContext,
        ) || outcome == Err::<Seq<EpisodeRoadModel>, SearchErrorModel>(
            SearchErrorModel::InvalidRoadsXPath(roads_xpath),
        ),
        Some(nodes) => outcome == Err::<Seq<EpisodeRoadModel>, SearchErrorModel>(
            SearchErrorModel::XPathContext,
        ) || outcome == Err::<Seq<EpisodeRoadModel>, SearchErrorModel>(
            SearchErrorModel::NodeContext,
        ) || (outcome matches Ok(roads) && roads_read(roads, rule, url_base, document, nodes)),
    }
}

/// Whether `outcome` is what reading the detail page `html`, fetched from
/// `detail_url`, by `rule` can give: the parse error for markup that does not
/// parse, else what reading a document parsed from the markup gives, with links
/// resolved against the origin of the detail page.
pub open spec fn is_episodes_outcome(
    rule: RuleModel,
    html: Seq<char>,
    detail_url: Seq<char>,
    outcome: Result<Seq<EpisodeRoadModel>, SearchErrorModel>,
) -> bool {
    if html_parses(html) {
        exists|document: Document|
            #[trigger] document_source(document) == html && is_detail_outcome(
                rule,
                document,
                base_url_of(parsed_url(detail_url), rule.base_url),
                outcome,
            )
    } else {
        outcome matches Err(SearchErrorModel::HtmlParse(_))
    }
}

/// Where reading a result page gives items, every item was read at a list node,
/// and the items stand in the order of their nodes. The result names the node
/// of each item. The name of the item is the text that the name selector finds
/// below its node, its link is what the link selector finds there, resolved
/// against the rule's base URL, and neither of the two is empty. A node below
/// which no context can be moved has no item.
pub proof fn lemma_items_come_from_nodes(
    items: Seq<SearchResultItemModel>,
    rule: RuleModel,
    document: Document,
    nodes: Seq<Node>,
) -> (at: Seq<int>)
    requires
        items_read(items, rule, document, nodes),
    ensures
        at.len() == items.len(),
        items.len() <= nodes.len(),
        forall|k: int|
            0 <= k < items.len() ==> {
                &&& 0 <= #[trigger] at[k] < nodes.len()
                &&& context_moves(document, nodes[at[k]])
                &&& items[k].name == text_below(
                    document,
                    nodes[at[k]],
                    normalized_xpath(rule.search_name),
                )
                &&& items[k].url == resolved_url(
                    href_below(document, nodes[at[k]], normalized_xpath(rule.search_result)),
                    rule.base_url,
                )
                &&& items[k].name.len() > 0
                &&& href_below(document, nodes[at[k]], normalized_xpath(rule.search_result)).len()
                    > 0
                &&& items[k].tags is None
                &&& items[k].episodes is None
            },
        forall|j: int, k: int| 0 <= j < k < items.len() ==> at[j] < at[k],
{
    let name_xpath = normalized_xpath(rule.search_name);
    let href_xpath = normalized_xpath(rule.search_result);
    let candidates = choose|candidates: Seq<CandidateModel>|
        #[trigger] candidates_read(candidates, document, nodes, name_xpath, href_xpath) && items
            == kept_items(candidates, rule.base_url);
    let base = rule.base_url;
    let at = Seq::new(
        items.len(),
        |k: int|
            choose|i: int|
                0 <= i < candidates.len() && candidates[i].is_valid() && item_rank(
                    candidates,
                    base,
                    i,
                ) == k && items[k] == candidates[i].item(base),
    );
    lemma_rank_bounds(candidates, base, 0);
    assert forall|k: int| 0 <= k < items.len() implies {
        &&& 0 <= #[trigger] at[k] < candidates.len()
        &&& candidates[at[k]].is_valid()
        &&& item_rank(candidates, base, at[k]) == k
        &&& items[k] == candidates[at[k]].item(base)
    } by {
        lemma_item_source(candidates, base, k);
    }
    assert forall|j: int, k: int| 0 <= j < k < items.len() implies at[j] < at[k] by {
        assert(item_rank(candidates, base, at[j]) == j);
        assert(item_rank(candidates, base, at[k]) == k);
        if at[k] <= at[j] {
            lemma_rank_order(candidates, base, at[k], at[j]);
        }
    }
    at
}

/// Where a context can be moved below every list node, and the name selector
/// finds a text and the link selector a link below each, reading gives one item
/// for each node, in the order of the nodes.
pub proof fn lemma_every_node_gives_an_item(
    items: Seq<SearchResultItemModel>,
    rule: RuleModel,
    document: Document,
    nodes: Seq<Node>,
)
    requires
        items_read(items, rule, document, nodes),
        forall|i: int|
            0 <= i < nodes.len() ==> {
                &&& context_moves(document, #[trigger] nodes[i])
                &&& text_below(document, nodes[i], normalized_xpath(rule.search_name)).len() > 0
                &&& href_below(document, nodes[i], normalized_xpath(rule.search_result)).len()
                    > 0
            },
    ensures
        items.len() == nodes.len(),
        forall|i: int|
            0 <= i < nodes.len() ==> {
                &&& (#[trigger] items[i]).name == text_below(
                    document,
                    nodes[i],
                    normalized_xpath(rule.search_name),
                )
                &&& items[i].url == resolved_url(
                    href_below(document, nodes[i], normalized_xpath(rule.search_result)),
                    rule.base_url,
                )
            },
{
    let name_xpath = normalized_xpath(rule.search_name);
    let href_xpath = normalized_xpath(rule.search_result);
    let candidates = choose|candidates: Seq<CandidateModel>|
        #[trigger] candidates_read(candidates, document, nodes, name_xpath, href_xpath) && items
            == kept_items(candidates, rule.base_url);
    assert forall|i: int| 0 <= i < candidates.len() implies (#[trigger] candidates[i]).is_valid()
    by {
        assert(context_moves(document, nodes[i]));
    }
    lemma_all_valid_all_kept(candidates, rule.base_url);
}

/// Where reading a detail page gives roads, every road was read at a play
/// source, and the roads stand in the order of their play sources. The result
/// names the play source of each road. The road holds the episodes of what is
/// read below its play source, and at least one. The only road of a page has no
/// label; where there are more, each has the label of its play source's index
/// among all play sources that the selector finds.
pub proof fn lemma_roads_come_from_nodes(
    roads: Seq<EpisodeRoadModel>,
    rule: RuleModel,
    url_base: Seq<char>,
    document: Document,
    nodes: Seq<Node>,
) -> (at: Seq<int>)
    requires
        roads_read(roads, rule, url_base, document, nodes),
    ensures
        at.len() == roads.len(),
        roads.len() <= nodes.len(),
        forall|k: int|
            0 <= k < roads.len() ==> {
                &&& 0 <= #[trigger] at[k] < nodes.len()
                &&& context_moves(document, nodes[at[k]])
                &&& roads[k].episodes == kept_episodes(
                    entries_below(document, nodes[at[k]], normalized_xpath(rule.chapter_result)),
                    url_base,
                )
                &&& roads[k].wf()
                &&& roads[k].name == if roads.len() >= 2 {
                    Some(road_label(at[k] as nat))
                } else {
                    None
                }
            },
        forall|j: int, k: int| 0 <= j < k < roads.len() ==> at[j] < at[k],
{
    let xpath = normalized_xpath(rule.chapter_result);
    let sources = choose|sources: Seq<Seq<EpisodeEntryModel>>|
        #[trigger] sources_read(sources, document, nodes, xpath) && roads == assembled_roads(
            sources,
            url_base,
        );
    let at = Seq::new(
        roads.len(),
        |k: int|
            choose|i: int|
                0 <= i < sources.len() && road_rank(sources, url_base, i) == k
                    && roads[k].episodes == kept_episodes(sources[i], url_base) && roads[k].wf()
                    && roads[k].name == if roads.len() >= 2 {
                    Some(road_label(i as nat))
                } else {
                    None
                },
    );
    assert forall|k: int| 0 <= k < roads.len() implies {
        &&& 0 <= #[trigger] at[k] < sources.len()
        &&& road_rank(sources, url_base, at[k]) == k
        &&& roads[k].episodes == kept_episodes(sources[at[k]], url_base)
        &&& roads[k].wf()
        &&& roads[k].name == if roads.len() >= 2 {
            Some(road_label(at[k] as nat))
        } else {
            None
        }
    } by {
        lemma_road_source(sources, url_base, k);
    }
    assert forall|j: int, k: int| 0 <= j < k < roads.len() implies at[j] < at[k] by {
        if at[k] < at[j] {
            lemma_road_rank_order(sources, url_base, at[k], at[j]);
        }
    }
    if roads.len() > 0 {
        assert(0 <= at[0] < sources.len());
    }
    assert(roads.len() <= nodes.len()) by {
        if roads.len() > 0 {
            let last = roads.len() - 1;
            assert(0 <= at[last] < sources.len());
            assert forall|k: int| 0 <= k < roads.len() implies at[k] >= k by {
                lemma_at_least_index(at, k);
            }
        }
    }
    at
}

proof fn lemma_at_least_index(at: Seq<int>, k: int)
    requires
        0 <= k < at.len(),
        at[0] >= 0,
        forall|i: int, j: int| 0 <= i < j < at.len() ==> at[i] < at[j],
    ensures
        at[k] >= k,
    decreases k,
{
    if k > 0 {
        lemma_at_least_index(at, k - 1);
    }
}

/// The model of the result of reading a result page.
pub open spec fn items_outcome(r: Result<Vec<SearchResultItem>, SearchError>) -> Result<
    Seq<SearchResultItemModel>,
    SearchErrorModel,
> {
    match r {
        Ok(items) => Ok(items.deep_view()),
        Err(e) => Err(e@),
    }
}

/// The model of the result of reading a detail page.
pub open spec fn roads_outcome(r: Result<Vec<EpisodeRoad>, SearchError>) -> Result<
    Seq<EpisodeRoadModel>,
    SearchErrorModel,
> {
    match r {
        Ok(roads) => Ok(roads.deep_view()),
        Err(e) => Err(e@),
    }
}

/// Evaluates `xpath` in `context`, unless it holds a NUL character.
fn select(document: &Document, context: &Context, xpath: &str) -> (r: Option<Vec<Node>>)
    requires
        context_document(*context) == *document,
    ensures
        match r {
            Some(nodes) => selected(*document, context_scope(*context), xpath@) == Some(nodes@),
            None => selected(*document, context_scope(*context), xpath@) is None,
        },
{
    if contains_char(xpath, '\0') {
        None
    } else {
        evaluate(document, context, xpath)
    }
}

/// The text of `node`.
fn get_node_text(node: &Node) -> (r: String)
    ensures
        r@ == node_text(*node),
{
    let content = get_content(node);
    String::from_str(trim(content.as_str()))
}

/// The text that `xpath` finds below `node`, given whether `context` was moved
/// below `node`: the text of the first node that the anchored selector finds,
/// or of `node` itself where it finds none or is refused; nothing where the
/// context was not moved.
fn text_in_scope(
    document: &Document,
    context: &Context,
    node: &Node,
    xpath: &str,
    moved: bool,
) -> (r: String)
    requires
        context_document(*context) == *document,
        moved ==> context_scope(*context) == Some(*node),
    ensures
        r@ == if moved {
            text_below(*document, *node, xpath@)
        } else {
            Seq::<char>::empty()
        },
{
    if !moved {
        return String::new();
    }
    let relative = relativize_xpath(xpath);
    match select(document, context, relative.as_str()) {
        Some(nodes) => {
            if nodes.len() > 0 {
                return get_node_text(&nodes[0]);
            }
        },
        None => {},
    }
    get_node_text(node)
}

/// The text that is read at `node` with `xpath`: `context` is moved below the
/// node, and the text is what `xpath` finds there; it is nothing where the
/// context cannot be moved.
fn extract_text_from_node(document: &Document, context: &mut Context, node: &Node, xpath: &str)
    -> (r: String)
    requires
        context_document(*old(context)) == *document,
    ensures
        context_document(*final(context)) == *document,
        context_moves(*document, *node) ==> context_scope(*final(context)) == Some(*node),
        r@ == text_read(*document, *node, xpath@),
{
    let moved = set_context_node(context, node);
    text_in_scope(document, context, node, xpath, moved)
}

/// The link that `xpath` finds below `node`, given whether `context` was moved
/// below `node`: the link at the first node that the anchored selector finds,
/// and nothing where it finds none, is refused, or the context was not moved.
fn href_in_scope(
    document: &Document,
    context: &Context,
    node: &Node,
    xpath: &str,
    moved: bool,
) -> (r: String)
    requires
        context_document(*context) == *document,
        moved ==> context_scope(*context) == Some(*node),
    ensures
        r@ == if moved {
            href_below(*document, *node, xpath@)
        } else {
            Seq::<char>::empty()
        },
{
    if !moved {
        return String::new();
    }
    let relative = relativize_xpath(xpath);
    proof {
        reveal_strlit("href");
        reveal_strlit("data-href");
    }
    match select(document, context, relative.as_str()) {
        Some(nodes) => {
            if nodes.len() > 0 {
                match get_attribute(&nodes[0], "href") {
                    Some(href) => {
                        return href;
                    },
                    None => {},
                }
                match get_attribute(&nodes[0], "data-href") {
                    Some(href) => {
                        return href;
                    },
                    None => {},
                }
                match select(document, context, ".//a/@href") {
                    Some(anchors) => {
                        if anchors.len() > 0 {
                            return get_content(&anchors[0]);
                        }
                    },
                    None => {},
                }
            }
        },
        None => {},
    }
    String::new()
}

/// The link that is read at `node` with `xpath`: `context` is moved below the
/// node, and the link is what `xpath` finds there; it is nothing where the
/// context cannot be moved.
fn extract_href_from_node(document: &Document, context: &mut Context, node: &Node, xpath: &str)
    -> (r: String)
    requires
        context_document(*old(context)) == *document,
    ensures
        context_document(*final(context)) == *document,
        context_moves(*document, *node) ==> context_scope(*final(context)) == Some(*node),
        r@ == href_read(*document, *node, xpath@),
{
    let moved = set_context_node(context, node);
    href_in_scope(document, context, node, xpath, moved)
}

/// What the anchored selector `relative` reads below the play source `road`:
/// an entry for each node that it selects, in order, and nothing where it is
/// refused.
pub open spec fn entries_selected(document: Document, road: Node, relative: Seq<char>) -> Seq<
    EpisodeEntryModel,
> {
    match selected(document, Some(road), relative) {
        Some(found) => found.map_values(|node: Node| entry_at(node)),
        None => Seq::empty(),
    }
}

/// What is read below the play source `road`, given whether `context` was moved
/// below it: the entries that `relative` selects, and nothing where the context
/// was not moved.
fn entries_in_scope(
    document: &Document,
    context: &Context,
    road: &Node,
    relative: &str,
    moved: bool,
) -> (r: Vec<EpisodeEntry>)
    requires
        context_document(*context) == *document,
        moved ==> context_scope(*context) == Some(*road),
    ensures
        r.deep_view() == if moved {
            entries_selected(*document, *road, relative@)
        } else {
            Seq::<EpisodeEntryModel>::empty()
        },
{
    let mut entries: Vec<EpisodeEntry> = Vec::new();
    assert(entries.deep_view() =~= Seq::<EpisodeEntryModel>::empty());
    if !moved {
        return entries;
    }
    proof {
        reveal_strlit("href");
    }
    match select(document, context, relative) {
        Some(nodes) => {
            let mut i: usize = 0;
            while i < nodes.len()
                invariant
                    i <= nodes.len(),
                    entries.len() == i,
                    !"href"@.contains('\0'),
                    forall|k: int| 0 <= k < i ==> (#[trigger] entries@[k])@ == entry_at(nodes@[k]),
                decreases nodes.len() - i,
            {
                let content = get_content(&nodes[i]);
                let href = get_attribute(&nodes[i], "href");
                entries.push(EpisodeEntry { content, href });
                i += 1;
            }
            assert(entries.deep_view() =~= nodes@.map_values(|node: Node| entry_at(node)));
        },
        None => {},
    }
    entries
}

/// The entries that are read at the play source `road` with the anchored
/// selector `relative`: `context` is moved below the play source, and the
/// entries are those that `relative` selects there; there are none where the
/// context cannot be moved.
fn read_entries(document: &Document, context: &mut Context, road: &Node, relative: &str) -> (r:
    Vec<EpisodeEntry>)
    requires
        context_document(*old(context)) == *document,
    ensures
        context_document(*final(context)) == *document,
        context_moves(*document, *road) ==> context_scope(*final(context)) == Some(*road),
        r.deep_view() == if context_moves(*document, *road) {
            entries_selected(*document, *road, relative@)
        } else {
            Seq::<EpisodeEntryModel>::empty()
        },
{
    let moved = set_context_node(context, road);
    entries_in_scope(document, context, road, relative, moved)
}

/// Reads the items of the result page `html` by `rule`.
pub fn parse_search_results_xpath(rule: &Rule, html: &str) -> (r: Result<
    Vec<SearchResultItem>,
    SearchError,
>)
    ensures
        is_search_outcome(rule@, html@, items_outcome(r)),
        r matches Ok(items) ==> forall|k: int|
            0 <= k < items.len() ==> (#[trigger] items.deep_view()[k]).wf(),
        r matches Err(e) ==> !(e is Http) && !(e is InvalidUrl) && !(e is InvalidRoadsXPath),
        (r matches Err(e) && e@ == SearchErrorModel::HtmlParse(
            HtmlParseFailure::DocumentTooLarge,
        )) <==> html.spec_bytes().len() > max_html_bytes(),
{
    let document = match parse_html(html) {
        Ok(document) => document,
        Err(failure) => {
            return Err(SearchError::HtmlParse(failure));
        },
    };
    let context = match new_context(&document) {
        Some(context) => context,
        None => {
            return Err(SearchError::XPathContext);
        },
    };
    let list_xpath = normalize_xpath(rule.search_list.as_str());
    let name_xpath = normalize_xpath(rule.search_name.as_str());
    let result_xpath = normalize_xpath(rule.search_result.as_str());
    let nodes = match select(&document, &context, list_xpath.as_str()) {
        Some(nodes) => nodes,
        None => {
            return Err(SearchError::InvalidListXPath(list_xpath));
        },
    };
    let mut candidates: Vec<Candidate> = Vec::new();
    let mut i: usize = 0;
    while i < nodes.len()
        invariant
            i <= nodes.len(),
            candidates.len() == i,
            html_parses(html@),
            document_source(document) == html@,
            html.spec_bytes().len() <= max_html_bytes(),
            selected(document, None, normalized_xpath(rule@.search_list)) == Some(nodes@),
            name_xpath@ == normalized_xpath(rule@.search_name),
            result_xpath@ == normalized_xpath(rule@.search_result),
            candidates_read(
                candidates.deep_view(),
                document,
                nodes@.take(i as int),
                name_xpath@,
                result_xpath@,
            ),
        decreases nodes.len() - i,
    {
        let mut node_context = match new_context(&document) {
            Some(context) => context,
            None => {
                return Err(SearchError::NodeContext);
            },
        };
        let name = extract_text_from_node(
            &document,
            &mut node_context,
            &nodes[i],
            name_xpath.as_str(),
        );
        let href = extract_href_from_node(
            &document,
            &mut node_context,
            &nodes[i],
            result_xpath.as_str(),
        );
        let ghost before = candidates.deep_view();
        candidates.push(Candidate { name, href });
        proof {
            let after = candidates.deep_view();
            assert(after =~= before.push(CandidateModel { name: name@, href: href@ }));
            assert forall|k: int| 0 <= k < i + 1 implies {
                &&& ((#[trigger] after[k]).name == text_below(
                    document,
                    nodes@.take(i + 1)[k],
                    name_xpath@,
                ) || after[k].name.len() == 0)
                &&& (after[k].href == href_below(document, nodes@.take(i + 1)[k], result_xpath@)
                    || after[k].href.len() == 0)
            } by {
                if k < i {
                    assert(after[k] == before[k]);
                    assert(nodes@.take(i + 1)[k] == nodes@.take(i as int)[k]);
                }
            }
        }
        i += 1;
    }
    proof {
        assert(nodes@.take(nodes.len() as int) =~= nodes@);
    }
    let ghost read = candidates.deep_view();
    let items = collect_items(candidates, rule.base_url.as_str());
    proof {
        assert(candidates_read(
            read,
            document,
            nodes@,
            normalized_xpath(rule@.search_name),
            normalized_xpath(rule@.search_result),
        ));
        assert(items_read(items.deep_view(), rule@, document, nodes@));
        assert(is_page_outcome(
            rule@,
            document,
            Ok::<Seq<SearchResultItemModel>, SearchErrorModel>(items.deep_view()),
        ));
    }
    Ok(items)
}

/// Reads the roads of the detail page `html` by `rule`; `base_url` is the URL
/// that the page was fetched from.
pub fn parse_episodes_xpath(rule: &Rule, html: &str, base_url: &str) -> (r: Result<
    Vec<EpisodeRoad>,
    SearchError,
>)
    ensures
        is_episodes_outcome(rule@, html@, base_url@, roads_outcome(r)),
        r matches Err(e) ==> !(e is Http) && !(e is InvalidUrl) && !(e is InvalidListXPath),
        (r matches Err(e) && e@ == SearchErrorModel::HtmlParse(
            HtmlParseFailure::DocumentTooLarge,
        )) <==> html.spec_bytes().len() > max_html_bytes(),
{
    let document = match parse_html(html) {
        Ok(document) => document,
        Err(failure) => {
            return Err(SearchError::HtmlParse(failure));
        },
    };
    let context = match new_context(&document) {
        Some(context) => context,
        None => {
            return Err(SearchError::XPathContext);
        },
    };
    let roads_xpath = normalize_xpath(rule.chapter_roads.as_str());
    let result_xpath = normalize_xpath(rule.chapter_result.as_str());
    let road_nodes = match select(&document, &context, roads_xpath.as_str()) {
        Some(nodes) => nodes,
        None => {
            return Err(SearchError::InvalidRoadsXPath(roads_xpath));
        },
    };
    let url_base = extract_base_url(base_url, rule.base_url.as_str());
    let relative = relativize_xpath(result_xpath.as_str());
    let mut sources: Vec<Vec<EpisodeEntry>> = Vec::new();
    let mut i: usize = 0;
    while i < road_nodes.len()
        invariant
            i <= road_nodes.len(),
            sources.len() == i,
            html_parses(html@),
            document_source(document) == html@,
            html.spec_bytes().len() <= max_html_bytes(),
            selected(document, None, normalized_xpath(rule@.chapter_roads)) == Some(road_nodes@),
            result_xpath@ == normalized_xpath(rule@.chapter_result),
            relative@ == relative_xpath(result_xpath@),
            sources_read(
                sources.deep_view(),
                document,
                road_nodes@.take(i as int),
                result_xpath@,
            ),
        decreases road_nodes.len() - i,
    {
        let mut node_context = match new_context(&document) {
            Some(context) => context,
            None => {
                return Err(SearchError::NodeContext);
            },
        };
        let entries = read_entries(&document, &mut node_context, &road_nodes[i], relative.as_str());
        let ghost before = sources.deep_view();
        let ghost read = entries.deep_view();
        sources.push(entries);
        proof {
            let after = sources.deep_view();
            assert(after =~= before.push(read));
            assert forall|k: int| 0 <= k < i + 1 implies ((#[trigger] after[k]) == entries_below(
                document,
                road_nodes@.take(i + 1)[k],
                result_xpath@,
            ) || after[k].len() == 0) by {
                if k < i {
                    assert(after[k] == before[k]);
                    assert(road_nodes@.take(i + 1)[k] == road_nodes@.take(i as int)[k]);
                }
            }
        }
        i += 1;
    }
    proof {
        assert(road_nodes@.take(road_nodes.len() as int) =~= road_nodes@);
    }
    let roads = assemble_roads(&sources, url_base.as_str());
    proof {
        assert(sources_read(
            sources.deep_view(),
            document,
            road_nodes@,
            normalized_xpath(rule@.chapter_result),
        ));
        assert(roads_read(roads.deep_view(), rule@, url_base@, document, road_nodes@));
        assert(is_detail_outcome(
            rule@,
            document,
            url_base@,
            Ok::<Seq<EpisodeRoadModel>, SearchErrorModel>(roads.deep_view()),
        ));
    }
    Ok(roads)
}

} // verus!
