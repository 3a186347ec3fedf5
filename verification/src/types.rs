//! The data model: rules, result records and protocol events.
//!
//! Each type has a model made of sequences of characters, reached with `@`, over
//! which the contracts of the crate are stated.

use crate::text::clone_strings;
use vstd::prelude::*;

verus! {

/// One searchable source: how to ask it, where its results sit in the page, and
/// how to show it.
#[derive(Debug, PartialEq, Eq)]
pub struct Rule {
    pub name: String,
    pub version: String,
    pub base_url: String,
    pub search_url: String,
    pub use_post: bool,
    pub search_list: String,
    pub search_name: String,
    pub search_result: String,
    pub chapter_roads: String,
    pub chapter_result: String,
    pub color: String,
    pub tags: Vec<String>,
    pub magic: bool,
}

pub ghost struct RuleModel {
    pub name: Seq<char>,
    pub version: Seq<char>,
    pub base_url: Seq<char>,
    pub search_url: Seq<char>,
    pub use_post: bool,
    pub search_list: Seq<char>,
    pub search_name: Seq<char>,
    pub search_result: Seq<char>,
    pub chapter_roads: Seq<char>,
    pub chapter_result: Seq<char>,
    pub color: Seq<char>,
    pub tags: Seq<Seq<char>>,
    pub magic: bool,
}

impl DeepView for Rule {
    type V = RuleModel;

    open spec fn deep_view(&self) -> RuleModel {
        RuleModel {
            name: self.name@,
            version: self.version@,
            base_url: self.base_url@,
            search_url: self.search_url@,
            use_post: self.use_post,
            search_list: self.search_list@,
            search_name: self.search_name@,
            search_result: self.search_result@,
            chapter_roads: self.chapter_roads@,
            chapter_result: self.chapter_result@,
            color: self.color@,
            tags: self.tags.deep_view(),
            magic: self.magic,
        }
    }
}

impl View for Rule {
    type V = RuleModel;

    open spec fn view(&self) -> RuleModel {
        self.deep_view()
    }
}

impl RuleModel {
    /// A rule is identified by its name, which is not empty.
    pub open spec fn wf(self) -> bool {
        self.name.len() > 0
    }

    /// Whether the rule says where episodes sit in a detail page.
    pub open spec fn has_chapters(self) -> bool {
        self.chapter_roads.len() > 0 && self.chapter_result.len() > 0
    }
}

impl Clone for Rule {
    fn clone(&self) -> (r: Rule)
        ensures
            r@ == self@,
    {
        Rule {
            name: self.name.clone(),
            version: self.version.clone(),
            base_url: self.base_url.clone(),
            search_url: self.search_url.clone(),
            use_post: self.use_post,
            search_list: self.search_list.clone(),
            search_name: self.search_name.clone(),
            search_result: self.search_result.clone(),
            chapter_roads: self.chapter_roads.clone(),
            chapter_result: self.chapter_result.clone(),
            color: self.color.clone(),
            tags: clone_strings(&self.tags),
            magic: self.magic,
        }
    }
}

impl Rule {
    /// Whether the rule says where episodes sit in a detail page.
    pub fn has_chapters(&self) -> (b: bool)
        ensures
            b == self@.has_chapters(),
    {
        !self.chapter_roads.as_str().is_empty() && !self.chapter_result.as_str().is_empty()
    }
}

/// One playable unit.
#[derive(Debug, PartialEq, Eq)]
pub struct Episode {
    pub name: String,
    pub url: String,
}

pub ghost struct EpisodeModel {
    pub name: Seq<char>,
    pub url: Seq<char>,
}

impl DeepView for Episode {
    type V = EpisodeModel;

    open spec fn deep_view(&self) -> EpisodeModel {
        EpisodeModel { name: self.name@, url: self.url@ }
    }
}

impl View for Episode {
    type V = EpisodeModel;

    open spec fn view(&self) -> EpisodeModel {
        self.deep_view()
    }
}

impl EpisodeModel {
    /// Name and link are both present.
    pub open spec fn wf(self) -> bool {
        self.name.len() > 0 && self.url.len() > 0
    }
}

impl Clone for Episode {
    fn clone(&self) -> (r: Episode)
        ensures
            r@ == self@,
    {
        Episode { name: self.name.clone(), url: self.url.clone() }
    }
}

/// One play source of a title: a group of episodes served by one mirror.
#[derive(Debug, PartialEq, Eq)]
pub struct EpisodeRoad {
    pub name: Option<String>,
    pub episodes: Vec<Episode>,
}

pub ghost struct EpisodeRoadModel {
    pub name: Option<Seq<char>>,
    pub episodes: Seq<EpisodeModel>,
}

impl DeepView for EpisodeRoad {
    type V = EpisodeRoadModel;

    open spec fn deep_view(&self) -> EpisodeRoadModel {
        EpisodeRoadModel { name: self.name.deep_view(), episodes: self.episodes.deep_view() }
    }
}

impl View for EpisodeRoad {
    type V = EpisodeRoadModel;

    open spec fn view(&self) -> EpisodeRoadModel {
        self.deep_view()
    }
}

impl EpisodeRoadModel {
    /// A road holds at least one episode, and each of them is well formed.
    pub open spec fn wf(self) -> bool {
        &&& self.episodes.len() > 0
        &&& forall|i: int| 0 <= i < self.episodes.len() ==> (#[trigger] self.episodes[i]).wf()
    }
}

/// A copy of every episode of `v`, in order.
pub fn clone_episodes(v: &Vec<Episode>) -> (r: Vec<Episode>)
    ensures
        r.deep_view() == v.deep_view(),
{
    let mut r: Vec<Episode> = Vec::new();
    let mut i: usize = 0;
    while i < v.len()
        invariant
            i <= v.len(),
            r.len() == i,
            forall|k: int| 0 <= k < i ==> r@[k]@ == v@[k]@,
        decreases v.len() - i,
    {
        r.push(v[i].clone());
        i += 1;
    }
    assert(r.deep_view() =~= v.deep_view());
    r
}

impl Clone for EpisodeRoad {
    fn clone(&self) -> (r: EpisodeRoad)
        ensures
            r@ == self@,
    {
        let name = match &self.name {
            Some(n) => Some(n.clone()),
            None => None,
        };
        EpisodeRoad { name, episodes: clone_episodes(&self.episodes) }
    }
}

/// A copy of every road of `v`, in order.
pub fn clone_roads(v: &Vec<EpisodeRoad>) -> (r: Vec<EpisodeRoad>)
    ensures
        r.deep_view() == v.deep_view(),
{
    let mut r: Vec<EpisodeRoad> = Vec::new();
    let mut i: usize = 0;
    while i < v.len()
        invariant
            i <= v.len(),
            r.len() == i,
            forall|k: int| 0 <= k < i ==> r@[k]@ == v@[k]@,
        decreases v.len() - i,
    {
        r.push(v[i].clone());
        i += 1;
    }
    assert(r.deep_view() =~= v.deep_view());
    r
}

/// One matched title from one source.
#[derive(Debug, PartialEq, Eq)]
pub struct SearchResultItem {
    pub name: String,
    pub url: String,
    pub tags: Option<Vec<String>>,
    pub episodes: Option<Vec<EpisodeRoad>>,
}

pub ghost struct SearchResultItemModel {
    pub name: Seq<char>,
    pub url: Seq<char>,
    pub tags: Option<Seq<Seq<char>>>,
    pub episodes: Option<Seq<EpisodeRoadModel>>,
}

impl DeepView for SearchResultItem {
    type V = SearchResultItemModel;

    open spec fn deep_view(&self) -> SearchResultItemModel {
        SearchResultItemModel {
            name: self.name@,
            url: self.url@,
            tags: self.tags.deep_view(),
            episodes: self.episodes.deep_view(),
        }
    }
}

impl View for SearchResultItem {
    type V = SearchResultItemModel;

    open spec fn view(&self) -> SearchResultItemModel {
        self.deep_view()
    }
}

impl SearchResultItemModel {
    /// Name and link are both present.
    pub open spec fn wf(self) -> bool {
        self.name.len() > 0 && self.url.len() > 0
    }
}

impl Clone for SearchResultItem {
    fn clone(&self) -> (r: SearchResultItem)
        ensures
            r@ == self@,
    {
        let tags = match &self.tags {
            Some(t) => Some(clone_strings(t)),
            None => None,
        };
        let episodes = match &self.episodes {
            Some(e) => Some(clone_roads(e)),
            None => None,
        };
        SearchResultItem { name: self.name.clone(), url: self.url.clone(), tags, episodes }
    }
}

/// What one rule's search came to: its items, or the error that stopped it.
#[derive(Debug, PartialEq, Eq)]
pub struct PlatformSearchResult {
    pub items: Vec<SearchResultItem>,
    pub count: usize,
    pub error: Option<String>,
}

pub ghost struct PlatformSearchResultModel {
    pub items: Seq<SearchResultItemModel>,
    pub count: nat,
    pub error: Option<Seq<char>>,
}

impl DeepView for PlatformSearchResult {
    type V = PlatformSearchResultModel;

    open spec fn deep_view(&self) -> PlatformSearchResultModel {
        PlatformSearchResultModel {
            items: self.items.deep_view(),
            count: self.count as nat,
            error: self.error.deep_view(),
        }
    }
}

impl View for PlatformSearchResult {
    type V = PlatformSearchResultModel;

    open spec fn view(&self) -> PlatformSearchResultModel {
        self.deep_view()
    }
}

impl PlatformSearchResultModel {
    /// The count is the number of items, and a result with an error has no items.
    pub open spec fn wf(self) -> bool {
        &&& self.count == self.items.len()
        &&& self.error is Some ==> self.items.len() == 0
    }
}

impl PlatformSearchResult {
    /// A successful search that found `items`.
    pub fn with_items(items: Vec<SearchResultItem>) -> (r: PlatformSearchResult)
        ensures
            r@.items == items.deep_view(),
            r@.count == items.len(),
            r@.error is None,
            r@.wf(),
    {
        let count = items.len();
        PlatformSearchResult { items, count, error: None }
    }

    /// A search that failed with `error`.
    pub fn with_error(error: String) -> (r: PlatformSearchResult)
        ensures
            r@.items.len() == 0,
            r@.count == 0,
            r@.error == Some(error@),
            r@.wf(),
    {
        PlatformSearchResult { items: Vec::new(), count: 0, error: Some(error) }
    }
}

/// How many of the sources have finished.
#[derive(Debug, Clone, Copy, PartialEq, Eq)]
pub struct StreamProgress {
    pub completed: usize,
    pub total: usize,
}

impl StreamProgress {
    /// No more sources have finished than there are.
    pub open spec fn wf(self) -> bool {
        self.completed <= self.total
    }
}

/// What is shown for one source that has finished.
#[derive(Debug, PartialEq, Eq)]
pub struct StreamResult {
    pub name: String,
    pub color: String,
    pub tags: Vec<String>,
    pub items: Vec<SearchResultItem>,
    pub error: Option<String>,
}

pub ghost struct StreamResultModel {
    pub name: Seq<char>,
    pub color: Seq<char>,
    pub tags: Seq<Seq<char>>,
    pub items: Seq<SearchResultItemModel>,
    pub error: Option<Seq<char>>,
}

impl DeepView for StreamResult {
    type V = StreamResultModel;

    open spec fn deep_view(&self) -> StreamResultModel {
        StreamResultModel {
            name: self.name@,
            color: self.color@,
            tags: self.tags.deep_view(),
            items: self.items.deep_view(),
            error: self.error.deep_view(),
        }
    }
}

impl View for StreamResult {
    type V = StreamResultModel;

    open spec fn view(&self) -> StreamResultModel {
        self.deep_view()
    }
}

/// One message of the search protocol.
#[derive(Debug, PartialEq, Eq)]
pub enum StreamEvent {
    Init { total: usize },
    Progress { progress: StreamProgress },
    Result { progress: StreamProgress, result: StreamResult },
    Done { done: bool },
}

pub ghost enum StreamEventModel {
    Init { total: usize },
    Progress { progress: StreamProgress },
    Result { progress: StreamProgress, result: StreamResultModel },
    Done { done: bool },
}

impl DeepView for StreamEvent {
    type V = StreamEventModel;

    open spec fn deep_view(&self) -> StreamEventModel {
        match self {
            StreamEvent::Init { total } => StreamEventModel::Init { total: *total },
            StreamEvent::Progress { progress } => StreamEventModel::Progress {
                progress: *progress,
            },
            StreamEvent::Result { progress, result } => StreamEventModel::Result {
                progress: *progress,
                result: result@,
            },
            StreamEvent::Done { done } => StreamEventModel::Done { done: *done },
        }
    }
}

impl View for StreamEvent {
    type V = StreamEventModel;

    open spec fn view(&self) -> StreamEventModel {
        self.deep_view()
    }
}

} // verus!
