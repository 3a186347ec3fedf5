//! From what was read in a page to result records.
//!
//! Reading a page gives, for each list node, a name and a link, and for each
//! play source the text and link of each of its episode nodes. The functions
//! here decide which of them become records, resolve their links, and label the
//! play sources. They work on plain values.

use crate::links::{lemma_resolved_not_shorter, normalize_url, resolved_url};
use crate::text::{concat2, decimal, to_decimal, trim, trimmed};
use crate::types::{
    Episode, EpisodeModel, EpisodeRoad, EpisodeRoadModel, SearchResultItem, SearchResultItemModel,
};
use vstd::prelude::*;
use vstd::string::*;

verus! {

/// What was read at one list node: the name of the title and the link to it,
/// either of which may be missing.
#[derive(Debug, PartialEq, Eq)]
pub struct Candidate {
    pub name: String,
    pub href: String,
}

pub ghost struct CandidateModel {
    pub name: Seq<char>,
    pub href: Seq<char>,
}

impl DeepView for Candidate {
    type V = CandidateModel;

    open spec fn deep_view(&self) -> CandidateModel {
        CandidateModel { name: self.name@, href: self.href@ }
    }
}

impl View for Candidate {
    type V = CandidateModel;

    open spec fn view(&self) -> CandidateModel {
        self.deep_view()
    }
}

impl CandidateModel {
    /// A candidate becomes an item when it has both a name and a link.
    pub open spec fn is_valid(self) -> bool {
        self.name.len() > 0 && self.href.len() > 0
    }

    /// The item that a valid candidate becomes.
    pub open spec fn item(self, base_url: Seq<char>) -> SearchResultItemModel {
        SearchResultItemModel {
            name: self.name,
            url: resolved_url(self.href, base_url),
            tags: None,
            episodes: None,
        }
    }
}

/// The items of `candidates`: one for each valid candidate, in the order of the
/// candidates.
pub open spec fn kept_items(candidates: Seq<CandidateModel>, base_url: Seq<char>) -> Seq<
    SearchResultItemModel,
>
    decreases candidates.len(),
{
    if candidates.len() == 0 {
        Seq::empty()
    } else {
        let before = kept_items(candidates.drop_last(), base_url);
        if candidates.last().is_valid() {
            before.push(candidates.last().item(base_url))
        } else {
            before
        }
    }
}

/// The place of the candidate at `index` among the items: the number of valid
/// candidates before it.
pub open spec fn item_rank(candidates: Seq<CandidateModel>, base_url: Seq<char>, index: int)
    -> int {
    kept_items(candidates.take(index), base_url).len() as int
}

/// The item of a candidate, if it has both a name and a link.
pub fn build_item(candidate: Candidate, base_url: &str) -> (r: Option<SearchResultItem>)
    ensures
        match r {
            Some(item) => candidate@.is_valid() && item@ == candidate@.item(base_url@),
            None => !candidate@.is_valid(),
        },
{
    if candidate.name.as_str().is_empty() || candidate.href.as_str().is_empty() {
        return None;
    }
    let url = normalize_url(candidate.href.as_str(), base_url);
    Some(SearchResultItem { name: candidate.name, url, tags: None, episodes: None })
}

/// The items of `candidates`. Each has a name and a link. There is one for each
/// valid candidate and none for any other, and they stand in the order of their
/// candidates: where every candidate is valid, there is an item for each, at
/// the same place.
pub fn collect_items(candidates: Vec<Candidate>, base_url: &str) -> (items: Vec<
    SearchResultItem,
>)
    ensures
        items.deep_view() == kept_items(candidates.deep_view(), base_url@),
        forall|k: int| 0 <= k < items.len() ==> (#[trigger] items.deep_view()[k]).wf(),
        items.len() <= candidates.len(),
        forall|i: int|
            0 <= i < candidates.len() && (#[trigger] candidates.deep_view()[i]).is_valid() ==> {
                let rank = item_rank(candidates.deep_view(), base_url@, i);
                &&& 0 <= rank < items.len()
                &&& items.deep_view()[rank] == candidates.deep_view()[i].item(base_url@)
            },
        forall|i: int, j: int|
            0 <= i < j < candidates.len() && candidates.deep_view()[i].is_valid()
                ==> #[trigger] item_rank(candidates.deep_view(), base_url@, i)
                < #[trigger] item_rank(candidates.deep_view(), base_url@, j),
        (forall|i: int|
            0 <= i < candidates.len() ==> (#[trigger] candidates.deep_view()[i]).is_valid())
            ==> items.len() == candidates.len() && forall|i: int|
            0 <= i < candidates.len() ==> (#[trigger] items.deep_view()[i])
                == candidates.deep_view()[i].item(base_url@),
{
    let ghost all = candidates.deep_view();
    let ghost given = candidates@;
    let mut items: Vec<SearchResultItem> = Vec::new();
    let n = candidates.len();
    proof {
        assert(all.take(0) =~= Seq::<CandidateModel>::empty());
        assert(items.deep_view() =~= Seq::<SearchResultItemModel>::empty());
    }
    for candidate in it: candidates
        invariant
            it.seq() == given,
            n == given.len(),
            all.len() == n,
            forall|k: int| 0 <= k < n ==> (#[trigger] given[k])@ == all[k],
            items.deep_view() == kept_items(all.take(it.index() as int), base_url@),
    {
        let ghost i = it.index() as int;
        let ghost before = items.deep_view();
        proof {
            assert(candidate@ == all[i]);
            assert(all.take(i + 1).drop_last() =~= all.take(i));
            assert(all.take(i + 1).last() == all[i]);
        }
        match build_item(candidate, base_url) {
            Some(item) => {
                items.push(item);
                proof {
                    assert(items.deep_view() =~= before.push(all[i].item(base_url@)));
                }
            },
            None => {
                proof {
                    assert(items.deep_view() =~= before);
                }
            },
        }
    }
    proof {
        assert(all.take(n as int) =~= all);
        lemma_kept_items_wf(all, base_url@);
        lemma_rank_bounds(all, base_url@, 0);
        assert forall|i: int| 0 <= i < all.len() && (#[trigger] all[i]).is_valid() implies {
            let rank = item_rank(all, base_url@, i);
            0 <= rank < items.len() && items.deep_view()[rank] == all[i].item(base_url@)
        } by {
            lemma_valid_candidate_kept(all, base_url@, i);
        }
        assert forall|i: int, j: int|
            0 <= i < j < all.len() && all[i].is_valid() implies #[trigger] item_rank(
            all,
            base_url@,
            i,
        ) < #[trigger] item_rank(all, base_url@, j) by {
            lemma_rank_order(all, base_url@, i, j);
        }
        if forall|i: int| 0 <= i < all.len() ==> (#[trigger] all[i]).is_valid() {
            lemma_all_valid_all_kept(all, base_url@);
        }
    }
    items
}

/// The items are the valid candidates, filtered out of all candidates and each
/// turned into its item.
pub proof fn lemma_kept_items_is_filter(candidates: Seq<CandidateModel>, base_url: Seq<char>)
    ensures
        kept_items(candidates, base_url) == candidates.filter(
            |c: CandidateModel| c.is_valid(),
        ).map_values(|c: CandidateModel| c.item(base_url)),
    decreases candidates.len(),
{
    reveal(Seq::filter);
    let valid = |c: CandidateModel| c.is_valid();
    let item = |c: CandidateModel| c.item(base_url);
    if candidates.len() > 0 {
        lemma_kept_items_is_filter(candidates.drop_last(), base_url);
        let before = candidates.drop_last().filter(valid);
        if candidates.last().is_valid() {
            assert(before.push(candidates.last()).map_values(item) =~= before.map_values(
                item,
            ).push(candidates.last().item(base_url)));
        }
    } else {
        assert(candidates.filter(valid).map_values(item) =~= Seq::<SearchResultItemModel>::empty());
    }
}

/// Every item has a name and a link.
pub proof fn lemma_kept_items_wf(candidates: Seq<CandidateModel>, base_url: Seq<char>)
    ensures
        forall|k: int|
            0 <= k < kept_items(candidates, base_url).len() ==> (#[trigger] kept_items(
                candidates,
                base_url,
            )[k]).wf(),
    decreases candidates.len(),
{
    if candidates.len() > 0 {
        let before = kept_items(candidates.drop_last(), base_url);
        let kept = kept_items(candidates, base_url);
        lemma_kept_items_wf(candidates.drop_last(), base_url);
        lemma_resolved_not_shorter(candidates.last().href, base_url);
        assert forall|k: int| 0 <= k < kept.len() implies (#[trigger] kept[k]).wf() by {
            if k < before.len() {
                assert(kept[k] == before[k]);
            }
        }
    }
}

/// Where every candidate has a name and a link, there is one item for each, in
/// the same order.
pub proof fn lemma_all_valid_all_kept(candidates: Seq<CandidateModel>, base_url: Seq<char>)
    requires
        forall|i: int| 0 <= i < candidates.len() ==> (#[trigger] candidates[i]).is_valid(),
    ensures
        kept_items(candidates, base_url).len() == candidates.len(),
        forall|i: int|
            0 <= i < candidates.len() ==> (#[trigger] kept_items(candidates, base_url)[i])
                == candidates[i].item(base_url),
    decreases candidates.len(),
{
    if candidates.len() > 0 {
        let before = candidates.drop_last();
        assert forall|i: int| 0 <= i < before.len() implies (#[trigger] before[i]).is_valid() by {
            assert(before[i] == candidates[i]);
        }
        lemma_all_valid_all_kept(before, base_url);
        assert forall|i: int| 0 <= i < candidates.len() implies (#[trigger] kept_items(
            candidates,
            base_url,
        )[i]) == candidates[i].item(base_url) by {
            if i < before.len() {
                assert(before[i] == candidates[i]);
                assert(kept_items(candidates, base_url)[i] == kept_items(before, base_url)[i]);
            }
        }
    }
}

/// The items of a sequence of candidates start with the items of each of its
/// prefixes.
proof fn lemma_kept_items_prefix(candidates: Seq<CandidateModel>, base_url: Seq<char>, i: int)
    requires
        0 <= i <= candidates.len(),
    ensures
        kept_items(candidates.take(i), base_url).is_prefix_of(kept_items(candidates, base_url)),
    decreases candidates.len() - i,
{
    let whole = kept_items(candidates, base_url);
    if i == candidates.len() {
        assert(candidates.take(i) =~= candidates);
        assert(whole.subrange(0, whole.len() as int) =~= whole);
    } else {
        lemma_kept_items_prefix(candidates, base_url, i + 1);
        let longer = kept_items(candidates.take(i + 1), base_url);
        let shorter = kept_items(candidates.take(i), base_url);
        assert(candidates.take(i + 1).drop_last() =~= candidates.take(i));
        assert(shorter =~= longer.subrange(0, shorter.len() as int));
        assert(longer =~= whole.subrange(0, longer.len() as int));
        assert(shorter =~= whole.subrange(0, shorter.len() as int));
    }
}

proof fn lemma_rank_step(candidates: Seq<CandidateModel>, base_url: Seq<char>, i: int)
    requires
        0 <= i < candidates.len(),
    ensures
        item_rank(candidates, base_url, i + 1) == item_rank(candidates, base_url, i) + (if
            candidates[i].is_valid() {
            1int
        } else {
            0int
        }),
        candidates[i].is_valid() ==> kept_items(candidates.take(i + 1), base_url)[item_rank(
            candidates,
            base_url,
            i,
        )] == candidates[i].item(base_url),
{
    assert(candidates.take(i + 1).drop_last() =~= candidates.take(i));
    assert(candidates.take(i + 1).last() == candidates[i]);
}

/// The rank of a candidate is a place among the items or the place after the
/// last one, and it is the number of items where the index is the number of
/// candidates.
pub proof fn lemma_rank_bounds(candidates: Seq<CandidateModel>, base_url: Seq<char>, i: int)
    requires
        0 <= i <= candidates.len(),
    ensures
        0 <= item_rank(candidates, base_url, i) <= kept_items(candidates, base_url).len()
            <= candidates.len(),
        item_rank(candidates, base_url, candidates.len() as int) == kept_items(
            candidates,
            base_url,
        ).len(),
{
    let n = candidates.len() as int;
    assert(candidates.take(n) =~= candidates);
    lemma_rank_order(candidates, base_url, i, n);
    lemma_rank_order(candidates, base_url, 0, n);
    lemma_rank_at_most_index(candidates, base_url, n);
}

proof fn lemma_rank_at_most_index(candidates: Seq<CandidateModel>, base_url: Seq<char>, i: int)
    requires
        0 <= i <= candidates.len(),
    ensures
        item_rank(candidates, base_url, i) <= i,
    decreases i,
{
    if i > 0 {
        lemma_rank_at_most_index(candidates, base_url, i - 1);
        lemma_rank_step(candidates, base_url, i - 1);
    } else {
        assert(candidates.take(0) =~= Seq::<CandidateModel>::empty());
    }
}

/// Items keep the order of their candidates: the rank never falls as the index
/// grows, and it rises past every valid candidate.
pub proof fn lemma_rank_order(candidates: Seq<CandidateModel>, base_url: Seq<char>, i: int, j: int)
    requires
        0 <= i <= j <= candidates.len(),
    ensures
        item_rank(candidates, base_url, i) <= item_rank(candidates, base_url, j),
        i < j && candidates[i].is_valid() ==> item_rank(candidates, base_url, i) < item_rank(
            candidates,
            base_url,
            j,
        ),
    decreases j - i,
{
    if i < j {
        lemma_rank_order(candidates, base_url, i, j - 1);
        lemma_rank_step(candidates, base_url, j - 1);
    }
}

/// The item of a valid candidate stands at the candidate's rank.
pub proof fn lemma_valid_candidate_kept(
    candidates: Seq<CandidateModel>,
    base_url: Seq<char>,
    i: int,
)
    requires
        0 <= i < candidates.len(),
        candidates[i].is_valid(),
    ensures
        0 <= item_rank(candidates, base_url, i) < kept_items(candidates, base_url).len(),
        kept_items(candidates, base_url)[item_rank(candidates, base_url, i)] == candidates[i].item(
            base_url,
        ),
{
    let rank = item_rank(candidates, base_url, i);
    lemma_rank_step(candidates, base_url, i);
    lemma_rank_bounds(candidates, base_url, i + 1);
    lemma_kept_items_prefix(candidates, base_url, i + 1);
    let upto = kept_items(candidates.take(i + 1), base_url);
    let whole = kept_items(candidates, base_url);
    assert(whole.subrange(0, upto.len() as int)[rank] == whole[rank]);
}

/// Every item is the item of a valid candidate, which the result names: a
/// candidate without a name or without a link has no item.
pub proof fn lemma_item_source(candidates: Seq<CandidateModel>, base_url: Seq<char>, k: int) -> (i:
    int)
    requires
        0 <= k < kept_items(candidates, base_url).len(),
    ensures
        0 <= i < candidates.len(),
        candidates[i].is_valid(),
        item_rank(candidates, base_url, i) == k,
        kept_items(candidates, base_url)[k] == candidates[i].item(base_url),
    decreases candidates.len(),
{
    let before = candidates.drop_last();
    let n = before.len() as int;
    assert(candidates.take(n) =~= before);
    if k < kept_items(before, base_url).len() {
        let i = lemma_item_source(before, base_url, k);
        assert(candidates.take(i) =~= before.take(i));
        i
    } else {
        n
    }
}

/// What was read at one episode node: its text and its `href` attribute, if it
/// has one.
#[derive(Debug, PartialEq, Eq)]
pub struct EpisodeEntry {
    pub content: String,
    pub href: Option<String>,
}

pub ghost struct EpisodeEntryModel {
    pub content: Seq<char>,
    pub href: Option<Seq<char>>,
}

impl DeepView for EpisodeEntry {
    type V = EpisodeEntryModel;

    open spec fn deep_view(&self) -> EpisodeEntryModel {
        EpisodeEntryModel { content: self.content@, href: self.href.deep_view() }
    }
}

impl View for EpisodeEntry {
    type V = EpisodeEntryModel;

    open spec fn view(&self) -> EpisodeEntryModel {
        self.deep_view()
    }
}

impl EpisodeEntryModel {
    /// The name of the episode: the text of the node, trimmed.
    pub open spec fn name(self) -> Seq<char> {
        trimmed(self.content)
    }

    /// The link of the episode; empty where the node has none.
    pub open spec fn link(self) -> Seq<char> {
        match self.href {
            Some(href) => href,
            None => Seq::empty(),
        }
    }

    /// An entry becomes an episode when it has both a name and a link.
    pub open spec fn is_valid(self) -> bool {
        self.name().len() > 0 && self.link().len() > 0
    }

    /// The episode that a valid entry becomes.
    pub open spec fn episode(self, url_base: Seq<char>) -> EpisodeModel {
        EpisodeModel { name: self.name(), url: resolved_url(self.link(), url_base) }
    }
}

/// The episodes of `entries`: one for each valid entry, in the order of the
/// entries.
pub open spec fn kept_episodes(entries: Seq<EpisodeEntryModel>, url_base: Seq<char>) -> Seq<
    EpisodeModel,
>
    decreases entries.len(),
{
    if entries.len() == 0 {
        Seq::empty()
    } else {
        let before = kept_episodes(entries.drop_last(), url_base);
        if entries.last().is_valid() {
            before.push(entries.last().episode(url_base))
        } else {
            before
        }
    }
}

/// The label of the play source with the given index among all play sources of
/// the page, counted from zero.
pub open spec fn road_label(index: nat) -> Seq<char> {
    "线路"@ + decimal(index + 1)
}

/// The roads of the first `n` play sources: one for each that has an episode,
/// labeled by its index if `labeled`.
pub open spec fn roads_upto(
    sources: Seq<Seq<EpisodeEntryModel>>,
    url_base: Seq<char>,
    labeled: bool,
    n: nat,
) -> Seq<EpisodeRoadModel>
    decreases n,
{
    if n == 0 {
        Seq::empty()
    } else {
        let before = roads_upto(sources, url_base, labeled, (n - 1) as nat);
        let episodes = kept_episodes(sources[n - 1], url_base);
        if episodes.len() > 0 {
            before.push(
                EpisodeRoadModel {
                    name: if labeled {
                        Some(road_label((n - 1) as nat))
                    } else {
                        None
                    },
                    episodes,
                },
            )
        } else {
            before
        }
    }
}

/// How many of the first `n` play sources have an episode.
pub open spec fn surviving_roads(sources: Seq<Seq<EpisodeEntryModel>>, url_base: Seq<char>, n: nat)
    -> nat {
    roads_upto(sources, url_base, false, n).len()
}

/// The roads of a page: one for each play source that has an episode, in the
/// order of the play sources. Where two or more have one, each road is labeled
/// by the index of its play source among all of them; a single road has no
/// label.
pub open spec fn assembled_roads(sources: Seq<Seq<EpisodeEntryModel>>, url_base: Seq<char>)
    -> Seq<EpisodeRoadModel> {
    roads_upto(
        sources,
        url_base,
        surviving_roads(sources, url_base, sources.len()) > 1,
        sources.len(),
    )
}

/// The episodes are the valid entries, filtered out of all entries and each
/// turned into its episode.
pub proof fn lemma_kept_episodes_is_filter(entries: Seq<EpisodeEntryModel>, url_base: Seq<char>)
    ensures
        kept_episodes(entries, url_base) == entries.filter(
            |e: EpisodeEntryModel| e.is_valid(),
        ).map_values(|e: EpisodeEntryModel| e.episode(url_base)),
    decreases entries.len(),
{
    reveal(Seq::filter);
    let valid = |e: EpisodeEntryModel| e.is_valid();
    let episode = |e: EpisodeEntryModel| e.episode(url_base);
    if entries.len() > 0 {
        lemma_kept_episodes_is_filter(entries.drop_last(), url_base);
        let before = entries.drop_last().filter(valid);
        if entries.last().is_valid() {
            assert(before.push(entries.last()).map_values(episode) =~= before.map_values(
                episode,
            ).push(entries.last().episode(url_base)));
        }
    } else {
        assert(entries.filter(valid).map_values(episode) =~= Seq::<EpisodeModel>::empty());
    }
}

/// Every episode has a name and a link.
pub proof fn lemma_kept_episodes_wf(entries: Seq<EpisodeEntryModel>, url_base: Seq<char>)
    ensures
        forall|k: int|
            0 <= k < kept_episodes(entries, url_base).len() ==> (#[trigger] kept_episodes(
                entries,
                url_base,
            )[k]).wf(),
    decreases entries.len(),
{
    if entries.len() > 0 {
        let before = kept_episodes(entries.drop_last(), url_base);
        let kept = kept_episodes(entries, url_base);
        lemma_kept_episodes_wf(entries.drop_last(), url_base);
        lemma_resolved_not_shorter(entries.last().link(), url_base);
        assert forall|k: int| 0 <= k < kept.len() implies (#[trigger] kept[k]).wf() by {
            if k < before.len() {
                assert(kept[k] == before[k]);
            }
        }
    }
}

/// The road of the play source with index `i`, labeled or not.
pub open spec fn road_of(
    sources: Seq<Seq<EpisodeEntryModel>>,
    url_base: Seq<char>,
    labeled: bool,
    i: int,
) -> EpisodeRoadModel {
    EpisodeRoadModel {
        name: if labeled {
            Some(road_label(i as nat))
        } else {
            None
        },
        episodes: kept_episodes(sources[i], url_base),
    }
}

proof fn lemma_roads_count(
    sources: Seq<Seq<EpisodeEntryModel>>,
    url_base: Seq<char>,
    labeled: bool,
    n: nat,
)
    ensures
        roads_upto(sources, url_base, labeled, n).len() == surviving_roads(sources, url_base, n),
        surviving_roads(sources, url_base, n) <= n,
    decreases n,
{
    if n > 0 {
        lemma_roads_count(sources, url_base, labeled, (n - 1) as nat);
        lemma_roads_count(sources, url_base, false, (n - 1) as nat);
    }
}

proof fn lemma_surviving_grows(
    sources: Seq<Seq<EpisodeEntryModel>>,
    url_base: Seq<char>,
    i: nat,
    j: nat,
)
    requires
        i <= j,
    ensures
        surviving_roads(sources, url_base, i) <= surviving_roads(sources, url_base, j),
        i < j && kept_episodes(sources[i as int], url_base).len() > 0 ==> surviving_roads(
            sources,
            url_base,
            i,
        ) < surviving_roads(sources, url_base, j),
    decreases j - i,
{
    if i < j {
        lemma_surviving_grows(sources, url_base, i, (j - 1) as nat);
    }
}

proof fn lemma_road_at_rank(
    sources: Seq<Seq<EpisodeEntryModel>>,
    url_base: Seq<char>,
    labeled: bool,
    i: nat,
    n: nat,
)
    requires
        i < n,
        kept_episodes(sources[i as int], url_base).len() > 0,
    ensures
        surviving_roads(sources, url_base, i) < roads_upto(sources, url_base, labeled, n).len(),
        roads_upto(sources, url_base, labeled, n)[surviving_roads(sources, url_base, i) as int]
            == road_of(sources, url_base, labeled, i as int),
    decreases n,
{
    lemma_roads_count(sources, url_base, labeled, (n - 1) as nat);
    lemma_roads_count(sources, url_base, labeled, n);
    if i < n - 1 {
        lemma_road_at_rank(sources, url_base, labeled, i, (n - 1) as nat);
    }
}

proof fn lemma_road_source_upto(
    sources: Seq<Seq<EpisodeEntryModel>>,
    url_base: Seq<char>,
    labeled: bool,
    n: nat,
    k: int,
) -> (i: int)
    requires
        0 <= k < roads_upto(sources, url_base, labeled, n).len(),
    ensures
        0 <= i < n,
        kept_episodes(sources[i], url_base).len() > 0,
        surviving_roads(sources, url_base, i as nat) == k,
        roads_upto(sources, url_base, labeled, n)[k] == road_of(sources, url_base, labeled, i),
    decreases n,
{
    lemma_roads_count(sources, url_base, labeled, (n - 1) as nat);
    if k < roads_upto(sources, url_base, labeled, (n - 1) as nat).len() {
        lemma_road_source_upto(sources, url_base, labeled, (n - 1) as nat, k)
    } else {
        n - 1
    }
}

/// The place of the play source with index `i` among the roads: the number of
/// play sources before it that have an episode.
pub open spec fn road_rank(sources: Seq<Seq<EpisodeEntryModel>>, url_base: Seq<char>, i: int)
    -> int {
    surviving_roads(sources, url_base, i as nat) as int
}

/// Every road comes from a play source that has an episode, which the result
/// names; a play source without one has no road. The road holds the episodes of
/// that play source. It has no label where it is the only road, and the label
/// of its play source's index where there are more.
pub proof fn lemma_road_source(sources: Seq<Seq<EpisodeEntryModel>>, url_base: Seq<char>, k: int)
    -> (i: int)
    requires
        0 <= k < assembled_roads(sources, url_base).len(),
    ensures
        0 <= i < sources.len(),
        road_rank(sources, url_base, i) == k,
        assembled_roads(sources, url_base)[k].episodes == kept_episodes(sources[i], url_base),
        assembled_roads(sources, url_base)[k].wf(),
        assembled_roads(sources, url_base).len() == 1 ==> assembled_roads(
            sources,
            url_base,
        )[k].name is None,
        assembled_roads(sources, url_base).len() >= 2 ==> assembled_roads(
            sources,
            url_base,
        )[k].name == Some(road_label(i as nat)),
{
    let labeled = surviving_roads(sources, url_base, sources.len()) > 1;
    lemma_roads_count(sources, url_base, labeled, sources.len());
    let i = lemma_road_source_upto(sources, url_base, labeled, sources.len(), k);
    lemma_kept_episodes_wf(sources[i], url_base);
    i
}

/// A play source that has an episode has its road at its rank.
pub proof fn lemma_surviving_source_has_road(
    sources: Seq<Seq<EpisodeEntryModel>>,
    url_base: Seq<char>,
    i: int,
)
    requires
        0 <= i < sources.len(),
        kept_episodes(sources[i], url_base).len() > 0,
    ensures
        0 <= road_rank(sources, url_base, i) < assembled_roads(sources, url_base).len(),
        assembled_roads(sources, url_base)[road_rank(sources, url_base, i)].episodes
            == kept_episodes(sources[i], url_base),
{
    let labeled = surviving_roads(sources, url_base, sources.len()) > 1;
    lemma_road_at_rank(sources, url_base, labeled, i as nat, sources.len());
}

/// Roads keep the order of their play sources.
pub proof fn lemma_road_rank_order(
    sources: Seq<Seq<EpisodeEntryModel>>,
    url_base: Seq<char>,
    i: int,
    j: int,
)
    requires
        0 <= i < j < sources.len(),
        kept_episodes(sources[i], url_base).len() > 0,
    ensures
        road_rank(sources, url_base, i) < road_rank(sources, url_base, j),
{
    lemma_surviving_grows(sources, url_base, i as nat, j as nat);
}

/// The episode of an entry, if it has both a name and a link.
pub fn build_episode(entry: &EpisodeEntry, url_base: &str) -> (r: Option<Episode>)
    ensures
        match r {
            Some(episode) => entry@.is_valid() && episode@ == entry@.episode(url_base@),
            None => !entry@.is_valid(),
        },
{
    proof {
        reveal_strlit("");
    }
    let name = trim(entry.content.as_str());
    let href = match &entry.href {
        Some(h) => h.as_str(),
        None => "",
    };
    assert(href@ =~= entry@.link());
    if name.is_empty() || href.is_empty() {
        return None;
    }
    let url = normalize_url(href, url_base);
    Some(Episode { name: String::from_str(name), url })
}

/// The episodes of `entries`, in order.
pub fn collect_episodes(entries: &Vec<EpisodeEntry>, url_base: &str) -> (episodes: Vec<Episode>)
    ensures
        episodes.deep_view() == kept_episodes(entries.deep_view(), url_base@),
{
    let ghost all = entries.deep_view();
    let mut episodes: Vec<Episode> = Vec::new();
    let n = entries.len();
    proof {
        assert(all.take(0) =~= Seq::<EpisodeEntryModel>::empty());
        assert(episodes.deep_view() =~= Seq::<EpisodeModel>::empty());
    }
    let mut i: usize = 0;
    while i < n
        invariant
            i <= n,
            n == entries.len(),
            all == entries.deep_view(),
            episodes.deep_view() == kept_episodes(all.take(i as int), url_base@),
        decreases n - i,
    {
        let ghost before = episodes.deep_view();
        proof {
            assert(entries@[i as int]@ == all[i as int]);
            assert(all.take(i + 1).drop_last() =~= all.take(i as int));
            assert(all.take(i + 1).last() == all[i as int]);
        }
        match build_episode(&entries[i], url_base) {
            Some(episode) => {
                episodes.push(episode);
                proof {
                    assert(episodes.deep_view() =~= before.push(all[i as int].episode(url_base@)));
                }
            },
            None => {
                proof {
                    assert(episodes.deep_view() =~= before);
                }
            },
        }
        i += 1;
    }
    proof {
        assert(all.take(n as int) =~= all);
    }
    episodes
}

/// The label of the play source with the given index.
pub fn make_road_label(index: usize) -> (r: String)
    requires
        index < usize::MAX,
    ensures
        r@ == road_label(index as nat),
{
    let number = to_decimal(index + 1);
    concat2("线路", number.as_str())
}

/// The roads of a page, given what was read at each of its play sources. Every
/// road has an episode; the only road of a page has no label, and where there
/// are more, every road has one.
pub fn assemble_roads(sources: &Vec<Vec<EpisodeEntry>>, url_base: &str) -> (roads: Vec<
    EpisodeRoad,
>)
    ensures
        roads.deep_view() == assembled_roads(sources.deep_view(), url_base@),
        roads.len() <= sources.len(),
        forall|k: int| 0 <= k < roads.len() ==> (#[trigger] roads.deep_view()[k]).wf(),
        roads.len() == 1 ==> roads.deep_view()[0].name is None,
        roads.len() >= 2 ==> forall|k: int|
            0 <= k < roads.len() ==> (#[trigger] roads.deep_view()[k]).name is Some,
{
    let ghost all = sources.deep_view();
    let n = sources.len();
    let mut kept: Vec<Vec<Episode>> = Vec::new();
    let mut surviving: usize = 0;
    let mut i: usize = 0;
    while i < n
        invariant
            i <= n,
            n == sources.len(),
            all == sources.deep_view(),
            kept.len() == i,
            surviving <= i,
            surviving == surviving_roads(all, url_base@, i as nat),
            forall|k: int|
                0 <= k < i ==> (#[trigger] kept@[k]).deep_view() == kept_episodes(
                    all[k],
                    url_base@,
                ),
        decreases n - i,
    {
        proof {
            assert(sources@[i as int].deep_view() == all[i as int]);
        }
        let episodes = collect_episodes(&sources[i], url_base);
        if episodes.len() > 0 {
            surviving += 1;
        }
        kept.push(episodes);
        i += 1;
    }
    let labeled = surviving > 1;
    let mut roads: Vec<EpisodeRoad> = Vec::new();
    let ghost collected = kept@;
    proof {
        assert(roads.deep_view() =~= Seq::<EpisodeRoadModel>::empty());
    }
    let mut j: usize = 0;
    for episodes in it: kept
        invariant
            it.seq() == collected,
            j == it.index(),
            n == all.len(),
            n == collected.len(),
            forall|k: int|
                0 <= k < n ==> (#[trigger] collected[k]).deep_view() == kept_episodes(
                    all[k],
                    url_base@,
                ),
            roads.deep_view() == roads_upto(all, url_base@, labeled, j as nat),
    {
        let ghost before = roads.deep_view();
        proof {
            assert(episodes.deep_view() == kept_episodes(all[j as int], url_base@));
        }
        if episodes.len() > 0 {
            let name = if labeled {
                Some(make_road_label(j))
            } else {
                None
            };
            roads.push(EpisodeRoad { name, episodes });
            proof {
                assert(roads.deep_view() =~= before.push(
                    EpisodeRoadModel {
                        name: if labeled {
                            Some(road_label(j as nat))
                        } else {
                            None
                        },
                        episodes: kept_episodes(all[j as int], url_base@),
                    },
                ));
            }
        } else {
            proof {
                assert(roads.deep_view() =~= before);
            }
        }
        j += 1;
    }
    proof {
        let made = roads.deep_view();
        lemma_roads_count(all, url_base@, labeled, n as nat);
        assert forall|k: int| 0 <= k < made.len() implies (#[trigger] made[k]).wf() && (made.len()
            == 1 ==> made[k].name is None) && (made.len() >= 2 ==> made[k].name is Some) by {
            lemma_road_source(all, url_base@, k);
        }
    }
    roads
}

} // verus!
