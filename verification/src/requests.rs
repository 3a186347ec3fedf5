//! What a request asks for.
//!
//! A search request names a title, the rules to search with, and whether
//! episodes are wanted. `plan_search` checks the three fields and picks the
//! rules; the other functions read single fields and turn the bodies of other
//! requests into what the client of the metadata service takes.

use crate::text::{same_text, split, split_on, starts_with, text_model, trim, trimmed};
use crate::types::{Rule, RuleModel};
use vstd::prelude::*;
use vstd::string::*;

verus! {

/// `text` in lower case, as `str::to_lowercase` gives it.
pub uninterp spec fn lowercased(text: Seq<char>) -> Seq<char>;

/// Turns `text` to lower case with `str::to_lowercase`. The contract only names
/// what comes back.
#[verifier::external_body]
fn to_lowercase(text: &str) -> (r: String)
    ensures
        r@ == lowercased(text@),
{
    text.to_lowercase()
}

/// Whether a field says yes, given its trimmed text and the same in lower case:
/// the text is `1`, or it is `true` in lower case.
pub open spec fn says_yes(text: Seq<char>, lowered: Seq<char>) -> bool {
    text == seq!['1'] || lowered == seq!['t', 'r', 'u', 'e']
}

/// Whether the field `text` asks for episodes.
pub open spec fn wants_episodes(text: Seq<char>) -> bool {
    says_yes(trimmed(text), lowercased(trimmed(text)))
}

/// Whether a field says yes, given its trimmed text and the same in lower case.
pub fn flag_value(text: &str, lowered: &str) -> (b: bool)
    ensures
        b == says_yes(text@, lowered@),
{
    proof {
        reveal_strlit("1");
        reveal_strlit("true");
        assert("1"@ =~= seq!['1']);
        assert("true"@ =~= seq!['t', 'r', 'u', 'e']);
    }
    same_text(text, "1") || same_text(lowered, "true")
}

/// Whether the field `text` asks for episodes.
pub fn parse_episodes_flag(text: &str) -> (b: bool)
    ensures
        b == wants_episodes(text@),
{
    let text = trim(text);
    let lowered = to_lowercase(text);
    flag_value(text, lowered.as_str())
}

/// The names that a list of names holds: the pieces between its commas, each
/// trimmed.
pub open spec fn wanted_names(names: Seq<char>) -> Seq<Seq<char>> {
    split_on(names, ',').map_values(|piece: Seq<char>| trimmed(piece))
}

/// The rules among `all` whose name is one of `wanted`, in the order of `all`.
pub open spec fn rules_named(all: Seq<RuleModel>, wanted: Seq<Seq<char>>) -> Seq<RuleModel>
    decreases all.len(),
{
    if all.len() == 0 {
        Seq::empty()
    } else {
        let before = rules_named(all.drop_last(), wanted);
        if wanted.contains(all.last().name) {
            before.push(all.last())
        } else {
            before
        }
    }
}

/// The rules that are named are those whose name is among the wanted names,
/// filtered out of all rules.
pub proof fn lemma_rules_named_is_filter(all: Seq<RuleModel>, wanted: Seq<Seq<char>>)
    ensures
        rules_named(all, wanted) == all.filter(|rule: RuleModel| wanted.contains(rule.name)),
    decreases all.len(),
{
    reveal(Seq::filter);
    if all.len() > 0 {
        lemma_rules_named_is_filter(all.drop_last(), wanted);
    }
}

/// The names that a list of names holds.
pub fn parse_names(names: &str) -> (wanted: Vec<String>)
    ensures
        wanted.deep_view() == wanted_names(names@),
{
    let pieces = split(names, ',');
    let mut wanted: Vec<String> = Vec::new();
    let mut i: usize = 0;
    while i < pieces.len()
        invariant
            i <= pieces.len(),
            wanted.len() == i,
            pieces.deep_view() == split_on(names@, ','),
            forall|k: int| 0 <= k < i ==> (#[trigger] wanted@[k])@ == trimmed(pieces@[k]@),
        decreases pieces.len() - i,
    {
        wanted.push(String::from_str(trim(pieces[i].as_str())));
        i += 1;
    }
    proof {
        let expected = wanted_names(names@);
        assert(wanted.deep_view().len() == expected.len());
        assert forall|k: int| 0 <= k < expected.len() implies wanted.deep_view()[k]
            == expected[k] by {
            assert(pieces.deep_view()[k] == pieces@[k]@);
        }
        assert(wanted.deep_view() =~= expected);
    }
    wanted
}

fn is_wanted(wanted: &Vec<String>, name: &str) -> (b: bool)
    ensures
        b == wanted.deep_view().contains(name@),
{
    let mut i: usize = 0;
    while i < wanted.len()
        invariant
            i <= wanted.len(),
            forall|k: int| 0 <= k < i ==> wanted.deep_view()[k] != name@,
        decreases wanted.len() - i,
    {
        proof {
            assert(wanted.deep_view()[i as int] == wanted@[i as int]@);
        }
        if same_text(wanted[i].as_str(), name) {
            return true;
        }
        i += 1;
    }
    false
}

/// The rules among `all` that the list `names` names, in the order of `all`.
pub fn select_rules(all: &Vec<Rule>, names: &str) -> (chosen: Vec<Rule>)
    ensures
        chosen.deep_view() == rules_named(all.deep_view(), wanted_names(names@)),
{
    let wanted = parse_names(names);
    let ghost rules = all.deep_view();
    let mut chosen: Vec<Rule> = Vec::new();
    let mut i: usize = 0;
    proof {
        assert(rules.take(0) =~= Seq::<RuleModel>::empty());
        assert(chosen.deep_view() =~= Seq::<RuleModel>::empty());
    }
    while i < all.len()
        invariant
            i <= all.len(),
            rules == all.deep_view(),
            wanted.deep_view() == wanted_names(names@),
            chosen.deep_view() == rules_named(rules.take(i as int), wanted_names(names@)),
        decreases all.len() - i,
    {
        let ghost before = chosen.deep_view();
        proof {
            assert(rules.take(i + 1).drop_last() =~= rules.take(i as int));
            assert(rules.take(i + 1).last() == all@[i as int]@);
        }
        if is_wanted(&wanted, all[i].name.as_str()) {
            chosen.push(all[i].clone());
            proof {
                assert(chosen.deep_view() =~= before.push(all@[i as int]@));
            }
        }
        i += 1;
    }
    proof {
        assert(rules.take(all.len() as int) =~= rules);
    }
    chosen
}

/// Why a search request is refused.
#[derive(Debug, Clone, Copy, PartialEq, Eq)]
pub enum RequestError {
    /// The request names no title.
    KeywordRequired,
    /// The request names no rules.
    RulesRequired,
    /// None of the names in the request is the name of a rule.
    NoMatchingRules,
}

impl RequestError {
    /// The text shown for the error.
    pub open spec fn message_text(self) -> Seq<char> {
        match self {
            RequestError::KeywordRequired => "Anime name is required"@,
            RequestError::RulesRequired =>
                "Rules are required. Use 'rules' field to specify rule names (comma separated)"@,
            RequestError::NoMatchingRules => "No matching rules found"@,
        }
    }

    /// The text shown for the error.
    pub fn message(&self) -> (r: &'static str)
        ensures
            r@ == self.message_text(),
    {
        match self {
            RequestError::KeywordRequired => "Anime name is required",
            RequestError::RulesRequired =>
                "Rules are required. Use 'rules' field to specify rule names (comma separated)",
            RequestError::NoMatchingRules => "No matching rules found",
        }
    }
}

/// A search that was asked for: the title, the rules to search with, and whether
/// episodes are wanted.
#[derive(Debug, PartialEq, Eq)]
pub struct SearchPlan {
    pub keyword: String,
    pub rules: Vec<Rule>,
    pub fetch_episodes: bool,
}

pub ghost struct SearchPlanModel {
    pub keyword: Seq<char>,
    pub rules: Seq<RuleModel>,
    pub fetch_episodes: bool,
}

impl DeepView for SearchPlan {
    type V = SearchPlanModel;

    open spec fn deep_view(&self) -> SearchPlanModel {
        SearchPlanModel {
            keyword: self.keyword@,
            rules: self.rules.deep_view(),
            fetch_episodes: self.fetch_episodes,
        }
    }
}

impl View for SearchPlan {
    type V = SearchPlanModel;

    open spec fn view(&self) -> SearchPlanModel {
        self.deep_view()
    }
}

/// The search that the fields of a request ask for, or why the request is
/// refused.
///
/// The title is the trimmed `anime` field, which must not be empty. The rules
/// are those that the trimmed `rules` field names, which must not be empty
/// either and must name at least one rule. Episodes are wanted where the
/// `episodes` field is there and says so.
pub open spec fn plan_for(
    anime: Option<Seq<char>>,
    rules: Option<Seq<char>>,
    episodes: Option<Seq<char>>,
    all: Seq<RuleModel>,
) -> Result<SearchPlanModel, RequestError> {
    if anime is None || trimmed(anime->0).len() == 0 {
        Err(RequestError::KeywordRequired)
    } else if rules is None || trimmed(rules->0).len() == 0 {
        Err(RequestError::RulesRequired)
    } else {
        let chosen = rules_named(all, wanted_names(trimmed(rules->0)));
        if chosen.len() == 0 {
            Err(RequestError::NoMatchingRules)
        } else {
            Ok(
                SearchPlanModel {
                    keyword: trimmed(anime->0),
                    rules: chosen,
                    fetch_episodes: episodes is Some && wants_episodes(episodes->0),
                },
            )
        }
    }
}

/// The model of a plan, or of the refusal.
pub open spec fn plan_model(r: Result<SearchPlan, RequestError>) -> Result<
    SearchPlanModel,
    RequestError,
> {
    match r {
        Ok(plan) => Ok(plan@),
        Err(e) => Err(e),
    }
}

/// The search that the fields of a request ask for, or why the request is
/// refused.
pub fn plan_search(
    anime: Option<&str>,
    rules: Option<&str>,
    episodes: Option<&str>,
    all: &Vec<Rule>,
) -> (r: Result<SearchPlan, RequestError>)
    ensures
        plan_model(r) == plan_for(
            text_model(anime),
            text_model(rules),
            text_model(episodes),
            all.deep_view(),
        ),
{
    let keyword = match anime {
        Some(text) => trim(text),
        None => {
            return Err(RequestError::KeywordRequired);
        },
    };
    if keyword.is_empty() {
        return Err(RequestError::KeywordRequired);
    }
    let names = match rules {
        Some(text) => trim(text),
        None => {
            return Err(RequestError::RulesRequired);
        },
    };
    if names.is_empty() {
        return Err(RequestError::RulesRequired);
    }
    let chosen = select_rules(all, names);
    if chosen.len() == 0 {
        return Err(RequestError::NoMatchingRules);
    }
    let fetch_episodes = match episodes {
        Some(text) => parse_episodes_flag(text),
        None => false,
    };
    Ok(SearchPlan { keyword: String::from_str(keyword), rules: chosen, fetch_episodes })
}

/// `Bearer `, with which an authorization header introduces a token.
pub open spec fn bearer_prefix() -> Seq<char> {
    seq!['B', 'e', 'a', 'r', 'e', 'r', ' ']
}

/// The token that an authorization header carries: what follows `Bearer `, if
/// the header starts with it and anything follows.
pub open spec fn token_of(header: Option<Seq<char>>) -> Option<Seq<char>> {
    match header {
        Some(value) => if bearer_prefix().is_prefix_of(value) && value.len() > 7 {
            Some(value.skip(7))
        } else {
            None
        },
        None => None,
    }
}

/// The token that an authorization header carries.
pub fn bearer_token(header: Option<&str>) -> (r: Option<String>)
    ensures
        r.deep_view() == token_of(text_model(header)),
{
    proof {
        reveal_strlit("Bearer ");
        assert("Bearer "@ =~= bearer_prefix());
    }
    match header {
        Some(value) => {
            let n = value.unicode_len();
            if starts_with(value, "Bearer ") && n > 7 {
                let token = value.substring_char(7, n);
                assert(token@ =~= value@.skip(7));
                Some(String::from_str(token))
            } else {
                None
            }
        },
        None => None,
    }
}

/// The filter of a search for subjects, as a request carries it.
#[derive(Debug, PartialEq, Eq)]
pub struct V0SearchFilter {
    pub subject_type: Option<Vec<i32>>,
    pub tag: Option<Vec<String>>,
    pub air_date: Option<Vec<String>>,
    pub rating: Option<Vec<String>>,
    pub rank: Option<Vec<String>>,
    pub nsfw: Option<bool>,
}

/// A search for subjects, as a request carries it.
#[derive(Debug, PartialEq, Eq)]
pub struct V0SearchRequest {
    pub keyword: String,
    pub filter: Option<V0SearchFilter>,
    pub limit: Option<i32>,
    pub offset: Option<i32>,
}

/// The filter of a search for subjects, as the client of the metadata service
/// takes it.
#[derive(Debug, PartialEq, Eq)]
pub struct SearchFilter {
    pub subject_type: Option<Vec<i32>>,
    pub tag: Option<Vec<String>>,
    pub air_date: Option<Vec<String>>,
    pub rating: Option<Vec<String>>,
    pub rank: Option<Vec<String>>,
    pub nsfw: Option<bool>,
}

/// A search for subjects, as the client of the metadata service takes it.
#[derive(Debug, PartialEq, Eq)]
pub struct SearchRequest {
    pub keyword: String,
    pub filter: Option<SearchFilter>,
}

/// A page of a search: how many results, and from which on.
#[derive(Debug, Clone, Copy, PartialEq, Eq)]
pub struct Page {
    pub limit: Option<i32>,
    pub offset: Option<i32>,
}

impl V0SearchFilter {
    /// The filter as the client takes it: the same fields.
    pub fn into_filter(self) -> (r: SearchFilter)
        ensures
            r.subject_type == self.subject_type,
            r.tag == self.tag,
            r.air_date == self.air_date,
            r.rating == self.rating,
            r.rank == self.rank,
            r.nsfw == self.nsfw,
    {
        SearchFilter {
            subject_type: self.subject_type,
            tag: self.tag,
            air_date: self.air_date,
            rating: self.rating,
            rank: self.rank,
            nsfw: self.nsfw,
        }
    }
}

impl V0SearchRequest {
    /// The search as the client takes it, and the page that is asked for.
    pub fn into_search(self) -> (r: (SearchRequest, Page))
        ensures
            r.0.keyword == self.keyword,
            match self.filter {
                Some(filter) => r.0.filter matches Some(f) && f.subject_type == filter.subject_type
                    && f.tag == filter.tag && f.air_date == filter.air_date && f.rating
                    == filter.rating && f.rank == filter.rank && f.nsfw == filter.nsfw,
                None => r.0.filter is None,
            },
            r.1 == (Page { limit: self.limit, offset: self.offset }),
    {
        let filter = match self.filter {
            Some(filter) => Some(filter.into_filter()),
            None => None,
        };
        (
            SearchRequest { keyword: self.keyword, filter },
            Page { limit: self.limit, offset: self.offset },
        )
    }
}

/// A change to a collection entry, as a request carries it.
#[derive(Debug, PartialEq, Eq)]
pub struct UpdateCollectionRequest {
    pub collection_type: Option<i32>,
    pub rate: Option<i32>,
    pub ep_status: Option<i32>,
    pub vol_status: Option<i32>,
    pub comment: Option<String>,
    pub private: Option<bool>,
    pub tags: Option<Vec<String>>,
}

/// A change to a collection entry, as the client of the metadata service takes
/// it.
#[derive(Debug, PartialEq, Eq)]
pub struct CollectionModify {
    pub collection_type: Option<i32>,
    pub rate: Option<i32>,
    pub ep_status: Option<i32>,
    pub vol_status: Option<i32>,
    pub comment: Option<String>,
    pub private: Option<bool>,
    pub tags: Option<Vec<String>>,
}

impl UpdateCollectionRequest {
    /// The change as the client takes it: the same fields.
    pub fn into_modify(self) -> (r: CollectionModify)
        ensures
            r.collection_type == self.collection_type,
            r.rate == self.rate,
            r.ep_status == self.ep_status,
            r.vol_status == self.vol_status,
            r.comment == self.comment,
            r.private == self.private,
            r.tags == self.tags,
    {
        CollectionModify {
            collection_type: self.collection_type,
            rate: self.rate,
            ep_status: self.ep_status,
            vol_status: self.vol_status,
            comment: self.comment,
            private: self.private,
            tags: self.tags,
        }
    }
}

} // verus!
