//! Keeping the local rules up to date with the rule repository.
//!
//! The repository publishes an index of its rules. An update compares it with
//! the local index, fetches each rule that is new or newer, and writes a new
//! local index. Fetching and writing are the caller's work; this module decides
//! which rules to fetch and keeps the account of what became of each.

use crate::text::{concat2, concat3, same_text};
use vstd::prelude::*;
use vstd::string::*;

verus! {

/// Where the repository publishes its index.
pub const KAZUMI_RULES_INDEX: &'static str =
    "https://raw.githubusercontent.com/Predidit/KazumiRules/main/index.json";

/// Below which URL the repository publishes its rules.
pub const KAZUMI_RULES_BASE: &'static str =
    "https://raw.githubusercontent.com/Predidit/KazumiRules/main/";

/// The directory that holds the local rules and their index.
pub const RULES_DIR: &'static str = "rules";

/// One entry of an index: a rule and the version of it that the index knows.
#[derive(Debug, PartialEq, Eq)]
pub struct IndexItem {
    pub name: String,
    pub version: String,
    pub use_native_player: bool,
    pub author: String,
    pub last_update: u64,
}

pub ghost struct IndexItemModel {
    pub name: Seq<char>,
    pub version: Seq<char>,
    pub use_native_player: bool,
    pub author: Seq<char>,
    pub last_update: u64,
}

impl DeepView for IndexItem {
    type V = IndexItemModel;

    open spec fn deep_view(&self) -> IndexItemModel {
        IndexItemModel {
            name: self.name@,
            version: self.version@,
            use_native_player: self.use_native_player,
            author: self.author@,
            last_update: self.last_update,
        }
    }
}

impl View for IndexItem {
    type V = IndexItemModel;

    open spec fn view(&self) -> IndexItemModel {
        self.deep_view()
    }
}

impl Clone for IndexItem {
    fn clone(&self) -> (r: IndexItem)
        ensures
            r@ == self@,
    {
        IndexItem {
            name: self.name.clone(),
            version: self.version.clone(),
            use_native_player: self.use_native_player,
            author: self.author.clone(),
            last_update: self.last_update,
        }
    }
}

/// What became of one rule in an update.
#[derive(Debug, PartialEq, Eq)]
pub struct UpdateDetail {
    pub name: String,
    pub action: String,
    pub message: String,
}

pub ghost struct UpdateDetailModel {
    pub name: Seq<char>,
    pub action: Seq<char>,
    pub message: Seq<char>,
}

impl DeepView for UpdateDetail {
    type V = UpdateDetailModel;

    open spec fn deep_view(&self) -> UpdateDetailModel {
        UpdateDetailModel { name: self.name@, action: self.action@, message: self.message@ }
    }
}

impl View for UpdateDetail {
    type V = UpdateDetailModel;

    open spec fn view(&self) -> UpdateDetailModel {
        self.deep_view()
    }
}

/// The account of an update: how many rules the repository has, how many of
/// them were updated, added or failed, and what became of each rule that was
/// fetched.
#[derive(Debug, PartialEq, Eq)]
pub struct UpdateResult {
    pub total: usize,
    pub updated: usize,
    pub added: usize,
    pub failed: usize,
    pub details: Vec<UpdateDetail>,
}

pub ghost struct UpdateResultModel {
    pub total: nat,
    pub updated: nat,
    pub added: nat,
    pub failed: nat,
    pub details: Seq<UpdateDetailModel>,
}

impl DeepView for UpdateResult {
    type V = UpdateResultModel;

    open spec fn deep_view(&self) -> UpdateResultModel {
        UpdateResultModel {
            total: self.total as nat,
            updated: self.updated as nat,
            added: self.added as nat,
            failed: self.failed as nat,
            details: self.details.deep_view(),
        }
    }
}

impl View for UpdateResult {
    type V = UpdateResultModel;

    open spec fn view(&self) -> UpdateResultModel {
        self.deep_view()
    }
}

/// The account of an update that could not get the repository's index.
pub open spec fn index_failure(error: Seq<char>) -> UpdateResultModel {
    UpdateResultModel {
        total: 0,
        updated: 0,
        added: 0,
        failed: 0,
        details: seq![
            UpdateDetailModel {
                name: "index"@,
                action: "failed"@,
                message: "获取远程索引失败: "@ + error,
            },
        ],
    }
}

impl UpdateResult {
    /// The account of an update that could not get the repository's index.
    pub fn index_failed(error: &str) -> (r: UpdateResult)
        ensures
            r@ == index_failure(error@),
    {
        let mut details: Vec<UpdateDetail> = Vec::new();
        details.push(
            UpdateDetail {
                name: String::from_str("index"),
                action: String::from_str("failed"),
                message: concat2("获取远程索引失败: ", error),
            },
        );
        let r = UpdateResult { total: 0, updated: 0, added: 0, failed: 0, details };
        assert(r@.details =~= index_failure(error@).details);
        r
    }
}

/// The URL from which the rule with the given name is fetched.
pub fn rule_url(name: &str) -> (r: String)
    ensures
        r@ == KAZUMI_RULES_BASE@ + name@ + ".json"@,
{
    concat3(KAZUMI_RULES_BASE, name, ".json")
}

/// The name of the file that holds the rule with the given name.
pub fn rule_file_name(name: &str) -> (r: String)
    ensures
        r@ == name@ + ".json"@,
{
    concat2(name, ".json")
}

/// Where the entry for `name` stands in a local index: the place of the last
/// entry with that name, or none.
pub open spec fn local_entry(local: Seq<IndexItemModel>, name: Seq<char>) -> Option<int>
    decreases local.len(),
{
    if local.len() == 0 {
        None
    } else if local.last().name == name {
        Some(local.len() - 1)
    } else {
        local_entry(local.drop_last(), name)
    }
}

/// Where the entry for `name` stands in the local index.
pub fn find_local(local: &Vec<IndexItem>, name: &str) -> (r: Option<usize>)
    ensures
        match r {
            Some(i) => local_entry(local.deep_view(), name@) == Some(i as int) && i < local.len(),
            None => local_entry(local.deep_view(), name@) is None,
        },
{
    let ghost all = local.deep_view();
    let mut i: usize = local.len();
    proof {
        assert(all.take(i as int) =~= all);
    }
    while i > 0
        invariant
            i <= local.len(),
            all == local.deep_view(),
            local_entry(all, name@) == local_entry(all.take(i as int), name@),
        decreases i,
    {
        proof {
            assert(all.take(i as int).last() == local@[i - 1]@);
            assert(all.take(i as int).drop_last() =~= all.take(i - 1));
        }
        if same_text(local[i - 1].name.as_str(), name) {
            return Some(i - 1);
        }
        i -= 1;
    }
    None
}

/// The model of what the local index knows of a rule.
pub open spec fn known_model(local: Option<&IndexItem>) -> Option<IndexItemModel> {
    match local {
        Some(known) => Some(known@),
        None => None,
    }
}

/// Whether the rule of the entry `remote` is to be fetched: the local index
/// does not know it, or knows another version of it, or an older one.
pub open spec fn update_needed(local: Option<IndexItemModel>, remote: IndexItemModel) -> bool {
    match local {
        None => true,
        Some(known) => known.version != remote.version || known.last_update
            < remote.last_update,
    }
}

/// Whether the rule of the entry `remote` is to be fetched.
pub fn needs_update(local: Option<&IndexItem>, remote: &IndexItem) -> (b: bool)
    ensures
        b == update_needed(known_model(local), remote@),
{
    match local {
        None => true,
        Some(known) => !same_text(known.version.as_str(), remote.version.as_str())
            || known.last_update < remote.last_update,
    }
}

/// What became of one rule of the repository's index.
#[derive(Debug, PartialEq, Eq)]
pub enum RuleOutcome {
    /// The local rule is current; nothing was fetched.
    Current,
    /// The rule was fetched and written.
    Saved,
    /// The rule was fetched but could not be written.
    SaveFailed(String),
    /// The rule could not be fetched.
    DownloadFailed(String),
}

pub ghost enum RuleOutcomeModel {
    Current,
    Saved,
    SaveFailed(Seq<char>),
    DownloadFailed(Seq<char>),
}

impl DeepView for RuleOutcome {
    type V = RuleOutcomeModel;

    open spec fn deep_view(&self) -> RuleOutcomeModel {
        match self {
            RuleOutcome::Current => RuleOutcomeModel::Current,
            RuleOutcome::Saved => RuleOutcomeModel::Saved,
            RuleOutcome::SaveFailed(e) => RuleOutcomeModel::SaveFailed(e@),
            RuleOutcome::DownloadFailed(e) => RuleOutcomeModel::DownloadFailed(e@),
        }
    }
}

impl View for RuleOutcome {
    type V = RuleOutcomeModel;

    open spec fn view(&self) -> RuleOutcomeModel {
        self.deep_view()
    }
}

/// The state of an update: the account so far and the new local index so far.
pub ghost struct UpdateRunModel {
    pub result: UpdateResultModel,
    pub index: Seq<IndexItemModel>,
    pub processed: nat,
}

/// The detail for a rule that was written.
pub open spec fn saved_detail(remote: IndexItemModel, known: bool) -> UpdateDetailModel {
    UpdateDetailModel {
        name: remote.name,
        action: if known {
            "updated"@
        } else {
            "added"@
        },
        message: "v"@ + remote.version,
    }
}

/// The detail for a rule that failed; `prefix` says at what.
pub open spec fn failed_detail(remote: IndexItemModel, prefix: Seq<char>, error: Seq<char>)
    -> UpdateDetailModel {
    UpdateDetailModel { name: remote.name, action: "failed"@, message: prefix + error }
}

/// The state after the rule of `remote` came to `outcome`; `local` is what the
/// local index knew of the rule.
///
/// A rule that is current enters the new index as the repository has it. So
/// does one that was written, which counts as updated where the local index
/// knew it and as added where it did not. A rule that could not be written
/// counts as failed and enters no index. One that could not be fetched counts as
/// failed, and the new index keeps what the local index knew of it.
pub open spec fn recorded(
    run: UpdateRunModel,
    remote: IndexItemModel,
    local: Option<IndexItemModel>,
    outcome: RuleOutcomeModel,
) -> UpdateRunModel {
    let processed = run.processed + 1;
    match outcome {
        RuleOutcomeModel::Current => UpdateRunModel {
            index: run.index.push(remote),
            processed,
            ..run
        },
        RuleOutcomeModel::Saved => UpdateRunModel {
            result: UpdateResultModel {
                updated: if local is Some {
                    run.result.updated + 1
                } else {
                    run.result.updated
                },
                added: if local is Some {
                    run.result.added
                } else {
                    run.result.added + 1
                },
                details: run.result.details.push(saved_detail(remote, local is Some)),
                ..run.result
            },
            index: run.index.push(remote),
            processed,
        },
        RuleOutcomeModel::SaveFailed(error) => UpdateRunModel {
            result: UpdateResultModel {
                failed: run.result.failed + 1,
                details: run.result.details.push(failed_detail(remote, "保存失败: "@, error)),
                ..run.result
            },
            processed,
            ..run
        },
        RuleOutcomeModel::DownloadFailed(error) => UpdateRunModel {
            result: UpdateResultModel {
                failed: run.result.failed + 1,
                details: run.result.details.push(failed_detail(remote, "下载失败: "@, error)),
                ..run.result
            },
            index: match local {
                Some(known) => run.index.push(known),
                None => run.index,
            },
            processed,
        },
    }
}

/// An update in progress.
#[derive(Debug, PartialEq, Eq)]
pub struct UpdateRun {
    result: UpdateResult,
    index: Vec<IndexItem>,
    processed: usize,
}

impl UpdateRun {
    #[verifier::type_invariant]
    spec fn inv(self) -> bool {
        &&& self.processed <= self.result.total
        &&& self.result.updated + self.result.added + self.result.failed <= self.processed
        &&& self.result.details.len() == self.result.updated + self.result.added
            + self.result.failed
        &&& self.index.len() <= self.processed
    }

    /// The state of the update.
    pub closed spec fn model(self) -> UpdateRunModel {
        UpdateRunModel {
            result: self.result@,
            index: self.index.deep_view(),
            processed: self.processed as nat,
        }
    }

    /// Starts an update against an index of `total` rules.
    pub fn start(total: usize) -> (run: UpdateRun)
        ensures
            run.model() == (UpdateRunModel {
                result: UpdateResultModel {
                    total: total as nat,
                    updated: 0,
                    added: 0,
                    failed: 0,
                    details: Seq::empty(),
                },
                index: Seq::empty(),
                processed: 0,
            }),
    {
        let run = UpdateRun {
            result: UpdateResult { total, updated: 0, added: 0, failed: 0, details: Vec::new() },
            index: Vec::new(),
            processed: 0,
        };
        assert(run.result@.details =~= Seq::<UpdateDetailModel>::empty());
        assert(run.index.deep_view() =~= Seq::<IndexItemModel>::empty());
        run
    }

    /// The run after the rule of `remote` came to `outcome`. Once as many rules
    /// are recorded as the index has, the run stays as it is.
    pub fn record(self, remote: &IndexItem, local: Option<&IndexItem>, outcome: RuleOutcome)
        -> (next: UpdateRun)
        ensures
            next.model() == if self.model().processed < self.model().result.total {
                recorded(self.model(), remote@, known_model(local), outcome@)
            } else {
                self.model()
            },
    {
        proof {
            use_type_invariant(&self);
        }
        if self.processed >= self.result.total {
            return self;
        }
        let UpdateRun { result, index, processed } = self;
        let UpdateResult { total, updated, added, failed, details } = result;
        let mut updated = updated;
        let mut added = added;
        let mut failed = failed;
        let mut details = details;
        let mut index = index;
        let ghost old_details = details.deep_view();
        let ghost old_index = index.deep_view();
        match outcome {
            RuleOutcome::Current => {
                index.push(remote.clone());
                proof {
                    assert(index.deep_view() =~= old_index.push(remote@));
                }
            },
            RuleOutcome::Saved => {
                let action = if local.is_some() {
                    updated = updated + 1;
                    "updated"
                } else {
                    added = added + 1;
                    "added"
                };
                details.push(
                    UpdateDetail {
                        name: remote.name.clone(),
                        action: String::from_str(action),
                        message: concat2("v", remote.version.as_str()),
                    },
                );
                index.push(remote.clone());
                proof {
                    assert(details.deep_view() =~= old_details.push(
                        saved_detail(remote@, local is Some),
                    ));
                    assert(index.deep_view() =~= old_index.push(remote@));
                }
            },
            RuleOutcome::SaveFailed(error) => {
                failed = failed + 1;
                details.push(
                    UpdateDetail {
                        name: remote.name.clone(),
                        action: String::from_str("failed"),
                        message: concat2("保存失败: ", error.as_str()),
                    },
                );
                proof {
                    assert(details.deep_view() =~= old_details.push(
                        failed_detail(remote@, "保存失败: "@, error@),
                    ));
                }
            },
            RuleOutcome::DownloadFailed(error) => {
                failed = failed + 1;
                details.push(
                    UpdateDetail {
                        name: remote.name.clone(),
                        action: String::from_str("failed"),
                        message: concat2("下载失败: ", error.as_str()),
                    },
                );
                match local {
                    Some(known) => {
                        index.push(known.clone());
                        proof {
                            assert(index.deep_view() =~= old_index.push(known@));
                        }
                    },
                    None => {},
                }
                proof {
                    assert(details.deep_view() =~= old_details.push(
                        failed_detail(remote@, "下载失败: "@, error@),
                    ));
                }
            },
        }
        UpdateRun {
            result: UpdateResult { total, updated, added, failed, details },
            index,
            processed: processed + 1,
        }
    }

    /// Whether as many rules are recorded as the index has.
    pub fn is_complete(&self) -> (b: bool)
        ensures
            b == (self.model().processed >= self.model().result.total),
    {
        self.processed >= self.result.total
    }

    /// Ends the update: the account and the new local index. The account has
    /// one detail for each rule that was updated, added or failed, and these are
    /// no more than the index of the repository has rules; the new local index
    /// has no more entries than that either.
    pub fn finish(self) -> (r: (UpdateResult, Vec<IndexItem>))
        ensures
            r.0@ == self.model().result,
            r.1.deep_view() == self.model().index,
            r.0@.details.len() == r.0@.updated + r.0@.added + r.0@.failed,
            r.0@.updated + r.0@.added + r.0@.failed <= r.0@.total,
            r.1.len() <= r.0@.total,
    {
        proof {
            use_type_invariant(&self);
        }
        (self.result, self.index)
    }
}

} // verus!
