//! The protocol of a search over many sources.
//!
//! A search announces how many sources it asks, reports each source as it
//! finishes, in whatever order that happens, and says when it is done. A
//! `SearchSession` keeps the count and makes the events one at a time;
//! `search_events` makes the whole sequence for searches that have already
//! finished.

use crate::text::{clone_strings, concat2};
use crate::types::{
    PlatformSearchResult, PlatformSearchResultModel, Rule, RuleModel, StreamEvent,
    StreamEventModel, StreamProgress, StreamResult, StreamResultModel,
};
use vstd::prelude::*;
use vstd::string::*;

verus! {

/// The color in which a source that failed is shown.
pub open spec fn error_color() -> Seq<char> {
    seq!['r', 'e', 'd']
}

/// Whether there is anything to show for a source: items, or an error.
pub open spec fn is_reportable(result: PlatformSearchResultModel) -> bool {
    result.items.len() > 0 || result.error is Some
}

/// What is shown for a source that has finished: its name and tags, its items
/// and its error, and its color, which is red where it failed.
pub open spec fn stream_result(rule: RuleModel, result: PlatformSearchResultModel)
    -> StreamResultModel {
    StreamResultModel {
        name: rule.name,
        color: if result.error is Some {
            error_color()
        } else {
            rule.color
        },
        tags: rule.tags,
        items: result.items,
        error: result.error,
    }
}

/// The event for a source that has finished: its result where there is anything
/// to show, else the bare progress.
pub open spec fn completion_event(
    rule: RuleModel,
    result: PlatformSearchResultModel,
    progress: StreamProgress,
) -> StreamEventModel {
    if is_reportable(result) {
        StreamEventModel::Result { progress, result: stream_result(rule, result) }
    } else {
        StreamEventModel::Progress { progress }
    }
}

/// The event that opens a search over `total` sources.
pub open spec fn init_event(total: usize) -> StreamEventModel {
    StreamEventModel::Init { total }
}

/// The event that closes a search.
pub open spec fn done_event() -> StreamEventModel {
    StreamEventModel::Done { done: true }
}

/// The event for a source that has finished.
pub fn make_completion_event(rule: &Rule, result: PlatformSearchResult, progress: StreamProgress)
    -> (event: StreamEvent)
    ensures
        event@ == completion_event(rule@, result@, progress),
{
    let failed = result.error.is_some();
    if result.items.len() > 0 || failed {
        proof {
            reveal_strlit("red");
            assert("red"@ =~= error_color());
        }
        let color = if failed {
            String::from_str("red")
        } else {
            rule.color.clone()
        };
        StreamEvent::Result {
            progress,
            result: StreamResult {
                name: rule.name.clone(),
                color,
                tags: clone_strings(&rule.tags),
                items: result.items,
                error: result.error,
            },
        }
    } else {
        StreamEvent::Progress { progress }
    }
}

/// One line of the event stream: the serialized event and a line feed.
pub fn format_event(serialized: &str) -> (line: String)
    ensures
        line@ == serialized@ + seq!['\n'],
{
    proof {
        reveal_strlit("\n");
        assert("\n"@ =~= seq!['\n']);
    }
    concat2(serialized, "\n")
}

/// The state of a search: how many sources it asks and how many have finished.
#[derive(Debug, PartialEq, Eq)]
pub struct SearchSession {
    total: usize,
    completed: usize,
}

impl SearchSession {
    #[verifier::type_invariant]
    spec fn inv(self) -> bool {
        self.completed <= self.total
    }

    /// How many sources the search asks.
    pub closed spec fn total(self) -> usize {
        self.total
    }

    /// How many sources have finished.
    pub closed spec fn completed(self) -> usize {
        self.completed
    }

    /// Opens a search over `total` sources. The event says how many there are.
    pub fn start(total: usize) -> (r: (SearchSession, StreamEvent))
        ensures
            r.0.total() == total,
            r.0.completed() == 0,
            r.1@ == init_event(total),
    {
        (SearchSession { total, completed: 0 }, StreamEvent::Init { total })
    }

    /// How far the search has come. No more sources have finished than there
    /// are.
    pub fn progress(&self) -> (p: StreamProgress)
        ensures
            p.completed == self.completed(),
            p.total == self.total(),
            p.wf(),
    {
        proof {
            use_type_invariant(self);
        }
        StreamProgress { completed: self.completed, total: self.total }
    }

    /// Whether every source has finished.
    pub fn is_complete(&self) -> (b: bool)
        ensures
            b == (self.completed() == self.total()),
    {
        self.completed == self.total
    }

    /// Records that the source of `rule` has finished with `result`, and gives
    /// the event to emit for it. The count of finished sources rises by one, and
    /// the event carries the new count. Once every source has finished there is
    /// nothing left to record: the session stays as it is and no event is given.
    pub fn complete(&mut self, rule: &Rule, result: PlatformSearchResult) -> (event: Option<
        StreamEvent,
    >)
        ensures
            final(self).total() == old(self).total(),
            old(self).completed() < old(self).total() ==> {
                &&& final(self).completed() == old(self).completed() + 1
                &&& event matches Some(e) && e@ == completion_event(
                    rule@,
                    result@,
                    StreamProgress {
                        completed: final(self).completed(),
                        total: final(self).total(),
                    },
                )
            },
            old(self).completed() >= old(self).total() ==> {
                &&& final(self).completed() == old(self).completed()
                &&& event is None
            },
    {
        proof {
            use_type_invariant(&*self);
        }
        if self.completed >= self.total {
            return None;
        }
        self.completed = self.completed + 1;
        let progress = StreamProgress { completed: self.completed, total: self.total };
        Some(make_completion_event(rule, result, progress))
    }

    /// The event that closes the search. A search may be closed before every
    /// source has finished.
    pub fn finish(&self) -> (event: StreamEvent)
        ensures
            event@ == done_event(),
    {
        StreamEvent::Done { done: true }
    }
}

/// A source that has finished: its rule and what its search came to.
#[derive(Debug, PartialEq, Eq)]
pub struct Completion {
    pub rule: Rule,
    pub result: PlatformSearchResult,
}

pub ghost struct CompletionModel {
    pub rule: RuleModel,
    pub result: PlatformSearchResultModel,
}

impl DeepView for Completion {
    type V = CompletionModel;

    open spec fn deep_view(&self) -> CompletionModel {
        CompletionModel { rule: self.rule@, result: self.result@ }
    }
}

impl View for Completion {
    type V = CompletionModel;

    open spec fn view(&self) -> CompletionModel {
        self.deep_view()
    }
}

/// How many of `finished` sources are counted in a search over `total`.
pub open spec fn counted(total: usize, finished: nat) -> nat {
    if finished < total {
        finished
    } else {
        total as nat
    }
}

/// The event for the source that finished as number `k`, counted from zero.
pub open spec fn nth_completion_event(total: usize, finished: Seq<CompletionModel>, k: int)
    -> StreamEventModel {
    completion_event(
        finished[k].rule,
        finished[k].result,
        StreamProgress { completed: (k + 1) as usize, total },
    )
}

/// The events of a search over `total` sources that finished in the order of
/// `finished`: the opening event, one event for each source as it finished, and
/// the closing event. Sources beyond `total` are not counted.
pub open spec fn events_of(total: usize, finished: Seq<CompletionModel>) -> Seq<StreamEventModel> {
    seq![init_event(total)] + Seq::new(
        counted(total, finished.len()),
        |k: int| nth_completion_event(total, finished, k),
    ) + seq![done_event()]
}

/// The events of a search over `total` sources, given the sources in the order
/// in which they finished. The first event opens the search and the last closes
/// it; between them stands one event for each source that is counted, and the
/// event at place `k` says that `k` sources have finished.
pub fn search_events(total: usize, finished: Vec<Completion>) -> (events: Vec<StreamEvent>)
    ensures
        events.deep_view() == events_of(total, finished.deep_view()),
        events.len() == counted(total, finished.len() as nat) + 2,
        events.deep_view()[0] == init_event(total),
        events.deep_view()[events.len() - 1] == done_event(),
        forall|k: int|
            1 <= k <= counted(total, finished.len() as nat) ==> match #[trigger] events.deep_view()[k]
            {
                StreamEventModel::Progress { progress } => progress.completed == k
                    && progress.total == total,
                StreamEventModel::Result { progress, result } => progress.completed == k
                    && progress.total == total,
                _ => false,
            },
{
    let ghost all = finished.deep_view();
    let ghost given = finished@;
    let n = finished.len();
    let (mut session, init) = SearchSession::start(total);
    let mut events: Vec<StreamEvent> = Vec::new();
    events.push(init);
    let mut i: usize = 0;
    for completion in it: finished
        invariant
            it.seq() == given,
            i == it.index(),
            n == given.len(),
            all.len() == n,
            forall|k: int| 0 <= k < n ==> (#[trigger] given[k])@ == all[k],
            session.total() == total,
            session.completed() == counted(total, i as nat),
            events.len() == 1 + counted(total, i as nat),
            events.deep_view()[0] == init_event(total),
            forall|k: int|
                0 <= k < counted(total, i as nat) ==> (#[trigger] events.deep_view()[k + 1])
                    == nth_completion_event(total, all, k),
    {
        let ghost before = events.deep_view();
        proof {
            assert(completion@ == all[i as int]);
        }
        match session.complete(&completion.rule, completion.result) {
            Some(event) => {
                events.push(event);
                proof {
                    let now = events.deep_view();
                    assert(now[0] == before[0]);
                    assert forall|k: int| 0 <= k < i + 1 implies (#[trigger] now[k + 1])
                        == nth_completion_event(total, all, k) by {
                        if k < i {
                            assert(now[k + 1] == before[k + 1]);
                        }
                    }
                }
            },
            None => {},
        }
        i += 1;
    }
    let ghost before = events.deep_view();
    events.push(session.finish());
    proof {
        let now = events.deep_view();
        let expected = events_of(total, all);
        assert(now.len() == expected.len());
        assert forall|k: int| 0 <= k < now.len() implies now[k] == expected[k] by {
            if k < before.len() {
                assert(now[k] == before[k]);
                if k > 0 {
                    assert(before[(k - 1) + 1] == nth_completion_event(total, all, k - 1));
                }
            }
        }
        assert(now =~= expected);
    }
    events
}

/// The shape of the events of a search in which every source finished: the
/// opening event comes first and says how many sources there are; the closing
/// event comes last; between them stands one event for each source, a result or
/// a bare progress, and the event that stands at place `k` says that `k` of all
/// the sources have finished.
pub proof fn lemma_events_shape(total: usize, finished: Seq<CompletionModel>, k: int)
    requires
        finished.len() == total,
        1 <= k <= total,
    ensures
        events_of(total, finished).len() == total + 2,
        events_of(total, finished)[0] == (StreamEventModel::Init { total }),
        events_of(total, finished)[total + 1] == (StreamEventModel::Done { done: true }),
        match events_of(total, finished)[k] {
            StreamEventModel::Progress { progress } => progress.completed == k && progress.total
                == total,
            StreamEventModel::Result { progress, result } => progress.completed == k
                && progress.total == total,
            _ => false,
        },
{
}

/// The event of a source depends on nothing but its own rule and result and on
/// how many sources finished before it: two searches that agree on the source
/// that finished as number `k` agree on the event for it, whatever became of
/// the other sources.
pub proof fn lemma_event_is_local(
    total: usize,
    one: Seq<CompletionModel>,
    other: Seq<CompletionModel>,
    k: int,
)
    requires
        0 <= k < one.len(),
        k < other.len(),
        k < total,
        one[k] == other[k],
    ensures
        events_of(total, one)[k + 1] == events_of(total, other)[k + 1],
{
}

/// A source that failed is reported, in red and with its error, and with no
/// items where its result is well formed.
pub proof fn lemma_failed_source_is_reported(
    rule: RuleModel,
    result: PlatformSearchResultModel,
    progress: StreamProgress,
)
    requires
        result.error is Some,
    ensures
        completion_event(rule, result, progress) matches StreamEventModel::Result {
            progress: p,
            result: shown,
        } && p == progress && shown.color == error_color() && shown.error == result.error
            && shown.name == rule.name && (result.wf() ==> shown.items.len() == 0),
{
}

} // verus!
