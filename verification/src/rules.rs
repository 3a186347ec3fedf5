//! The rules that a process works with.
//!
//! Rules are read once, from one file each, and kept in the order of their
//! names. Reading the files is the caller's work; `is_rule_file` says which
//! files hold a rule, and `load_all_rules` puts the rules in order.

use crate::text::{
    ends_with, lemma_text_le_total, lemma_text_le_transitive, same_text, text_le, text_le_exec,
};
use crate::types::{Rule, RuleModel};
use vstd::prelude::*;
use vstd::string::*;

verus! {

/// Whether a file of this name holds a rule: its extension is `json`, and it is
/// not the index of the rule repository.
pub open spec fn is_rule_file_name(name: Seq<char>) -> bool {
    &&& name != "index.json"@
    &&& name.len() > 5
    &&& ".json"@.is_suffix_of(name)
}

/// Whether a file of this name holds a rule.
pub fn is_rule_file(name: &str) -> (b: bool)
    ensures
        b == is_rule_file_name(name@),
{
    proof {
        reveal_strlit(".json");
    }
    if same_text(name, "index.json") {
        return false;
    }
    name.unicode_len() > 5 && ends_with(name, ".json")
}

/// Whether the rules stand in the order of their names.
pub open spec fn sorted_by_name(rules: Seq<RuleModel>) -> bool {
    forall|i: int, j: int|
        0 <= i < j < rules.len() ==> text_le((#[trigger] rules[i]).name, (#[trigger] rules[j]).name)
}

/// `rules` with `rule` put behind the last rule whose name does not come after
/// its own.
pub open spec fn inserted(rules: Seq<RuleModel>, rule: RuleModel) -> Seq<RuleModel>
    decreases rules.len(),
{
    if rules.len() == 0 || text_le(rules.last().name, rule.name) {
        rules.push(rule)
    } else {
        inserted(rules.drop_last(), rule).push(rules.last())
    }
}

/// The rules in the order of their names; rules of one name keep the order in
/// which they came.
pub open spec fn sorted_rules(rules: Seq<RuleModel>) -> Seq<RuleModel>
    decreases rules.len(),
{
    if rules.len() == 0 {
        rules
    } else {
        inserted(sorted_rules(rules.drop_last()), rules.last())
    }
}

proof fn lemma_inserted_is_insert(rules: Seq<RuleModel>, rule: RuleModel, at: int)
    requires
        0 <= at <= rules.len(),
        forall|k: int| at <= k < rules.len() ==> !text_le((#[trigger] rules[k]).name, rule.name),
        at > 0 ==> text_le(rules[at - 1].name, rule.name),
    ensures
        inserted(rules, rule) == rules.insert(at, rule),
    decreases rules.len() - at,
{
    if at == rules.len() {
        assert(rules.insert(at, rule) =~= rules.push(rule));
    } else {
        let shorter = rules.drop_last();
        assert(!text_le(rules[rules.len() - 1].name, rule.name));
        assert forall|k: int| at <= k < shorter.len() implies !text_le(
            (#[trigger] shorter[k]).name,
            rule.name,
        ) by {
            assert(shorter[k] == rules[k]);
        }
        lemma_inserted_is_insert(shorter, rule, at);
        assert(shorter.insert(at, rule).push(rules.last()) =~= rules.insert(at, rule));
    }
}

/// Putting a rule into sorted rules leaves them sorted, adds the rule and takes
/// none away.
pub proof fn lemma_inserted_sorted(rules: Seq<RuleModel>, rule: RuleModel)
    requires
        sorted_by_name(rules),
    ensures
        sorted_by_name(inserted(rules, rule)),
        inserted(rules, rule).to_multiset() == rules.to_multiset().insert(rule),
        inserted(rules, rule).len() == rules.len() + 1,
    decreases rules.len(),
{
    broadcast use vstd::seq_lib::group_to_multiset_ensures;

    let after = inserted(rules, rule);
    if rules.len() == 0 || text_le(rules.last().name, rule.name) {
        assert forall|i: int, j: int| 0 <= i < j < after.len() implies text_le(
            (#[trigger] after[i]).name,
            (#[trigger] after[j]).name,
        ) by {
            if j == rules.len() {
                assert(after[i] == rules[i]);
                if i < rules.len() - 1 {
                    assert(text_le(rules[i].name, rules[rules.len() - 1].name));
                    lemma_text_le_transitive(rules[i].name, rules.last().name, rule.name);
                }
            } else {
                assert(after[i] == rules[i] && after[j] == rules[j]);
            }
        }
    } else {
        let shorter = rules.drop_last();
        let last = rules.last();
        assert forall|i: int, j: int| 0 <= i < j < shorter.len() implies text_le(
            (#[trigger] shorter[i]).name,
            (#[trigger] shorter[j]).name,
        ) by {
            assert(shorter[i] == rules[i] && shorter[j] == rules[j]);
        }
        lemma_inserted_sorted(shorter, rule);
        let inner = inserted(shorter, rule);
        lemma_text_le_total(last.name, rule.name);
        assert forall|i: int| 0 <= i < inner.len() implies text_le(
            (#[trigger] inner[i]).name,
            last.name,
        ) by {
            assert(inner.to_multiset().count(inner[i]) > 0);
            if inner[i] == rule {
            } else {
                assert(shorter.to_multiset().count(inner[i]) > 0);
                assert(shorter.contains(inner[i]));
                let k = choose|k: int| 0 <= k < shorter.len() && shorter[k] == inner[i];
                assert(shorter[k] == rules[k]);
                assert(text_le(rules[k].name, rules[rules.len() - 1].name));
            }
        }
        assert forall|i: int, j: int| 0 <= i < j < after.len() implies text_le(
            (#[trigger] after[i]).name,
            (#[trigger] after[j]).name,
        ) by {
            if j == inner.len() {
                assert(after[i] == inner[i]);
            } else {
                assert(after[i] == inner[i] && after[j] == inner[j]);
            }
        }
        assert(rules =~= shorter.push(last));
    }
}

/// Sorted rules stand in the order of their names, and they are the rules that
/// were given, each as often as it was given.
pub proof fn lemma_sorted_rules(rules: Seq<RuleModel>)
    ensures
        sorted_by_name(sorted_rules(rules)),
        sorted_rules(rules).to_multiset() == rules.to_multiset(),
        sorted_rules(rules).len() == rules.len(),
    decreases rules.len(),
{
    broadcast use vstd::seq_lib::group_to_multiset_ensures;

    if rules.len() > 0 {
        lemma_sorted_rules(rules.drop_last());
        lemma_inserted_sorted(sorted_rules(rules.drop_last()), rules.last());
        assert(rules =~= rules.drop_last().push(rules.last()));
    }
}

/// The rules of a process, in the order of their names.
#[derive(Debug, PartialEq, Eq)]
pub struct RuleRegistry {
    rules: Vec<Rule>,
}

impl RuleRegistry {
    #[verifier::type_invariant]
    spec fn inv(self) -> bool {
        sorted_by_name(self.rules.deep_view())
    }

    /// The rules of the registry.
    pub closed spec fn rules(self) -> Seq<RuleModel> {
        self.rules.deep_view()
    }

    /// How many rules the registry holds.
    pub fn len(&self) -> (n: usize)
        ensures
            n == self.rules().len(),
    {
        self.rules.len()
    }
}

/// The registry of the rules that were loaded, put in the order of their names.
pub fn load_all_rules(loaded: Vec<Rule>) -> (registry: RuleRegistry)
    ensures
        registry.rules() == sorted_rules(loaded.deep_view()),
        sorted_by_name(registry.rules()),
        registry.rules().to_multiset() == loaded.deep_view().to_multiset(),
{
    let ghost all = loaded.deep_view();
    let ghost given = loaded@;
    let n = loaded.len();
    let mut rules: Vec<Rule> = Vec::new();
    proof {
        assert(all.take(0) =~= Seq::<RuleModel>::empty());
        assert(rules.deep_view() =~= Seq::<RuleModel>::empty());
    }
    for rule in it: loaded
        invariant
            it.seq() == given,
            n == given.len(),
            all.len() == n,
            forall|k: int| 0 <= k < n ==> (#[trigger] given[k])@ == all[k],
            rules.deep_view() == sorted_rules(all.take(it.index() as int)),
    {
        let ghost i = it.index() as int;
        let ghost before = rules.deep_view();
        proof {
            assert(rule@ == all[i]);
            assert(all.take(i + 1).drop_last() =~= all.take(i));
            assert(all.take(i + 1).last() == all[i]);
        }
        let mut at: usize = rules.len();
        while at > 0 && !text_le_exec(rules[at - 1].name.as_str(), rule.name.as_str())
            invariant
                at <= rules.len(),
                before == rules.deep_view(),
                forall|k: int|
                    at <= k < rules.len() ==> !text_le((#[trigger] before[k]).name, rule@.name),
            decreases at,
        {
            proof {
                assert(before[at - 1] == rules@[at - 1]@);
            }
            at -= 1;
        }
        proof {
            if at > 0 {
                assert(before[at - 1] == rules@[at - 1]@);
            }
            lemma_inserted_is_insert(before, rule@, at as int);
        }
        rules.insert(at, rule);
        proof {
            assert(rules.deep_view() =~= before.insert(at as int, all[i]));
        }
    }
    proof {
        assert(all.take(n as int) =~= all);
        lemma_sorted_rules(all);
    }
    RuleRegistry { rules }
}

/// The rules of the registry, in the order of their names.
pub fn get_builtin_rules(registry: &RuleRegistry) -> (rules: Vec<Rule>)
    ensures
        rules.deep_view() == registry.rules(),
        sorted_by_name(rules.deep_view()),
{
    proof {
        use_type_invariant(registry);
    }
    let mut rules: Vec<Rule> = Vec::new();
    let mut i: usize = 0;
    while i < registry.rules.len()
        invariant
            i <= registry.rules.len(),
            rules.len() == i,
            forall|k: int| 0 <= k < i ==> (#[trigger] rules@[k])@ == registry.rules@[k]@,
        decreases registry.rules.len() - i,
    {
        rules.push(registry.rules[i].clone());
        i += 1;
    }
    assert(rules.deep_view() =~= registry.rules());
    rules
}

} // verus!
