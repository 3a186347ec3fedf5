use anime_search::updater::{
    find_local, needs_update, rule_file_name, rule_url, IndexItem, RuleOutcome, UpdateDetail,
    UpdateResult, UpdateRun, KAZUMI_RULES_BASE, KAZUMI_RULES_INDEX, RULES_DIR,
};

fn entry(name: &str, version: &str, last_update: u64) -> IndexItem {
    IndexItem {
        name: name.to_string(),
        version: version.to_string(),
        use_native_player: false,
        author: "someone".to_string(),
        last_update,
    }
}

fn detail(name: &str, action: &str, message: &str) -> UpdateDetail {
    UpdateDetail { name: name.to_string(), action: action.to_string(), message: message.to_string() }
}

#[test]
fn where_rules_come_from() {
    assert_eq!(RULES_DIR, "rules");
    assert_eq!(
        KAZUMI_RULES_INDEX,
        "https://raw.githubusercontent.com/Predidit/KazumiRules/main/index.json"
    );
    assert_eq!(
        rule_url("AGE"),
        "https://raw.githubusercontent.com/Predidit/KazumiRules/main/AGE.json"
    );
    assert_eq!(rule_url("x"), format!("{}x.json", KAZUMI_RULES_BASE));
    assert_eq!(rule_file_name("AGE"), "AGE.json");
}

#[test]
fn the_last_entry_of_a_name_is_the_local_one() {
    let local = vec![entry("a", "1", 1), entry("b", "1", 1), entry("a", "2", 5)];
    assert_eq!(find_local(&local, "a"), Some(2));
    assert_eq!(find_local(&local, "b"), Some(1));
    assert_eq!(find_local(&local, "c"), None);
    assert_eq!(find_local(&Vec::new(), "a"), None);
}

#[test]
fn a_rule_is_fetched_when_it_is_new_or_newer() {
    let remote = entry("a", "1.2", 10);
    assert!(needs_update(None, &remote));
    assert!(!needs_update(Some(&entry("a", "1.2", 10)), &remote));
    assert!(!needs_update(Some(&entry("a", "1.2", 11)), &remote));
    assert!(needs_update(Some(&entry("a", "1.2", 9)), &remote));
    assert!(needs_update(Some(&entry("a", "1.1", 10)), &remote));
    assert!(needs_update(Some(&entry("a", "1.3", 20)), &remote));
}

#[test]
fn an_update_keeps_the_account() {
    let old_b = entry("b", "1", 1);
    let old_e = entry("e", "1", 1);
    let run = UpdateRun::start(6);
    let run = run.record(&entry("a", "1", 1), Some(&entry("a", "1", 1)), RuleOutcome::Current);
    let run = run.record(&entry("b", "2", 2), Some(&old_b), RuleOutcome::Saved);
    let run = run.record(&entry("c", "1", 1), None, RuleOutcome::Saved);
    let run = run.record(&entry("d", "1", 1), None, RuleOutcome::SaveFailed("disk full".to_string()));
    let run = run.record(
        &entry("e", "2", 2),
        Some(&old_e),
        RuleOutcome::DownloadFailed("HTTP 404 Not Found".to_string()),
    );
    let run = run.record(&entry("f", "1", 1), None, RuleOutcome::DownloadFailed("timeout".to_string()));
    assert!(run.is_complete());
    let (result, index) = run.finish();
    assert_eq!(result.total, 6);
    assert_eq!(result.updated, 1);
    assert_eq!(result.added, 1);
    assert_eq!(result.failed, 3);
    assert_eq!(result.details.len(), result.updated + result.added + result.failed);
    assert!(index.len() <= result.total);
    assert_eq!(
        result.details,
        vec![
            detail("b", "updated", "v2"),
            detail("c", "added", "v1"),
            detail("d", "failed", "保存失败: disk full"),
            detail("e", "failed", "下载失败: HTTP 404 Not Found"),
            detail("f", "failed", "下载失败: timeout"),
        ]
    );
    assert_eq!(index, vec![entry("a", "1", 1), entry("b", "2", 2), entry("c", "1", 1), old_e]);
}

#[test]
fn a_full_run_records_nothing_more() {
    let run = UpdateRun::start(1);
    assert!(!run.is_complete());
    let run = run.record(&entry("a", "1", 1), None, RuleOutcome::Saved);
    let run = run.record(&entry("b", "1", 1), None, RuleOutcome::Saved);
    let (result, index) = run.finish();
    assert_eq!(result.added, 1);
    assert_eq!(result.details.len(), 1);
    assert_eq!(index, vec![entry("a", "1", 1)]);
}

#[test]
fn an_empty_run() {
    let run = UpdateRun::start(0);
    assert!(run.is_complete());
    let (result, index) = run.finish();
    assert_eq!(
        result,
        UpdateResult { total: 0, updated: 0, added: 0, failed: 0, details: Vec::new() }
    );
    assert!(index.is_empty());
}

#[test]
fn an_index_that_could_not_be_fetched() {
    let result = UpdateResult::index_failed("HTTP 500");
    assert_eq!(result.total, 0);
    assert_eq!(result.updated + result.added + result.failed, 0);
    assert_eq!(result.details, vec![detail("index", "failed", "获取远程索引失败: HTTP 500")]);
}
