use webbed_hook::change::{resolve_change, ChangeLine};
use webbed_hook::configuration::{
    bypass_messages, config_file_names, get_changes, hook_by_name, hook_outcome, parse_change_line,
    trim_d_suffixes, ConfigValueError, ConfigurationVersion1, Hook, HookBypass, HookOutcome, HookType, Pattern, URL,
};
use webbed_hook::envelope::{find_default_branch_change, Change, Metadata};
use webbed_hook::rule::{Condition, Rule, RuleAction, RuleError, RuleResult, MAX_NESTING};
use webbed_hook::webhook::{envelope_change, webhook_request, webhook_result, HookError, WebhookRule};

fn s(t: &str) -> String {
    t.to_string()
}

fn config() -> ConfigurationVersion1 {
    ConfigurationVersion1 {
        pre_receive: Some(Hook { rule: Rule::Accept { messages: vec![s("ok")] }, reject_on_error: None }),
        post_receive: None,
        update: Some(Hook { rule: Rule::Reject { messages: vec![] }, reject_on_error: Some(false) }),
        bypass: Some(HookBypass { push_option: s("skip-hooks"), messages: Some(vec![s("bypassed")]) }),
        trace: None,
    }
}

#[test]
fn hooks_are_selected_by_name_then_directory() {
    let c = config();
    assert_eq!(c.select_hook(Some("pre-receive"), Some("hooks")).unwrap().1, HookType::PreReceive);
    assert_eq!(c.select_hook(Some("run"), Some("update.d")).unwrap().1, HookType::Update);
    assert_eq!(c.select_hook(None, Some("pre-receive.d.d")).unwrap().1, HookType::PreReceive);
    assert!(c.select_hook(Some("post-receive"), Some("post-receive.d")).is_none());
    assert!(c.select_hook(Some("other"), None).is_none());
    assert!(hook_by_name(&c, "Update").is_none());
    assert_eq!(trim_d_suffixes("x.d.d"), "x");
    assert_eq!(trim_d_suffixes(".d"), "");
    assert!(!c.trace_enabled());
}

#[test]
fn bypass_short_circuits_with_its_messages() {
    let c = config();
    assert_eq!(bypass_messages(&vec![s("skip-hooks")], &c.bypass), Some(vec![s("bypassed")]));
    assert_eq!(bypass_messages(&vec![s("other")], &c.bypass), None);
    let silent = Some(HookBypass { push_option: s("x"), messages: None });
    assert_eq!(bypass_messages(&vec![s("x")], &silent), Some(vec![]));
    assert_eq!(bypass_messages(&vec![s("x")], &None), None);
}

#[test]
fn outcomes_follow_actions_and_error_policy() {
    let res = |a: RuleAction| Ok(RuleResult { action: a, messages: vec![s("m")] });
    assert!(matches!(hook_outcome(res(RuleAction::Accept), None), HookOutcome::Accepted(m) if m == vec![s("m")]));
    assert!(matches!(hook_outcome(res(RuleAction::Continue), None), HookOutcome::Accepted(_)));
    assert!(matches!(hook_outcome(res(RuleAction::Reject), None), HookOutcome::Rejected(_)));
    let err = || Err(RuleError::WebhookError(HookError::Request(s("down"))));
    assert!(matches!(hook_outcome(err(), None), HookOutcome::FailedRejected(_)));
    assert!(matches!(hook_outcome(err(), Some(true)), HookOutcome::FailedRejected(_)));
    assert!(matches!(hook_outcome(err(), Some(false)), HookOutcome::FailedAccepted(_)));
}

#[test]
fn change_lines_are_read() {
    let c = parse_change_line("aaaa bbbb refs/heads/main").unwrap();
    assert_eq!((c.old_commit.as_str(), c.new_commit.as_str(), c.ref_name.as_str()), ("aaaa", "bbbb", "refs/heads/main"));
    assert!(parse_change_line("aaaa bbbb").is_none());
    let lines = vec![s("a b refs/heads/x"), s("bad"), s("c d refs/tags/t")];
    let changes = get_changes(HookType::PreReceive, &lines, &vec![]).unwrap();
    assert_eq!(changes.len(), 2);
    assert_eq!(changes[1].ref_name, "refs/tags/t");
    assert!(get_changes(HookType::PostReceive, &vec![], &vec![]).is_none());
    let args = vec![s("refs/heads/x"), s("old"), s("new")];
    let update = get_changes(HookType::Update, &vec![], &args).unwrap();
    assert_eq!((update[0].old_commit.as_str(), update[0].new_commit.as_str()), ("old", "new"));
    assert!(get_changes(HookType::Update, &vec![], &args[..2].to_vec()).is_none());
}

#[test]
fn patterns_and_urls_are_validated() {
    assert_eq!(Pattern::new("").unwrap_err(), ConfigValueError::Empty);
    assert_eq!(Pattern::new("(").unwrap_err(), ConfigValueError::InvalidRegex);
    let p = Pattern::new("^a+$").unwrap();
    assert_eq!(p.as_str(), "^a+$");
    assert_eq!(URL::new("").unwrap_err(), ConfigValueError::Empty);
    assert_eq!(URL::new("not a url").unwrap_err(), ConfigValueError::InvalidUrl);
    assert_eq!(URL::new("http://stub/v").unwrap().url().host_str(), Some("stub"));
}

#[test]
fn configuration_files_in_priority_order() {
    assert_eq!(config_file_names(), vec![s("hooks.json"), s("hooks.yaml"), s("hooks.yml"), s("hooks.toml")]);
}

#[test]
fn webhook_envelope_carries_the_change() {
    let rule = WebhookRule {
        url: URL::new("http://stub/v").unwrap(),
        config: Some(serde_json::Value::Bool(true)),
        request_timeout: None,
        connect_timeout: None,
        greeting_messages: None,
    };
    let mut change = resolve_change(
        ChangeLine { old_commit: s("a1"), new_commit: s("b2"), ref_name: s("refs/heads/main") },
        Some(s("a1")),
    )
    .unwrap();
    change.supply_patch(Some(s("diff")));
    let request = webhook_request(&rule, &s("main"), &vec![s("o")], &change, None, Metadata::Unknown);
    assert_eq!(request.version, "1");
    assert_eq!(request.default_branch, "main");
    assert_eq!(request.config, Some(serde_json::Value::Bool(true)));
    assert_eq!(request.push_options, vec![s("o")]);
    match &request.changes[0] {
        Change::UpdateRef { name, merge_base, force, patch, log, .. } => {
            assert_eq!(name, "refs/heads/main");
            assert_eq!(merge_base.as_deref(), Some("a1"));
            assert!(!force);
            assert_eq!(patch.as_deref(), Some("diff"));
            assert!(log.is_none());
        }
        other => panic!("update expected, got {:?}", other),
    }
    let removed = webbed_hook::change::Change::RemoveRef { name: s("refs/heads/old"), commit: s("c3") };
    assert!(matches!(envelope_change(&removed), Change::RemoveRef { .. }));
    let changes = vec![envelope_change(&removed), envelope_change(&change)];
    assert!(matches!(find_default_branch_change("main", &changes), Some(Change::UpdateRef { .. })));
    assert!(find_default_branch_change("dev", &changes).is_none());
    let answered = webhook_result(false, None);
    assert!(!answered.0);
    assert!(answered.1 .0.is_empty());
}

#[test]
fn nesting_is_capped() {
    let mut c = Condition::True;
    for _ in 0..70 {
        c = Condition::Not { condition: Box::new(c) };
    }
    assert!(!c.fits(MAX_NESTING));
    assert!(c.fits(71));
    assert!(!c.fits(70));
    let deep = Rule::Conditional { condition: c, on_success: None, on_failure: None };
    let mut cfg = config();
    assert!(cfg.within_nesting());
    cfg.post_receive = Some(Hook { rule: deep, reject_on_error: None });
    assert!(!cfg.within_nesting());
    assert!(Rule::Accept { messages: vec![] }.fits(1));
    assert!(!Rule::Accept { messages: vec![] }.fits(0));
}
