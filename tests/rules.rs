use webbed_hook::change::{resolve_change, Change, ChangeLine, GitData};
use webbed_hook::configuration::{Pattern, URL};
use webbed_hook::envelope::{GitLogEntry, UtcInstant, WebhookResponse};
use webbed_hook::rule::{
    Answers, Condition, ConditionError, Demand, OnRuleComplete, Rule, RuleAction, RuleBranch,
    RuleContext, RuleError, RuleResult, Step, TraceEntry, Traced,
};
use webbed_hook::webhook::{HookError, ValidationError, WebhookResult, WebhookRule};
use webbed_hook::FileStatus;

fn s(t: &str) -> String {
    t.to_string()
}

fn update(name: &str) -> Change {
    resolve_change(
        ChangeLine { old_commit: s("aaaa1"), new_commit: s("bbbb2"), ref_name: s(name) },
        Some(s("aaaa1")),
    )
    .unwrap()
}

fn remove(name: &str) -> Change {
    Change::RemoveRef { name: s(name), commit: s("aaaa1") }
}

fn entry(key: Option<&str>, message: &str) -> GitLogEntry {
    let at = UtcInstant { seconds: 0, nanos: 0 };
    GitLogEntry {
        hash: s("h"),
        parents: vec![],
        author: s("a"),
        author_date: at,
        committer: s("c"),
        committer_date: at,
        signed_by_key_id: key.map(s),
        message: s(message),
    }
}

fn cond(c: &Condition, change: &Change, options: &Vec<String>, answers: &Answers) -> Step<'static, Result<bool, ConditionError>> {
    let branch = s("main");
    let ctx = RuleContext { default_branch: &branch, push_options: options, change };
    match c.evaluate(&ctx, answers, 0, 0, &mut Vec::new()).0 {
        Step::Done(v) => Step::Done(v),
        Step::Needs(Demand::Patch) => Step::Needs(Demand::Patch),
        Step::Needs(Demand::Log) => Step::Needs(Demand::Log),
        Step::Needs(Demand::FileStatus) => Step::Needs(Demand::FileStatus),
        Step::Needs(Demand::MergeBase(b)) => Step::Needs(Demand::MergeBase(b)),
        Step::Needs(Demand::Webhook(_)) => panic!("no webhook expected"),
    }
}

fn decided(c: &Condition, change: &Change) -> bool {
    match cond(c, change, &vec![], &Answers::new()) {
        Step::Done(Ok(b)) => b,
        other => panic!("undecided: {:?}", other),
    }
}

fn rule_done(r: &Rule, change: &Change, answers: &Answers) -> Result<RuleResult, RuleError> {
    let branch = s("main");
    let options = vec![];
    let ctx = RuleContext { default_branch: &branch, push_options: &options, change };
    match r.evaluate(&ctx, answers, 0, 0, &mut Vec::new()).0 {
        Step::Done(v) => v,
        Step::Needs(d) => panic!("needs {:?}", d),
    }
}

fn pattern(p: &str) -> Pattern {
    Pattern::new(p).unwrap()
}

fn accept(messages: &[&str]) -> Rule {
    Rule::Accept { messages: messages.iter().map(|m| s(m)).collect() }
}

fn go_on(messages: &[&str]) -> Rule {
    Rule::Conditional {
        condition: Condition::True,
        on_success: Some(OnRuleComplete { action: RuleAction::Continue, messages: messages.iter().map(|m| s(m)).collect() }),
        on_failure: None,
    }
}

fn webhook(connect: u64, request: u64) -> Rule {
    Rule::Webhook(WebhookRule {
        url: URL::new("http://stub/v").unwrap(),
        config: None,
        request_timeout: Some(request),
        connect_timeout: Some(connect),
        greeting_messages: None,
    })
}

#[test]
fn happy_path_accept() {
    let r = accept(&["ok"]).rule_result(&update("refs/heads/main"));
    assert_eq!(r.action, RuleAction::Accept);
    assert_eq!(r.messages, vec![s("ok")]);
}

trait Decide {
    fn rule_result(&self, change: &Change) -> RuleResult;
}

impl Decide for Rule {
    fn rule_result(&self, change: &Change) -> RuleResult {
        rule_done(self, change, &Answers::new()).unwrap()
    }
}

fn release_guard() -> Rule {
    Rule::Select {
        first_of: vec![RuleBranch {
            condition: Condition::RefMatches { pattern: pattern("^refs/heads/release/.*$") },
            rule: Rule::Reject { messages: vec![s("release branches are protected")] },
        }],
        default: Some(Box::new(accept(&[]))),
    }
}

#[test]
fn pattern_guarded_reject() {
    let r = release_guard().rule_result(&update("refs/heads/release/1.2"));
    assert_eq!(r.action, RuleAction::Reject);
    assert_eq!(r.messages, vec![s("release branches are protected")]);
    let r = release_guard().rule_result(&update("refs/heads/main"));
    assert_eq!(r.action, RuleAction::Accept);
    assert!(r.messages.is_empty());
}

#[test]
fn select_without_match_or_default_rejects() {
    let rule = Rule::Select {
        first_of: vec![RuleBranch { condition: Condition::False, rule: accept(&["no"]) }],
        default: None,
    };
    let r = rule.rule_result(&update("refs/heads/main"));
    assert_eq!(r.action, RuleAction::Reject);
    assert!(r.messages.is_empty());
}

#[test]
fn chain_of_continues_accepts_with_last_messages() {
    let rule = Rule::Chain { rules: vec![go_on(&["first"]), go_on(&["last"])] };
    let r = rule.rule_result(&update("refs/heads/main"));
    assert_eq!(r.action, RuleAction::Accept);
    assert_eq!(r.messages, vec![s("last")]);
}

#[test]
fn chain_stops_at_first_decision() {
    let rule = Rule::Chain {
        rules: vec![go_on(&["a"]), Rule::Reject { messages: vec![s("stop")] }, accept(&["never"])],
    };
    let r = rule.rule_result(&update("refs/heads/main"));
    assert_eq!(r.action, RuleAction::Reject);
    assert_eq!(r.messages, vec![s("stop")]);
}

#[test]
fn conditional_defaults() {
    let yes = Rule::Conditional { condition: Condition::True, on_success: None, on_failure: None };
    let no = Rule::Conditional { condition: Condition::False, on_success: None, on_failure: None };
    let change = update("refs/heads/main");
    assert_eq!(yes.rule_result(&change).action, RuleAction::Continue);
    assert_eq!(no.rule_result(&change).action, RuleAction::Reject);
}

#[test]
fn and_short_circuits_at_first_false() {
    // The second condition would need a merge base; `and` never gets there.
    let c = Condition::And {
        conditions: vec![Condition::False, Condition::DerivedFromBranch { accept_removes: None, name: s("dev") }],
    };
    assert!(!decided(&c, &update("refs/heads/x")));
    let c = Condition::And {
        conditions: vec![Condition::True, Condition::DerivedFromBranch { accept_removes: None, name: s("dev") }],
    };
    assert!(matches!(cond(&c, &update("refs/heads/x"), &vec![], &Answers::new()), Step::Needs(Demand::MergeBase(b)) if b == "dev"));
}

#[test]
fn or_short_circuits_at_first_true() {
    let c = Condition::Or {
        conditions: vec![Condition::True, Condition::AnyCommitMessageMatches { pattern: pattern("x"), accept_removes: None }],
    };
    assert!(decided(&c, &update("refs/heads/x")));
}

#[test]
fn xor_is_true_when_children_disagree() {
    let change = update("refs/heads/x");
    let xor = |cs: Vec<Condition>| Condition::Xor { conditions: cs };
    assert!(!decided(&xor(vec![Condition::True, Condition::True]), &change));
    assert!(decided(&xor(vec![Condition::True, Condition::False]), &change));
    assert!(decided(&xor(vec![Condition::False, Condition::False, Condition::True]), &change));
    assert!(!decided(&xor(vec![Condition::False, Condition::False, Condition::False]), &change));
    // A single child makes `xor` true.
    assert!(decided(&xor(vec![Condition::False]), &change));
}

#[test]
fn double_negation_keeps_value_and_error() {
    let change = update("refs/heads/x");
    let not = |c: Condition| Condition::Not { condition: Box::new(c) };
    assert!(decided(&not(not(Condition::True)), &change));
    assert!(!decided(&not(not(Condition::False)), &change));
    let failing = || Condition::Rule { rule: Box::new(webhook(6000, 100)) };
    let plain = cond(&failing(), &change, &vec![], &Answers::new());
    let twice = cond(&not(not(failing())), &change, &vec![], &Answers::new());
    let expected = ConditionError::RuleError(Box::new(RuleError::WebhookError(HookError::Validation(
        ValidationError::ConnectTimeout { millis: 6000 },
    ))));
    assert!(matches!(plain, Step::Done(Err(ref e)) if *e == expected));
    assert!(matches!(twice, Step::Done(Err(ref e)) if *e == expected));
}

#[test]
fn embedded_rule_maps_actions_to_truth() {
    let change = update("refs/heads/x");
    let embed = |r: Rule| Condition::Rule { rule: Box::new(r) };
    assert!(decided(&embed(accept(&[])), &change));
    assert!(decided(&embed(go_on(&[])), &change));
    assert!(!decided(&embed(Rule::Reject { messages: vec![] }), &change));
}

#[test]
fn signed_commits_allow_list() {
    let mut change = update("refs/heads/x");
    let c = Condition::AllCommitsSigned { allowed_key_ids: Some(vec![s("ABCD")]) };
    assert!(matches!(cond(&c, &change, &vec![], &Answers::new()), Step::Needs(Demand::Log)));
    change.supply_log(vec![entry(Some("ABCD"), "one"), entry(None, "two")]);
    assert!(!decided(&c, &change));

    let mut signed = update("refs/heads/x");
    signed.supply_log(vec![entry(Some("ABCD"), "one"), entry(Some("ABCD"), "two")]);
    assert!(decided(&c, &signed));
    let other = Condition::AllCommitsSigned { allowed_key_ids: Some(vec![s("EEEE")]) };
    assert!(!decided(&other, &signed));
    let any = Condition::AllCommitsSigned { allowed_key_ids: None };
    assert!(decided(&any, &signed));
    assert!(!decided(&any, &change));
    assert!(decided(&any, &remove("refs/heads/x")));
}

#[test]
fn log_is_fetched_once_and_only_when_read() {
    let mut change = update("refs/heads/x");
    let by_name = Condition::RefIs { name: s("refs/heads/x") };
    assert!(decided(&by_name, &change));
    let message = Condition::AnyCommitMessageMatches { pattern: pattern("fix"), accept_removes: None };
    assert!(matches!(cond(&message, &change, &vec![], &Answers::new()), Step::Needs(Demand::Log)));
    change.supply_log(vec![entry(None, "a fix")]);
    assert!(decided(&message, &change));
    // A second log handed in is ignored: the first one stays.
    change.supply_log(vec![entry(None, "nothing")]);
    assert!(decided(&message, &change));
    // File statuses are still not read.
    match &change {
        Change::UpdateRef { git_data: GitData { file_status, patch, .. }, .. } => {
            assert!(matches!(file_status, webbed_hook::change::Fact::Pending));
            assert!(matches!(patch, webbed_hook::change::Fact::Pending));
        }
        _ => panic!("update expected"),
    }
}

#[test]
fn file_predicates_read_statuses() {
    let mut change = update("refs/heads/x");
    change.supply_file_status(vec![(FileStatus::Renamed, s("src/a.rs")), (FileStatus::Added, s("doc/b.md"))]);
    let modified = Condition::ModifiedFileMatches { pattern: pattern("^src/"), accept_removes: None };
    let added = Condition::AddedFileMatches { pattern: pattern("^src/"), accept_removes: None };
    let removed = Condition::RemovedFileMatches { pattern: pattern("."), accept_removes: None };
    assert!(decided(&modified, &change));
    assert!(!decided(&added, &change));
    assert!(!decided(&removed, &change));
    assert!(decided(&removed, &remove("refs/heads/x")));
    let strict = Condition::RemovedFileMatches { pattern: pattern("."), accept_removes: Some(false) };
    assert!(!decided(&strict, &remove("refs/heads/x")));
}

#[test]
fn derived_from_uses_merge_base_answers() {
    let change = update("refs/heads/x");
    let c = Condition::DerivedFromDefaultBranch { accept_removes: None };
    assert!(matches!(cond(&c, &change, &vec![], &Answers::new()), Step::Needs(Demand::MergeBase(b)) if b == "main"));
    let mut answers = Answers::new();
    answers.merge_bases.push((s("main"), Some(s("cafe"))));
    assert!(matches!(cond(&c, &change, &vec![], &answers), Step::Done(Ok(true))));
    let mut none = Answers::new();
    none.merge_bases.push((s("main"), None));
    assert!(matches!(cond(&c, &change, &vec![], &none), Step::Done(Ok(false))));
    assert!(!decided(&c, &remove("refs/heads/x")));
}

#[test]
fn ref_predicates() {
    let tag = update("refs/tags/v1");
    assert!(decided(&Condition::IsTag { name: s("v1") }, &tag));
    assert!(!decided(&Condition::IsTag { name: s("v2") }, &tag));
    assert!(decided(&Condition::RefUpdate, &tag));
    assert!(!decided(&Condition::RefAdd, &tag));
    assert!(decided(&Condition::RefRemove, &remove("refs/heads/x")));
    let options = vec![s("skip-hooks")];
    let bypass = Condition::BypassRequested { option: s("skip-hooks") };
    assert!(matches!(cond(&bypass, &tag, &options, &Answers::new()), Step::Done(Ok(true))));
    assert!(!decided(&bypass, &tag));
}

#[test]
fn linear_history_follows_force() {
    let forced = resolve_change(
        ChangeLine { old_commit: s("aaaa1"), new_commit: s("bbbb2"), ref_name: s("refs/heads/x") },
        Some(s("cccc3")),
    )
    .unwrap();
    assert!(!decided(&Condition::LinearHistory, &forced));
    assert!(decided(&Condition::LinearHistory, &update("refs/heads/x")));
    assert!(decided(&Condition::LinearHistory, &remove("refs/heads/x")));
}

#[test]
fn webhook_translation() {
    let rule = webhook(100, 100);
    let mut change = update("refs/heads/main");
    let branch = s("main");
    let options: Vec<String> = vec![];
    let mut answers = Answers::new();
    let mut asked = vec![];
    loop {
        let ctx = RuleContext { default_branch: &branch, push_options: &options, change: &change };
        let demand = match rule.evaluate(&ctx, &answers, 0, 0, &mut Vec::new()).0 {
            Step::Done(r) => {
                let r = r.unwrap();
                assert_eq!(r.action, RuleAction::Continue);
                assert_eq!(r.messages, vec![s("hi")]);
                break;
            }
            Step::Needs(Demand::Patch) => "patch",
            Step::Needs(Demand::Log) => "log",
            Step::Needs(Demand::Webhook(_)) => "webhook",
            Step::Needs(d) => panic!("unexpected {:?}", d),
        };
        asked.push(demand);
        match demand {
            "patch" => change.supply_patch(Some(s("diff"))),
            "log" => change.supply_log(vec![]),
            _ => answers.webhooks.push(Ok(WebhookResult(true, WebhookResponse(vec![s("hi")])))),
        }
    }
    assert_eq!(asked, vec!["patch", "log", "webhook"]);

    let mut refused = Answers::new();
    refused.webhooks.push(Ok(WebhookResult(false, WebhookResponse(vec![s("nope")]))));
    let r = rule_done(&rule, &change, &refused).unwrap();
    assert_eq!(r.action, RuleAction::Reject);
    assert_eq!(r.messages, vec![s("nope")]);

    let mut failed = Answers::new();
    failed.webhooks.push(Err(HookError::Request(s("timed out"))));
    let e = rule_done(&rule, &change, &failed).unwrap_err();
    assert_eq!(e, RuleError::WebhookError(HookError::Request(s("timed out"))));
}

#[test]
fn webhook_timeouts_are_validated() {
    let change = remove("refs/heads/x");
    let e = rule_done(&webhook(5001, 100), &change, &Answers::new()).unwrap_err();
    assert_eq!(e, RuleError::WebhookError(HookError::Validation(ValidationError::ConnectTimeout { millis: 5001 })));
    let e = rule_done(&webhook(100, 20001), &change, &Answers::new()).unwrap_err();
    assert_eq!(e, RuleError::WebhookError(HookError::Validation(ValidationError::RequestTimeout { millis: 20001 })));
    let ok = webhook(5000, 20000);
    let branch = s("main");
    let options = vec![];
    let ctx = RuleContext { default_branch: &branch, push_options: &options, change: &change };
    assert!(matches!(ok.evaluate(&ctx, &Answers::new(), 0, 0, &mut Vec::new()).0, Step::Needs(Demand::Webhook(_))));
}

#[test]
fn select_condition_error_propagates() {
    let rule = Rule::Select {
        first_of: vec![RuleBranch { condition: Condition::Rule { rule: Box::new(webhook(9000, 100)) }, rule: accept(&[]) }],
        default: None,
    };
    let e = rule_done(&rule, &remove("refs/heads/x"), &Answers::new()).unwrap_err();
    assert!(matches!(e, RuleError::ConditionError(ConditionError::RuleError(_))));
}

#[test]
fn evaluation_is_deterministic() {
    let rule = release_guard();
    let change = update("refs/heads/release/2");
    let a = rule.rule_result(&change);
    let b = rule.rule_result(&change);
    assert_eq!(a.action, b.action);
    assert_eq!(a.messages, b.messages);
}

#[test]
fn update_force_follows_merge_base() {
    let line = |old: &str| ChangeLine { old_commit: s(old), new_commit: s("bbbb2"), ref_name: s("refs/heads/x") };
    let force_of = |c: Change| match c {
        Change::UpdateRef { force, .. } => force,
        _ => panic!("update expected"),
    };
    assert!(!force_of(resolve_change(line("aaaa1"), Some(s("aaaa1"))).unwrap()));
    assert!(force_of(resolve_change(line("aaaa1"), Some(s("cccc3"))).unwrap()));
    assert!(force_of(resolve_change(line("aaaa1"), None).unwrap()));
}

#[test]
fn trace_records_nodes_and_results_by_depth() {
    let c = Condition::And { conditions: vec![Condition::True, Condition::False] };
    let change = update("refs/heads/x");
    let branch = s("main");
    let options = vec![];
    let ctx = RuleContext { default_branch: &branch, push_options: &options, change: &change };
    let mut trace = Vec::new();
    let _ = c.evaluate(&ctx, &Answers::new(), 0, 0, &mut trace);
    let shape: Vec<(usize, String)> = trace
        .iter()
        .map(|l| {
            let what = match &l.entry {
                TraceEntry::Condition(Condition::And { .. }) => s("and"),
                TraceEntry::Condition(Condition::True) => s("true"),
                TraceEntry::Condition(Condition::False) => s("false"),
                TraceEntry::Result(Traced::Value(v)) => format!("= {}", v),
                other => format!("{:?}", other),
            };
            (l.depth, what)
        })
        .collect();
    assert_eq!(
        shape,
        vec![
            (0, s("and")),
            (1, s("true")),
            (1, s("= true")),
            (1, s("false")),
            (1, s("= false")),
            (0, s("= false")),
        ]
    );
}
