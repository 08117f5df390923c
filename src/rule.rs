//! Rules and conditions, and their evaluation against one change.
//!
//! Evaluation never waits for Git or for a webhook. Where it needs a fact
//! that is not there yet (a patch, a log, file statuses, a merge base, the
//! answer of a webhook) it stops and names it. The caller fetches that one
//! fact, hands it in, and evaluates again: each fact is fetched once, and only
//! a fact that the rule reads is ever fetched.

use vstd::prelude::*;
use crate::change::{Change, Fact};
use crate::configuration::{regex_is_match, Pattern};
use crate::envelope::GitLogEntry;
use crate::git::FileStatus;
use crate::text::{clone_strings, contains_string, is_prefixed};
use crate::webhook::{timeouts_of, validate_timeouts, HookError, WebhookResult, WebhookRule};

verus! {

/// A boolean question about a change.
#[derive(Debug)]
pub enum Condition {
    RefIs { name: String },
    RefMatches { pattern: Pattern },
    AnyCommitMessageMatches { pattern: Pattern, accept_removes: Option<bool> },
    ModifiedFileMatches { pattern: Pattern, accept_removes: Option<bool> },
    AddedFileMatches { pattern: Pattern, accept_removes: Option<bool> },
    RemovedFileMatches { pattern: Pattern, accept_removes: Option<bool> },
    DerivedFromDefaultBranch { accept_removes: Option<bool> },
    DerivedFromBranch { accept_removes: Option<bool>, name: String },
    /// Every commit of the log is signed, and, with a list of keys, by one of
    /// them; true for a removed ref.
    AllCommitsSigned { allowed_key_ids: Option<Vec<String>> },
    LinearHistory,
    RefAdd,
    RefRemove,
    RefUpdate,
    /// True when every condition is; with none, true.
    And { conditions: Vec<Condition> },
    /// True when some condition is; with none, false.
    Or { conditions: Vec<Condition> },
    /// True when the conditions do not all agree; a single condition makes it
    /// true, and none false.
    Xor { conditions: Vec<Condition> },
    Not { condition: Box<Condition> },
    True,
    False,
    BypassRequested { option: String },
    Rule { rule: Box<Rule> },
    IsTag { name: String },
}

/// Why a condition could not be decided.
#[derive(Debug, PartialEq, Eq)]
pub enum ConditionError {
    /// A rule embedded in the condition failed.
    RuleError(Box<RuleError>),
}

/// One branch of a select: a condition and the rule that runs when it holds.
#[derive(Debug)]
pub struct RuleBranch {
    pub condition: Condition,
    pub rule: Rule,
}

/// Why a rule could not be decided.
#[derive(Debug, PartialEq, Eq)]
pub enum RuleError {
    ConditionError(ConditionError),
    WebhookError(HookError),
}

/// What a rule decided.
#[derive(PartialEq, Eq, Structural, Debug, Clone, Copy)]
pub enum RuleAction {
    Accept,
    Reject,
    Continue,
}

/// A decision and the messages that go with it.
#[derive(Debug)]
pub struct RuleResult {
    pub action: RuleAction,
    pub messages: Vec<String>,
}

/// The outcome a conditional rule gives on one side of its condition.
#[derive(Debug)]
pub struct OnRuleComplete {
    pub action: RuleAction,
    pub messages: Vec<String>,
}

/// A policy: it decides on a change, with messages for the pusher.
#[derive(Debug)]
pub enum Rule {
    /// The rules in order, up to the first that accepts or rejects; with none, a rejection.
    Chain { rules: Vec<Rule> },
    Select { first_of: Vec<RuleBranch>, default: Option<Box<Rule>> },
    Webhook(WebhookRule),
    Accept { messages: Vec<String> },
    Reject { messages: Vec<String> },
    Conditional {
        condition: Condition,
        on_success: Option<OnRuleComplete>,
        on_failure: Option<OnRuleComplete>,
    },
}

/// A decision and its messages, as values.
pub struct RuleOutcome {
    pub action: RuleAction,
    pub messages: Seq<String>,
}

impl RuleResult {
    pub open spec fn outcome(&self) -> RuleOutcome {
        RuleOutcome { action: self.action, messages: self.messages@ }
    }
}

/// What a condition or a rule is evaluated against.
pub struct RuleContext<'a> {
    pub default_branch: &'a String,
    pub push_options: &'a Vec<String>,
    pub change: &'a Change,
}

/// The facts that were fetched for an evaluation, besides those the change holds.
#[derive(Debug)]
pub struct Answers {
    /// The merge base of each ref asked about with the change's new commit.
    pub merge_bases: Vec<(String, Option<String>)>,
    /// The answers of the webhooks, in the order in which evaluation reached them.
    pub webhooks: Vec<Result<WebhookResult, HookError>>,
}

impl Answers {
    /// No answers yet.
    pub fn new() -> (r: Answers)
        ensures
            r.merge_bases@.len() == 0,
            r.webhooks@.len() == 0,
    {
        Answers { merge_bases: Vec::new(), webhooks: Vec::new() }
    }
}

/// A fact that evaluation needs before it can go on.
#[derive(Debug)]
pub enum Demand<'r> {
    Patch,
    Log,
    FileStatus,
    /// The merge base of this ref with the change's new commit.
    MergeBase(String),
    /// The answer of this webhook.
    Webhook(&'r WebhookRule),
}

/// Either a result, or the fact that is needed to reach one.
#[derive(Debug)]
pub enum Step<'r, T> {
    Done(T),
    Needs(Demand<'r>),
}

/// What a trace line reports.
#[derive(Debug)]
pub enum TraceEntry<'r> {
    /// This condition is about to be evaluated.
    Condition(&'r Condition),
    /// This rule is about to be evaluated.
    Rule(&'r Rule),
    /// The condition or rule begun last at the same depth ended so.
    Result(Traced),
}

/// How an evaluation ended, for a trace.
#[derive(PartialEq, Eq, Structural, Debug, Clone, Copy)]
pub enum Traced {
    Value(bool),
    Action(RuleAction),
    Failed,
    /// A fact is needed first.
    Waiting,
}

/// One line of a trace: a node or a result, at its nesting depth.
#[derive(Debug)]
pub struct TraceLine<'r> {
    pub depth: usize,
    pub entry: TraceEntry<'r>,
}

/// Whether `b` is `a` with lines added at its end.
pub open spec fn extends_trace<'r>(a: Seq<TraceLine<'r>>, b: Seq<TraceLine<'r>>) -> bool {
    a.len() <= b.len() && forall|i: int| 0 <= i < a.len() ==> #[trigger] b[i] == a[i]
}

pub proof fn lemma_extends_trace_trans<'r>(a: Seq<TraceLine<'r>>, b: Seq<TraceLine<'r>>, c: Seq<TraceLine<'r>>)
    requires
        extends_trace(a, b),
        extends_trace(b, c),
    ensures
        extends_trace(a, c),
{
}

pub open spec fn traced_bool(p: Progress<Result<bool, ConditionError>>) -> Traced {
    match p {
        Progress::Done(Ok(b)) => Traced::Value(b),
        Progress::Done(Err(_)) => Traced::Failed,
        Progress::Needs(_) => Traced::Waiting,
    }
}

pub open spec fn traced_rule(p: Progress<Result<RuleOutcome, RuleError>>) -> Traced {
    match p {
        Progress::Done(Ok(o)) => Traced::Action(o.action),
        Progress::Done(Err(_)) => Traced::Failed,
        Progress::Needs(_) => Traced::Waiting,
    }
}

/// The depth of the nodes one level down.
fn deeper(depth: usize) -> (r: usize)
    ensures
        r >= depth,
{
    if depth < usize::MAX {
        depth + 1
    } else {
        depth
    }
}

/// A needed fact, as a value.
pub enum Wanted {
    Patch,
    Log,
    FileStatus,
    MergeBase(Seq<char>),
    Webhook(WebhookRule),
}

/// Either a result, or the fact that is needed to reach one, as values.
pub enum Progress<T> {
    Done(T),
    Needs(Wanted),
}

pub open spec fn wanted_of(d: Demand) -> Wanted {
    match d {
        Demand::Patch => Wanted::Patch,
        Demand::Log => Wanted::Log,
        Demand::FileStatus => Wanted::FileStatus,
        Demand::MergeBase(name) => Wanted::MergeBase(name@),
        Demand::Webhook(w) => Wanted::Webhook(*w),
    }
}

pub open spec fn bool_progress(s: Step<Result<bool, ConditionError>>) -> Progress<Result<bool, ConditionError>> {
    match s {
        Step::Done(v) => Progress::Done(v),
        Step::Needs(d) => Progress::Needs(wanted_of(d)),
    }
}

pub open spec fn rule_progress_of(s: Step<Result<RuleResult, RuleError>>) -> Progress<Result<RuleOutcome, RuleError>> {
    match s {
        Step::Done(Ok(r)) => Progress::Done(Ok(r.outcome())),
        Step::Done(Err(e)) => Progress::Done(Err(e)),
        Step::Needs(d) => Progress::Needs(wanted_of(d)),
    }
}

pub open spec fn unwrap_or(o: Option<bool>, d: bool) -> bool {
    match o {
        Some(b) => b,
        None => d,
    }
}

/// The merge base recorded for `name`, looking from position `i` on; the first record counts.
pub open spec fn merge_base_from(entries: Seq<(String, Option<String>)>, name: Seq<char>, i: int) -> Option<Option<String>>
    decreases entries.len() - i,
{
    if i < 0 || i >= entries.len() {
        None
    } else if entries[i].0@ == name {
        Some(entries[i].1)
    } else {
        merge_base_from(entries, name, i + 1)
    }
}

/// Whether some commit message of the log matches.
pub open spec fn any_message_matches(log: Seq<GitLogEntry>, pattern: Seq<char>) -> bool {
    exists|i: int| 0 <= i < log.len() && regex_is_match(pattern, #[trigger] log[i].message@)
}

/// Which file statuses a file predicate looks at.
#[derive(PartialEq, Eq, Structural, Debug, Clone, Copy)]
pub enum FileKind {
    /// Modified or renamed.
    Modified,
    Added,
    Removed,
}

pub open spec fn kind_selects(kind: FileKind, status: FileStatus) -> bool {
    match kind {
        FileKind::Modified => status == FileStatus::Modified || status == FileStatus::Renamed,
        FileKind::Added => status == FileStatus::Added,
        FileKind::Removed => status == FileStatus::Deleted,
    }
}

/// Whether some file of the given kind has a matching path.
pub open spec fn any_file_matches(files: Seq<(FileStatus, String)>, kind: FileKind, pattern: Seq<char>) -> bool {
    exists|i: int|
        0 <= i < files.len() && kind_selects(kind, (#[trigger] files[i]).0) && regex_is_match(pattern, files[i].1@)
}

/// Whether every commit is signed, and, where a list of keys is given, by one of them.
pub open spec fn all_signed(log: Seq<GitLogEntry>, allowed: Option<Vec<String>>) -> bool {
    match allowed {
        None => forall|i: int| 0 <= i < log.len() ==> (#[trigger] log[i]).signed_by_key_id is Some,
        Some(ids) => forall|i: int|
            0 <= i < log.len() ==> match (#[trigger] log[i]).signed_by_key_id {
                Some(key) => exists|j: int| 0 <= j < ids@.len() && (#[trigger] ids@[j])@ == key@,
                None => false,
            },
    }
}

/// Whether a push option equals `option`.
pub open spec fn option_requested(options: Seq<String>, option: Seq<char>) -> bool {
    exists|i: int| 0 <= i < options.len() && (#[trigger] options[i])@ == option
}

pub open spec fn file_progress(ctx: RuleContext, kind: FileKind, pattern: Pattern, accept_removes: Option<bool>) -> Progress<Result<bool, ConditionError>> {
    match ctx.change.facts() {
        None => Progress::Done(Ok(unwrap_or(accept_removes, true))),
        Some(g) => match g.file_status {
            Fact::Pending => Progress::Needs(Wanted::FileStatus),
            Fact::Ready(files) => Progress::Done(Ok(any_file_matches(files@, kind, pattern.source()))),
        },
    }
}

pub open spec fn derived_progress(ctx: RuleContext, ans: Answers, branch: String, accept_removes: Option<bool>) -> Progress<Result<bool, ConditionError>> {
    match ctx.change.tip_of() {
        None => Progress::Done(Ok(unwrap_or(accept_removes, false))),
        Some(_) => match merge_base_from(ans.merge_bases@, branch@, 0) {
            Some(base) => Progress::Done(Ok(base is Some)),
            None => Progress::Needs(Wanted::MergeBase(branch@)),
        },
    }
}

/// The value of a condition that reads no other condition or rule.
pub open spec fn leaf_progress(c: Condition, ctx: RuleContext, ans: Answers) -> Progress<Result<bool, ConditionError>> {
    match c {
        Condition::RefIs { name } => Progress::Done(Ok(ctx.change.name_of()@ == name@)),
        Condition::RefMatches { pattern } => Progress::Done(Ok(regex_is_match(pattern.source(), ctx.change.name_of()@))),
        Condition::AnyCommitMessageMatches { pattern, accept_removes } => match ctx.change.facts() {
            None => Progress::Done(Ok(unwrap_or(accept_removes, true))),
            Some(g) => match g.log {
                Fact::Pending => Progress::Needs(Wanted::Log),
                Fact::Ready(log) => Progress::Done(Ok(any_message_matches(log@, pattern.source()))),
            },
        },
        Condition::ModifiedFileMatches { pattern, accept_removes } => file_progress(ctx, FileKind::Modified, pattern, accept_removes),
        Condition::AddedFileMatches { pattern, accept_removes } => file_progress(ctx, FileKind::Added, pattern, accept_removes),
        Condition::RemovedFileMatches { pattern, accept_removes } => file_progress(ctx, FileKind::Removed, pattern, accept_removes),
        Condition::DerivedFromDefaultBranch { accept_removes } => derived_progress(ctx, ans, *ctx.default_branch, accept_removes),
        Condition::DerivedFromBranch { accept_removes, name } => derived_progress(ctx, ans, name, accept_removes),
        Condition::AllCommitsSigned { allowed_key_ids } => match ctx.change.facts() {
            None => Progress::Done(Ok(true)),
            Some(g) => match g.log {
                Fact::Pending => Progress::Needs(Wanted::Log),
                Fact::Ready(log) => Progress::Done(Ok(all_signed(log@, allowed_key_ids))),
            },
        },
        Condition::LinearHistory => Progress::Done(Ok(match *ctx.change {
            Change::UpdateRef { force, .. } => !force,
            _ => true,
        })),
        Condition::RefAdd => Progress::Done(Ok(ctx.change is AddRef)),
        Condition::RefRemove => Progress::Done(Ok(ctx.change is RemoveRef)),
        Condition::RefUpdate => Progress::Done(Ok(ctx.change is UpdateRef)),
        Condition::True => Progress::Done(Ok(true)),
        Condition::False => Progress::Done(Ok(false)),
        Condition::BypassRequested { option } => Progress::Done(Ok(option_requested(ctx.push_options@, option@))),
        Condition::IsTag { name } => Progress::Done(Ok(ctx.change.name_of()@ == "refs/tags/"@ + name@)),
        _ => Progress::Done(Ok(false)),
    }
}

/// The value of a condition, and how many webhook answers were used up after it.
pub open spec fn condition_progress(c: Condition, ctx: RuleContext, ans: Answers, used: nat) -> (Progress<Result<bool, ConditionError>>, nat)
    decreases c, 0int,
{
    match c {
        Condition::And { conditions } => and_from(conditions@, 0, ctx, ans, used),
        Condition::Or { conditions } => or_from(conditions@, 0, ctx, ans, used),
        Condition::Xor { conditions } => if conditions@.len() == 0 {
            (Progress::Done(Ok(false)), used)
        } else if conditions@.len() == 1 {
            (Progress::Done(Ok(true)), used)
        } else {
            let (p, u) = condition_progress(conditions@[0], ctx, ans, used);
            match p {
                Progress::Done(Ok(first)) => xor_from(conditions@, 1, first, ctx, ans, u),
                _ => (p, u),
            }
        },
        Condition::Not { condition } => {
            let (p, u) = condition_progress(*condition, ctx, ans, used);
            match p {
                Progress::Done(Ok(b)) => (Progress::Done(Ok(!b)), u),
                _ => (p, u),
            }
        },
        Condition::Rule { rule } => {
            let (p, u) = rule_progress(*rule, ctx, ans, used);
            match p {
                Progress::Done(Ok(o)) => (Progress::Done(Ok(o.action != RuleAction::Reject)), u),
                Progress::Done(Err(e)) => (Progress::Done(Err(ConditionError::RuleError(Box::new(e)))), u),
                Progress::Needs(w) => (Progress::Needs(w), u),
            }
        },
        _ => (leaf_progress(c, ctx, ans), used),
    }
}

/// The conjunction of the conditions from position `i` on, left to right,
/// stopping at the first that is false.
pub open spec fn and_from(cs: Seq<Condition>, i: int, ctx: RuleContext, ans: Answers, used: nat) -> (Progress<Result<bool, ConditionError>>, nat)
    decreases cs, cs.len() - i,
{
    if i < 0 || i >= cs.len() {
        (Progress::Done(Ok(true)), used)
    } else {
        let (p, u) = condition_progress(cs[i], ctx, ans, used);
        match p {
            Progress::Done(Ok(true)) => and_from(cs, i + 1, ctx, ans, u),
            _ => (p, u),
        }
    }
}

/// The disjunction of the conditions from position `i` on, left to right,
/// stopping at the first that is true.
pub open spec fn or_from(cs: Seq<Condition>, i: int, ctx: RuleContext, ans: Answers, used: nat) -> (Progress<Result<bool, ConditionError>>, nat)
    decreases cs, cs.len() - i,
{
    if i < 0 || i >= cs.len() {
        (Progress::Done(Ok(false)), used)
    } else {
        let (p, u) = condition_progress(cs[i], ctx, ans, used);
        match p {
            Progress::Done(Ok(false)) => or_from(cs, i + 1, ctx, ans, u),
            _ => (p, u),
        }
    }
}

/// Whether a condition from position `i` on differs from `first`, stopping at the first that does.
pub open spec fn xor_from(cs: Seq<Condition>, i: int, first: bool, ctx: RuleContext, ans: Answers, used: nat) -> (Progress<Result<bool, ConditionError>>, nat)
    decreases cs, cs.len() - i,
{
    if i < 0 || i >= cs.len() {
        (Progress::Done(Ok(false)), used)
    } else {
        let (p, u) = condition_progress(cs[i], ctx, ans, used);
        match p {
            Progress::Done(Ok(v)) => if v != first {
                (Progress::Done(Ok(true)), u)
            } else {
                xor_from(cs, i + 1, first, ctx, ans, u)
            },
            _ => (p, u),
        }
    }
}

/// The outcome that a conditional rule gives: the configured one, or the default action with no messages.
pub open spec fn completion(o: Option<OnRuleComplete>, default_action: RuleAction) -> RuleOutcome {
    match o {
        Some(c) => RuleOutcome { action: c.action, messages: c.messages@ },
        None => RuleOutcome { action: default_action, messages: Seq::empty() },
    }
}

/// The outcome of a rule, and how many webhook answers were used up after it.
pub open spec fn rule_progress(r: Rule, ctx: RuleContext, ans: Answers, used: nat) -> (Progress<Result<RuleOutcome, RuleError>>, nat)
    decreases r, 0int,
{
    match r {
        Rule::Chain { rules } => chain_from(rules@, 0, RuleOutcome { action: RuleAction::Reject, messages: Seq::empty() }, ctx, ans, used),
        Rule::Select { first_of, default } => {
            let (p, u) = first_match_from(first_of@, 0, ctx, ans, used);
            match p {
                Progress::Done(Ok(Some(k))) => if 0 <= k < first_of@.len() {
                    rule_progress(first_of@[k].rule, ctx, ans, u)
                } else {
                    (Progress::Done(Ok(RuleOutcome { action: RuleAction::Reject, messages: Seq::empty() })), u)
                },
                Progress::Done(Ok(None)) => match default {
                    Some(d) => rule_progress(*d, ctx, ans, u),
                    None => (Progress::Done(Ok(RuleOutcome { action: RuleAction::Reject, messages: Seq::empty() })), u),
                },
                Progress::Done(Err(e)) => (Progress::Done(Err(RuleError::ConditionError(e))), u),
                Progress::Needs(w) => (Progress::Needs(w), u),
            }
        },
        Rule::Webhook(w) => webhook_progress(w, ctx, ans, used),
        Rule::Accept { messages } => (Progress::Done(Ok(RuleOutcome { action: RuleAction::Accept, messages: messages@ })), used),
        Rule::Reject { messages } => (Progress::Done(Ok(RuleOutcome { action: RuleAction::Reject, messages: messages@ })), used),
        Rule::Conditional { condition, on_success, on_failure } => {
            let (p, u) = condition_progress(condition, ctx, ans, used);
            match p {
                Progress::Done(Ok(true)) => (Progress::Done(Ok(completion(on_success, RuleAction::Continue))), u),
                Progress::Done(Ok(false)) => (Progress::Done(Ok(completion(on_failure, RuleAction::Reject))), u),
                Progress::Done(Err(e)) => (Progress::Done(Err(RuleError::ConditionError(e))), u),
                Progress::Needs(w) => (Progress::Needs(w), u),
            }
        },
    }
}

/// The rules of a chain from position `i` on, in order, `last` being the outcome
/// before them: the first that accepts or rejects decides, and where all go on
/// the chain accepts with the messages of the last.
pub open spec fn chain_from(rs: Seq<Rule>, i: int, last: RuleOutcome, ctx: RuleContext, ans: Answers, used: nat) -> (Progress<Result<RuleOutcome, RuleError>>, nat)
    decreases rs, rs.len() - i,
{
    if i < 0 || i >= rs.len() {
        if last.action == RuleAction::Continue {
            (Progress::Done(Ok(RuleOutcome { action: RuleAction::Accept, messages: last.messages })), used)
        } else {
            (Progress::Done(Ok(last)), used)
        }
    } else {
        let (p, u) = rule_progress(rs[i], ctx, ans, used);
        match p {
            Progress::Done(Ok(o)) => if o.action == RuleAction::Continue {
                chain_from(rs, i + 1, o, ctx, ans, u)
            } else {
                (Progress::Done(Ok(o)), u)
            },
            Progress::Done(Err(e)) => (Progress::Done(Err(e)), u),
            Progress::Needs(w) => (Progress::Needs(w), u),
        }
    }
}

/// The position of the first branch from `i` on whose condition holds, if any.
pub open spec fn first_match_from(bs: Seq<RuleBranch>, i: int, ctx: RuleContext, ans: Answers, used: nat) -> (Progress<Result<Option<int>, ConditionError>>, nat)
    decreases bs, bs.len() - i,
{
    if i < 0 || i >= bs.len() {
        (Progress::Done(Ok(None)), used)
    } else {
        let (p, u) = condition_progress(bs[i].condition, ctx, ans, used);
        match p {
            Progress::Done(Ok(true)) => (Progress::Done(Ok(Some(i))), u),
            Progress::Done(Ok(false)) => first_match_from(bs, i + 1, ctx, ans, u),
            Progress::Done(Err(e)) => (Progress::Done(Err(e)), u),
            Progress::Needs(w) => (Progress::Needs(w), u),
        }
    }
}

/// The outcome of a webhook rule: its timeouts are checked, the patch and the log
/// of the change are needed for the request, and the next unused answer decides.
pub open spec fn webhook_progress(w: WebhookRule, ctx: RuleContext, ans: Answers, used: nat) -> (Progress<Result<RuleOutcome, RuleError>>, nat) {
    match timeouts_of(w) {
        Err(e) => (Progress::Done(Err(RuleError::WebhookError(HookError::Validation(e)))), used),
        Ok(_) => if ctx.change.facts() matches Some(g) && g.patch is Pending {
            (Progress::Needs(Wanted::Patch), used)
        } else if ctx.change.facts() matches Some(g) && g.log is Pending {
            (Progress::Needs(Wanted::Log), used)
        } else if used < ans.webhooks@.len() {
            (match ans.webhooks@[used as int] {
                Ok(res) => Progress::Done(Ok(RuleOutcome {
                    action: if res.0 { RuleAction::Continue } else { RuleAction::Reject },
                    messages: res.1.0@,
                })),
                Err(e) => Progress::Done(Err(RuleError::WebhookError(e))),
            }, used + 1)
        } else {
            (Progress::Needs(Wanted::Webhook(w)), used)
        },
    }
}


/// The outcome that a conditional rule gives: the configured one, or the default
/// action with no messages.
pub fn to_rule_result(o: &Option<OnRuleComplete>, default_action: RuleAction) -> (r: RuleResult)
    ensures
        r.outcome() == completion(*o, default_action),
{
    match o {
        Some(c) => RuleResult { action: c.action, messages: clone_strings(&c.messages) },
        None => RuleResult { action: default_action, messages: Vec::new() },
    }
}

fn merge_base_answer(entries: &Vec<(String, Option<String>)>, name: &String) -> (r: Option<bool>)
    ensures
        r == (match merge_base_from(entries@, name@, 0) {
            Some(base) => Some(base is Some),
            None => None,
        }),
{
    let mut i: usize = 0;
    while i < entries.len()
        invariant
            i <= entries.len(),
            merge_base_from(entries@, name@, 0) == merge_base_from(entries@, name@, i as int),
        decreases entries.len() - i,
    {
        if entries[i].0 == *name {
            return Some(entries[i].1.is_some());
        }
        i = i + 1;
    }
    None
}

fn log_message_matches(log: &Vec<GitLogEntry>, pattern: &Pattern) -> (r: bool)
    ensures
        r == any_message_matches(log@, pattern.source()),
{
    let mut i: usize = 0;
    while i < log.len()
        invariant
            i <= log.len(),
            forall|j: int| 0 <= j < i ==> !regex_is_match(pattern.source(), #[trigger] log@[j].message@),
        decreases log.len() - i,
    {
        if pattern.is_match(log[i].message.as_str()) {
            return true;
        }
        i = i + 1;
    }
    false
}

fn file_matches(files: &Vec<(FileStatus, String)>, kind: FileKind, pattern: &Pattern) -> (r: bool)
    ensures
        r == any_file_matches(files@, kind, pattern.source()),
{
    let mut i: usize = 0;
    while i < files.len()
        invariant
            i <= files.len(),
            forall|j: int|
                0 <= j < i ==> !(kind_selects(kind, (#[trigger] files@[j]).0) && regex_is_match(
                    pattern.source(),
                    files@[j].1@,
                )),
        decreases files.len() - i,
    {
        let status = files[i].0;
        let selected = match kind {
            FileKind::Modified => status == FileStatus::Modified || status == FileStatus::Renamed,
            FileKind::Added => status == FileStatus::Added,
            FileKind::Removed => status == FileStatus::Deleted,
        };
        if selected && pattern.is_match(files[i].1.as_str()) {
            return true;
        }
        i = i + 1;
    }
    false
}

fn commits_signed(log: &Vec<GitLogEntry>, allowed: &Option<Vec<String>>) -> (r: bool)
    ensures
        r == all_signed(log@, *allowed),
{
    let mut i: usize = 0;
    while i < log.len()
        invariant
            i <= log.len(),
            forall|j: int|
                0 <= j < i ==> match (#[trigger] log@[j]).signed_by_key_id {
                    Some(key) => match *allowed {
                        Some(ids) => exists|k: int| 0 <= k < ids@.len() && (#[trigger] ids@[k])@ == key@,
                        None => true,
                    },
                    None => false,
                },
        decreases log.len() - i,
    {
        match &log[i].signed_by_key_id {
            Some(key) => {
                if let Some(ids) = allowed {
                    if !contains_string(ids, key) {
                        return false;
                    }
                }
            },
            None => {
                return false;
            },
        }
        i = i + 1;
    }
    true
}

fn is_derived_from(ctx: &RuleContext, ans: &Answers, branch: &String, accept_removes: Option<bool>) -> (r: Step<'static, Result<bool, ConditionError>>)
    ensures
        bool_progress(r) == derived_progress(*ctx, *ans, *branch, accept_removes),
{
    match ctx.change.tip() {
        None => Step::Done(Ok(match accept_removes {
            Some(b) => b,
            None => false,
        })),
        Some(_) => match merge_base_answer(&ans.merge_bases, branch) {
            Some(found) => Step::Done(Ok(found)),
            None => Step::Needs(Demand::MergeBase(branch.clone())),
        },
    }
}

fn file_condition(ctx: &RuleContext, kind: FileKind, pattern: &Pattern, accept_removes: Option<bool>) -> (r: Step<'static, Result<bool, ConditionError>>)
    ensures
        bool_progress(r) == file_progress(*ctx, kind, *pattern, accept_removes),
{
    match ctx.change {
        Change::RemoveRef { .. } => Step::Done(Ok(match accept_removes {
            Some(b) => b,
            None => true,
        })),
        Change::AddRef { git_data, .. } | Change::UpdateRef { git_data, .. } => match &git_data.file_status {
            Fact::Pending => Step::Needs(Demand::FileStatus),
            Fact::Ready(files) => Step::Done(Ok(file_matches(files, kind, pattern))),
        },
    }
}

impl Condition {
    /// Evaluates the condition, `used` webhook answers having been taken already,
    /// at nesting depth `depth`. Returns its value or the fact it needs, and the
    /// webhook answers taken after it. The trace gets a line for the condition,
    /// the lines of the conditions and rules inside it, and a line for its result.
    pub fn evaluate<'r>(&'r self, ctx: &RuleContext, ans: &Answers, used: usize, depth: usize, trace: &mut Vec<TraceLine<'r>>) -> (r: (Step<'r, Result<bool, ConditionError>>, usize))
        requires
            used <= ans.webhooks@.len(),
        ensures
            (bool_progress(r.0), r.1 as nat) == condition_progress(*self, *ctx, *ans, used as nat),
            r.1 <= ans.webhooks@.len(),
            extends_trace(old(trace)@, final(trace)@),
            final(trace)@.len() >= old(trace)@.len() + 2,
            final(trace)@[old(trace)@.len() as int] == (TraceLine { depth, entry: TraceEntry::Condition(self) }),
            final(trace)@.last() == (TraceLine { depth, entry: TraceEntry::Result(traced_bool(bool_progress(r.0))) }),
        decreases self, 1int,
    {
        let ghost t0 = trace@;
        trace.push(TraceLine { depth, entry: TraceEntry::Condition(self) });
        let ghost t1 = trace@;
        let r = self.evaluate_traced(ctx, ans, used, depth, trace);
        let outcome = match &r.0 {
            Step::Done(Ok(b)) => Traced::Value(*b),
            Step::Done(Err(_)) => Traced::Failed,
            Step::Needs(_) => Traced::Waiting,
        };
        let ghost t2 = trace@;
        trace.push(TraceLine { depth, entry: TraceEntry::Result(outcome) });
        proof {
            assert(extends_trace(t0, t1));
            lemma_extends_trace_trans(t0, t1, t2);
            assert(extends_trace(t2, trace@));
            lemma_extends_trace_trans(t0, t2, trace@);
            assert(t2[t0.len() as int] == t1[t0.len() as int]);
        }
        r
    }

    fn evaluate_traced<'r>(&'r self, ctx: &RuleContext, ans: &Answers, used: usize, depth: usize, trace: &mut Vec<TraceLine<'r>>) -> (r: (Step<'r, Result<bool, ConditionError>>, usize))
        requires
            used <= ans.webhooks@.len(),
        ensures
            (bool_progress(r.0), r.1 as nat) == condition_progress(*self, *ctx, *ans, used as nat),
            r.1 <= ans.webhooks@.len(),
            extends_trace(old(trace)@, final(trace)@),
        decreases self, 0int,
    {
        let ghost t0 = trace@;
        let child = deeper(depth);
        match self {
            Condition::And { conditions } => {
                let mut i: usize = 0;
                let mut u: usize = used;
                while i < conditions.len()
                    invariant
                        i <= conditions.len(),
                        u <= ans.webhooks@.len(),
                        extends_trace(t0, trace@),
                        t0 == old(trace)@,
                        *self == (Condition::And { conditions: *conditions }),
                        and_from(conditions@, 0, *ctx, *ans, used as nat) == and_from(conditions@, i as int, *ctx, *ans, u as nat),
                    decreases conditions.len() - i,
                {
                    proof {
                        assert(decreases_to!(*self => (*self)->And_conditions));
                        assert(decreases_to!((*self)->And_conditions => (*self)->And_conditions@));
                        assert(decreases_to!((*self)->And_conditions@ => (*self)->And_conditions@[i as int]));
                        assert(decreases_to!(*self => conditions@[i as int]));
                    }
                    let (s, u2) = conditions[i].evaluate(ctx, ans, u, child, trace);
                    match s {
                        Step::Done(Ok(true)) => {
                            i = i + 1;
                            u = u2;
                        },
                        other => {
                            return (other, u2);
                        },
                    }
                }
                (Step::Done(Ok(true)), u)
            },
            Condition::Or { conditions } => {
                let mut i: usize = 0;
                let mut u: usize = used;
                while i < conditions.len()
                    invariant
                        i <= conditions.len(),
                        u <= ans.webhooks@.len(),
                        extends_trace(t0, trace@),
                        t0 == old(trace)@,
                        *self == (Condition::Or { conditions: *conditions }),
                        or_from(conditions@, 0, *ctx, *ans, used as nat) == or_from(conditions@, i as int, *ctx, *ans, u as nat),
                    decreases conditions.len() - i,
                {
                    proof {
                        assert(decreases_to!(*self => (*self)->Or_conditions));
                        assert(decreases_to!((*self)->Or_conditions => (*self)->Or_conditions@));
                        assert(decreases_to!((*self)->Or_conditions@ => (*self)->Or_conditions@[i as int]));
                        assert(decreases_to!(*self => conditions@[i as int]));
                    }
                    let (s, u2) = conditions[i].evaluate(ctx, ans, u, child, trace);
                    match s {
                        Step::Done(Ok(false)) => {
                            i = i + 1;
                            u = u2;
                        },
                        other => {
                            return (other, u2);
                        },
                    }
                }
                (Step::Done(Ok(false)), u)
            },
            Condition::Xor { conditions } => {
                if conditions.len() == 0 {
                    return (Step::Done(Ok(false)), used);
                }
                if conditions.len() == 1 {
                    return (Step::Done(Ok(true)), used);
                }
                let (s, u0) = conditions[0].evaluate(ctx, ans, used, child, trace);
                let first = match s {
                    Step::Done(Ok(b)) => b,
                    other => {
                        return (other, u0);
                    },
                };
                let mut i: usize = 1;
                let mut u: usize = u0;
                while i < conditions.len()
                    invariant
                        1 <= i <= conditions.len(),
                        u <= ans.webhooks@.len(),
                        extends_trace(t0, trace@),
                        t0 == old(trace)@,
                        *self == (Condition::Xor { conditions: *conditions }),
                        conditions@.len() >= 2,
                        condition_progress(*self, *ctx, *ans, used as nat) == xor_from(conditions@, 1, first, *ctx, *ans, u0 as nat),
                        xor_from(conditions@, 1, first, *ctx, *ans, u0 as nat) == xor_from(conditions@, i as int, first, *ctx, *ans, u as nat),
                    decreases conditions.len() - i,
                {
                    proof {
                        assert(decreases_to!(*self => (*self)->Xor_conditions));
                        assert(decreases_to!((*self)->Xor_conditions => (*self)->Xor_conditions@));
                        assert(decreases_to!((*self)->Xor_conditions@ => (*self)->Xor_conditions@[i as int]));
                        assert(decreases_to!(*self => conditions@[i as int]));
                    }
                    let (s, u2) = conditions[i].evaluate(ctx, ans, u, child, trace);
                    match s {
                        Step::Done(Ok(v)) => {
                            if v != first {
                                return (Step::Done(Ok(true)), u2);
                            }
                            i = i + 1;
                            u = u2;
                        },
                        other => {
                            return (other, u2);
                        },
                    }
                }
                (Step::Done(Ok(false)), u)
            },
            Condition::Not { condition } => {
                let (s, u) = condition.evaluate(ctx, ans, used, child, trace);
                match s {
                    Step::Done(Ok(b)) => (Step::Done(Ok(!b)), u),
                    other => (other, u),
                }
            },
            Condition::Rule { rule } => {
                let (s, u) = rule.evaluate(ctx, ans, used, child, trace);
                match s {
                    Step::Done(Ok(res)) => (Step::Done(Ok(res.action != RuleAction::Reject)), u),
                    Step::Done(Err(e)) => (Step::Done(Err(ConditionError::RuleError(Box::new(e)))), u),
                    Step::Needs(d) => (Step::Needs(d), u),
                }
            },
            _ => (self.evaluate_leaf(ctx, ans), used),
        }
    }

    fn evaluate_leaf(&self, ctx: &RuleContext, ans: &Answers) -> (r: Step<'static, Result<bool, ConditionError>>)
        ensures
            bool_progress(r) == leaf_progress(*self, *ctx, *ans),
    {
        match self {
            Condition::RefIs { name } => Step::Done(Ok(*ctx.change.ref_name() == *name)),
            Condition::RefMatches { pattern } => Step::Done(Ok(pattern.is_match(ctx.change.ref_name().as_str()))),
            Condition::AnyCommitMessageMatches { pattern, accept_removes } => match ctx.change {
                Change::RemoveRef { .. } => Step::Done(Ok(match accept_removes {
                    Some(b) => *b,
                    None => true,
                })),
                Change::AddRef { git_data, .. } | Change::UpdateRef { git_data, .. } => match &git_data.log {
                    Fact::Pending => Step::Needs(Demand::Log),
                    Fact::Ready(log) => Step::Done(Ok(log_message_matches(log, pattern))),
                },
            },
            Condition::ModifiedFileMatches { pattern, accept_removes } => file_condition(ctx, FileKind::Modified, pattern, *accept_removes),
            Condition::AddedFileMatches { pattern, accept_removes } => file_condition(ctx, FileKind::Added, pattern, *accept_removes),
            Condition::RemovedFileMatches { pattern, accept_removes } => file_condition(ctx, FileKind::Removed, pattern, *accept_removes),
            Condition::DerivedFromDefaultBranch { accept_removes } => is_derived_from(ctx, ans, ctx.default_branch, *accept_removes),
            Condition::DerivedFromBranch { accept_removes, name } => is_derived_from(ctx, ans, name, *accept_removes),
            Condition::AllCommitsSigned { allowed_key_ids } => match ctx.change {
                Change::RemoveRef { .. } => Step::Done(Ok(true)),
                Change::AddRef { git_data, .. } | Change::UpdateRef { git_data, .. } => match &git_data.log {
                    Fact::Pending => Step::Needs(Demand::Log),
                    Fact::Ready(log) => Step::Done(Ok(commits_signed(log, allowed_key_ids))),
                },
            },
            Condition::LinearHistory => Step::Done(Ok(match ctx.change {
                Change::UpdateRef { force, .. } => !*force,
                _ => true,
            })),
            Condition::RefAdd => Step::Done(Ok(match ctx.change {
                Change::AddRef { .. } => true,
                _ => false,
            })),
            Condition::RefRemove => Step::Done(Ok(match ctx.change {
                Change::RemoveRef { .. } => true,
                _ => false,
            })),
            Condition::RefUpdate => Step::Done(Ok(match ctx.change {
                Change::UpdateRef { .. } => true,
                _ => false,
            })),
            Condition::True => Step::Done(Ok(true)),
            Condition::False => Step::Done(Ok(false)),
            Condition::BypassRequested { option } => Step::Done(Ok(contains_string(ctx.push_options, option))),
            Condition::IsTag { name } => Step::Done(Ok(is_prefixed(ctx.change.ref_name().as_str(), "refs/tags/", name.as_str()))),
            _ => Step::Done(Ok(false)),
        }
    }
}

impl Rule {
    /// Evaluates the rule, `used` webhook answers having been taken already, at
    /// nesting depth `depth`. Returns its outcome or the fact it needs, and the
    /// webhook answers taken after it. The trace gets a line for the rule, the
    /// lines of the rules and conditions inside it, and a line for its result.
    pub fn evaluate<'r>(&'r self, ctx: &RuleContext, ans: &Answers, used: usize, depth: usize, trace: &mut Vec<TraceLine<'r>>) -> (r: (Step<'r, Result<RuleResult, RuleError>>, usize))
        requires
            used <= ans.webhooks@.len(),
        ensures
            (rule_progress_of(r.0), r.1 as nat) == rule_progress(*self, *ctx, *ans, used as nat),
            r.1 <= ans.webhooks@.len(),
            extends_trace(old(trace)@, final(trace)@),
            final(trace)@.len() >= old(trace)@.len() + 2,
            final(trace)@[old(trace)@.len() as int] == (TraceLine { depth, entry: TraceEntry::Rule(self) }),
            final(trace)@.last() == (TraceLine { depth, entry: TraceEntry::Result(traced_rule(rule_progress_of(r.0))) }),
        decreases self, 1int,
    {
        let ghost t0 = trace@;
        trace.push(TraceLine { depth, entry: TraceEntry::Rule(self) });
        let ghost t1 = trace@;
        let r = self.evaluate_traced(ctx, ans, used, depth, trace);
        let outcome = match &r.0 {
            Step::Done(Ok(res)) => Traced::Action(res.action),
            Step::Done(Err(_)) => Traced::Failed,
            Step::Needs(_) => Traced::Waiting,
        };
        let ghost t2 = trace@;
        trace.push(TraceLine { depth, entry: TraceEntry::Result(outcome) });
        proof {
            assert(extends_trace(t0, t1));
            lemma_extends_trace_trans(t0, t1, t2);
            assert(extends_trace(t2, trace@));
            lemma_extends_trace_trans(t0, t2, trace@);
            assert(t2[t0.len() as int] == t1[t0.len() as int]);
        }
        r
    }

    fn evaluate_traced<'r>(&'r self, ctx: &RuleContext, ans: &Answers, used: usize, depth: usize, trace: &mut Vec<TraceLine<'r>>) -> (r: (Step<'r, Result<RuleResult, RuleError>>, usize))
        requires
            used <= ans.webhooks@.len(),
        ensures
            (rule_progress_of(r.0), r.1 as nat) == rule_progress(*self, *ctx, *ans, used as nat),
            r.1 <= ans.webhooks@.len(),
            extends_trace(old(trace)@, final(trace)@),
        decreases self, 0int,
    {
        let ghost t0 = trace@;
        let child = deeper(depth);
        match self {
            Rule::Chain { rules } => {
                let mut last = RuleResult { action: RuleAction::Reject, messages: Vec::new() };
                let mut i: usize = 0;
                let mut u: usize = used;
                while i < rules.len()
                    invariant
                        i <= rules.len(),
                        u <= ans.webhooks@.len(),
                        extends_trace(t0, trace@),
                        t0 == old(trace)@,
                        *self == (Rule::Chain { rules: *rules }),
                        chain_from(rules@, 0, RuleOutcome { action: RuleAction::Reject, messages: Seq::empty() }, *ctx, *ans, used as nat)
                            == chain_from(rules@, i as int, last.outcome(), *ctx, *ans, u as nat),
                    decreases rules.len() - i,
                {
                    proof {
                        assert(decreases_to!(*self => (*self)->Chain_rules));
                        assert(decreases_to!((*self)->Chain_rules => (*self)->Chain_rules@));
                        assert(decreases_to!((*self)->Chain_rules@ => (*self)->Chain_rules@[i as int]));
                        assert(decreases_to!(*self => rules@[i as int]));
                    }
                    let (s, u2) = rules[i].evaluate(ctx, ans, u, child, trace);
                    match s {
                        Step::Done(Ok(res)) => {
                            if res.action == RuleAction::Continue {
                                last = res;
                                i = i + 1;
                                u = u2;
                            } else {
                                return (Step::Done(Ok(res)), u2);
                            }
                        },
                        other => {
                            return (other, u2);
                        },
                    }
                }
                if last.action == RuleAction::Continue {
                    last.action = RuleAction::Accept;
                }
                (Step::Done(Ok(last)), u)
            },
            Rule::Select { first_of, default } => {
                let mut i: usize = 0;
                let mut u: usize = used;
                while i < first_of.len()
                    invariant
                        i <= first_of.len(),
                        u <= ans.webhooks@.len(),
                        extends_trace(t0, trace@),
                        t0 == old(trace)@,
                        *self == (Rule::Select { first_of: *first_of, default: *default }),
                        first_match_from(first_of@, 0, *ctx, *ans, used as nat) == first_match_from(first_of@, i as int, *ctx, *ans, u as nat),
                    decreases first_of.len() - i,
                {
                    let branch = &first_of[i];
                    proof {
                        assert(decreases_to!(*self => (*self)->Select_first_of));
                        assert(decreases_to!((*self)->Select_first_of => (*self)->Select_first_of@));
                        assert(decreases_to!((*self)->Select_first_of@ => (*self)->Select_first_of@[i as int]));
                        assert(decreases_to!(*self => first_of@[i as int]));
                        assert(decreases_to!(*self => branch.condition));
                        assert(decreases_to!(*self => branch.rule));
                    }
                    let (s, u2) = branch.condition.evaluate(ctx, ans, u, child, trace);
                    match s {
                        Step::Done(Ok(true)) => {
                            return branch.rule.evaluate(ctx, ans, u2, child, trace);
                        },
                        Step::Done(Ok(false)) => {
                            i = i + 1;
                            u = u2;
                        },
                        Step::Done(Err(e)) => {
                            return (Step::Done(Err(RuleError::ConditionError(e))), u2);
                        },
                        Step::Needs(d) => {
                            return (Step::Needs(d), u2);
                        },
                    }
                }
                match default {
                    Some(d) => d.evaluate(ctx, ans, u, child, trace),
                    None => (Step::Done(Ok(RuleResult { action: RuleAction::Reject, messages: Vec::new() })), u),
                }
            },
            Rule::Webhook(w) => Rule::evaluate_webhook(w, ctx, ans, used),
            Rule::Accept { messages } => (Step::Done(Ok(RuleResult { action: RuleAction::Accept, messages: clone_strings(messages) })), used),
            Rule::Reject { messages } => (Step::Done(Ok(RuleResult { action: RuleAction::Reject, messages: clone_strings(messages) })), used),
            Rule::Conditional { condition, on_success, on_failure } => {
                let (s, u) = condition.evaluate(ctx, ans, used, child, trace);
                match s {
                    Step::Done(Ok(true)) => (Step::Done(Ok(to_rule_result(on_success, RuleAction::Continue))), u),
                    Step::Done(Ok(false)) => (Step::Done(Ok(to_rule_result(on_failure, RuleAction::Reject))), u),
                    Step::Done(Err(e)) => (Step::Done(Err(RuleError::ConditionError(e))), u),
                    Step::Needs(d) => (Step::Needs(d), u),
                }
            },
        }
    }

    fn evaluate_webhook<'r>(w: &'r WebhookRule, ctx: &RuleContext, ans: &Answers, used: usize) -> (r: (Step<'r, Result<RuleResult, RuleError>>, usize))
        requires
            used <= ans.webhooks@.len(),
        ensures
            (rule_progress_of(r.0), r.1 as nat) == webhook_progress(*w, *ctx, *ans, used as nat),
            r.1 <= ans.webhooks@.len(),
    {
        if let Err(e) = validate_timeouts(w) {
            return (Step::Done(Err(RuleError::WebhookError(HookError::Validation(e)))), used);
        }
        match ctx.change {
            Change::AddRef { git_data, .. } | Change::UpdateRef { git_data, .. } => {
                if let Fact::Pending = git_data.patch {
                    return (Step::Needs(Demand::Patch), used);
                }
                if let Fact::Pending = git_data.log {
                    return (Step::Needs(Demand::Log), used);
                }
            },
            Change::RemoveRef { .. } => {},
        }
        if used < ans.webhooks.len() {
            match &ans.webhooks[used] {
                Ok(res) => {
                    let action = if res.0 {
                        RuleAction::Continue
                    } else {
                        RuleAction::Reject
                    };
                    (Step::Done(Ok(RuleResult { action, messages: clone_strings(&res.1.0) })), used + 1)
                },
                Err(e) => (Step::Done(Err(RuleError::WebhookError(e.duplicate()))), used + 1),
            }
        } else {
            (Step::Needs(Demand::Webhook(w)), used)
        }
    }
}


/// The deepest nesting of rules and conditions that a configuration may have.
pub const MAX_NESTING: usize = 64;

/// Whether a condition nests no deeper than `levels`, itself being one level.
pub open spec fn condition_fits(c: Condition, levels: nat) -> bool
    decreases c, 0int,
{
    if levels == 0 {
        false
    } else {
        match c {
            Condition::And { conditions } => all_conditions_fit(conditions@, 0, (levels - 1) as nat),
            Condition::Or { conditions } => all_conditions_fit(conditions@, 0, (levels - 1) as nat),
            Condition::Xor { conditions } => all_conditions_fit(conditions@, 0, (levels - 1) as nat),
            Condition::Not { condition } => condition_fits(*condition, (levels - 1) as nat),
            Condition::Rule { rule } => rule_fits(*rule, (levels - 1) as nat),
            _ => true,
        }
    }
}

/// Whether every condition from position `i` on nests no deeper than `levels`.
pub open spec fn all_conditions_fit(cs: Seq<Condition>, i: int, levels: nat) -> bool
    decreases cs, cs.len() - i,
{
    if i < 0 || i >= cs.len() {
        true
    } else {
        condition_fits(cs[i], levels) && all_conditions_fit(cs, i + 1, levels)
    }
}

/// Whether a rule nests no deeper than `levels`, itself being one level.
pub open spec fn rule_fits(r: Rule, levels: nat) -> bool
    decreases r, 0int,
{
    if levels == 0 {
        false
    } else {
        match r {
            Rule::Chain { rules } => all_rules_fit(rules@, 0, (levels - 1) as nat),
            Rule::Select { first_of, default } => all_branches_fit(first_of@, 0, (levels - 1) as nat) && match default {
                Some(d) => rule_fits(*d, (levels - 1) as nat),
                None => true,
            },
            Rule::Conditional { condition, .. } => condition_fits(condition, (levels - 1) as nat),
            _ => true,
        }
    }
}

/// Whether every rule from position `i` on nests no deeper than `levels`.
pub open spec fn all_rules_fit(rs: Seq<Rule>, i: int, levels: nat) -> bool
    decreases rs, rs.len() - i,
{
    if i < 0 || i >= rs.len() {
        true
    } else {
        rule_fits(rs[i], levels) && all_rules_fit(rs, i + 1, levels)
    }
}

/// Whether every branch from position `i` on, its condition and its rule, nests no deeper than `levels`.
pub open spec fn all_branches_fit(bs: Seq<RuleBranch>, i: int, levels: nat) -> bool
    decreases bs, bs.len() - i,
{
    if i < 0 || i >= bs.len() {
        true
    } else {
        condition_fits(bs[i].condition, levels) && rule_fits(bs[i].rule, levels) && all_branches_fit(bs, i + 1, levels)
    }
}

impl Condition {
    /// Whether the condition nests no deeper than `levels`.
    pub fn fits(&self, levels: usize) -> (r: bool)
        ensures
            r == condition_fits(*self, levels as nat),
        decreases self, 0int,
    {
        if levels == 0 {
            return false;
        }
        let inner = levels - 1;
        match self {
            Condition::And { conditions } | Condition::Or { conditions } | Condition::Xor { conditions } => {
                let mut i: usize = 0;
                while i < conditions.len()
                    invariant
                        i <= conditions.len(),
                        inner == levels - 1,
                        decreases_to!(*self => *conditions),
                        condition_fits(*self, levels as nat) == all_conditions_fit(conditions@, 0, inner as nat),
                        all_conditions_fit(conditions@, 0, inner as nat) == all_conditions_fit(conditions@, i as int, inner as nat),
                    decreases conditions.len() - i,
                {
                    proof {
                        assert(decreases_to!(*conditions => conditions@));
                        assert(decreases_to!(conditions@ => conditions@[i as int]));
                    }
                    if !conditions[i].fits(inner) {
                        return false;
                    }
                    i = i + 1;
                }
                true
            },
            Condition::Not { condition } => condition.fits(inner),
            Condition::Rule { rule } => rule.fits(inner),
            _ => true,
        }
    }
}

impl Rule {
    /// Whether the rule nests no deeper than `levels`.
    pub fn fits(&self, levels: usize) -> (r: bool)
        ensures
            r == rule_fits(*self, levels as nat),
        decreases self, 0int,
    {
        if levels == 0 {
            return false;
        }
        let inner = levels - 1;
        match self {
            Rule::Chain { rules } => {
                let mut i: usize = 0;
                while i < rules.len()
                    invariant
                        i <= rules.len(),
                        inner == levels - 1,
                        *self == (Rule::Chain { rules: *rules }),
                        all_rules_fit(rules@, 0, inner as nat) == all_rules_fit(rules@, i as int, inner as nat),
                    decreases rules.len() - i,
                {
                    proof {
                        assert(decreases_to!(*self => (*self)->Chain_rules));
                        assert(decreases_to!((*self)->Chain_rules => (*self)->Chain_rules@));
                        assert(decreases_to!((*self)->Chain_rules@ => (*self)->Chain_rules@[i as int]));
                    }
                    if !rules[i].fits(inner) {
                        return false;
                    }
                    i = i + 1;
                }
                true
            },
            Rule::Select { first_of, default } => {
                let mut i: usize = 0;
                while i < first_of.len()
                    invariant
                        i <= first_of.len(),
                        inner == levels - 1,
                        *self == (Rule::Select { first_of: *first_of, default: *default }),
                        all_branches_fit(first_of@, 0, inner as nat) == all_branches_fit(first_of@, i as int, inner as nat),
                    decreases first_of.len() - i,
                {
                    let branch = &first_of[i];
                    proof {
                        assert(decreases_to!(*self => (*self)->Select_first_of));
                        assert(decreases_to!((*self)->Select_first_of => (*self)->Select_first_of@));
                        assert(decreases_to!((*self)->Select_first_of@ => (*self)->Select_first_of@[i as int]));
                        assert(decreases_to!(*self => branch.condition));
                        assert(decreases_to!(*self => branch.rule));
                    }
                    if !branch.condition.fits(inner) || !branch.rule.fits(inner) {
                        return false;
                    }
                    i = i + 1;
                }
                match default {
                    Some(d) => d.fits(inner),
                    None => true,
                }
            },
            Rule::Conditional { condition, .. } => condition.fits(inner),
            _ => true,
        }
    }
}

} // verus!
