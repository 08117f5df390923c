//! Laws of rule and condition evaluation, stated over the evaluation model
//! that `Rule::evaluate` and `Condition::evaluate` are proved to follow.

use vstd::prelude::*;
use crate::change::Change;
use crate::rule::{
    leaf_progress, merge_base_from, Wanted,
    and_from, condition_progress, first_match_from, or_from, rule_progress, chain_from, xor_from, Answers,
    Condition, ConditionError, Progress, Rule, RuleAction, RuleBranch, RuleContext, RuleError, RuleOutcome,
};

verus! {

/// The messages of the last rule of `rs`, when every rule from position `i` on
/// goes on (each evaluated after the ones before it); nothing otherwise.
pub open spec fn continue_messages(rs: Seq<Rule>, i: int, ctx: RuleContext, ans: Answers, used: nat) -> Option<Seq<String>>
    decreases rs.len() - i,
{
    if i < 0 || i >= rs.len() {
        None
    } else {
        let (p, u) = rule_progress(rs[i], ctx, ans, used);
        match p {
            Progress::Done(Ok(o)) => if o.action != RuleAction::Continue {
                None
            } else if i == rs.len() - 1 {
                Some(o.messages)
            } else {
                continue_messages(rs, i + 1, ctx, ans, u)
            },
            _ => None,
        }
    }
}

proof fn lemma_chain_from_continues(rs: Seq<Rule>, i: int, last: RuleOutcome, ctx: RuleContext, ans: Answers, used: nat)
    requires
        0 <= i < rs.len(),
        continue_messages(rs, i, ctx, ans, used) is Some,
    ensures
        chain_from(rs, i, last, ctx, ans, used).0 == Progress::<Result<RuleOutcome, RuleError>>::Done(
            Ok(RuleOutcome { action: RuleAction::Accept, messages: continue_messages(rs, i, ctx, ans, used)->0 }),
        ),
    decreases rs.len() - i,
{
    let (p, u) = rule_progress(rs[i], ctx, ans, used);
    if i < rs.len() - 1 {
        let o = p->Done_0->Ok_0;
        lemma_chain_from_continues(rs, i + 1, o, ctx, ans, u);
    } else {
        let o = p->Done_0->Ok_0;
        assert(chain_from(rs, i + 1, o, ctx, ans, u).0 == Progress::<Result<RuleOutcome, RuleError>>::Done(
            Ok(RuleOutcome { action: RuleAction::Accept, messages: o.messages })));
    }
}

/// A chain whose rules all go on accepts, with the messages of its last rule.
pub proof fn lemma_chain_of_continues_accepts(rules: Vec<Rule>, ctx: RuleContext, ans: Answers, used: nat)
    requires
        rules@.len() > 0,
        continue_messages(rules@, 0, ctx, ans, used) is Some,
    ensures
        rule_progress(Rule::Chain { rules }, ctx, ans, used).0 == Progress::<Result<RuleOutcome, RuleError>>::Done(
            Ok(RuleOutcome { action: RuleAction::Accept, messages: continue_messages(rules@, 0, ctx, ans, used)->0 }),
        ),
{
    lemma_chain_from_continues(rules@, 0, RuleOutcome { action: RuleAction::Reject, messages: Seq::empty() }, ctx, ans, used);
}

/// A select where no branch matches and no default is given rejects, with no messages.
pub proof fn lemma_select_without_match_rejects(first_of: Vec<RuleBranch>, ctx: RuleContext, ans: Answers, used: nat)
    requires
        first_match_from(first_of@, 0, ctx, ans, used).0 == Progress::<Result<Option<int>, ConditionError>>::Done(Ok(None)),
    ensures
        rule_progress(Rule::Select { first_of, default: None }, ctx, ans, used).0 == Progress::<Result<RuleOutcome, RuleError>>::Done(
            Ok(RuleOutcome { action: RuleAction::Reject, messages: Seq::empty() }),
        ),
{
}

proof fn lemma_and_prefix(cs: Seq<Condition>, n: int, i: int, ctx: RuleContext, ans: Answers, used: nat)
    requires
        0 <= i <= n <= cs.len(),
        and_from(cs.subrange(0, n), i, ctx, ans, used).0 == Progress::<Result<bool, ConditionError>>::Done(Ok(false)),
    ensures
        and_from(cs, i, ctx, ans, used) == and_from(cs.subrange(0, n), i, ctx, ans, used),
    decreases n - i,
{
    let pre = cs.subrange(0, n);
    if i < n {
        assert(pre[i] == cs[i]);
        let (p, u) = condition_progress(cs[i], ctx, ans, used);
        if p == Progress::<Result<bool, ConditionError>>::Done(Ok(true)) {
            lemma_and_prefix(cs, n, i + 1, ctx, ans, u);
        }
    }
}

/// `and` stops at its first false condition: what follows it is never evaluated,
/// so the conditions after it do not change the result.
pub proof fn lemma_and_short_circuits(cs: Seq<Condition>, n: int, ctx: RuleContext, ans: Answers, used: nat)
    requires
        0 <= n <= cs.len(),
        and_from(cs.subrange(0, n), 0, ctx, ans, used).0 == Progress::<Result<bool, ConditionError>>::Done(Ok(false)),
    ensures
        and_from(cs, 0, ctx, ans, used) == and_from(cs.subrange(0, n), 0, ctx, ans, used),
{
    lemma_and_prefix(cs, n, 0, ctx, ans, used);
}

proof fn lemma_or_prefix(cs: Seq<Condition>, n: int, i: int, ctx: RuleContext, ans: Answers, used: nat)
    requires
        0 <= i <= n <= cs.len(),
        or_from(cs.subrange(0, n), i, ctx, ans, used).0 == Progress::<Result<bool, ConditionError>>::Done(Ok(true)),
    ensures
        or_from(cs, i, ctx, ans, used) == or_from(cs.subrange(0, n), i, ctx, ans, used),
    decreases n - i,
{
    let pre = cs.subrange(0, n);
    if i < n {
        assert(pre[i] == cs[i]);
        let (p, u) = condition_progress(cs[i], ctx, ans, used);
        if p == Progress::<Result<bool, ConditionError>>::Done(Ok(false)) {
            lemma_or_prefix(cs, n, i + 1, ctx, ans, u);
        }
    }
}

/// `or` stops at its first true condition: the conditions after it do not change the result.
pub proof fn lemma_or_short_circuits(cs: Seq<Condition>, n: int, ctx: RuleContext, ans: Answers, used: nat)
    requires
        0 <= n <= cs.len(),
        or_from(cs.subrange(0, n), 0, ctx, ans, used).0 == Progress::<Result<bool, ConditionError>>::Done(Ok(true)),
    ensures
        or_from(cs, 0, ctx, ans, used) == or_from(cs.subrange(0, n), 0, ctx, ans, used),
{
    lemma_or_prefix(cs, n, 0, ctx, ans, used);
}

/// The values of the conditions from position `i` on, when each of them is
/// decided (each evaluated after the ones before it); nothing otherwise.
pub open spec fn values_from(cs: Seq<Condition>, i: int, ctx: RuleContext, ans: Answers, used: nat) -> Option<Seq<bool>>
    decreases cs.len() - i,
{
    if i < 0 || i >= cs.len() {
        Some(Seq::empty())
    } else {
        let (p, u) = condition_progress(cs[i], ctx, ans, used);
        match p {
            Progress::Done(Ok(v)) => match values_from(cs, i + 1, ctx, ans, u) {
                Some(rest) => Some(seq![v] + rest),
                None => None,
            },
            _ => None,
        }
    }
}

proof fn lemma_xor_from_values(cs: Seq<Condition>, i: int, first: bool, ctx: RuleContext, ans: Answers, used: nat)
    requires
        0 <= i <= cs.len(),
        values_from(cs, i, ctx, ans, used) is Some,
    ensures
        values_from(cs, i, ctx, ans, used)->0.len() == cs.len() - i,
        xor_from(cs, i, first, ctx, ans, used).0 == Progress::<Result<bool, ConditionError>>::Done(
            Ok(exists|j: int| 0 <= j < cs.len() - i && values_from(cs, i, ctx, ans, used)->0[j] != first),
        ),
    decreases cs.len() - i,
{
    if i < cs.len() {
        let (p, u) = condition_progress(cs[i], ctx, ans, used);
        let v = p->Done_0->Ok_0;
        lemma_xor_from_values(cs, i + 1, first, ctx, ans, u);
        let vals = values_from(cs, i, ctx, ans, used)->0;
        let rest = values_from(cs, i + 1, ctx, ans, u)->0;
        assert(vals == seq![v] + rest);
        if v != first {
            assert(vals[0] != first);
        } else {
            if exists|j: int| 0 <= j < cs.len() - i && vals[j] != first {
                let j = choose|j: int| 0 <= j < cs.len() - i && vals[j] != first;
                assert(rest[j - 1] != first);
            }
            if exists|j: int| 0 <= j < cs.len() - i - 1 && rest[j] != first {
                let j = choose|j: int| 0 <= j < cs.len() - i - 1 && rest[j] != first;
                assert(vals[j + 1] != first);
            }
        }
    }
}

/// With at least two conditions that are all decided, `xor` is true exactly when
/// they do not all agree.
pub proof fn lemma_xor_is_disagreement(conditions: Vec<Condition>, ctx: RuleContext, ans: Answers, used: nat)
    requires
        conditions@.len() >= 2,
        values_from(conditions@, 0, ctx, ans, used) is Some,
    ensures
        condition_progress(Condition::Xor { conditions }, ctx, ans, used).0 == Progress::<Result<bool, ConditionError>>::Done(
            Ok(exists|i: int, j: int|
                0 <= i < conditions@.len() && 0 <= j < conditions@.len()
                    && values_from(conditions@, 0, ctx, ans, used)->0[i] != values_from(conditions@, 0, ctx, ans, used)->0[j]),
        ),
{
    let cs = conditions@;
    let (p, u) = condition_progress(cs[0], ctx, ans, used);
    let first = p->Done_0->Ok_0;
    lemma_xor_from_values(cs, 1, first, ctx, ans, u);
    lemma_xor_from_values(cs, 0, first, ctx, ans, used);
    let vals = values_from(cs, 0, ctx, ans, used)->0;
    let rest = values_from(cs, 1, ctx, ans, u)->0;
    assert(vals == seq![first] + rest);
    assert(vals[0] == first);
    if exists|i: int, j: int| 0 <= i < cs.len() && 0 <= j < cs.len() && vals[i] != vals[j] {
        let (i, j) = choose|i: int, j: int| 0 <= i < cs.len() && 0 <= j < cs.len() && vals[i] != vals[j];
        if vals[i] != first {
            assert(rest[i - 1] != first);
        } else {
            assert(rest[j - 1] != first);
        }
    }
    if exists|j: int| 0 <= j < cs.len() - 1 && rest[j] != first {
        let j = choose|j: int| 0 <= j < cs.len() - 1 && rest[j] != first;
        assert(vals[j + 1] != vals[0]);
    }
}

/// Negating a condition twice gives its value, its error and the fact it needs, unchanged.
pub proof fn lemma_double_negation(c: Condition, ctx: RuleContext, ans: Answers, used: nat)
    ensures
        condition_progress(
            Condition::Not { condition: Box::new(Condition::Not { condition: Box::new(c) }) },
            ctx,
            ans,
            used,
        ) == condition_progress(c, ctx, ans, used),
{
    let inner = Condition::Not { condition: Box::new(c) };
    assert(condition_progress(inner, ctx, ans, used).1 == condition_progress(c, ctx, ans, used).1);
}


/// One of the Git facts that a change holds.
#[derive(PartialEq, Eq, Structural, Debug, Clone, Copy)]
pub enum GitFact {
    Patch,
    Log,
    FileStatus,
}

pub open spec fn wanted_fact(f: GitFact) -> Wanted {
    match f {
        GitFact::Patch => Wanted::Patch,
        GitFact::Log => Wanted::Log,
        GitFact::FileStatus => Wanted::FileStatus,
    }
}

/// Whether the change holds the fact, not read yet.
pub open spec fn fact_pending(c: Change, f: GitFact) -> bool {
    match c.facts() {
        Some(g) => match f {
            GitFact::Patch => g.patch is Pending,
            GitFact::Log => g.log is Pending,
            GitFact::FileStatus => g.file_status is Pending,
        },
        None => false,
    }
}

/// Whether a condition refers to the fact anywhere in it.
pub open spec fn condition_reads(c: Condition, f: GitFact) -> bool
    decreases c, 0int,
{
    match c {
        Condition::AnyCommitMessageMatches { .. } => f == GitFact::Log,
        Condition::AllCommitsSigned { .. } => f == GitFact::Log,
        Condition::ModifiedFileMatches { .. } => f == GitFact::FileStatus,
        Condition::AddedFileMatches { .. } => f == GitFact::FileStatus,
        Condition::RemovedFileMatches { .. } => f == GitFact::FileStatus,
        Condition::And { conditions } => any_condition_reads(conditions@, 0, f),
        Condition::Or { conditions } => any_condition_reads(conditions@, 0, f),
        Condition::Xor { conditions } => any_condition_reads(conditions@, 0, f),
        Condition::Not { condition } => condition_reads(*condition, f),
        Condition::Rule { rule } => rule_reads(*rule, f),
        _ => false,
    }
}

/// Whether a condition from position `i` on refers to the fact.
pub open spec fn any_condition_reads(cs: Seq<Condition>, i: int, f: GitFact) -> bool
    decreases cs, cs.len() - i,
{
    if i < 0 || i >= cs.len() {
        false
    } else {
        condition_reads(cs[i], f) || any_condition_reads(cs, i + 1, f)
    }
}

/// Whether a rule refers to the fact anywhere in it; a webhook sends the patch and the log.
pub open spec fn rule_reads(r: Rule, f: GitFact) -> bool
    decreases r, 0int,
{
    match r {
        Rule::Chain { rules } => any_rule_reads(rules@, 0, f),
        Rule::Select { first_of, default } => any_branch_reads(first_of@, 0, f) || match default {
            Some(d) => rule_reads(*d, f),
            None => false,
        },
        Rule::Webhook(_) => f == GitFact::Patch || f == GitFact::Log,
        Rule::Conditional { condition, .. } => condition_reads(condition, f),
        _ => false,
    }
}

/// Whether a rule from position `i` on refers to the fact.
pub open spec fn any_rule_reads(rs: Seq<Rule>, i: int, f: GitFact) -> bool
    decreases rs, rs.len() - i,
{
    if i < 0 || i >= rs.len() {
        false
    } else {
        rule_reads(rs[i], f) || any_rule_reads(rs, i + 1, f)
    }
}

/// Whether a branch from position `i` on refers to the fact, in its condition or its rule.
pub open spec fn any_branch_reads(bs: Seq<RuleBranch>, i: int, f: GitFact) -> bool
    decreases bs, bs.len() - i,
{
    if i < 0 || i >= bs.len() {
        false
    } else {
        condition_reads(bs[i].condition, f) || rule_reads(bs[i].rule, f) || any_branch_reads(bs, i + 1, f)
    }
}

proof fn lemma_condition_needs(c: Condition, ctx: RuleContext, ans: Answers, used: nat, f: GitFact)
    ensures
        condition_progress(c, ctx, ans, used).0 == Progress::<Result<bool, ConditionError>>::Needs(wanted_fact(f))
            ==> condition_reads(c, f) && fact_pending(*ctx.change, f),
    decreases c, 0int,
{
    match c {
        Condition::And { conditions } => {
            lemma_and_needs(conditions@, 0, ctx, ans, used, f);
            assert(condition_progress(c, ctx, ans, used) == and_from(conditions@, 0, ctx, ans, used));
            assert(condition_reads(c, f) == any_condition_reads(conditions@, 0, f));
        },
        Condition::Or { conditions } => {
            lemma_or_needs(conditions@, 0, ctx, ans, used, f);
            assert(condition_progress(c, ctx, ans, used) == or_from(conditions@, 0, ctx, ans, used));
            assert(condition_reads(c, f) == any_condition_reads(conditions@, 0, f));
        },
        Condition::Xor { conditions } => {
            assert(condition_reads(c, f) == any_condition_reads(conditions@, 0, f));
            if conditions@.len() >= 2 {
                assert(any_condition_reads(conditions@, 1, f) ==> any_condition_reads(conditions@, 0, f));
                lemma_condition_needs(conditions@[0], ctx, ans, used, f);
                let (p, u) = condition_progress(conditions@[0], ctx, ans, used);
                if let Progress::Done(Ok(first)) = p {
                    lemma_xor_needs(conditions@, 1, first, ctx, ans, u, f);
                }
            }
        },
        Condition::Not { condition } => lemma_condition_needs(*condition, ctx, ans, used, f),
        Condition::Rule { rule } => lemma_rule_needs(*rule, ctx, ans, used, f),
        _ => {
            assert(condition_progress(c, ctx, ans, used).0 == leaf_progress(c, ctx, ans));
        },
    }
}

proof fn lemma_and_needs(cs: Seq<Condition>, i: int, ctx: RuleContext, ans: Answers, used: nat, f: GitFact)
    ensures
        and_from(cs, i, ctx, ans, used).0 == Progress::<Result<bool, ConditionError>>::Needs(wanted_fact(f))
            ==> any_condition_reads(cs, i, f) && fact_pending(*ctx.change, f),
    decreases cs, cs.len() - i,
{
    if 0 <= i < cs.len() {
        lemma_condition_needs(cs[i], ctx, ans, used, f);
        let (p, u) = condition_progress(cs[i], ctx, ans, used);
        lemma_and_needs(cs, i + 1, ctx, ans, u, f);
    }
}

proof fn lemma_or_needs(cs: Seq<Condition>, i: int, ctx: RuleContext, ans: Answers, used: nat, f: GitFact)
    ensures
        or_from(cs, i, ctx, ans, used).0 == Progress::<Result<bool, ConditionError>>::Needs(wanted_fact(f))
            ==> any_condition_reads(cs, i, f) && fact_pending(*ctx.change, f),
    decreases cs, cs.len() - i,
{
    if 0 <= i < cs.len() {
        lemma_condition_needs(cs[i], ctx, ans, used, f);
        let (p, u) = condition_progress(cs[i], ctx, ans, used);
        lemma_or_needs(cs, i + 1, ctx, ans, u, f);
    }
}

proof fn lemma_xor_needs(cs: Seq<Condition>, i: int, first: bool, ctx: RuleContext, ans: Answers, used: nat, f: GitFact)
    requires
        i >= 1,
    ensures
        xor_from(cs, i, first, ctx, ans, used).0 == Progress::<Result<bool, ConditionError>>::Needs(wanted_fact(f))
            ==> any_condition_reads(cs, i, f) && fact_pending(*ctx.change, f),
    decreases cs, cs.len() - i,
{
    if 0 <= i < cs.len() {
        lemma_condition_needs(cs[i], ctx, ans, used, f);
        let (p, u) = condition_progress(cs[i], ctx, ans, used);
        lemma_xor_needs(cs, i + 1, first, ctx, ans, u, f);
    }
}

proof fn lemma_rule_needs(r: Rule, ctx: RuleContext, ans: Answers, used: nat, f: GitFact)
    ensures
        rule_progress(r, ctx, ans, used).0 == Progress::<Result<RuleOutcome, RuleError>>::Needs(wanted_fact(f))
            ==> rule_reads(r, f) && fact_pending(*ctx.change, f),
    decreases r, 0int,
{
    match r {
        Rule::Chain { rules } => lemma_chain_needs(rules@, 0, RuleOutcome { action: RuleAction::Reject, messages: Seq::empty() }, ctx, ans, used, f),
        Rule::Select { first_of, default } => {
            lemma_first_match_needs(first_of@, 0, ctx, ans, used, f);
            let (p, u) = first_match_from(first_of@, 0, ctx, ans, used);
            match p {
                Progress::Done(Ok(Some(k))) => if 0 <= k < first_of@.len() {
                    lemma_first_match_index(first_of@, 0, ctx, ans, used);
                    lemma_rule_needs(first_of@[k].rule, ctx, ans, u, f);
                    lemma_branch_reads_at(first_of@, k, f);
                },
                Progress::Done(Ok(None)) => if let Some(d) = default {
                    lemma_rule_needs(*d, ctx, ans, u, f);
                },
                _ => {},
            }
        },
        Rule::Conditional { condition, .. } => lemma_condition_needs(condition, ctx, ans, used, f),
        _ => {},
    }
}

proof fn lemma_chain_needs(rs: Seq<Rule>, i: int, last: RuleOutcome, ctx: RuleContext, ans: Answers, used: nat, f: GitFact)
    ensures
        chain_from(rs, i, last, ctx, ans, used).0 == Progress::<Result<RuleOutcome, RuleError>>::Needs(wanted_fact(f))
            ==> any_rule_reads(rs, i, f) && fact_pending(*ctx.change, f),
    decreases rs, rs.len() - i,
{
    if 0 <= i < rs.len() {
        lemma_rule_needs(rs[i], ctx, ans, used, f);
        let (p, u) = rule_progress(rs[i], ctx, ans, used);
        if let Progress::Done(Ok(o)) = p {
            lemma_chain_needs(rs, i + 1, o, ctx, ans, u, f);
        }
    }
}

proof fn lemma_first_match_needs(bs: Seq<RuleBranch>, i: int, ctx: RuleContext, ans: Answers, used: nat, f: GitFact)
    ensures
        first_match_from(bs, i, ctx, ans, used).0 == Progress::<Result<Option<int>, ConditionError>>::Needs(wanted_fact(f))
            ==> any_branch_reads(bs, i, f) && fact_pending(*ctx.change, f),
    decreases bs, bs.len() - i,
{
    if 0 <= i < bs.len() {
        lemma_condition_needs(bs[i].condition, ctx, ans, used, f);
        let (p, u) = condition_progress(bs[i].condition, ctx, ans, used);
        lemma_first_match_needs(bs, i + 1, ctx, ans, u, f);
    }
}

proof fn lemma_first_match_index(bs: Seq<RuleBranch>, i: int, ctx: RuleContext, ans: Answers, used: nat)
    requires
        0 <= i,
    ensures
        first_match_from(bs, i, ctx, ans, used).0 matches Progress::Done(Ok(Some(k))) ==> i <= k < bs.len(),
    decreases bs.len() - i,
{
    if i < bs.len() {
        let (p, u) = condition_progress(bs[i].condition, ctx, ans, used);
        lemma_first_match_index(bs, i + 1, ctx, ans, u);
    }
}

proof fn lemma_branch_reads_at(bs: Seq<RuleBranch>, k: int, f: GitFact)
    requires
        0 <= k < bs.len(),
    ensures
        rule_reads(bs[k].rule, f) ==> any_branch_reads(bs, 0, f),
    decreases k,
{
    lemma_branch_reads_from(bs, k, f);
}

proof fn lemma_branch_reads_from(bs: Seq<RuleBranch>, i: int, f: GitFact)
    requires
        0 <= i <= bs.len(),
    ensures
        any_branch_reads(bs, i, f) || (i < bs.len() && rule_reads(bs[i].rule, f)) ==> any_branch_reads(bs, 0, f),
    decreases i,
{
    if i < bs.len() && rule_reads(bs[i].rule, f) {
        assert(any_branch_reads(bs, i, f));
    }
    if i > 0 {
        assert(any_branch_reads(bs, i, f) ==> any_branch_reads(bs, i - 1, f));
        lemma_branch_reads_from(bs, i - 1, f);
    }
}

/// Evaluation asks for a Git fact of the change only where the rule refers to
/// it and the change does not hold it yet: a fact that no evaluated condition
/// reads is never fetched, and one that was handed in is never fetched again.
pub proof fn lemma_fact_wanted_only_when_read_and_pending(r: Rule, ctx: RuleContext, ans: Answers, used: nat, f: GitFact)
    ensures
        rule_progress(r, ctx, ans, used).0 == Progress::<Result<RuleOutcome, RuleError>>::Needs(wanted_fact(f))
            ==> rule_reads(r, f) && fact_pending(*ctx.change, f),
{
    lemma_rule_needs(r, ctx, ans, used, f);
}


/// Whether `c2` is `c1` with the same refs and commits, holding every fact that
/// `c1` holds (and maybe more).
pub open spec fn knows_at_least(c1: Change, c2: Change) -> bool {
    &&& c2.same_but_facts(&c1)
    &&& (c1.facts() matches Some(g1) ==> (c2.facts() matches Some(g2) && (g1.patch is Ready ==> g2.patch == g1.patch)
        && (g1.log is Ready ==> g2.log == g1.log) && (g1.file_status is Ready ==> g2.file_status == g1.file_status)))
}

/// Whether the second context and answers are the first with more facts handed
/// in: the same default branch and push options, the change holding at least
/// the same facts, and the answers extended at their end.
pub open spec fn extends(ctx1: RuleContext, ctx2: RuleContext, a: Answers, b: Answers) -> bool {
    &&& *ctx1.default_branch == *ctx2.default_branch
    &&& ctx1.push_options@ == ctx2.push_options@
    &&& knows_at_least(*ctx1.change, *ctx2.change)
    &&& a.merge_bases@.len() <= b.merge_bases@.len()
    &&& a.merge_bases@ == b.merge_bases@.subrange(0, a.merge_bases@.len() as int)
    &&& a.webhooks@.len() <= b.webhooks@.len()
    &&& a.webhooks@ == b.webhooks@.subrange(0, a.webhooks@.len() as int)
}

pub open spec fn is_done<T>(p: Progress<T>) -> bool {
    p is Done
}

proof fn lemma_merge_base_stable(a: Seq<(String, Option<String>)>, b: Seq<(String, Option<String>)>, name: Seq<char>, i: int)
    requires
        0 <= i,
        a.len() <= b.len(),
        a == b.subrange(0, a.len() as int),
        merge_base_from(a, name, i) is Some,
    ensures
        merge_base_from(b, name, i) == merge_base_from(a, name, i),
    decreases a.len() - i,
{
    if i < a.len() {
        assert(a[i] == b[i]);
        if a[i].0@ != name {
            lemma_merge_base_stable(a, b, name, i + 1);
        }
    }
}

proof fn lemma_leaf_stable(c: Condition, ctx1: RuleContext, ctx2: RuleContext, a: Answers, b: Answers)
    requires
        extends(ctx1, ctx2, a, b),
        leaf_progress(c, ctx1, a) is Done,
    ensures
        leaf_progress(c, ctx2, b) == leaf_progress(c, ctx1, a),
{
    assert(ctx1.change.name_of() == ctx2.change.name_of());
    assert(ctx1.change.tip_of() == ctx2.change.tip_of());
    match c {
        Condition::DerivedFromDefaultBranch { .. } => {
            if ctx1.change.tip_of() is Some {
                lemma_merge_base_stable(a.merge_bases@, b.merge_bases@, ctx1.default_branch@, 0);
            }
        },
        Condition::DerivedFromBranch { name, .. } => {
            if ctx1.change.tip_of() is Some {
                lemma_merge_base_stable(a.merge_bases@, b.merge_bases@, name@, 0);
            }
        },
        _ => {},
    }
}

proof fn lemma_condition_stable(c: Condition, ctx1: RuleContext, ctx2: RuleContext, a: Answers, b: Answers, used: nat)
    requires
        extends(ctx1, ctx2, a, b),
        is_done(condition_progress(c, ctx1, a, used).0),
    ensures
        condition_progress(c, ctx2, b, used) == condition_progress(c, ctx1, a, used),
    decreases c, 0int,
{
    match c {
        Condition::And { conditions } => lemma_and_stable(conditions@, 0, ctx1, ctx2, a, b, used),
        Condition::Or { conditions } => lemma_or_stable(conditions@, 0, ctx1, ctx2, a, b, used),
        Condition::Xor { conditions } => {
            if conditions@.len() >= 2 {
                lemma_condition_stable(conditions@[0], ctx1, ctx2, a, b, used);
                let (p, u) = condition_progress(conditions@[0], ctx1, a, used);
                if let Progress::Done(Ok(first)) = p {
                    lemma_xor_stable(conditions@, 1, first, ctx1, ctx2, a, b, u);
                }
            }
        },
        Condition::Not { condition } => lemma_condition_stable(*condition, ctx1, ctx2, a, b, used),
        Condition::Rule { rule } => lemma_rule_stable(*rule, ctx1, ctx2, a, b, used),
        _ => {
            assert(condition_progress(c, ctx1, a, used).0 == leaf_progress(c, ctx1, a));
            lemma_leaf_stable(c, ctx1, ctx2, a, b);
        },
    }
}

proof fn lemma_and_stable(cs: Seq<Condition>, i: int, ctx1: RuleContext, ctx2: RuleContext, a: Answers, b: Answers, used: nat)
    requires
        extends(ctx1, ctx2, a, b),
        is_done(and_from(cs, i, ctx1, a, used).0),
    ensures
        and_from(cs, i, ctx2, b, used) == and_from(cs, i, ctx1, a, used),
    decreases cs, cs.len() - i,
{
    if 0 <= i < cs.len() {
        lemma_condition_stable(cs[i], ctx1, ctx2, a, b, used);
        let (p, u) = condition_progress(cs[i], ctx1, a, used);
        if p == Progress::<Result<bool, ConditionError>>::Done(Ok(true)) {
            lemma_and_stable(cs, i + 1, ctx1, ctx2, a, b, u);
        }
    }
}

proof fn lemma_or_stable(cs: Seq<Condition>, i: int, ctx1: RuleContext, ctx2: RuleContext, a: Answers, b: Answers, used: nat)
    requires
        extends(ctx1, ctx2, a, b),
        is_done(or_from(cs, i, ctx1, a, used).0),
    ensures
        or_from(cs, i, ctx2, b, used) == or_from(cs, i, ctx1, a, used),
    decreases cs, cs.len() - i,
{
    if 0 <= i < cs.len() {
        lemma_condition_stable(cs[i], ctx1, ctx2, a, b, used);
        let (p, u) = condition_progress(cs[i], ctx1, a, used);
        if p == Progress::<Result<bool, ConditionError>>::Done(Ok(false)) {
            lemma_or_stable(cs, i + 1, ctx1, ctx2, a, b, u);
        }
    }
}

proof fn lemma_xor_stable(cs: Seq<Condition>, i: int, first: bool, ctx1: RuleContext, ctx2: RuleContext, a: Answers, b: Answers, used: nat)
    requires
        extends(ctx1, ctx2, a, b),
        is_done(xor_from(cs, i, first, ctx1, a, used).0),
    ensures
        xor_from(cs, i, first, ctx2, b, used) == xor_from(cs, i, first, ctx1, a, used),
    decreases cs, cs.len() - i,
{
    if 0 <= i < cs.len() {
        lemma_condition_stable(cs[i], ctx1, ctx2, a, b, used);
        let (p, u) = condition_progress(cs[i], ctx1, a, used);
        if let Progress::Done(Ok(v)) = p {
            if v == first {
                lemma_xor_stable(cs, i + 1, first, ctx1, ctx2, a, b, u);
            }
        }
    }
}

proof fn lemma_rule_stable(r: Rule, ctx1: RuleContext, ctx2: RuleContext, a: Answers, b: Answers, used: nat)
    requires
        extends(ctx1, ctx2, a, b),
        is_done(rule_progress(r, ctx1, a, used).0),
    ensures
        rule_progress(r, ctx2, b, used) == rule_progress(r, ctx1, a, used),
    decreases r, 0int,
{
    match r {
        Rule::Chain { rules } => lemma_chain_stable(rules@, 0, RuleOutcome { action: RuleAction::Reject, messages: Seq::empty() }, ctx1, ctx2, a, b, used),
        Rule::Select { first_of, default } => {
            lemma_first_match_stable(first_of@, 0, ctx1, ctx2, a, b, used);
            let (p, u) = first_match_from(first_of@, 0, ctx1, a, used);
            match p {
                Progress::Done(Ok(Some(k))) => if 0 <= k < first_of@.len() {
                    lemma_rule_stable(first_of@[k].rule, ctx1, ctx2, a, b, u);
                },
                Progress::Done(Ok(None)) => if let Some(d) = default {
                    lemma_rule_stable(*d, ctx1, ctx2, a, b, u);
                },
                _ => {},
            }
        },
        Rule::Webhook(w) => {
            if used < a.webhooks@.len() {
                assert(a.webhooks@[used as int] == b.webhooks@[used as int]);
            }
        },
        Rule::Conditional { condition, .. } => lemma_condition_stable(condition, ctx1, ctx2, a, b, used),
        _ => {},
    }
}

proof fn lemma_chain_stable(rs: Seq<Rule>, i: int, last: RuleOutcome, ctx1: RuleContext, ctx2: RuleContext, a: Answers, b: Answers, used: nat)
    requires
        extends(ctx1, ctx2, a, b),
        is_done(chain_from(rs, i, last, ctx1, a, used).0),
    ensures
        chain_from(rs, i, last, ctx2, b, used) == chain_from(rs, i, last, ctx1, a, used),
    decreases rs, rs.len() - i,
{
    if 0 <= i < rs.len() {
        lemma_rule_stable(rs[i], ctx1, ctx2, a, b, used);
        let (p, u) = rule_progress(rs[i], ctx1, a, used);
        if let Progress::Done(Ok(o)) = p {
            if o.action == RuleAction::Continue {
                lemma_chain_stable(rs, i + 1, o, ctx1, ctx2, a, b, u);
            }
        }
    }
}

proof fn lemma_first_match_stable(bs: Seq<RuleBranch>, i: int, ctx1: RuleContext, ctx2: RuleContext, a: Answers, b: Answers, used: nat)
    requires
        extends(ctx1, ctx2, a, b),
        is_done(first_match_from(bs, i, ctx1, a, used).0),
    ensures
        first_match_from(bs, i, ctx2, b, used) == first_match_from(bs, i, ctx1, a, used),
    decreases bs, bs.len() - i,
{
    if 0 <= i < bs.len() {
        lemma_condition_stable(bs[i].condition, ctx1, ctx2, a, b, used);
        let (p, u) = condition_progress(bs[i].condition, ctx1, a, used);
        if p == Progress::<Result<bool, ConditionError>>::Done(Ok(false)) {
            lemma_first_match_stable(bs, i + 1, ctx1, ctx2, a, b, u);
        }
    }
}

/// Evaluation is a function of the rule, the change, the default branch, the
/// push options and the facts handed in: once it has decided, handing in more
/// facts (or evaluating again) gives the same outcome.
pub proof fn lemma_evaluation_is_deterministic(r: Rule, ctx1: RuleContext, ctx2: RuleContext, a: Answers, b: Answers, used: nat)
    requires
        extends(ctx1, ctx2, a, b),
        is_done(rule_progress(r, ctx1, a, used).0),
    ensures
        rule_progress(r, ctx2, b, used) == rule_progress(r, ctx1, a, used),
{
    lemma_rule_stable(r, ctx1, ctx2, a, b, used);
}

} // verus!
