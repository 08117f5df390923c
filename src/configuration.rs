//! The hook configuration: which rule runs at which hook point, and the
//! patterns and addresses that rules hold.

use vstd::prelude::*;
use crate::change::ChangeLine;
use crate::rule::{rule_fits, Rule, RuleAction, RuleError, RuleResult, MAX_NESTING};
use crate::text::{chars_of, clone_strings, contains_string, string_of, text_is};

verus! {

/// regex's compiled expression, carried through unopened.
#[verifier::external_type_specification]
#[verifier::external_body]
pub struct ExRegex(regex::Regex);

/// The URL type that reqwest takes (the url crate's), carried through unopened.
#[verifier::external_type_specification]
#[verifier::external_body]
pub struct ExUrl(reqwest::Url);

/// Whether `pattern` is a regular expression that the regex crate accepts.
pub uninterp spec fn regex_compiles(pattern: Seq<char>) -> bool;

/// Whether the regular expression `pattern` matches somewhere in `text`.
pub uninterp spec fn regex_is_match(pattern: Seq<char>, text: Seq<char>) -> bool;

/// Whether `text` is an absolute URL that the url crate accepts.
pub uninterp spec fn url_parses(text: Seq<char>) -> bool;

/// Relies on `regex::Regex::new`: it compiles the pattern, or refuses it.
#[verifier::external_body]
fn compile_regex(pattern: &str) -> (r: Option<regex::Regex>)
    ensures
        r is Some <==> regex_compiles(pattern@),
{
    regex::Regex::new(pattern).ok()
}

/// Relies on `reqwest::Url::parse`: it reads the URL, or refuses it.
#[verifier::external_body]
fn parse_absolute_url(text: &str) -> (r: Option<reqwest::Url>)
    ensures
        r is Some <==> url_parses(text@),
{
    reqwest::Url::parse(text).ok()
}

/// Why a pattern or an address of the configuration was refused.
#[derive(PartialEq, Eq, Structural, Debug, Clone, Copy)]
pub enum ConfigValueError {
    /// The text is empty.
    Empty,
    /// The text is not a valid regular expression.
    InvalidRegex,
    /// The text is not a valid URL.
    InvalidUrl,
}

/// A compiled regular expression, with the text it was compiled from.
#[derive(Debug)]
pub struct Pattern {
    source: String,
    regex: regex::Regex,
}

impl Pattern {
    /// The text that the expression was compiled from.
    pub closed spec fn source(&self) -> Seq<char> {
        self.source@
    }

    /// Compiles a pattern; an empty or invalid one is refused.
    pub fn new(text: &str) -> (r: Result<Pattern, ConfigValueError>)
        ensures
            text@.len() == 0 ==> r == Err::<Pattern, _>(ConfigValueError::Empty),
            text@.len() > 0 && !regex_compiles(text@) ==> r == Err::<Pattern, _>(ConfigValueError::InvalidRegex),
            text@.len() > 0 && regex_compiles(text@) ==> (r matches Ok(p) && p.source() == text@),
    {
        if text.is_empty() {
            return Err(ConfigValueError::Empty);
        }
        match compile_regex(text) {
            Some(regex) => Ok(Pattern { source: text.to_owned(), regex }),
            None => Err(ConfigValueError::InvalidRegex),
        }
    }

    /// The text that the expression was compiled from.
    pub fn as_str(&self) -> (r: &str)
        ensures
            r@ == self.source(),
    {
        self.source.as_str()
    }

    /// Relies on `regex::Regex::is_match`, on the expression compiled from `source`
    /// (a `Pattern` is only made by `new`): whether it matches somewhere in `text`.
    #[verifier::external_body]
    pub(crate) fn is_match(&self, text: &str) -> (r: bool)
        ensures
            r == regex_is_match(self.source(), text@),
    {
        self.regex.is_match(text)
    }
}

/// An absolute URL, with the text it was read from.
#[derive(Debug)]
pub struct URL {
    source: String,
    url: reqwest::Url,
}

impl URL {
    /// The text that the URL was read from.
    pub closed spec fn source(&self) -> Seq<char> {
        self.source@
    }

    /// Reads a URL; an empty or invalid one is refused.
    pub fn new(text: &str) -> (r: Result<URL, ConfigValueError>)
        ensures
            text@.len() == 0 ==> r == Err::<URL, _>(ConfigValueError::Empty),
            text@.len() > 0 && !url_parses(text@) ==> r == Err::<URL, _>(ConfigValueError::InvalidUrl),
            text@.len() > 0 && url_parses(text@) ==> (r matches Ok(u) && u.source() == text@),
    {
        if text.is_empty() {
            return Err(ConfigValueError::Empty);
        }
        match parse_absolute_url(text) {
            Some(url) => Ok(URL { source: text.to_owned(), url }),
            None => Err(ConfigValueError::InvalidUrl),
        }
    }

    /// The URL itself.
    pub fn url(&self) -> &reqwest::Url {
        &self.url
    }
}


/// The hook point that the program was run as.
#[derive(PartialEq, Eq, Structural, Debug, Clone, Copy)]
pub enum HookType {
    PreReceive,
    Update,
    PostReceive,
}

/// A push option that skips the rules, and what to tell the pusher then.
#[derive(Debug)]
pub struct HookBypass {
    pub push_option: String,
    pub messages: Option<Vec<String>>,
}

/// The rule of one hook point.
#[derive(Debug)]
pub struct Hook {
    pub rule: Rule,
    /// Whether a failed evaluation rejects the push; it does where unset.
    pub reject_on_error: Option<bool>,
}

/// The first version of the configuration.
#[derive(Debug)]
pub struct ConfigurationVersion1 {
    pub pre_receive: Option<Hook>,
    pub post_receive: Option<Hook>,
    pub update: Option<Hook>,
    pub bypass: Option<HookBypass>,
    pub trace: Option<bool>,
}

/// A configuration, by version.
#[derive(Debug)]
pub enum Configuration {
    Version1(ConfigurationVersion1),
}

/// The files, in the default branch, that may hold the configuration, the first found winning.
pub fn config_file_names() -> (r: Vec<String>)
    ensures
        r@.len() == 4,
        r@[0]@ == "hooks.json"@,
        r@[1]@ == "hooks.yaml"@,
        r@[2]@ == "hooks.yml"@,
        r@[3]@ == "hooks.toml"@,
{
    let mut r: Vec<String> = Vec::new();
    r.push("hooks.json".to_owned());
    r.push("hooks.yaml".to_owned());
    r.push("hooks.yml".to_owned());
    r.push("hooks.toml".to_owned());
    r
}

/// The hook point that a name stands for.
pub open spec fn hook_type_of(name: Seq<char>) -> Option<HookType> {
    if name == "pre-receive"@ {
        Some(HookType::PreReceive)
    } else if name == "update"@ {
        Some(HookType::Update)
    } else if name == "post-receive"@ {
        Some(HookType::PostReceive)
    } else {
        None
    }
}

impl ConfigurationVersion1 {
    /// The hook configured for a hook point.
    pub open spec fn hook_for(&self, t: HookType) -> Option<Hook> {
        match t {
            HookType::PreReceive => self.pre_receive,
            HookType::Update => self.update,
            HookType::PostReceive => self.post_receive,
        }
    }

    /// The hook that a name selects: its hook point must be configured.
    pub open spec fn hook_named(&self, name: Seq<char>) -> Option<(Hook, HookType)> {
        match hook_type_of(name) {
            Some(t) => match self.hook_for(t) {
                Some(h) => Some((h, t)),
                None => None,
            },
            None => None,
        }
    }

    /// Whether the rule of every configured hook nests no deeper than `MAX_NESTING`;
    /// a configuration that nests deeper is refused.
    pub fn within_nesting(&self) -> (r: bool)
        ensures
            r == (forall|t: HookType| #[trigger] self.hook_for(t) matches Some(h) ==> rule_fits(h.rule, MAX_NESTING as nat)),
    {
        let pre = match &self.pre_receive {
            Some(h) => h.rule.fits(MAX_NESTING),
            None => true,
        };
        let update = match &self.update {
            Some(h) => h.rule.fits(MAX_NESTING),
            None => true,
        };
        let post = match &self.post_receive {
            Some(h) => h.rule.fits(MAX_NESTING),
            None => true,
        };
        proof {
            if !pre {
                assert(self.hook_for(HookType::PreReceive) is Some);
            }
            if !update {
                assert(self.hook_for(HookType::Update) is Some);
            }
            if !post {
                assert(self.hook_for(HookType::PostReceive) is Some);
            }
        }
        pre && update && post
    }

    /// Whether the configuration asks for tracing.
    pub fn trace_enabled(&self) -> (r: bool)
        ensures
            r == (self.trace == Some(true)),
    {
        match self.trace {
            Some(t) => t,
            None => false,
        }
    }

    /// The hook that the program runs as: the one named by the program's file
    /// name, or else by its directory's name without trailing `.d`.
    pub fn select_hook(&self, file_name: Option<&str>, parent_name: Option<&str>) -> (r: Option<(&Hook, HookType)>)
        ensures
            r matches Some((h, t)) ==> (
                (file_name matches Some(f) && self.hook_named(f@) == Some((*h, t)))
                || ((file_name is None || self.hook_named(file_name->0@) is None)
                    && (parent_name matches Some(p) && self.hook_named(without_d_suffix(p@)) == Some((*h, t))))
            ),
            r is None ==> (file_name is None || self.hook_named(file_name->0@) is None)
                && (parent_name is None || self.hook_named(without_d_suffix(parent_name->0@)) is None),
    {
        if let Some(f) = file_name {
            let by_name = hook_by_name(self, f);
            if by_name.is_some() {
                return by_name;
            }
        }
        if let Some(p) = parent_name {
            let trimmed = trim_d_suffixes(p);
            return hook_by_name(self, trimmed.as_str());
        }
        None
    }
}

/// The hook that a name selects.
pub fn hook_by_name<'a>(configuration: &'a ConfigurationVersion1, name: &str) -> (r: Option<(&'a Hook, HookType)>)
    ensures
        r matches Some((h, t)) ==> configuration.hook_named(name@) == Some((*h, t)),
        r is None ==> configuration.hook_named(name@) is None,
{
    proof {
        reveal_strlit("pre-receive");
        reveal_strlit("update");
        reveal_strlit("post-receive");
        assert("pre-receive"@.len() != "update"@.len() && "update"@.len() != "post-receive"@.len());
        assert("pre-receive"@[1] != "post-receive"@[1]);
    }
    if text_is(name, "pre-receive") {
        match &configuration.pre_receive {
            Some(h) => Some((h, HookType::PreReceive)),
            None => None,
        }
    } else if text_is(name, "update") {
        match &configuration.update {
            Some(h) => Some((h, HookType::Update)),
            None => None,
        }
    } else if text_is(name, "post-receive") {
        match &configuration.post_receive {
            Some(h) => Some((h, HookType::PostReceive)),
            None => None,
        }
    } else {
        None
    }
}

/// `s` without every trailing `.d`, as `trim_end_matches(".d")` gives it.
pub open spec fn without_d_suffix(s: Seq<char>) -> Seq<char>
    decreases s.len(),
{
    if s.len() >= 2 && s[s.len() - 2] == '.' && s[s.len() - 1] == 'd' {
        without_d_suffix(s.subrange(0, s.len() - 2))
    } else {
        s
    }
}

/// A directory name without every trailing `.d`.
pub fn trim_d_suffixes(s: &str) -> (r: String)
    ensures
        r@ == without_d_suffix(s@),
{
    let cs = chars_of(s);
    let mut end: usize = cs.len();
    assert(cs@.subrange(0, end as int) =~= cs@);
    while end >= 2 && cs[end - 2] == '.' && cs[end - 1] == 'd'
        invariant
            end <= cs.len(),
            cs@ == s@,
            without_d_suffix(s@) == without_d_suffix(cs@.subrange(0, end as int)),
        decreases end,
    {
        assert(cs@.subrange(0, end as int).subrange(0, end - 2) =~= cs@.subrange(0, end - 2));
        end = end - 2;
    }
    string_of(&crate::text::sub_chars(&cs, 0, end))
}

/// What the pusher is told when the bypass option is among the push options;
/// nothing where no bypass is configured or its option was not given.
pub fn bypass_messages(options: &Vec<String>, bypass: &Option<HookBypass>) -> (r: Option<Vec<String>>)
    ensures
        r is Some <==> (bypass matches Some(b) && exists|i: int| 0 <= i < options@.len() && (#[trigger] options@[i])@ == b.push_option@),
        r matches Some(m) ==> (match bypass->0.messages {
            Some(ms) => m@ == ms@,
            None => m@.len() == 0,
        }),
{
    match bypass {
        Some(b) => if contains_string(options, &b.push_option) {
            match &b.messages {
                Some(ms) => Some(clone_strings(ms)),
                None => Some(Vec::new()),
            }
        } else {
            None
        },
        None => None,
    }
}

/// What becomes of one change.
#[derive(Debug)]
pub enum HookOutcome {
    /// Accepted, with messages for the standard output.
    Accepted(Vec<String>),
    /// Rejected, with messages for the standard error.
    Rejected(Vec<String>),
    /// Evaluation failed, and the change is rejected.
    FailedRejected(RuleError),
    /// Evaluation failed, and the change is accepted all the same.
    FailedAccepted(RuleError),
}

/// What becomes of a change, from the outcome of its rule: `Accept` and `Continue`
/// accept, `Reject` rejects, and an error rejects unless the hook says otherwise.
pub fn hook_outcome(result: Result<RuleResult, RuleError>, reject_on_error: Option<bool>) -> (r: HookOutcome)
    ensures
        result matches Ok(res) ==> (if res.action == RuleAction::Reject {
            r == HookOutcome::Rejected(res.messages)
        } else {
            r == HookOutcome::Accepted(res.messages)
        }),
        result matches Err(e) ==> (if reject_on_error == Some(false) {
            r == HookOutcome::FailedAccepted(e)
        } else {
            r == HookOutcome::FailedRejected(e)
        }),
{
    match result {
        Ok(res) => match res.action {
            RuleAction::Reject => HookOutcome::Rejected(res.messages),
            _ => HookOutcome::Accepted(res.messages),
        },
        Err(e) => match reject_on_error {
            Some(false) => HookOutcome::FailedAccepted(e),
            _ => HookOutcome::FailedRejected(e),
        },
    }
}

/// The fields of `s` between single spaces, as `split(' ')` gives them.
pub open spec fn space_fields(s: Seq<char>) -> Seq<Seq<char>>
    decreases s.len(),
{
    if s.len() == 0 {
        seq![Seq::empty()]
    } else {
        let before = space_fields(s.drop_last());
        if s.last() == ' ' {
            before.push(Seq::empty())
        } else {
            before.update(before.len() - 1, before.last().push(s.last()))
        }
    }
}

proof fn lemma_space_fields_nonempty(s: Seq<char>)
    ensures
        space_fields(s).len() >= 1,
    decreases s.len(),
{
    if s.len() > 0 {
        lemma_space_fields_nonempty(s.drop_last());
    }
}

/// A line `<old> <new> <ref>` of the standard input; nothing where it has fewer
/// than three fields (fields after the third are ignored).
pub fn parse_change_line(line: &str) -> (r: Option<ChangeLine>)
    ensures
        space_fields(line@).len() < 3 ==> r is None,
        space_fields(line@).len() >= 3 ==> (r matches Some(c) && c.old_commit@ == space_fields(line@)[0]
            && c.new_commit@ == space_fields(line@)[1] && c.ref_name@ == space_fields(line@)[2]),
{
    let cs = chars_of(line);
    let mut fields: Vec<Vec<char>> = Vec::new();
    fields.push(Vec::new());
    let mut i: usize = 0;
    assert(cs@.subrange(0, 0) =~= Seq::<char>::empty());
    while i < cs.len()
        invariant
            i <= cs.len(),
            cs@ == line@,
            fields@.len() == space_fields(cs@.subrange(0, i as int)).len(),
            fields@.len() >= 1,
            forall|k: int| 0 <= k < fields@.len() ==> (#[trigger] fields@[k])@ == space_fields(cs@.subrange(0, i as int))[k],
        decreases cs.len() - i,
    {
        assert(cs@.subrange(0, i + 1).drop_last() =~= cs@.subrange(0, i as int));
        let c = cs[i];
        if c == ' ' {
            fields.push(Vec::new());
        } else {
            let last = fields.len() - 1;
            let mut f = fields.pop().unwrap();
            f.push(c);
            fields.push(f);
            proof {
                let sp = space_fields(cs@.subrange(0, i + 1));
                assert forall|k: int| 0 <= k < fields@.len() implies (#[trigger] fields@[k])@ == sp[k] by {
                }
            }
        }
        i = i + 1;
    }
    assert(cs@.subrange(0, cs.len() as int) =~= cs@);
    if fields.len() < 3 {
        return None;
    }
    Some(ChangeLine {
        old_commit: string_of(&fields[0]),
        new_commit: string_of(&fields[1]),
        ref_name: string_of(&fields[2]),
    })
}

/// The changes that the lines from position `i` on give, lines with fewer than
/// three fields left out: (old commit, new commit, ref name).
pub open spec fn change_lines_from(lines: Seq<String>, i: int) -> Seq<(Seq<char>, Seq<char>, Seq<char>)>
    decreases lines.len() - i,
{
    if i < 0 || i >= lines.len() {
        Seq::empty()
    } else {
        let f = space_fields(lines[i]@);
        let rest = change_lines_from(lines, i + 1);
        if f.len() >= 3 {
            seq![(f[0], f[1], f[2])] + rest
        } else {
            rest
        }
    }
}

/// Whether `v` holds the changes `spec`, in order.
pub open spec fn change_lines_are(v: Seq<ChangeLine>, spec: Seq<(Seq<char>, Seq<char>, Seq<char>)>) -> bool {
    v.len() == spec.len() && forall|k: int|
        0 <= k < v.len() ==> (#[trigger] v[k]).old_commit@ == spec[k].0 && v[k].new_commit@ == spec[k].1
            && v[k].ref_name@ == spec[k].2
}

/// The changes of one run: read from the lines of the standard input for
/// pre-receive and post-receive, from the three arguments `<ref> <old> <new>`
/// for update. Nothing where there is no change.
pub fn get_changes(hook_type: HookType, stdin_lines: &Vec<String>, args: &Vec<String>) -> (r: Option<Vec<ChangeLine>>)
    ensures
        hook_type == HookType::Update ==> (if args@.len() >= 3 {
            r matches Some(v) && v@.len() == 1 && v@[0].ref_name == args@[0] && v@[0].old_commit == args@[1]
                && v@[0].new_commit == args@[2]
        } else {
            r is None
        }),
        hook_type != HookType::Update ==> (if change_lines_from(stdin_lines@, 0).len() == 0 {
            r is None
        } else {
            r matches Some(v) && change_lines_are(v@, change_lines_from(stdin_lines@, 0))
        }),
{
    match hook_type {
        HookType::Update => {
            if args.len() < 3 {
                return None;
            }
            let mut v: Vec<ChangeLine> = Vec::new();
            v.push(ChangeLine { ref_name: args[0].clone(), old_commit: args[1].clone(), new_commit: args[2].clone() });
            Some(v)
        },
        _ => {
            let mut v: Vec<ChangeLine> = Vec::new();
            let mut i: usize = 0;
            let ghost done: Seq<(Seq<char>, Seq<char>, Seq<char>)> = Seq::empty();
            while i < stdin_lines.len()
                invariant
                    i <= stdin_lines.len(),
                    change_lines_are(v@, done),
                    done + change_lines_from(stdin_lines@, i as int) == change_lines_from(stdin_lines@, 0),
                decreases stdin_lines.len() - i,
            {
                let ghost rest = change_lines_from(stdin_lines@, i + 1);
                if let Some(c) = parse_change_line(stdin_lines[i].as_str()) {
                    let ghost e = (c.old_commit@, c.new_commit@, c.ref_name@);
                    v.push(c);
                    proof {
                        assert((done + seq![e]) + rest =~= done + (seq![e] + rest));
                        done = done + seq![e];
                    }
                }
                i = i + 1;
            }
            assert(done + change_lines_from(stdin_lines@, i as int) =~= done);
            if v.len() == 0 {
                None
            } else {
                Some(v)
            }
        },
    }
}

} // verus!
