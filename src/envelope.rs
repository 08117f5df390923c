//! The JSON envelope sent to a webhook, as plain values.

use vstd::prelude::*;
use crate::gitlab::GitlabMetadata;
use crate::text::{clone_opt_string, clone_strings};

verus! {

/// The opaque configuration payload that a webhook rule hands on.
#[verifier::external_type_specification]
#[verifier::external_body]
pub struct ExValue(serde_json::Value);

/// Relies on serde_json's derived `Clone` for `Value`: a deep copy.
pub assume_specification[ <serde_json::Value as Clone>::clone ](v: &serde_json::Value) -> (r:
    serde_json::Value)
    ensures
        r == *v,
;

/// An instant in UTC: whole seconds since the Unix epoch and the nanoseconds after them.
#[derive(PartialEq, Eq, Structural, Debug, Clone, Copy)]
pub struct UtcInstant {
    pub seconds: i64,
    pub nanos: u32,
}

/// The UTC instant, as (seconds, nanoseconds), that an ISO 8601 date-time text denotes.
pub uninterp spec fn iso8601_utc(s: Seq<char>) -> Option<(i64, u32)>;

/// Relies on iso8601's `DateTime::from_str`, its conversion into chrono's
/// `DateTime<FixedOffset>` and chrono's `to_utc`: the instant that the text names,
/// or nothing where it is not an ISO 8601 date-time.
#[verifier::external_body]
pub fn convert_to_utc_rfc3339(s: &str) -> (r: Option<UtcInstant>)
    ensures
        r matches Some(t) ==> iso8601_utc(s@) == Some((t.seconds, t.nanos)),
        r is None ==> iso8601_utc(s@) is None,
{
    let parsed = <iso8601::DateTime as std::str::FromStr>::from_str(s).ok()?;
    let date = chrono::DateTime::<chrono::FixedOffset>::try_from(parsed).ok()?.to_utc();
    Some(UtcInstant { seconds: date.timestamp(), nanos: date.timestamp_subsec_nanos() })
}

/// One commit of a log.
#[derive(Debug)]
pub struct GitLogEntry {
    pub hash: String,
    pub parents: Vec<String>,
    pub author: String,
    pub author_date: UtcInstant,
    pub committer: String,
    pub committer_date: UtcInstant,
    pub signed_by_key_id: Option<String>,
    pub message: String,
}

impl GitLogEntry {
    /// Whether two entries hold the same values.
    pub open spec fn same_as(&self, other: &GitLogEntry) -> bool {
        &&& self.hash == other.hash
        &&& self.parents@ == other.parents@
        &&& self.author == other.author
        &&& self.author_date == other.author_date
        &&& self.committer == other.committer
        &&& self.committer_date == other.committer_date
        &&& self.signed_by_key_id == other.signed_by_key_id
        &&& self.message == other.message
    }

    /// A copy of this entry.
    pub fn duplicate(&self) -> (r: GitLogEntry)
        ensures
            r.same_as(self),
    {
        GitLogEntry {
            hash: self.hash.clone(),
            parents: clone_strings(&self.parents),
            author: self.author.clone(),
            author_date: self.author_date,
            committer: self.committer.clone(),
            committer_date: self.committer_date,
            signed_by_key_id: clone_opt_string(&self.signed_by_key_id),
            message: self.message.clone(),
        }
    }
}

/// Whether two logs hold the same entries in the same order.
pub open spec fn same_log(a: Seq<GitLogEntry>, b: Seq<GitLogEntry>) -> bool {
    a.len() == b.len() && forall|i: int| 0 <= i < a.len() ==> (#[trigger] a[i]).same_as(&b[i])
}

/// Copies a log.
pub fn clone_log(log: &Vec<GitLogEntry>) -> (r: Vec<GitLogEntry>)
    ensures
        same_log(r@, log@),
{
    let mut r: Vec<GitLogEntry> = Vec::new();
    let mut i: usize = 0;
    while i < log.len()
        invariant
            i <= log.len(),
            r@.len() == i,
            forall|j: int| 0 <= j < i ==> (#[trigger] r@[j]).same_as(&log@[j]),
        decreases log.len() - i,
    {
        r.push(log[i].duplicate());
        i = i + 1;
    }
    r
}

/// A ref change as the webhook receives it.
#[derive(Debug)]
pub enum Change {
    AddRef { name: String, commit: String, patch: Option<String>, log: Option<Vec<GitLogEntry>> },
    RemoveRef { name: String, commit: String },
    UpdateRef {
        name: String,
        old_commit: String,
        new_commit: String,
        merge_base: Option<String>,
        force: bool,
        patch: Option<String>,
        log: Option<Vec<GitLogEntry>>,
    },
}

/// Where the push came from, when the hosting service says so.
#[derive(Debug)]
pub enum Metadata {
    GitLab(GitlabMetadata),
    /// No hosting service described the push.
    Unknown,
}

/// The verification status of a signed push.
#[derive(PartialEq, Eq, Structural, Debug, Clone, Copy)]
pub enum PushSignatureStatus {
    Good,
    Bad,
    UnknownValidity,
    Expired,
    ExpiredKey,
    RevokedKey,
    CannotCheck,
    NoSignature,
}

/// The status that a one-letter code of `GIT_PUSH_CERT_STATUS` stands for.
pub open spec fn signature_status_of(code: Seq<char>) -> Option<PushSignatureStatus> {
    if code =~= seq!['G'] {
        Some(PushSignatureStatus::Good)
    } else if code =~= seq!['B'] {
        Some(PushSignatureStatus::Bad)
    } else if code =~= seq!['U'] {
        Some(PushSignatureStatus::UnknownValidity)
    } else if code =~= seq!['X'] {
        Some(PushSignatureStatus::Expired)
    } else if code =~= seq!['Y'] {
        Some(PushSignatureStatus::ExpiredKey)
    } else if code =~= seq!['R'] {
        Some(PushSignatureStatus::RevokedKey)
    } else if code =~= seq!['E'] {
        Some(PushSignatureStatus::CannotCheck)
    } else if code =~= seq!['N'] {
        Some(PushSignatureStatus::NoSignature)
    } else {
        None
    }
}

impl PushSignatureStatus {
    /// Reads a one-letter status code; any other text is refused.
    pub fn from_str(s: &str) -> (r: Result<PushSignatureStatus, String>)
        ensures
            r is Ok <==> signature_status_of(s@) is Some,
            r matches Ok(v) ==> signature_status_of(s@) == Some(v),
    {
        let cs = crate::text::chars_of(s);
        if cs.len() != 1 {
            return Err(s.to_owned());
        }
        let c = cs[0];
        assert(s@ =~= seq![c]);
        if c == 'G' {
            Ok(PushSignatureStatus::Good)
        } else if c == 'B' {
            Ok(PushSignatureStatus::Bad)
        } else if c == 'U' {
            Ok(PushSignatureStatus::UnknownValidity)
        } else if c == 'X' {
            Ok(PushSignatureStatus::Expired)
        } else if c == 'Y' {
            Ok(PushSignatureStatus::ExpiredKey)
        } else if c == 'R' {
            Ok(PushSignatureStatus::RevokedKey)
        } else if c == 'E' {
            Ok(PushSignatureStatus::CannotCheck)
        } else if c == 'N' {
            Ok(PushSignatureStatus::NoSignature)
        } else {
            Err(s.to_owned())
        }
    }
}

/// What the server made of the nonce of a signed push.
#[derive(PartialEq, Eq, Debug)]
pub enum CertificateNonce {
    Unsolicited { nonce: String },
    Missing,
    Bad { nonce: String },
    /// The nonce is the one the server handed out.
    Valid { nonce: String },
    Slop { nonce: String, stale_seconds: u32 },
}

/// The certificate of a signed push.
#[derive(Debug)]
pub struct PushSignature {
    pub certificate: String,
    pub signer: String,
    pub key: String,
    pub status: PushSignatureStatus,
    pub nonce: CertificateNonce,
}

/// The body of a webhook request.
#[derive(Debug)]
pub struct WebhookRequest {
    pub version: String,
    pub default_branch: String,
    pub config: Option<serde_json::Value>,
    pub changes: Vec<Change>,
    pub push_options: Vec<String>,
    pub signature: Option<PushSignature>,
    pub metadata: Metadata,
}

/// The body of a webhook response: messages for the pusher, in order.
#[derive(Debug)]
pub struct WebhookResponse(pub Vec<String>);

impl WebhookResponse {
    /// The response with no messages, which stands for a body that could not be read.
    pub fn default() -> (r: WebhookResponse)
        ensures
            r.0@.len() == 0,
    {
        WebhookResponse(Vec::new())
    }
}


impl Change {
    pub open spec fn name_of(&self) -> String {
        match self {
            Change::AddRef { name, .. } => *name,
            Change::RemoveRef { name, .. } => *name,
            Change::UpdateRef { name, .. } => *name,
        }
    }
}

/// The first change of the default branch, `refs/heads/<branch_name>`, if any.
pub fn find_default_branch_change<'a>(branch_name: &str, changes: &'a Vec<Change>) -> (r: Option<&'a Change>)
    ensures
        r matches Some(c) ==> exists|i: int| 0 <= i < changes@.len() && changes@[i] == *c
            && c.name_of()@ == "refs/heads/"@ + branch_name@
            && forall|j: int| 0 <= j < i ==> (#[trigger] changes@[j]).name_of()@ != "refs/heads/"@ + branch_name@,
        r is None ==> forall|j: int| 0 <= j < changes@.len() ==> (#[trigger] changes@[j]).name_of()@ != "refs/heads/"@ + branch_name@,
{
    let mut i: usize = 0;
    while i < changes.len()
        invariant
            i <= changes.len(),
            forall|j: int| 0 <= j < i ==> (#[trigger] changes@[j]).name_of()@ != "refs/heads/"@ + branch_name@,
        decreases changes.len() - i,
    {
        let change = &changes[i];
        let name = match change {
            Change::AddRef { name, .. } => name,
            Change::RemoveRef { name, .. } => name,
            Change::UpdateRef { name, .. } => name,
        };
        if crate::text::is_prefixed(name.as_str(), "refs/heads/", branch_name) {
            return Some(change);
        }
        i = i + 1;
    }
    None
}

} // verus!
