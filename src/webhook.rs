//! The webhook leaf: its settings, their validation, and the request it sends.

use vstd::prelude::*;
use crate::configuration::URL;
use crate::change::Fact;
use crate::envelope::{
    clone_log, same_log, signature_status_of, CertificateNonce, Metadata, PushSignature,
    PushSignatureStatus, WebhookRequest, WebhookResponse,
};
use crate::gitlab::GitlabMetadata;
use crate::text::{clone_opt_string, clone_strings, parse_u32, text_is, unsigned_value};

verus! {

/// The connect timeout where none is configured, in milliseconds.
pub const DEFAULT_CONNECT_TIMEOUT_MS: u64 = 1000;
/// The longest connect timeout allowed, in milliseconds.
pub const MAX_CONNECT_TIMEOUT_MS: u64 = 5000;
/// The request timeout where none is configured, in milliseconds.
pub const DEFAULT_REQUEST_TIMEOUT_MS: u64 = 3000;
/// The longest request timeout allowed, in milliseconds.
pub const MAX_REQUEST_TIMEOUT_MS: u64 = 20000;

/// A rule that asks an HTTP endpoint.
#[derive(Debug)]
pub struct WebhookRule {
    pub url: URL,
    pub config: Option<serde_json::Value>,
    /// In milliseconds.
    pub request_timeout: Option<u64>,
    /// In milliseconds.
    pub connect_timeout: Option<u64>,
    /// Shown to the pusher before the request goes out.
    pub greeting_messages: Option<Vec<String>>,
}

/// A timeout over its maximum, in milliseconds.
#[derive(PartialEq, Eq, Structural, Debug, Clone, Copy)]
pub enum ValidationError {
    ConnectTimeout { millis: u64 },
    RequestTimeout { millis: u64 },
}

/// Why a webhook gave no answer.
#[derive(PartialEq, Eq, Debug)]
pub enum HookError {
    /// The request failed on its way, with the transport's own words.
    Request(String),
    /// A timeout is out of bounds.
    Validation(ValidationError),
}

impl HookError {
    /// A copy of this error.
    pub fn duplicate(&self) -> (r: HookError)
        ensures
            r == *self,
    {
        match self {
            HookError::Request(s) => HookError::Request(s.clone()),
            HookError::Validation(v) => HookError::Validation(*v),
        }
    }
}

/// What a webhook answered: whether its status was a success, and its messages.
#[derive(Debug)]
pub struct WebhookResult(pub bool, pub WebhookResponse);

pub open spec fn or_default(o: Option<u64>, d: u64) -> u64 {
    match o {
        Some(v) => v,
        None => d,
    }
}

/// The connect and request timeouts of a webhook rule, or the first one that is too long.
pub open spec fn timeouts_of(w: WebhookRule) -> Result<(u64, u64), ValidationError> {
    let connect = or_default(w.connect_timeout, DEFAULT_CONNECT_TIMEOUT_MS);
    let request = or_default(w.request_timeout, DEFAULT_REQUEST_TIMEOUT_MS);
    if connect > MAX_CONNECT_TIMEOUT_MS {
        Err(ValidationError::ConnectTimeout { millis: connect })
    } else if request > MAX_REQUEST_TIMEOUT_MS {
        Err(ValidationError::RequestTimeout { millis: request })
    } else {
        Ok((connect, request))
    }
}

/// The timeouts to use, in milliseconds, with their defaults filled in; a timeout
/// over its maximum is refused.
pub fn validate_timeouts(w: &WebhookRule) -> (r: Result<(u64, u64), ValidationError>)
    ensures
        r == timeouts_of(*w),
{
    let connect = match w.connect_timeout {
        Some(v) => v,
        None => DEFAULT_CONNECT_TIMEOUT_MS,
    };
    let request = match w.request_timeout {
        Some(v) => v,
        None => DEFAULT_REQUEST_TIMEOUT_MS,
    };
    if connect > MAX_CONNECT_TIMEOUT_MS {
        Err(ValidationError::ConnectTimeout { millis: connect })
    } else if request > MAX_REQUEST_TIMEOUT_MS {
        Err(ValidationError::RequestTimeout { millis: request })
    } else {
        Ok((connect, request))
    }
}


/// The stale seconds of `GIT_PUSH_CERT_NONCE_SLOP`: its number, or zero where it is
/// absent or not a `u32`.
pub open spec fn slop_seconds(slop: Option<String>) -> u32 {
    match slop {
        Some(t) => match unsigned_value(t@) {
            Some(v) if v <= u32::MAX => v as u32,
            _ => 0,
        },
        None => 0,
    }
}

/// What the server made of the nonce, from `GIT_PUSH_CERT_NONCE_STATUS`,
/// `GIT_PUSH_CERT_NONCE` and `GIT_PUSH_CERT_NONCE_SLOP`.
pub open spec fn nonce_of(status: Option<String>, nonce: Option<String>, slop: Option<String>) -> CertificateNonce {
    match (status, nonce) {
        (Some(st), Some(n)) => if st@ == "UNSOLICITED"@ {
            CertificateNonce::Unsolicited { nonce: n }
        } else if st@ == "BAD"@ {
            CertificateNonce::Bad { nonce: n }
        } else if st@ == "OK"@ {
            CertificateNonce::Valid { nonce: n }
        } else if st@ == "SLOP"@ {
            CertificateNonce::Slop { nonce: n, stale_seconds: slop_seconds(slop) }
        } else {
            CertificateNonce::Missing
        },
        _ => CertificateNonce::Missing,
    }
}

/// The nonce of a signed push, from the values of `GIT_PUSH_CERT_NONCE_STATUS`,
/// `GIT_PUSH_CERT_NONCE` and `GIT_PUSH_CERT_NONCE_SLOP`. A status without a nonce,
/// and an unknown status, stand as missing.
pub fn get_certificate_nonce(status: Option<String>, nonce: Option<String>, slop: Option<String>) -> (r: CertificateNonce)
    ensures
        r == nonce_of(status, nonce, slop),
{
    let status = match status {
        Some(s) => s,
        None => {
            return CertificateNonce::Missing;
        },
    };
    let nonce = match nonce {
        Some(n) => n,
        None => {
            return CertificateNonce::Missing;
        },
    };
    if text_is(status.as_str(), "UNSOLICITED") {
        CertificateNonce::Unsolicited { nonce }
    } else if text_is(status.as_str(), "BAD") {
        CertificateNonce::Bad { nonce }
    } else if text_is(status.as_str(), "OK") {
        CertificateNonce::Valid { nonce }
    } else if text_is(status.as_str(), "SLOP") {
        let stale_seconds = match slop {
            Some(t) => match parse_u32(t.as_str()) {
                Some(v) => v,
                None => 0,
            },
            None => 0,
        };
        CertificateNonce::Slop { nonce, stale_seconds }
    } else {
        CertificateNonce::Missing
    }
}

/// The push certificate, from the values of `GIT_PUSH_CERT`, `GIT_PUSH_CERT_SIGNER`,
/// `GIT_PUSH_CERT_KEY`, `GIT_PUSH_CERT_STATUS` and the nonce variables: present
/// where the first four are set and the status is a known code.
pub fn get_push_signature(
    certificate: Option<String>,
    signer: Option<String>,
    key: Option<String>,
    status: Option<String>,
    nonce_status: Option<String>,
    nonce: Option<String>,
    slop: Option<String>,
) -> (r: Option<PushSignature>)
    ensures
        r is Some <==> certificate is Some && signer is Some && key is Some
            && (status matches Some(st) && signature_status_of(st@) is Some),
        r matches Some(sig) ==> Some(sig.certificate) == certificate && Some(sig.signer) == signer
            && Some(sig.key) == key && Some(sig.status) == signature_status_of(status->0@)
            && sig.nonce == nonce_of(nonce_status, nonce, slop),
{
    let certificate = match certificate {
        Some(c) => c,
        None => {
            return None;
        },
    };
    let signer = match signer {
        Some(s) => s,
        None => {
            return None;
        },
    };
    let key = match key {
        Some(k) => k,
        None => {
            return None;
        },
    };
    let status = match status {
        Some(s) => match PushSignatureStatus::from_str(s.as_str()) {
            Ok(st) => st,
            Err(_) => {
                return None;
            },
        },
        None => {
            return None;
        },
    };
    let nonce = get_certificate_nonce(nonce_status, nonce, slop);
    Some(PushSignature { certificate, signer, key, status, nonce })
}

/// The metadata of the push: GitLab's where it gave some.
pub fn get_metadata(gitlab: Option<GitlabMetadata>) -> (r: Metadata)
    ensures
        gitlab matches Some(m) ==> r == Metadata::GitLab(m),
        gitlab is None ==> r == Metadata::Unknown,
{
    match gitlab {
        Some(m) => Metadata::GitLab(m),
        None => Metadata::Unknown,
    }
}

/// Whether `e` is the envelope form of `c`: the same names and commits, and the
/// patch and log where they were read.
pub open spec fn envelope_of(c: crate::change::Change, e: crate::envelope::Change) -> bool {
    match (c, e) {
        (crate::change::Change::AddRef { name, commit, git_data },
         crate::envelope::Change::AddRef { name: n, commit: k, patch, log }) =>
            n == name && k == commit && fact_patch(git_data.patch) == patch && fact_log(git_data.log, log),
        (crate::change::Change::RemoveRef { name, commit },
         crate::envelope::Change::RemoveRef { name: n, commit: k }) => n == name && k == commit,
        (crate::change::Change::UpdateRef { name, old_commit, new_commit, merge_base, force, git_data },
         crate::envelope::Change::UpdateRef { name: n, old_commit: o, new_commit: w, merge_base: m, force: f, patch, log }) =>
            n == name && o == old_commit && w == new_commit && m == merge_base && f == force
                && fact_patch(git_data.patch) == patch && fact_log(git_data.log, log),
        _ => false,
    }
}

pub open spec fn fact_patch(f: Fact<Option<String>>) -> Option<String> {
    match f {
        Fact::Ready(p) => p,
        Fact::Pending => None,
    }
}

pub open spec fn fact_log(f: Fact<Vec<crate::envelope::GitLogEntry>>, log: Option<Vec<crate::envelope::GitLogEntry>>) -> bool {
    match (f, log) {
        (Fact::Ready(a), Some(b)) => same_log(b@, a@),
        (Fact::Pending, None) => true,
        _ => false,
    }
}

fn patch_copy(f: &Fact<Option<String>>) -> (r: Option<String>)
    ensures
        r == fact_patch(*f),
{
    match f {
        Fact::Ready(p) => clone_opt_string(p),
        Fact::Pending => None,
    }
}

fn log_copy(f: &Fact<Vec<crate::envelope::GitLogEntry>>) -> (r: Option<Vec<crate::envelope::GitLogEntry>>)
    ensures
        fact_log(*f, r),
{
    match f {
        Fact::Ready(l) => Some(clone_log(l)),
        Fact::Pending => None,
    }
}

/// The envelope form of a change.
pub fn envelope_change(c: &crate::change::Change) -> (r: crate::envelope::Change)
    ensures
        envelope_of(*c, r),
{
    match c {
        crate::change::Change::AddRef { name, commit, git_data } => crate::envelope::Change::AddRef {
            name: name.clone(),
            commit: commit.clone(),
            patch: patch_copy(&git_data.patch),
            log: log_copy(&git_data.log),
        },
        crate::change::Change::RemoveRef { name, commit } => crate::envelope::Change::RemoveRef {
            name: name.clone(),
            commit: commit.clone(),
        },
        crate::change::Change::UpdateRef { name, old_commit, new_commit, merge_base, force, git_data } =>
            crate::envelope::Change::UpdateRef {
                name: name.clone(),
                old_commit: old_commit.clone(),
                new_commit: new_commit.clone(),
                merge_base: clone_opt_string(merge_base),
                force: *force,
                patch: patch_copy(&git_data.patch),
                log: log_copy(&git_data.log),
            },
    }
}

/// The body that a webhook rule sends about a change: version `1`, the default
/// branch, the rule's configuration, the change, the push options, the push
/// certificate and the metadata.
pub fn webhook_request(
    rule: &WebhookRule,
    default_branch: &String,
    push_options: &Vec<String>,
    change: &crate::change::Change,
    signature: Option<PushSignature>,
    metadata: Metadata,
) -> (r: WebhookRequest)
    ensures
        r.version@ == "1"@,
        r.default_branch == *default_branch,
        r.config == rule.config,
        r.changes@.len() == 1 && envelope_of(*change, r.changes@[0]),
        r.push_options@ == push_options@,
        r.signature == signature,
        r.metadata == metadata,
{
    let config = match &rule.config {
        Some(v) => Some(v.clone()),
        None => None,
    };
    let mut changes: Vec<crate::envelope::Change> = Vec::new();
    changes.push(envelope_change(change));
    WebhookRequest {
        version: "1".to_owned(),
        default_branch: default_branch.clone(),
        config,
        changes,
        push_options: clone_strings(push_options),
        signature,
        metadata,
    }
}

/// What a webhook answered: whether its status was a success, and the messages
/// of its body, none where the body was not a list of strings.
pub fn webhook_result(success: bool, body: Option<Vec<String>>) -> (r: WebhookResult)
    ensures
        r.0 == success,
        body matches Some(m) ==> r.1.0 == m,
        body is None ==> r.1.0@.len() == 0,
{
    match body {
        Some(messages) => WebhookResult(success, WebhookResponse(messages)),
        None => WebhookResult(success, WebhookResponse::default()),
    }
}

} // verus!
