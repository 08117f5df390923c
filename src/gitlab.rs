//! What GitLab tells a hook about the push, read from its environment values.

use vstd::prelude::*;
use crate::text::{after_prefix, parse_u64, strip_prefix, unsigned_value};

verus! {

/// Who pushed: a user or a deploy key, by number.
#[derive(PartialEq, Eq, Structural, Debug, Clone, Copy)]
pub enum GitlabId {
    User { id: u64 },
    Key { id: u64 },
}

/// Why a GitLab value could not be read.
#[derive(PartialEq, Eq, Debug)]
pub enum GitlabParseError {
    /// The text has none of the expected shapes.
    UnsupportedInput(String),
    /// The number after the prefix is not a `u64`.
    ParseIntError(String),
}

/// The protocol of the push.
#[derive(PartialEq, Eq, Structural, Debug, Clone, Copy)]
pub enum GitlabProtocol {
    HTTP,
    SSH,
    WEB,
}

/// The repository pushed to.
#[derive(PartialEq, Eq, Structural, Debug, Clone, Copy)]
pub enum GitlabRepository {
    ProjectId { id: u64 },
}

/// All that GitLab says about a push.
#[derive(PartialEq, Eq, Debug)]
pub struct GitlabMetadata {
    pub id: GitlabId,
    pub project_path: String,
    pub protocol: GitlabProtocol,
    pub repository: GitlabRepository,
    pub username: String,
}


/// The number in `s` after `prefix`, if `s` starts with it: a decimal `u64`, or
/// the text that is not one.
pub open spec fn id_after(s: Seq<char>, prefix: Seq<char>) -> Option<Result<u64, Seq<char>>> {
    match after_prefix(s, prefix) {
        Some(rest) => Some(match unsigned_value(rest) {
            Some(v) if v <= u64::MAX => Ok(v as u64),
            _ => Err(rest),
        }),
        None => None,
    }
}

/// The id that `s` reads as: `user-<n>` or `key-<n>`.
pub open spec fn id_of(s: Seq<char>) -> Option<GitlabId> {
    match id_after(s, "user-"@) {
        Some(Ok(v)) => Some(GitlabId::User { id: v }),
        Some(Err(_)) => None,
        None => match id_after(s, "key-"@) {
            Some(Ok(v)) => Some(GitlabId::Key { id: v }),
            _ => None,
        },
    }
}

/// The protocol that `s` names.
pub open spec fn protocol_of(s: Seq<char>) -> Option<GitlabProtocol> {
    if s == "http"@ {
        Some(GitlabProtocol::HTTP)
    } else if s == "ssh"@ {
        Some(GitlabProtocol::SSH)
    } else if s == "web"@ {
        Some(GitlabProtocol::WEB)
    } else {
        None
    }
}

/// The repository that `s` reads as: `project-<n>`.
pub open spec fn repository_of(s: Seq<char>) -> Option<GitlabRepository> {
    match id_after(s, "project-"@) {
        Some(Ok(v)) => Some(GitlabRepository::ProjectId { id: v }),
        _ => None,
    }
}

fn parse_id_after(s: &str, prefix: &str) -> (r: Option<Result<u64, GitlabParseError>>)
    ensures
        r is None <==> id_after(s@, prefix@) is None,
        r matches Some(Ok(v)) ==> id_after(s@, prefix@) == Some(Ok::<u64, Seq<char>>(v)),
        r matches Some(Err(e)) ==> (e matches GitlabParseError::ParseIntError(t) && id_after(s@, prefix@) == Some(Err::<u64, Seq<char>>(t@))),
{
    match strip_prefix(s, prefix) {
        Some(rest) => match parse_u64(rest.as_str()) {
            Some(v) => Some(Ok(v)),
            None => Some(Err(GitlabParseError::ParseIntError(rest))),
        },
        None => None,
    }
}

impl GitlabId {
    /// Reads `user-<n>` or `key-<n>`.
    pub fn from_str(s: &str) -> (r: Result<GitlabId, GitlabParseError>)
        ensures
            id_after(s@, "user-"@) matches Some(Ok(v)) ==> r == Ok::<GitlabId, GitlabParseError>(GitlabId::User { id: v }),
            id_after(s@, "user-"@) matches Some(Err(_)) ==> r matches Err(GitlabParseError::ParseIntError(_)),
            id_after(s@, "user-"@) is None ==> (id_after(s@, "key-"@) matches Some(Ok(v)) ==> r == Ok::<GitlabId, GitlabParseError>(GitlabId::Key { id: v })),
            (id_after(s@, "user-"@) is None && id_after(s@, "key-"@) matches Some(Err(_))) ==> r matches Err(GitlabParseError::ParseIntError(_)),
            id_after(s@, "user-"@) is None && id_after(s@, "key-"@) is None ==> (r matches Err(GitlabParseError::UnsupportedInput(t)) && t@ == s@),
            r matches Ok(v) ==> id_of(s@) == Some(v),
            r is Err ==> id_of(s@) is None,
    {
        match parse_id_after(s, "user-") {
            Some(Ok(id)) => {
                return Ok(GitlabId::User { id });
            },
            Some(Err(e)) => {
                return Err(e);
            },
            None => {},
        }
        match parse_id_after(s, "key-") {
            Some(Ok(id)) => Ok(GitlabId::Key { id }),
            Some(Err(e)) => Err(e),
            None => Err(GitlabParseError::UnsupportedInput(s.to_owned())),
        }
    }
}

impl GitlabProtocol {
    /// Reads `http`, `ssh` or `web`.
    pub fn from_str(s: &str) -> (r: Result<GitlabProtocol, GitlabParseError>)
        ensures
            s@ == "http"@ ==> r == Ok::<GitlabProtocol, GitlabParseError>(GitlabProtocol::HTTP),
            s@ == "ssh"@ ==> r == Ok::<GitlabProtocol, GitlabParseError>(GitlabProtocol::SSH),
            s@ == "web"@ ==> r == Ok::<GitlabProtocol, GitlabParseError>(GitlabProtocol::WEB),
            s@ != "http"@ && s@ != "ssh"@ && s@ != "web"@ ==> (r matches Err(GitlabParseError::UnsupportedInput(t)) && t@ == s@),
            r matches Ok(v) ==> protocol_of(s@) == Some(v),
            r is Err ==> protocol_of(s@) is None,
    {
        proof {
            reveal_strlit("http");
            reveal_strlit("ssh");
            reveal_strlit("web");
            assert("http"@.len() != "ssh"@.len() && "http"@.len() != "web"@.len());
            assert("ssh"@[0] != "web"@[0]);
        }
        if crate::text::text_is(s, "http") {
            Ok(GitlabProtocol::HTTP)
        } else if crate::text::text_is(s, "ssh") {
            Ok(GitlabProtocol::SSH)
        } else if crate::text::text_is(s, "web") {
            Ok(GitlabProtocol::WEB)
        } else {
            Err(GitlabParseError::UnsupportedInput(s.to_owned()))
        }
    }
}

impl GitlabRepository {
    /// Reads `project-<n>`.
    pub fn from_str(s: &str) -> (r: Result<GitlabRepository, GitlabParseError>)
        ensures
            id_after(s@, "project-"@) matches Some(Ok(v)) ==> r == Ok::<GitlabRepository, GitlabParseError>(GitlabRepository::ProjectId { id: v }),
            id_after(s@, "project-"@) matches Some(Err(_)) ==> r matches Err(GitlabParseError::ParseIntError(_)),
            id_after(s@, "project-"@) is None ==> (r matches Err(GitlabParseError::UnsupportedInput(t)) && t@ == s@),
            r matches Ok(v) ==> repository_of(s@) == Some(v),
            r is Err ==> repository_of(s@) is None,
    {
        match parse_id_after(s, "project-") {
            Some(Ok(id)) => Ok(GitlabRepository::ProjectId { id }),
            Some(Err(e)) => Err(e),
            None => Err(GitlabParseError::UnsupportedInput(s.to_owned())),
        }
    }
}

/// The metadata from the values of `GL_ID`, `GL_PROJECT_PATH`, `GL_PROTOCOL`,
/// `GL_REPOSITORY` and `GL_USERNAME`: present where all five are set and read.
pub fn get_gitlab_metadata(
    id: Option<String>,
    project_path: Option<String>,
    protocol: Option<String>,
    repository: Option<String>,
    username: Option<String>,
) -> (r: Option<GitlabMetadata>)
    ensures
        r is Some <==> (id matches Some(i) && id_of(i@) is Some) && project_path is Some
            && (protocol matches Some(p) && protocol_of(p@) is Some)
            && (repository matches Some(p) && repository_of(p@) is Some)
            && username is Some,
        r matches Some(m) ==> Some(m.id) == id_of(id->0@) && Some(m.project_path) == project_path
            && Some(m.protocol) == protocol_of(protocol->0@) && Some(m.repository) == repository_of(repository->0@)
            && Some(m.username) == username,
{
    let id = match id {
        Some(v) => match GitlabId::from_str(v.as_str()) {
            Ok(id) => id,
            Err(_) => {
                return None;
            },
        },
        None => {
            return None;
        },
    };
    let project_path = match project_path {
        Some(v) => v,
        None => {
            return None;
        },
    };
    let protocol = match protocol {
        Some(v) => match GitlabProtocol::from_str(v.as_str()) {
            Ok(p) => p,
            Err(_) => {
                return None;
            },
        },
        None => {
            return None;
        },
    };
    let repository = match repository {
        Some(v) => match GitlabRepository::from_str(v.as_str()) {
            Ok(p) => p,
            Err(_) => {
                return None;
            },
        },
        None => {
            return None;
        },
    };
    let username = match username {
        Some(v) => v,
        None => {
            return None;
        },
    };
    Some(GitlabMetadata { id, project_path, protocol, repository, username })
}

} // verus!
