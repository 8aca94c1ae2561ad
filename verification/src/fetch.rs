//! Getting a file of a repository from its source host: where the file is,
//! and what a reply of the host amounts to.
//!
//! The request itself is made by whoever uses this module.

use crate::model::{RepoIdentity, RepoIdentityView, Site};
use vstd::prelude::*;
use vstd::string::StringExecFns;

pub mod cache;

verus! {

/// The address of a file of a repository, as the source host serves it raw at
/// the head of the default branch.
pub open spec fn raw_url(identity: RepoIdentityView, rel_path: Seq<char>) -> Seq<char> {
    match identity.site {
        Site::GitHub => "https://raw.githubusercontent.com/"@ + identity.owner + "/"@
            + identity.repo + "/HEAD/"@ + rel_path,
        Site::GitLab => "https://gitlab.com/"@ + identity.owner + "/"@ + identity.repo
            + "/raw/HEAD/"@ + rel_path,
        Site::BitBucket => "https://bitbucket.org/"@ + identity.owner + "/"@ + identity.repo
            + "/raw/HEAD/"@ + rel_path,
    }
}

/// The address of a file of a repository on its source host.
pub fn file_url(ident: &RepoIdentity, rel_path: &str) -> (url: String)
    ensures
        url@ == raw_url(ident@, rel_path@),
{
    let (host, raw) = match ident.site {
        Site::GitHub => ("https://raw.githubusercontent.com/", "/HEAD/"),
        Site::GitLab => ("https://gitlab.com/", "/raw/HEAD/"),
        Site::BitBucket => ("https://bitbucket.org/", "/raw/HEAD/"),
    };
    let mut url = String::from_str(host);
    url.append(ident.owner.as_str());
    url.append("/");
    url.append(ident.repo.as_str());
    url.append(raw);
    url.append(rel_path);
    url
}

/// Why a reply of the host gave no file.
#[derive(Debug, Clone, Copy, PartialEq, Eq, Structural)]
pub enum FetchError {
    /// The host reported an error of the client or of the server.
    ErrorStatus(u16),
    /// The host reported that the file has not changed, but no copy of it is
    /// at hand.
    NotModifiedWithoutCopy,
    /// The host answered with a status that is neither success nor "not
    /// modified".
    UnexpectedStatus(u16),
}

/// What a reply of the host amounts to.
#[derive(Debug, Clone, Copy, PartialEq, Eq, Structural)]
pub enum Reply {
    /// The body of the reply is the file. It is worth keeping a copy if the
    /// reply carries a tag for it.
    Body { keep: bool },
    /// The file has not changed: the copy at hand is the file.
    Copy,
    /// There is no file.
    Failed(FetchError),
}

/// Whether a status reports an error of the client or of the server.
pub open spec fn is_error(status: u16) -> bool {
    400 <= status < 600
}

/// Whether a status reports success.
pub open spec fn is_success(status: u16) -> bool {
    200 <= status < 300
}

/// The status by which a host reports that a file has not changed.
pub const NOT_MODIFIED: u16 = 304;

/// What a reply amounts to, given its status, whether it carries a tag for
/// its body, and whether a copy of the file is at hand.
pub open spec fn reply_of(status: u16, tagged: bool, copy_at_hand: bool) -> Reply {
    if is_error(status) {
        Reply::Failed(FetchError::ErrorStatus(status))
    } else if is_success(status) {
        Reply::Body { keep: tagged }
    } else if status == NOT_MODIFIED {
        if copy_at_hand {
            Reply::Copy
        } else {
            Reply::Failed(FetchError::NotModifiedWithoutCopy)
        }
    } else {
        Reply::Failed(FetchError::UnexpectedStatus(status))
    }
}

/// Decides what a reply of the host amounts to.
pub fn settle(status: u16, tagged: bool, copy_at_hand: bool) -> (r: Reply)
    ensures
        r == reply_of(status, tagged, copy_at_hand),
{
    if status >= 400 && status < 600 {
        Reply::Failed(FetchError::ErrorStatus(status))
    } else if status >= 200 && status < 300 {
        Reply::Body { keep: tagged }
    } else if status == NOT_MODIFIED {
        if copy_at_hand {
            Reply::Copy
        } else {
            Reply::Failed(FetchError::NotModifiedWithoutCopy)
        }
    } else {
        Reply::Failed(FetchError::UnexpectedStatus(status))
    }
}

/// A reply gives a file exactly where it reports success, or reports no
/// change while a copy is at hand.
pub proof fn lemma_reply_gives_a_file(status: u16, tagged: bool, copy_at_hand: bool)
    ensures
        !(reply_of(status, tagged, copy_at_hand) is Failed) <==> is_success(status) || (status
            == NOT_MODIFIED && copy_at_hand),
{
}

} // verus!
