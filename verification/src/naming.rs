//! Names for what a run creates remotely: the per-run destination branch and
//! the pull request's title and body. All are plain functions of their
//! arguments; the caller supplies the clock reading the branch name embeds.

use vstd::prelude::*;
use vstd::string::StringExecFns;

use crate::text::dec_rep;
use crate::text::u64_to_dec_string;

verus! {

/// The branch name a run pushes to: `syncy/{owner}/{repo}/{timestamp}`.
pub open spec fn branch_name_spec(owner: Seq<char>, repo: Seq<char>, timestamp_ms: nat) -> Seq<
    char,
> {
    ("syncy/")@ + owner + ("/")@ + repo + ("/")@ + dec_rep(timestamp_ms)
}

/// The destination branch name for a run started at `timestamp_ms`
/// milliseconds since the Unix epoch, per [`branch_name_spec`].
pub fn get_destination_branch_name(owner: &str, repo: &str, timestamp_ms: u64) -> (r: String)
    ensures
        r@ == branch_name_spec(owner@, repo@, timestamp_ms as nat),
{
    let mut s = String::from_str("syncy/");
    s.append(owner);
    s.append("/");
    s.append(repo);
    s.append("/");
    let ts = u64_to_dec_string(timestamp_ms);
    s.append(ts.as_str());
    s
}

/// The pull request title: `Update from {owner}/{repo} branch: {branch}`.
pub open spec fn pull_request_name_spec(
    owner: Seq<char>,
    repo: Seq<char>,
    source_branch: Seq<char>,
) -> Seq<char> {
    ("Update from ")@ + owner + ("/")@ + repo + (" branch: ")@ + source_branch
}

/// The pull request title for an update from the source repository's branch,
/// per [`pull_request_name_spec`].
pub fn get_pull_request_name(owner: &str, repo: &str, source_branch: &str) -> (r: String)
    ensures
        r@ == pull_request_name_spec(owner@, repo@, source_branch@),
{
    let mut s = String::from_str("Update from ");
    s.append(owner);
    s.append("/");
    s.append(repo);
    s.append(" branch: ");
    s.append(source_branch);
    s
}

/// The pull request body: the title line, then a link to the original
/// repository.
pub open spec fn pull_request_body_spec(
    owner: Seq<char>,
    repo: Seq<char>,
    source_branch: Seq<char>,
) -> Seq<char> {
    pull_request_name_spec(owner, repo, source_branch) + (
    "\n\nlink to the original repo: https://github.com/")@ + owner + ("/")@ + repo + ("/")@
        + source_branch
}

/// The pull request body for an update from the source repository's branch,
/// per [`pull_request_body_spec`].
pub fn get_pull_request_body(owner: &str, repo: &str, source_branch: &str) -> (r: String)
    ensures
        r@ == pull_request_body_spec(owner@, repo@, source_branch@),
{
    let mut s = get_pull_request_name(owner, repo, source_branch);
    s.append("\n\nlink to the original repo: https://github.com/");
    s.append(owner);
    s.append("/");
    s.append(repo);
    s.append("/");
    s.append(source_branch);
    s
}

} // verus!
