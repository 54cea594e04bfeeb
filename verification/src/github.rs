//! Source hosting: owner and repository of a URL, and the query for the
//! commit that was the head of a repository at the end of a day.

use vstd::prelude::*;
use crate::text::{
    concat2, concat3, contains, contains_sub, from_chars, last_piece, last_piece_start,
    rfind_piece_start, sub_vec, to_chars, trim, trim_end_matches, trimmed, without_suffixes,
};

verus! {

/// What is known of a commit.
#[derive(Debug, Clone)]
pub struct CommitInfo {
    pub sha: String,
    pub date: String,
    pub message: String,
}

/// The message for a URL that names no owner and repository.
pub open spec fn invalid_url_message(url: Seq<char>) -> Seq<char> {
    "Invalid GitHub URL: "@ + url + ". Expected format: https://github.com/owner/repo"@
}

/// The owner and the repository that a URL names: its last two path
/// segments, once every ".git" at its end is taken off. A URL without a
/// slash names none.
pub open spec fn owner_and_repo(url: Seq<char>) -> Result<(Seq<char>, Seq<char>), Seq<char>> {
    let bare = without_suffixes(url, ".git"@);
    let cut = last_piece_start(bare, '/');
    if cut == 0 {
        Err(invalid_url_message(bare))
    } else {
        Ok((last_piece(bare.take(cut - 1), '/'), bare.skip(cut)))
    }
}

/// Reads the owner and the repository from the URL of a repository, with
/// or without ".git" at its end.
pub fn parse_github_url(url: &str) -> (r: Result<(String, String), String>)
    ensures
        match (r, owner_and_repo(url@)) {
            (Ok(pair), Ok(m)) => pair.0@ == m.0 && pair.1@ == m.1,
            (Err(e), Err(m)) => e@ == m,
            _ => false,
        },
{
    let bare = trim_end_matches(&to_chars(url), &to_chars(".git"));
    let cut = rfind_piece_start(&bare, '/');
    if cut == 0 {
        let shown = from_chars(&bare);
        return Err(
            concat3(
                "Invalid GitHub URL: ",
                shown.as_str(),
                ". Expected format: https://github.com/owner/repo",
            ),
        );
    }
    let repo = from_chars(&sub_vec(&bare, cut, bare.len()));
    let head = sub_vec(&bare, 0, cut - 1);
    let at = rfind_piece_start(&head, '/');
    let owner = from_chars(&sub_vec(&head, at, head.len()));
    Ok((owner, repo))
}

/// The path of the query for the last commit of a repository up to the end
/// of a day, in universal time.
pub fn commits_query(owner: &str, repo: &str, date: &str) -> (r: String)
    ensures
        r@ == "repos/"@ + owner@ + "/"@ + repo@ + "/commits?per_page=1&until="@ + date@
            + "T23:59:59Z"@,
{
    let a = concat3("repos/", owner, "/");
    let b = concat3(a.as_str(), repo, "/commits?per_page=1&until=");
    concat3(b.as_str(), date, "T23:59:59Z")
}

/// The message for a query that failed, from what it wrote to its error
/// stream: a rate limit, a repository that does not exist, or anything
/// else.
pub open spec fn query_failure_model(stderr: Seq<char>, owner: Seq<char>, repo: Seq<char>) -> Seq<
    char,
> {
    if contains_sub(stderr, "rate limit"@) {
        "GitHub API rate limit exceeded. Run `gh auth login` to authenticate for higher limits."@
    } else if contains_sub(stderr, "Could not resolve"@) || contains_sub(stderr, "Not Found"@) {
        "Repository not found: "@ + owner + "/"@ + repo + ". Check the URL is correct."@
    } else {
        "gh api failed: "@ + trimmed(stderr)
    }
}

/// Says why a query failed.
pub fn query_failure(stderr: &str, owner: &str, repo: &str) -> (r: String)
    ensures
        r@ == query_failure_model(stderr@, owner@, repo@),
{
    let err = to_chars(stderr);
    if contains(&err, &to_chars("rate limit")) {
        return "GitHub API rate limit exceeded. Run `gh auth login` to authenticate for higher limits.".to_owned();
    }
    if contains(&err, &to_chars("Could not resolve")) || contains(&err, &to_chars("Not Found")) {
        let a = concat3("Repository not found: ", owner, "/");
        return concat3(a.as_str(), repo, ". Check the URL is correct.");
    }
    let shown = from_chars(&trim(&err));
    concat2("gh api failed: ", shown.as_str())
}

/// Whether a query that went through found no commit: it printed nothing,
/// or "null".
pub fn no_commit_found(stdout: &str) -> (r: bool)
    ensures
        r == (trimmed(stdout@).len() == 0 || trimmed(stdout@) == "null"@),
{
    let out = trim(&to_chars(stdout));
    out.len() == 0 || crate::text::same_chars(&out, &to_chars("null"))
}

/// The first twelve characters of a commit's hash, or all of it where it is
/// shorter.
pub fn short_sha(sha: &str) -> (r: String)
    ensures
        r@ == if sha@.len() <= 12 {
            sha@
        } else {
            sha@.take(12)
        },
{
    let chars = to_chars(sha);
    if chars.len() <= 12 {
        sha.to_owned()
    } else {
        from_chars(&sub_vec(&chars, 0, 12))
    }
}

} // verus!
