use ocp_midstreamer::github::{
    commits_query, no_commit_found, parse_github_url, query_failure, short_sha,
};

#[test]
fn test_parse_github_url_standard() {
    let (owner, repo) = parse_github_url("https://github.com/tektoncd/pipeline").unwrap();
    assert_eq!(owner, "tektoncd");
    assert_eq!(repo, "pipeline");
}

#[test]
fn test_parse_github_url_with_git_suffix() {
    let (owner, repo) = parse_github_url("https://github.com/tektoncd/pipeline.git").unwrap();
    assert_eq!(owner, "tektoncd");
    assert_eq!(repo, "pipeline");
}

#[test]
fn test_parse_github_url_invalid() {
    let result = parse_github_url("not-a-url");
    assert!(result.is_err());
}

#[test]
fn parse_github_url_error_quotes_the_bare_url() {
    assert_eq!(
        parse_github_url("nothing.git.git").unwrap_err(),
        "Invalid GitHub URL: nothing. Expected format: https://github.com/owner/repo"
    );
}

#[test]
fn parse_github_url_takes_the_last_two_segments() {
    assert_eq!(parse_github_url("owner/repo").unwrap(), ("owner".to_string(), "repo".to_string()));
    assert_eq!(parse_github_url("a/b/c/d").unwrap(), ("c".to_string(), "d".to_string()));
    assert_eq!(parse_github_url("a/b/").unwrap(), ("b".to_string(), "".to_string()));
    assert_eq!(parse_github_url("/repo").unwrap(), ("".to_string(), "repo".to_string()));
}

#[test]
fn commits_query_asks_up_to_the_end_of_the_day() {
    assert_eq!(
        commits_query("tektoncd", "pipeline", "2024-01-15"),
        "repos/tektoncd/pipeline/commits?per_page=1&until=2024-01-15T23:59:59Z"
    );
}

#[test]
fn query_failure_tells_the_causes_apart() {
    assert_eq!(
        query_failure("API rate limit exceeded", "o", "r"),
        "GitHub API rate limit exceeded. Run `gh auth login` to authenticate for higher limits."
    );
    assert_eq!(
        query_failure("gh: Not Found (HTTP 404)", "o", "r"),
        "Repository not found: o/r. Check the URL is correct."
    );
    assert_eq!(
        query_failure("Could not resolve to a Repository", "o", "r"),
        "Repository not found: o/r. Check the URL is correct."
    );
    assert_eq!(query_failure("  boom \n", "o", "r"), "gh api failed: boom");
}

#[test]
fn no_commit_found_knows_empty_and_null() {
    assert!(no_commit_found(""));
    assert!(no_commit_found(" \n"));
    assert!(no_commit_found(" null\n"));
    assert!(!no_commit_found("{\"sha\":\"abc\"}"));
}

#[test]
fn short_sha_keeps_twelve_characters() {
    assert_eq!(short_sha("0123456789abcdef"), "0123456789ab");
    assert_eq!(short_sha("0123456789ab"), "0123456789ab");
    assert_eq!(short_sha("abc"), "abc");
}
