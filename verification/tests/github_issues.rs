//! GitHub issues by repository and number.
use vibe_kanban::github_issues::{
    format_kanban_update_comment, issue_address, issue_comment_post, issue_comments_request,
    issue_from_url_parts, issue_search, normalize_repo_full_name, parse_issue_url,
    CreateGitHubIssueCommentRequest, GitHubIssuePathParams, ListGitHubIssueCommentsQuery,
    SearchGitHubIssuesQuery, UrlParts,
};

#[test]
fn kanban_update_comment_prefix_is_enforced() {
    assert_eq!(
        format_kanban_update_comment("ready for review").unwrap(),
        "Kanban update: ready for review"
    );
    assert_eq!(
        format_kanban_update_comment("Kanban update: done with evidence").unwrap(),
        "Kanban update: done with evidence"
    );
    assert!(format_kanban_update_comment("   ").is_err());
}

fn params(owner: &str, repo: &str, number: i64) -> GitHubIssuePathParams {
    GitHubIssuePathParams { owner: owner.to_string(), repo: repo.to_string(), number }
}

#[test]
fn repository_names_lose_what_stands_around_them() {
    for (given, wanted) in [
        ("owner/repo", "owner/repo"),
        ("  owner/repo.git ", "owner/repo"),
        ("/owner/repo/", "owner/repo"),
        ("owner/repo.git.git", "owner/repo"),
        ("a/b .git", "a/b "),
    ] {
        assert_eq!(normalize_repo_full_name(given), Ok(wanted.to_string()));
    }
    for given in ["", "owner", "owner/", "/repo", "a/b/c", "a//b", ".git", "a/.git"] {
        assert_eq!(
            normalize_repo_full_name(given),
            Err("Repository must be in owner/repo format".to_string()),
            "{given}"
        );
    }
}

#[test]
fn a_normalized_name_stays_as_it_is() {
    let name = normalize_repo_full_name(" /owner/repo.git").unwrap();
    assert_eq!(normalize_repo_full_name(&name), Ok(name.clone()));
    for given in ["owner/repo", "//owner/repo.git.git//", "a.git/b", "a/b.gitx"] {
        let name = normalize_repo_full_name(given).unwrap();
        assert!(!name.ends_with(".git"));
        assert_eq!(normalize_repo_full_name(&name), Ok(name.clone()));
        assert_eq!(normalize_repo_full_name(&format!(" /{name}.git/ ")), Ok(name));
    }
}

#[test]
fn a_name_that_ends_with_white_space_comes_out_of_what_is_around_it() {
    let name = normalize_repo_full_name("a/b .git").unwrap();
    assert_eq!(name, "a/b ");
    assert_eq!(normalize_repo_full_name(&format!(" /{name}.git/ ")), Ok(name.clone()));
    assert_eq!(normalize_repo_full_name(&name), Ok("a/b".to_string()));
}

#[test]
fn issue_urls_tell_repository_and_number() {
    assert_eq!(
        parse_issue_url("https://github.com/owner/repo/issues/42"),
        Ok(("owner/repo".to_string(), 42))
    );
    assert_eq!(
        parse_issue_url("http://WWW.github.com/o/r.git/issues/7/extra?x=1#top"),
        Ok(("o/r".to_string(), 7))
    );
}

#[test]
fn other_urls_are_refused_with_their_reason() {
    for (url, reason) in [
        ("not a url", "Invalid GitHub issue URL"),
        ("https://gitlab.com/o/r/issues/1", "Only github.com issue URLs are supported"),
        ("mailto:a@github.com", "Only github.com issue URLs are supported"),
        ("https://github.com/o/r", "URL must point to a GitHub issue"),
        ("https://github.com/o/r/pull/1", "URL must point to a GitHub issue"),
        ("https://github.com//r/issues/1", "Repository must be in owner/repo format"),
        (
            "https://github.com/o/r/issues/abc",
            "GitHub issue URL must include a numeric issue number",
        ),
        ("https://github.com/o/r/issues/0", "GitHub issue number must be positive"),
        ("https://github.com/o/r/issues/-3", "GitHub issue number must be positive"),
    ] {
        assert_eq!(parse_issue_url(url), Err(reason.to_string()), "{url}");
    }
}

#[test]
fn url_parts_are_read_without_a_parser() {
    let parts = |host: Option<&str>, segments: Option<Vec<&str>>| {
        Some(UrlParts {
            host: host.map(str::to_string),
            segments: segments.map(|all| all.into_iter().map(str::to_string).collect()),
        })
    };
    assert_eq!(
        issue_from_url_parts(&parts(Some("github.com"), Some(vec!["o", "r", "issues", "9"]))),
        Ok(("o/r".to_string(), 9))
    );
    assert_eq!(
        issue_from_url_parts(&parts(Some("github.com"), None)),
        Err("URL must point to a GitHub issue".to_string())
    );
    assert_eq!(
        issue_from_url_parts(&parts(None, None)),
        Err("Only github.com issue URLs are supported".to_string())
    );
    assert_eq!(issue_from_url_parts(&None), Err("Invalid GitHub issue URL".to_string()));
}

#[test]
fn searches_have_a_limit_between_one_and_fifty() {
    let search = |limit| {
        issue_search(&SearchGitHubIssuesQuery {
            repo: "o/r".to_string(),
            q: None,
            limit,
        })
        .unwrap()
    };
    assert_eq!(search(None).limit, 20);
    assert_eq!(search(Some(0)).limit, 1);
    assert_eq!(search(Some(7)).limit, 7);
    assert_eq!(search(Some(500)).limit, 50);
    assert_eq!(search(None).query, "");
    assert_eq!(search(None).repo_full_name, "o/r");
    assert!(issue_search(&SearchGitHubIssuesQuery {
        repo: "o".to_string(),
        q: Some("x".to_string()),
        limit: None,
    })
    .is_err());
}

#[test]
fn comment_listings_have_a_limit_between_one_and_twenty_five() {
    let list = |limit| {
        issue_comments_request(&params("o", "r", 5), &ListGitHubIssueCommentsQuery { limit })
            .unwrap()
    };
    assert_eq!(list(None).limit, 10);
    assert_eq!(list(Some(0)).limit, 1);
    assert_eq!(list(Some(26)).limit, 25);
    assert_eq!(list(None).number, 5);
    assert!(issue_comments_request(
        &params("", "r", 5),
        &ListGitHubIssueCommentsQuery { limit: None }
    )
    .is_err());
}

#[test]
fn addresses_and_posts_name_the_repository() {
    let address = issue_address(&params("o", "r.git", -1)).unwrap();
    assert_eq!((address.repo_full_name.as_str(), address.number), ("o/r", -1));
    let payload = |body: &str| CreateGitHubIssueCommentRequest { body: body.to_string() };
    let post = issue_comment_post(&params("o", "r", 3), &payload(" done ")).unwrap();
    assert_eq!(post.repo_full_name, "o/r");
    assert_eq!(post.number, 3);
    assert_eq!(post.body, "Kanban update: done");
    assert_eq!(
        issue_comment_post(&params("o", "", 3), &payload(" ")),
        Err("Repository must be in owner/repo format".to_string())
    );
    assert_eq!(
        issue_comment_post(&params("o", "r", 3), &payload(" ")),
        Err("Comment body must not be empty".to_string())
    );
}

#[test]
fn marking_a_comment_twice_changes_nothing() {
    for body in ["x", "KANBAN UPDATE: x", "  kanban Update:\n"] {
        let once = format_kanban_update_comment(body).unwrap();
        assert!(once.to_ascii_lowercase().starts_with("kanban update:"));
        assert_eq!(format_kanban_update_comment(&once), Ok(once.clone()));
    }
}
