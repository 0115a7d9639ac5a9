use flood_mcp::github::{github_reference_candidates, select_github_references, AllowedRepository, GitHubWorkItemKind};

#[test]
fn github_candidates_are_read_from_links_in_text() {
    let text = "see https://github.com/Acme/App.git/issues/12?x=1, and <https://github.com/acme/app/pull/7#c>. \
                Not https://github.com/acme/app/tree/main or https://github.com/acme/app/issues/0";
    let found = github_reference_candidates(text);
    let got: Vec<(String, GitHubWorkItemKind, u64, String)> =
        found.into_iter().map(|c| (c.repository, c.kind, c.number, c.url)).collect();
    assert_eq!(
        got,
        vec![
            ("Acme/App".to_string(), GitHubWorkItemKind::Issue, 12, "https://github.com/Acme/App/issues/12".to_string()),
            ("acme/app".to_string(), GitHubWorkItemKind::PullRequest, 7, "https://github.com/acme/app/pull/7".to_string()),
        ]
    );
    assert!(github_reference_candidates("no links here").is_empty());
    assert!(github_reference_candidates("https://github.com/").is_empty());
}

#[test]
fn github_references_keep_allowed_unique_and_at_most_three() {
    let text = "https://github.com/acme/app/issues/1 https://github.com/ACME/APP/issues/1 \
                https://github.com/other/x/issues/2 https://github.com/acme/app/pull/2 \
                https://github.com/acme/app/issues/3 https://github.com/acme/app/issues/4";
    let candidates = github_reference_candidates(text);
    let allowed = vec![AllowedRepository { resource_id: "res-1".into(), repository: "Acme/App".into() }];
    let refs = select_github_references(&candidates, &allowed);
    let got: Vec<(String, String, u64)> = refs.iter().map(|r| (r.resource_id.clone(), r.repository.clone(), r.number)).collect();
    assert_eq!(
        got,
        vec![
            ("res-1".to_string(), "Acme/App".to_string(), 1),
            ("res-1".to_string(), "Acme/App".to_string(), 2),
            ("res-1".to_string(), "Acme/App".to_string(), 3),
        ]
    );
    assert_eq!(refs[1].kind, GitHubWorkItemKind::PullRequest);
}

#[test]
fn github_item_link_parser_handles_markdown_and_deduplicates_boundaries() {
    let links = github_reference_candidates(
        "[issue](https://github.com/openai/codex/issues/123), PR https://github.com/openai/codex/pull/456#discussion",
    );
    assert_eq!(links.len(), 2);
    assert_eq!(links[0].repository, "openai/codex");
    assert_eq!(links[0].kind, GitHubWorkItemKind::Issue);
    assert_eq!(links[0].number, 123);
    assert_eq!(links[1].kind, GitHubWorkItemKind::PullRequest);
    assert_eq!(links[1].number, 456);
}
