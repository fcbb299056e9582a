use gh_lsp::complete::{render_owner_results, CompletionOutcome};
use gh_lsp::document::RequestError;
use gh_lsp::entity::{Issue, IssueState, Member, Repository, WikiArticle};
use gh_lsp::session::{PageLoop, Session};
use gh_lsp::trigger::ReplaceRange;

fn issue(number: u64, title: &str, state: IssueState, body: Option<&str>) -> Issue {
    Issue {
        number,
        state,
        title: title.to_string(),
        body: body.map(|b| b.to_string()),
        url: format!("https://api.github.com/repos/o/r/issues/{}", number),
    }
}

fn session_with_issue(i: Issue) -> Session {
    let mut s = Session::new("o".to_string(), "r".to_string());
    let mut st = PageLoop::start();
    assert!(s.ingest_issue_page(&mut st, &Some(vec![i])));
    s
}

#[test]
fn issue_completion_includes_substring_match() {
    // substring policy: the needle may occur anywhere in the detail text
    let mut s = session_with_issue(issue(
        42,
        "Add integration test for cron job",
        IssueState::Open,
        None,
    ));
    s.open_document("doc".to_string(), "see #cron".to_string(), 1);
    let id = "doc".to_string();
    match s.completion(&id, 0, 9) {
        Ok(CompletionOutcome::Items(items)) => {
            assert_eq!(items.len(), 1);
            assert_eq!(items[0].label, "#42 [Open] Add integration test for cron job");
            assert_eq!(
                items[0].new_text,
                "[#42: Add integration test for cron job](https://github.com/o/r/issues/42)"
            );
            assert_eq!(items[0].range, ReplaceRange { line: 0, start_col: 4, end_col: 9 });
        }
        other => panic!("expected items, got {:?}", other),
    }
}

#[test]
fn issue_completion_excludes_non_match() {
    let mut s = session_with_issue(issue(7, "Fix the parser", IssueState::Closed, None));
    s.open_document("doc".to_string(), "see #cron".to_string(), 1);
    let id = "doc".to_string();
    match s.completion(&id, 0, 9) {
        Ok(CompletionOutcome::Items(items)) => assert!(items.is_empty()),
        other => panic!("expected items, got {:?}", other),
    }
}

#[test]
fn completion_column_beyond_line_is_clamped_not_an_error() {
    let mut s = session_with_issue(issue(
        42,
        "Add integration test for cron job",
        IssueState::Open,
        None,
    ));
    s.open_document("doc".to_string(), "see #cron".to_string(), 1);
    let id = "doc".to_string();
    let far = s.completion(&id, 0, 5000);
    let exact = s.completion(&id, 0, 9);
    match (far, exact) {
        (Ok(CompletionOutcome::Items(a)), Ok(CompletionOutcome::Items(b))) => {
            assert_eq!(a.len(), b.len());
            assert_eq!(a[0].label, b[0].label);
            assert_eq!(a[0].range, b[0].range);
        }
        other => panic!("expected items twice, got {:?}", other),
    }
}

#[test]
fn completion_unknown_document_is_an_error() {
    let s = Session::new("o".to_string(), "r".to_string());
    let id = "absent".to_string();
    assert!(matches!(s.completion(&id, 0, 0), Err(RequestError::UnknownDocument)));
}

#[test]
fn completion_line_out_of_range_is_an_error() {
    let mut s = Session::new("o".to_string(), "r".to_string());
    s.open_document("doc".to_string(), "only line".to_string(), 1);
    let id = "doc".to_string();
    assert!(matches!(s.completion(&id, 9, 0), Err(RequestError::RangeOutOfBounds)));
}

#[test]
fn unrecognized_sigil_yields_empty_list() {
    let mut s = session_with_issue(issue(1, "anything", IssueState::Open, None));
    s.open_document("doc".to_string(), "plain %word".to_string(), 1);
    let id = "doc".to_string();
    match s.completion(&id, 0, 11) {
        Ok(CompletionOutcome::Items(items)) => assert!(items.is_empty()),
        other => panic!("expected items, got {:?}", other),
    }
}

#[test]
fn owner_search_with_empty_needle_returns_empty_without_remote_call() {
    let mut s = Session::new("o".to_string(), "r".to_string());
    s.open_document("doc".to_string(), "hi :".to_string(), 1);
    let id = "doc".to_string();
    // an empty needle (after stripping the sigil) is answered locally with
    // an empty list: no remote search directive is produced
    match s.completion(&id, 0, 4) {
        Ok(CompletionOutcome::Items(items)) => assert!(items.is_empty()),
        other => panic!("expected an immediate empty list, got {:?}", other),
    }
}

#[test]
fn owner_search_with_needle_asks_for_remote_search() {
    let mut s = Session::new("o".to_string(), "r".to_string());
    s.open_document("doc".to_string(), "hi :ab".to_string(), 1);
    let id = "doc".to_string();
    match s.completion(&id, 0, 6) {
        Ok(CompletionOutcome::RemoteSearch { needle, range }) => {
            assert_eq!(needle, "ab");
            assert_eq!(range, ReplaceRange { line: 0, start_col: 3, end_col: 6 });
        }
        other => panic!("expected a remote search directive, got {:?}", other),
    }
}

#[test]
fn owner_results_keep_prefix_matches_in_order() {
    let logins = vec!["abel".to_string(), "xyz".to_string(), "abby".to_string()];
    let range = ReplaceRange { line: 0, start_col: 3, end_col: 6 };
    let items = render_owner_results("ab", range, &logins);
    assert_eq!(items.len(), 2);
    assert_eq!(items[0].label, "abel");
    assert_eq!(items[0].new_text, "[abel](https://github.com/abel)");
    assert_eq!(items[1].label, "abby");
    assert_eq!(items[1].range, range);
}

#[test]
fn member_completion_renders_edit_snippet() {
    let mut s = Session::new("o".to_string(), "r".to_string());
    let mut st = PageLoop::start();
    assert!(s.ingest_member_page(&mut st, &Some(vec![Member { login: "octocat".to_string() }])));
    s.open_document("doc".to_string(), "ping @octo".to_string(), 1);
    let id = "doc".to_string();
    match s.completion(&id, 0, 10) {
        Ok(CompletionOutcome::Items(items)) => {
            assert_eq!(items.len(), 1);
            assert_eq!(items[0].label, "octocat");
            assert_eq!(items[0].detail.as_deref(), Some("octocat"));
            assert_eq!(items[0].new_text, "[octocat](https://github.com/octocat)");
        }
        other => panic!("expected items, got {:?}", other),
    }
}

#[test]
fn repo_completion_matches_on_detail() {
    let mut s = Session::new("o".to_string(), "r".to_string());
    let mut st = PageLoop::start();
    let repo = Repository {
        owner: "me".to_string(),
        name: "project".to_string(),
        description: Some("a demo".to_string()),
    };
    assert!(s.ingest_repo_page(&mut st, &Some(vec![repo])));
    s.open_document("doc".to_string(), "try /proj".to_string(), 1);
    let id = "doc".to_string();
    match s.completion(&id, 0, 9) {
        Ok(CompletionOutcome::Items(items)) => {
            assert_eq!(items.len(), 1);
            assert_eq!(items[0].label, "me/project");
            assert_eq!(
                items[0].new_text,
                "[me/project](https://github.com/me/project)"
            );
            assert_eq!(
                items[0].detail.as_deref(),
                Some("[me/project](https://github.com/me/project)\na demo")
            );
        }
        other => panic!("expected items, got {:?}", other),
    }
}

#[test]
fn wiki_completion_matches_on_title_and_has_no_detail() {
    let mut s = Session::new("o".to_string(), "r".to_string());
    let article = WikiArticle { title: "Roadmap".to_string(), uri: "/o/r/wiki/Roadmap".to_string() };
    s.ingest_wiki_articles(&vec![article]);
    s.open_document("doc".to_string(), "see [Road".to_string(), 1);
    let id = "doc".to_string();
    match s.completion(&id, 0, 9) {
        Ok(CompletionOutcome::Items(items)) => {
            assert_eq!(items.len(), 1);
            assert_eq!(items[0].label, "Roadmap");
            assert!(items[0].detail.is_none());
            assert_eq!(
                items[0].new_text,
                "[Roadmap](https://github.com/o/r/wiki/Roadmap)"
            );
        }
        other => panic!("expected items, got {:?}", other),
    }
}

#[test]
fn issue_completion_matches_needle_in_body() {
    // the filter scans the full detail text, so a needle occurring only in
    // the body still matches
    let mut s = session_with_issue(issue(
        8,
        "Unrelated title",
        IssueState::Open,
        Some("the cron schedule is wrong"),
    ));
    s.open_document("doc".to_string(), "see #cron".to_string(), 1);
    let id = "doc".to_string();
    match s.completion(&id, 0, 9) {
        Ok(CompletionOutcome::Items(items)) => {
            assert_eq!(items.len(), 1);
            assert_eq!(items[0].label, "#8 [Open] Unrelated title");
        }
        other => panic!("expected items, got {:?}", other),
    }
}

#[test]
fn completion_yields_one_item_per_matching_record() {
    let mut s = Session::new("o".to_string(), "r".to_string());
    let mut st = PageLoop::start();
    let page = vec![
        issue(1, "alpha fix", IssueState::Open, None),
        issue(2, "alpha polish", IssueState::Closed, None),
        issue(3, "unrelated", IssueState::Open, None),
    ];
    assert!(s.ingest_issue_page(&mut st, &Some(page)));
    s.open_document("doc".to_string(), "see #alpha".to_string(), 1);
    let id = "doc".to_string();
    match s.completion(&id, 0, 10) {
        Ok(CompletionOutcome::Items(items)) => {
            assert_eq!(items.len(), 2);
            let mut labels: Vec<&str> = items.iter().map(|e| e.label.as_str()).collect();
            labels.sort();
            assert_eq!(labels, vec!["#1 [Open] alpha fix", "#2 [Closed] alpha polish"]);
        }
        other => panic!("expected items, got {:?}", other),
    }
}
