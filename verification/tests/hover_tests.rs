use gh_lsp::document::RequestError;
use gh_lsp::entity::{Issue, IssueState, Repository};
use gh_lsp::hover::{user_hover_text, HoverOutcome};
use gh_lsp::session::{PageLoop, Session};

fn issue(number: u64, title: &str, state: IssueState, body: Option<&str>) -> Issue {
    Issue {
        number,
        state,
        title: title.to_string(),
        body: body.map(|b| b.to_string()),
        url: format!("https://api.github.com/repos/o/r/issues/{}", number),
    }
}

#[test]
fn hover_over_issue_link_returns_cached_detail() {
    let mut s = Session::new("o".to_string(), "r".to_string());
    let mut st = PageLoop::start();
    assert!(s.ingest_issue_page(
        &mut st,
        &Some(vec![issue(42, "Add integration test for cron job", IssueState::Open, None)])
    ));
    s.open_document("doc".to_string(), "[#42](../../issues/42)".to_string(), 1);
    let id = "doc".to_string();
    match s.hover(&id, 0, 8) {
        Ok(HoverOutcome::Markup(t)) => assert!(t.contains("#42")),
        other => panic!("expected markup, got {:?}", other),
    }
}

#[test]
fn hover_over_label_part_finds_the_link() {
    let mut s = Session::new("o".to_string(), "r".to_string());
    let mut st = PageLoop::start();
    assert!(s.ingest_issue_page(
        &mut st,
        &Some(vec![issue(42, "A title", IssueState::Closed, Some("the body"))])
    ));
    s.open_document("doc".to_string(), "[#42](../../issues/42)".to_string(), 1);
    let id = "doc".to_string();
    // cursor on the `[label]` part, before the parenthesis
    match s.hover(&id, 0, 2) {
        Ok(HoverOutcome::Markup(t)) => {
            assert_eq!(t, "# #42 [Closed] A title\n\nthe body");
        }
        other => panic!("expected markup, got {:?}", other),
    }
}

#[test]
fn hover_issue_absent_from_cache_fails_gracefully() {
    let mut s = Session::new("o".to_string(), "r".to_string());
    s.open_document("doc".to_string(), "[#9](../../issues/9)".to_string(), 1);
    let id = "doc".to_string();
    assert!(matches!(s.hover(&id, 0, 7), Ok(HoverOutcome::NoContent)));
}

#[test]
fn hover_wiki_link_renders_placeholder() {
    let mut s = Session::new("o".to_string(), "r".to_string());
    s.open_document("doc".to_string(), "[w](../../wiki/Roadmap)".to_string(), 1);
    let id = "doc".to_string();
    match s.hover(&id, 0, 6) {
        Ok(HoverOutcome::Markup(t)) => assert_eq!(t, "# Wiki article Roadmap"),
        other => panic!("expected markup, got {:?}", other),
    }
}

#[test]
fn hover_repo_link_returns_cached_detail() {
    let mut s = Session::new("o".to_string(), "r".to_string());
    let mut st = PageLoop::start();
    let repo = Repository {
        owner: "me".to_string(),
        name: "project".to_string(),
        description: None,
    };
    assert!(s.ingest_repo_page(&mut st, &Some(vec![repo])));
    s.open_document(
        "doc".to_string(),
        "[r](https://github.com/me/project)".to_string(),
        1,
    );
    let id = "doc".to_string();
    match s.hover(&id, 0, 8) {
        Ok(HoverOutcome::Markup(t)) => {
            assert_eq!(t, "[me/project](https://github.com/me/project)\nNo description.");
        }
        other => panic!("expected markup, got {:?}", other),
    }
}

#[test]
fn hover_plain_name_asks_for_remote_user_lookup() {
    let mut s = Session::new("o".to_string(), "r".to_string());
    s.open_document("doc".to_string(), "[u](someone)".to_string(), 1);
    let id = "doc".to_string();
    match s.hover(&id, 0, 6) {
        Ok(HoverOutcome::NeedsUserLookup(login)) => assert_eq!(login, "someone"),
        other => panic!("expected a user lookup, got {:?}", other),
    }
}

#[test]
fn user_hover_text_renders_login() {
    assert_eq!(user_hover_text("someone"), "# User someone");
}

#[test]
fn hover_without_any_link_reports_a_missing_span() {
    let mut s = Session::new("o".to_string(), "r".to_string());
    s.open_document("doc".to_string(), "no link here".to_string(), 1);
    let id = "doc".to_string();
    assert!(matches!(s.hover(&id, 0, 4), Ok(HoverOutcome::NoSpan)));
}

#[test]
fn hover_cursor_beyond_trimmed_line_reports_a_missing_span() {
    let mut s = Session::new("o".to_string(), "r".to_string());
    s.open_document("doc".to_string(), "  [#4](../../issues/4)   ".to_string(), 1);
    let id = "doc".to_string();
    assert!(matches!(s.hover(&id, 0, 24), Ok(HoverOutcome::NoSpan)));
}

#[test]
fn hover_unknown_document_is_an_error() {
    let s = Session::new("o".to_string(), "r".to_string());
    let id = "absent".to_string();
    assert!(matches!(s.hover(&id, 0, 0), Err(RequestError::UnknownDocument)));
}

#[test]
fn hover_line_out_of_range_is_an_error() {
    let mut s = Session::new("o".to_string(), "r".to_string());
    s.open_document("doc".to_string(), "one".to_string(), 1);
    let id = "doc".to_string();
    assert!(matches!(s.hover(&id, 5, 0), Err(RequestError::RangeOutOfBounds)));
}

#[test]
fn hover_on_empty_parentheses_reports_a_missing_span() {
    let mut s = Session::new("o".to_string(), "r".to_string());
    s.open_document("doc".to_string(), "()".to_string(), 1);
    let id = "doc".to_string();
    assert!(matches!(s.hover(&id, 0, 0), Ok(HoverOutcome::NoSpan)));
}
