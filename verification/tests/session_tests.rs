use gh_lsp::cache::entity_map_entries;
use gh_lsp::entity::{Entity, Issue, IssueState, Member};
use gh_lsp::gh::{parse_owner_name, token_from_output, GitHubCLIError};
use gh_lsp::session::{PageLoop, Session};
use gh_lsp::wiki::wiki_articles_from_html;

fn issue(number: u64, title: &str) -> Issue {
    Issue {
        number,
        state: IssueState::Open,
        title: title.to_string(),
        body: None,
        url: format!("https://api.github.com/repos/o/r/issues/{}", number),
    }
}

#[test]
fn two_full_pages_then_empty_page_yield_two_hundred_entries() {
    let mut s = Session::new("o".to_string(), "r".to_string());
    let mut st = PageLoop::start();

    let page1: Vec<Issue> = (0..100).map(|n| issue(n, &format!("issue {}", n))).collect();
    assert!(s.ingest_issue_page(&mut st, &Some(page1)));
    assert_eq!(st.next_page, 1);

    let page2: Vec<Issue> = (100..200).map(|n| issue(n, &format!("issue {}", n))).collect();
    assert!(s.ingest_issue_page(&mut st, &Some(page2)));
    assert_eq!(st.next_page, 2);

    let page3: Vec<Issue> = Vec::new();
    assert!(!s.ingest_issue_page(&mut st, &Some(page3)));
    assert!(st.done);

    assert_eq!(entity_map_entries(&s.issues).len(), 200);
}

#[test]
fn duplicate_keys_resolve_last_writer_wins() {
    let mut s = Session::new("o".to_string(), "r".to_string());
    let mut st = PageLoop::start();
    let page = vec![issue(1, "same title"), issue(2, "same title")];
    assert!(s.ingest_issue_page(&mut st, &Some(page)));
    let entries = entity_map_entries(&s.issues);
    assert_eq!(entries.len(), 1);
    match &entries[0].1 {
        Entity::Issue(i) => assert_eq!(i.number, 2),
        other => panic!("expected an issue, got {:?}", other),
    }
}

#[test]
fn provider_error_stops_the_loop_keeping_partial_results() {
    let mut s = Session::new("o".to_string(), "r".to_string());
    let mut st = PageLoop::start();
    assert!(s.ingest_member_page(&mut st, &Some(vec![Member { login: "kept".to_string() }])));
    assert!(!s.ingest_member_page(&mut st, &None));
    assert!(st.done);
    let entries = entity_map_entries(&s.members);
    assert_eq!(entries.len(), 1);
    assert_eq!(entries[0].0, "kept");
}

#[test]
fn empty_first_page_leaves_cache_empty_and_stops() {
    let mut s = Session::new("o".to_string(), "r".to_string());
    let mut st = PageLoop::start();
    assert!(!s.ingest_member_page(&mut st, &Some(Vec::new())));
    assert!(st.done);
    assert_eq!(st.next_page, 0);
    assert!(entity_map_entries(&s.members).is_empty());
}

#[test]
fn wiki_index_page_is_filtered_and_home_entry_added() {
    let html = "<html><body>\
        <a href=\"/o/r/wiki/Alpha\">Alpha</a>\
        <a href=\"/o/r/wiki/_new\">New page</a>\
        <a href=\"https://elsewhere.example\">External</a>\
        <a name=\"no-href\">Skip</a>\
        </body></html>";
    let articles = wiki_articles_from_html(html, "o", "r");
    assert_eq!(articles.len(), 2);
    assert_eq!(articles[0].title, "Alpha");
    assert_eq!(articles[0].uri, "/o/r/wiki/Alpha");
    assert_eq!(articles[1].title, "Home");
    assert_eq!(articles[1].uri, "/o/r/wiki");

    let mut s = Session::new("o".to_string(), "r".to_string());
    s.ingest_wiki_articles(&articles);
    assert_eq!(entity_map_entries(&s.wikis).len(), 2);
}

#[test]
fn owner_name_output_is_split_at_the_first_line_break() {
    let parsed = parse_owner_name("  the-owner\nthe-repo\n");
    assert_eq!(parsed, Ok(("the-owner".to_string(), "the-repo".to_string())));
}

#[test]
fn owner_name_output_without_line_break_is_refused() {
    assert_eq!(parse_owner_name("just-one-field"), Err(GitHubCLIError::NoOwner));
}

#[test]
fn token_output_is_trimmed() {
    assert_eq!(token_from_output("  gho_token123\n"), "gho_token123");
}

#[test]
fn cli_error_messages() {
    assert_eq!(GitHubCLIError::NoToken.message(), "No Token found");
    assert_eq!(GitHubCLIError::NoOwner.message(), "No Owner found");
}
