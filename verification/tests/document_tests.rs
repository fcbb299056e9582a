use gh_lsp::document::{Buffer, Edit, EditRange, RequestError};
use gh_lsp::session::Session;

fn edit_full(text: &str) -> Edit {
    Edit { range: None, text: text.to_string() }
}

fn edit_range(sl: usize, sc: usize, el: usize, ec: usize, text: &str) -> Edit {
    Edit {
        range: Some(EditRange { start_line: sl, start_col: sc, end_line: el, end_col: ec }),
        text: text.to_string(),
    }
}

#[test]
fn full_replace_discards_prior_content() {
    let mut b = Buffer::open("old content\nwith lines".to_string(), 1);
    let r = b.apply_edit(&edit_full("brand new"));
    assert!(r.is_ok());
    assert_eq!(b.content, "brand new");
}

#[test]
fn ranged_edit_splices_within_line() {
    let mut b = Buffer::open("hello world".to_string(), 1);
    let r = b.apply_edit(&edit_range(0, 6, 0, 11, "there"));
    assert!(r.is_ok());
    assert_eq!(b.content, "hello there");
}

#[test]
fn ranged_edit_across_lines() {
    let mut b = Buffer::open("first line\nsecond line\nthird line".to_string(), 1);
    let r = b.apply_edit(&edit_range(0, 5, 2, 5, "-"));
    assert!(r.is_ok());
    assert_eq!(b.content, "first- line");
}

#[test]
fn ranged_edit_insertion_at_point() {
    let mut b = Buffer::open("ab\ncd".to_string(), 1);
    let r = b.apply_edit(&edit_range(1, 1, 1, 1, "X"));
    assert!(r.is_ok());
    assert_eq!(b.content, "ab\ncXd");
}

#[test]
fn ranged_edit_out_of_bounds_line_is_refused() {
    let mut b = Buffer::open("one line".to_string(), 1);
    let r = b.apply_edit(&edit_range(3, 0, 3, 0, "x"));
    assert_eq!(r, Err(RequestError::RangeOutOfBounds));
    assert_eq!(b.content, "one line");
}

#[test]
fn ranged_edit_out_of_bounds_column_is_refused() {
    let mut b = Buffer::open("short".to_string(), 1);
    let r = b.apply_edit(&edit_range(0, 0, 0, 99, "x"));
    assert_eq!(r, Err(RequestError::RangeOutOfBounds));
    assert_eq!(b.content, "short");
}

#[test]
fn batch_equals_one_at_a_time_on_evolving_content() {
    // The same edits applied as one batch and applied singly, in arrival
    // order, give the same final content.
    let edits = vec![
        edit_full("The quick fox"),
        edit_range(0, 4, 0, 9, "slow"),
        edit_range(0, 0, 0, 3, "A"),
        edit_range(0, 10, 0, 10, " runs"),
    ];

    let mut batch = Buffer::open("ignored".to_string(), 0);
    assert!(batch.apply_edits(&edits, 7).is_ok());

    let mut single = Buffer::open("ignored".to_string(), 0);
    for e in &edits {
        let one = vec![Edit { range: e.range, text: e.text.clone() }];
        assert!(single.apply_edits(&one, 7).is_ok());
    }

    assert_eq!(batch.content, single.content);
    assert_eq!(batch.content, "A slow fox runs");
}

#[test]
fn failing_batch_leaves_buffer_unchanged() {
    let mut b = Buffer::open("abc".to_string(), 1);
    let edits = vec![edit_full("xyz"), edit_range(5, 0, 5, 0, "!")];
    let r = b.apply_edits(&edits, 2);
    assert_eq!(r, Err(RequestError::RangeOutOfBounds));
    assert_eq!(b.content, "abc");
    assert_eq!(b.version, 1);
}

#[test]
fn line_queries_exclude_terminators() {
    let b = Buffer::open("alpha\nbeta\n".to_string(), 1);
    assert_eq!(b.line(0), Some("alpha"));
    assert_eq!(b.line(1), Some("beta"));
    // the trailing newline opens one further, empty line
    assert_eq!(b.line(2), Some(""));
    assert_eq!(b.line(3), None);
}

#[test]
fn session_document_store_round_trip() {
    let mut s = Session::new("owner".to_string(), "repo".to_string());
    s.open_document("file:///a.md".to_string(), "first\nsecond".to_string(), 1);
    let id = "file:///a.md".to_string();
    assert_eq!(s.get_line(&id, 0), Ok("first".to_string()));
    assert_eq!(s.get_line(&id, 1), Ok("second".to_string()));
    assert_eq!(s.get_line(&id, 2), Err(RequestError::RangeOutOfBounds));
    let missing = "file:///nope.md".to_string();
    assert_eq!(s.get_line(&missing, 0), Err(RequestError::UnknownDocument));

    let r = s.apply_edits(&id, &vec![edit_range(0, 0, 0, 5, "FIRST")], 2);
    assert!(r.is_ok());
    assert_eq!(s.get_line(&id, 0), Ok("FIRST".to_string()));

    let r = s.apply_edits(&missing, &vec![edit_full("x")], 2);
    assert_eq!(r, Err(RequestError::UnknownDocument));
}

#[test]
fn request_error_messages() {
    assert_eq!(RequestError::UnknownDocument.message(), "unknown document");
    assert_eq!(RequestError::RangeOutOfBounds.message(), "range out of bounds");
}

#[test]
fn empty_document_has_one_empty_line() {
    let b = Buffer::open(String::new(), 1);
    assert_eq!(b.line(0), Some(""));
    assert_eq!(b.line(1), None);
}
