//! The hover resolver: locate the markdown link around a cursor position,
//! classify its target, and render detail text from the caches (or ask for
//! a bounded remote user lookup).

use vstd::prelude::*;
use vstd::string::StrSliceExecFns;
use vstd::string::StringExecFns;

use crate::cache::{entity_map_entries, entity_map_view};
use crate::document::{line_at, line_exists, RequestError};
use crate::entity::{entity_detail_spec, entity_label_spec, Entity};
use crate::session::Session;
use crate::strutil::{
    contains_seq, last_path_segment, last_segment, remove_all, remove_occ, starts_with_seq,
    str_contains, str_eq, str_starts_with, str_trim, trim_spec,
};

verus! {

/// Greatest index `i <= pos` with an opening parenthesis, or `-1`.
pub open spec fn back_open(s: Seq<char>, pos: int) -> int
    decreases pos + 1,
{
    if pos < 0 || pos >= s.len() {
        -1
    } else if s[pos] == '(' {
        pos
    } else {
        back_open(s, pos - 1)
    }
}

/// Least index `i >= pos` holding `c`, or `-1`.
pub open spec fn fwd_find(s: Seq<char>, pos: int, c: char) -> int
    decreases s.len() - pos,
{
    if pos < 0 || pos >= s.len() {
        -1
    } else if s[pos] == c {
        pos
    } else {
        fwd_find(s, pos + 1, c)
    }
}

/// The span of the link text around `pos`: scan backward for the nearest
/// `(`; failing that, forward for the first `(` before the closing `)`
/// (this covers hovering the `[label]` part); the end is the first `)` at
/// or after `pos`. `None` when no span with start before end is found.
pub open spec fn link_span_spec(s: Seq<char>, pos: int) -> Option<(int, int)> {
    let e = fwd_find(s, pos, ')');
    let b = back_open(s, pos);
    let start = if b >= 0 {
        b + 1
    } else {
        let o = fwd_find(s, pos, '(');
        if o >= 0 && (e < 0 || o < e) {
            o + 1
        } else {
            -1
        }
    };
    if start >= 0 && e >= 0 && start < e {
        Some((start, e))
    } else {
        None
    }
}

proof fn lemma_back_open_bounds(s: Seq<char>, pos: int)
    requires
        0 <= pos < s.len(),
    ensures
        -1 <= back_open(s, pos) <= pos,
    decreases pos,
{
    if s[pos] != '(' {
        if pos > 0 {
            lemma_back_open_bounds(s, pos - 1);
        } else {
            assert(back_open(s, -1) == -1);
        }
    }
}

proof fn lemma_fwd_find_bounds(s: Seq<char>, pos: int, c: char)
    requires
        0 <= pos,
    ensures
        fwd_find(s, pos, c) == -1 || pos <= fwd_find(s, pos, c) < s.len(),
    decreases s.len() - pos,
{
    if pos < s.len() && s[pos] != c {
        lemma_fwd_find_bounds(s, pos + 1, c);
    }
}

fn scan_back_open(line: &str, pos: usize) -> (r: Option<usize>)
    requires
        pos < line@.len(),
    ensures
        match r {
            Some(i) => back_open(line@, pos as int) == i as int,
            None => back_open(line@, pos as int) == -1,
        },
{
    let mut i = pos;
    loop
        invariant
            i <= pos < line@.len(),
            back_open(line@, pos as int) == back_open(line@, i as int),
        decreases i,
    {
        if line.get_char(i) == '(' {
            return Some(i);
        }
        if i == 0 {
            proof {
                assert(back_open(line@, -1) == -1);
            }
            return None;
        }
        i -= 1;
    }
}

fn scan_fwd(line: &str, pos: usize, c: char) -> (r: Option<usize>)
    requires
        pos < line@.len(),
    ensures
        match r {
            Some(i) => fwd_find(line@, pos as int, c) == i as int && pos <= i < line@.len(),
            None => fwd_find(line@, pos as int, c) == -1,
        },
{
    let len = line.unicode_len();
    let mut i = pos;
    while i < len
        invariant
            pos <= i <= len,
            len == line@.len(),
            fwd_find(line@, pos as int, c) == fwd_find(line@, i as int, c),
        decreases len - i,
    {
        if line.get_char(i) == c {
            return Some(i);
        }
        i += 1;
    }
    None
}

/// Find the link span around `pos` in `line`.
pub fn find_link_span(line: &str, pos: usize) -> (r: Option<(usize, usize)>)
    requires
        pos < line@.len(),
    ensures
        match r {
            Some(span) => link_span_spec(line@, pos as int) == Some((span.0 as int, span.1 as int))
                && span.0 < span.1 < line@.len(),
            None => link_span_spec(line@, pos as int) is None,
        },
{
    let len = line.unicode_len();
    proof {
        lemma_back_open_bounds(line@, pos as int);
        lemma_fwd_find_bounds(line@, pos as int, ')');
        lemma_fwd_find_bounds(line@, pos as int, '(');
    }
    let e = match scan_fwd(line, pos, ')') {
        None => {
            return None;
        },
        Some(e) => e,
    };
    let start = match scan_back_open(line, pos) {
        Some(b) => b + 1,
        None => {
            match scan_fwd(line, pos, '(') {
                Some(o) if o < e => o + 1,
                _ => {
                    return None;
                },
            }
        },
    };
    if start < e {
        Some((start, e))
    } else {
        None
    }
}

/// What a hovered link points at, by its text: an issue id, a wiki page id,
/// a repository label, or a user login.
#[derive(Debug)]
pub enum HoverTarget {
    IssueRef(String),
    WikiRef(String),
    RepoRef(String),
    UserRef(String),
}

/// The link text with every occurrence of the service-host prefix removed.
pub open spec fn normalized_link(l: Seq<char>) -> Seq<char> {
    remove_occ(l, "https://github.com/"@)
}

/// Classify a hovered link: a link mentioning `issues` names an issue by
/// its final path segment; one mentioning `wiki` a wiki page; one with a
/// slash (owner/name shape) a repository by its whole normalized text; any
/// other names a user by its final segment.
pub fn classify_link(link: &str) -> (r: HoverTarget)
    ensures
        ({
            let n = normalized_link(link@);
            match r {
                HoverTarget::IssueRef(id) => contains_seq(n, "issues"@) && id@ == last_segment(n),
                HoverTarget::WikiRef(id) => !contains_seq(n, "issues"@) && contains_seq(n, "wiki"@)
                    && id@ == last_segment(n),
                HoverTarget::RepoRef(l) => !contains_seq(n, "issues"@) && !contains_seq(n, "wiki"@)
                    && contains_seq(n, "/"@) && l@ == n,
                HoverTarget::UserRef(login) => !contains_seq(n, "issues"@) && !contains_seq(
                    n,
                    "wiki"@,
                ) && !contains_seq(n, "/"@) && login@ == last_segment(n),
            }
        }),
{
    let n = remove_all(link, "https://github.com/");
    if str_contains(n.as_str(), "issues") {
        HoverTarget::IssueRef(last_path_segment(n.as_str()).to_owned())
    } else if str_contains(n.as_str(), "wiki") {
        HoverTarget::WikiRef(last_path_segment(n.as_str()).to_owned())
    } else if str_contains(n.as_str(), "/") {
        HoverTarget::RepoRef(n)
    } else {
        HoverTarget::UserRef(last_path_segment(n.as_str()).to_owned())
    }
}

/// The label prefix a cached issue is looked up by: `#<id> `.
pub open spec fn issue_hover_prefix(id: Seq<char>) -> Seq<char> {
    "#"@ + id + " "@
}

/// Some cached record's label begins with `#<id> `.
pub open spec fn issue_match_in(m: Map<Seq<char>, Entity>, id: Seq<char>) -> bool {
    exists|k: Seq<char>|
        #[trigger] m.dom().contains(k) && starts_with_seq(
            entity_label_spec(m[k]),
            issue_hover_prefix(id),
        )
}

/// `t` is the detail of some cached record whose label begins with `#<id> `.
pub open spec fn issue_hover_text_in(m: Map<Seq<char>, Entity>, id: Seq<char>, t: Seq<char>) -> bool {
    exists|k: Seq<char>|
        #[trigger] m.dom().contains(k) && starts_with_seq(
            entity_label_spec(m[k]),
            issue_hover_prefix(id),
        ) && t == entity_detail_spec(m[k])
}

/// Some cached record's label is exactly `l`.
pub open spec fn repo_match_in(m: Map<Seq<char>, Entity>, l: Seq<char>) -> bool {
    exists|k: Seq<char>| #[trigger] m.dom().contains(k) && entity_label_spec(m[k]) == l
}

/// `t` is the detail of some cached record whose label is exactly `l`.
pub open spec fn repo_hover_text_in(m: Map<Seq<char>, Entity>, l: Seq<char>, t: Seq<char>) -> bool {
    exists|k: Seq<char>|
        #[trigger] m.dom().contains(k) && entity_label_spec(m[k]) == l && t == entity_detail_spec(
            m[k],
        )
}

/// The placeholder text for a hovered wiki link.
pub open spec fn wiki_hover_spec(id: Seq<char>) -> Seq<char> {
    "# Wiki article "@ + id
}

/// The text for a hovered user link, from the login the remote search
/// returned.
pub open spec fn user_hover_spec(login: Seq<char>) -> Seq<char> {
    "# User "@ + login
}

/// Render the hover text for a user login the remote search returned.
pub fn user_hover_text(login: &str) -> (r: String)
    ensures
        r@ == user_hover_spec(login@),
{
    let mut r = String::from_str("# User ");
    r.append(login);
    r
}

fn wiki_hover_text(id: &str) -> (r: String)
    ensures
        r@ == wiki_hover_spec(id@),
{
    let mut r = String::from_str("# Wiki article ");
    r.append(id);
    r
}

/// Search a cache for a record whose label starts with `#<id> `; the detail
/// of one such record, if any matches.
fn issue_hover(m: &dashmap::DashMap<String, Entity>, id: &str) -> (r: Option<String>)
    ensures
        match r {
            Some(t) => issue_hover_text_in(entity_map_view(*m), id@, t@),
            None => !issue_match_in(entity_map_view(*m), id@),
        },
{
    let ghost view = entity_map_view(*m);
    let mut prefix = String::from_str("#");
    prefix.append(id);
    prefix.append(" ");
    assert(prefix@ == issue_hover_prefix(id@));
    let entries = entity_map_entries(m);
    let mut found: Option<String> = None;
    let mut i: usize = 0;
    while i < entries.len()
        invariant
            i <= entries@.len(),
            prefix@ == issue_hover_prefix(id@),
            forall|t: int|
                0 <= t < entries@.len() ==> view.contains_pair(
                    (#[trigger] entries@[t]).0@,
                    entries@[t].1,
                ),
            forall|k: Seq<char>|
                #[trigger] view.dom().contains(k) ==> exists|t: int|
                    0 <= t < entries@.len() && entries@[t].0@ == k,
            match found {
                Some(t) => issue_hover_text_in(view, id@, t@),
                None => forall|t: int|
                    0 <= t < i ==> !starts_with_seq(
                        entity_label_spec((#[trigger] entries@[t]).1),
                        issue_hover_prefix(id@),
                    ),
            },
        decreases entries@.len() - i,
    {
        let label = entries[i].1.get_label();
        if str_starts_with(label.as_str(), prefix.as_str()) {
            proof {
                let kk = entries@[i as int].0@;
                assert(view.contains_pair(kk, entries@[i as int].1));
            }
            found = Some(entries[i].1.get_detail());
        }
        i += 1;
    }
    proof {
        if found is None {
            assert forall|k: Seq<char>| #[trigger] view.dom().contains(k) implies !starts_with_seq(
                entity_label_spec(view[k]),
                issue_hover_prefix(id@),
            ) by {
                let t = choose|t: int| 0 <= t < entries@.len() && (#[trigger] entries@[t]).0@ == k;
                assert(view.contains_pair(entries@[t].0@, entries@[t].1));
                assert(view[k] == entries@[t].1);
            }
        }
    }
    found
}

/// Search a cache for a record whose label equals `l`; the detail of one
/// such record, if any matches.
fn repo_hover(m: &dashmap::DashMap<String, Entity>, l: &str) -> (r: Option<String>)
    ensures
        match r {
            Some(t) => repo_hover_text_in(entity_map_view(*m), l@, t@),
            None => !repo_match_in(entity_map_view(*m), l@),
        },
{
    let ghost view = entity_map_view(*m);
    let entries = entity_map_entries(m);
    let mut found: Option<String> = None;
    let mut i: usize = 0;
    while i < entries.len()
        invariant
            i <= entries@.len(),
            forall|t: int|
                0 <= t < entries@.len() ==> view.contains_pair(
                    (#[trigger] entries@[t]).0@,
                    entries@[t].1,
                ),
            forall|k: Seq<char>|
                #[trigger] view.dom().contains(k) ==> exists|t: int|
                    0 <= t < entries@.len() && entries@[t].0@ == k,
            match found {
                Some(t) => repo_hover_text_in(view, l@, t@),
                None => forall|t: int|
                    0 <= t < i ==> entity_label_spec((#[trigger] entries@[t]).1) != l@,
            },
        decreases entries@.len() - i,
    {
        let label = entries[i].1.get_label();
        if str_eq(label.as_str(), l) {
            proof {
                let kk = entries@[i as int].0@;
                assert(view.contains_pair(kk, entries@[i as int].1));
            }
            found = Some(entries[i].1.get_detail());
        }
        i += 1;
    }
    proof {
        if found is None {
            assert forall|k: Seq<char>| #[trigger] view.dom().contains(k) implies entity_label_spec(
                view[k],
            ) != l@ by {
                let t = choose|t: int| 0 <= t < entries@.len() && (#[trigger] entries@[t]).0@ == k;
                assert(view.contains_pair(entries@[t].0@, entries@[t].1));
                assert(view[k] == entries@[t].1);
            }
        }
    }
    found
}

/// A hover answer: rendered markdown, a request for a remote user lookup
/// (the transport performs it and renders with `user_hover_text`), graceful
/// no-content for a link absent from the caches, or `NoSpan` — no valid
/// link span was found around the cursor, which the transport logs for
/// diagnostics and likewise answers with no content.
#[derive(Debug)]
pub enum HoverOutcome {
    Markup(String),
    NeedsUserLookup(String),
    NoContent,
    NoSpan,
}

/// What a hover over link text `link` resolves to, given the issue and
/// repository caches.
pub open spec fn hover_resolution(
    issues: Map<Seq<char>, Entity>,
    repos: Map<Seq<char>, Entity>,
    link: Seq<char>,
    r: HoverOutcome,
) -> bool {
    let n = normalized_link(link);
    if contains_seq(n, "issues"@) {
        match r {
            HoverOutcome::Markup(t) => issue_hover_text_in(issues, last_segment(n), t@),
            HoverOutcome::NoContent => !issue_match_in(issues, last_segment(n)),
            _ => false,
        }
    } else if contains_seq(n, "wiki"@) {
        match r {
            HoverOutcome::Markup(t) => t@ == wiki_hover_spec(last_segment(n)),
            _ => false,
        }
    } else if contains_seq(n, "/"@) {
        match r {
            HoverOutcome::Markup(t) => repo_hover_text_in(repos, n, t@),
            HoverOutcome::NoContent => !repo_match_in(repos, n),
            _ => false,
        }
    } else {
        match r {
            HoverOutcome::NeedsUserLookup(login) => login@ == last_segment(n),
            _ => false,
        }
    }
}

impl Session {
    /// Resolve a hover over the extracted link text: issue and repository
    /// links are answered from the caches (absence is graceful no-content),
    /// wiki links get a placeholder, anything else asks the transport for a
    /// best-effort remote user lookup.
    pub fn on_hover(&self, link: &str) -> (r: HoverOutcome)
        ensures
            hover_resolution(self.issues_view(), self.repos_view(), link@, r),
    {
        match classify_link(link) {
            HoverTarget::IssueRef(id) => {
                match issue_hover(&self.issues, id.as_str()) {
                    Some(t) => HoverOutcome::Markup(t),
                    None => HoverOutcome::NoContent,
                }
            },
            HoverTarget::WikiRef(id) => HoverOutcome::Markup(wiki_hover_text(id.as_str())),
            HoverTarget::RepoRef(l) => {
                match repo_hover(&self.repos, l.as_str()) {
                    Some(t) => HoverOutcome::Markup(t),
                    None => HoverOutcome::NoContent,
                }
            },
            HoverTarget::UserRef(login) => HoverOutcome::NeedsUserLookup(login),
        }
    }

    /// Answer a hover request at (line_no, col): look the line up, trim it,
    /// find the link span around the cursor, and resolve it. A cursor
    /// outside the trimmed line or away from any link yields the graceful
    /// `NoSpan` outcome (the transport logs the anomalous span and returns
    /// no content); an unknown document or line is a request error.
    pub fn hover(&self, id: &String, line_no: usize, col: usize) -> (r: Result<
        HoverOutcome,
        RequestError,
    >)
        ensures
            match r {
                Err(RequestError::UnknownDocument) => !self.docs_view().dom().contains(id@),
                Err(RequestError::RangeOutOfBounds) => self.docs_view().dom().contains(id@)
                    && !line_exists(self.docs_view()[id@].content@, line_no as int),
                Ok(outcome) => self.docs_view().dom().contains(id@) && line_exists(
                    self.docs_view()[id@].content@,
                    line_no as int,
                ) && ({
                    let t = trim_spec(line_at(self.docs_view()[id@].content@, line_no as int));
                    if col as int >= t.len() {
                        outcome is NoSpan
                    } else {
                        match link_span_spec(t, col as int) {
                            None => outcome is NoSpan,
                            Some(span) => hover_resolution(
                                self.issues_view(),
                                self.repos_view(),
                                t.subrange(span.0, span.1),
                                outcome,
                            ),
                        }
                    }
                }),
            },
    {
        let line = match self.get_line(id, line_no) {
            Err(e) => {
                return Err(e);
            },
            Ok(line) => line,
        };
        let trimmed = str_trim(line.as_str());
        if col >= trimmed.unicode_len() {
            return Ok(HoverOutcome::NoSpan);
        }
        match find_link_span(trimmed, col) {
            None => Ok(HoverOutcome::NoSpan),
            Some((a, b)) => {
                let link = trimmed.substring_char(a, b);
                Ok(self.on_hover(link))
            },
        }
    }
}

} // verus!
