//! The completion synthesizer: filter the cache a sigil selects by the
//! needle and render each surviving record as a completion entry.
//!
//! The filter policy, applied uniformly to all four local caches, is
//! substring containment of the needle in the record's detail text.

use vstd::prelude::*;
use vstd::string::StrSliceExecFns;

use crate::cache::{entity_map_entries, entity_map_view};
use crate::document::{line_at, line_exists, RequestError};
use crate::entity::{
    entity_detail_spec, entity_edit_spec, entity_label_spec, Entity, Member,
};
use crate::session::Session;
use crate::strutil::{
    contains_seq, remove_all, remove_occ, starts_with_seq, str_contains, str_starts_with,
};
use crate::trigger::{
    clamp_col, needle_of, parse_trigger, range_start_spec, sigil_of, word_of, ReplaceRange,
};

verus! {

/// One rendered completion: a label shown in the list, an optional detail
/// text, and the edit to apply over `range` on acceptance.
#[derive(Debug)]
pub struct CompletionEntry {
    pub label: String,
    pub detail: Option<String>,
    pub range: ReplaceRange,
    pub new_text: String,
}

/// Whether a record survives the needle filter: the needle occurs in the
/// record's detail text.
pub open spec fn entity_matches(e: Entity, needle: Seq<char>) -> bool {
    contains_seq(entity_detail_spec(e), needle)
}

/// `ent` is the rendering of record `e` with replacement span `range`. A
/// wiki entry carries no detail text; every other kind carries its detail.
pub open spec fn renders(ent: CompletionEntry, e: Entity, range: ReplaceRange) -> bool {
    &&& ent.label@ == entity_label_spec(e)
    &&& (match ent.detail {
        Some(d) => !(e is Wiki) && d@ == entity_detail_spec(e),
        None => e is Wiki,
    })
    &&& ent.new_text@ == entity_edit_spec(e)
    &&& ent.range == range
}

/// `ent` renders some record of `m` that matches the needle.
pub open spec fn renders_some_match(
    m: Map<Seq<char>, Entity>,
    needle: Seq<char>,
    range: ReplaceRange,
    ent: CompletionEntry,
) -> bool {
    exists|k: Seq<char>|
        #[trigger] m.dom().contains(k) && entity_matches(m[k], needle) && renders(ent, m[k], range)
}

/// Some entry of `out` renders the record `e`.
pub open spec fn rendered_in(out: Seq<CompletionEntry>, e: Entity, range: ReplaceRange) -> bool {
    exists|j: int| 0 <= j < out.len() && renders(#[trigger] out[j], e, range)
}

/// The keys of the cached records that match the needle.
pub open spec fn matching_keys(m: Map<Seq<char>, Entity>, needle: Seq<char>) -> Set<Seq<char>> {
    m.dom().filter(|k: Seq<char>| entity_matches(m[k], needle))
}

/// `out` is a completion answer for cache contents `m`: every entry renders
/// a record of `m` that matches the needle, every matching record of `m` is
/// rendered by some entry, and there are exactly as many entries as
/// matching records — one per matching key. The order is the cache's
/// iteration order, which is unspecified; no ranking is applied.
pub open spec fn completion_set(
    m: Map<Seq<char>, Entity>,
    needle: Seq<char>,
    range: ReplaceRange,
    out: Seq<CompletionEntry>,
) -> bool {
    &&& (forall|j: int| 0 <= j < out.len() ==> renders_some_match(m, needle, range, #[trigger] out[j]))
    &&& (forall|k: Seq<char>|
        #[trigger] m.dom().contains(k) && entity_matches(m[k], needle) ==> rendered_in(
            out,
            m[k],
            range,
        ))
    &&& out.len() == matching_keys(m, needle).len()
}

/// Filter one cache by the needle and render the survivors.
#[verifier::rlimit(50)]
fn render_cache(
    m: &dashmap::DashMap<String, Entity>,
    needle: &str,
    range: ReplaceRange,
) -> (out: Vec<CompletionEntry>)
    ensures
        completion_set(entity_map_view(*m), needle@, range, out@),
{
    let ghost view = entity_map_view(*m);
    let entries = entity_map_entries(m);
    let mut out: Vec<CompletionEntry> = Vec::new();
    let mut i: usize = 0;
    let ghost mut seen: Set<Seq<char>> = Set::empty();
    while i < entries.len()
        invariant
            i <= entries@.len(),
            forall|a: int, b: int|
                0 <= a < b < entries@.len() ==> (#[trigger] entries@[a]).0@ != (
                #[trigger] entries@[b]).0@,
            forall|t: int|
                0 <= t < entries@.len() ==> view.contains_pair(
                    (#[trigger] entries@[t]).0@,
                    entries@[t].1,
                ),
            forall|k: Seq<char>|
                #[trigger] view.dom().contains(k) ==> exists|t: int|
                    0 <= t < entries@.len() && entries@[t].0@ == k,
            forall|j: int|
                0 <= j < out@.len() ==> renders_some_match(view, needle@, range, #[trigger] out@[j]),
            forall|t: int|
                0 <= t < i && entity_matches((#[trigger] entries@[t]).1, needle@) ==> rendered_in(
                    out@,
                    entries@[t].1,
                    range,
                ),
            seen.finite(),
            out@.len() == seen.len(),
            forall|k: Seq<char>|
                #[trigger] seen.contains(k) ==> view.dom().contains(k) && entity_matches(
                    view[k],
                    needle@,
                ),
            forall|k: Seq<char>|
                #[trigger] seen.contains(k) ==> exists|t: int|
                    0 <= t < i && (#[trigger] entries@[t]).0@ == k,
            forall|t: int|
                0 <= t < i && entity_matches((#[trigger] entries@[t]).1, needle@)
                    ==> seen.contains(entries@[t].0@),
        decreases entries@.len() - i,
    {
        let detail_txt = entries[i].1.get_detail();
        if str_contains(detail_txt.as_str(), needle) {
            let label = entries[i].1.get_label();
            let new_text = entries[i].1.get_edit();
            let is_wiki = matches!(&entries[i].1, Entity::Wiki(_));
            let detail = if is_wiki {
                None
            } else {
                Some(detail_txt)
            };
            let entry = CompletionEntry { label, detail, range, new_text };
            let ghost before = out@;
            proof {
                let kk = entries@[i as int].0@;
                assert(view.contains_pair(kk, entries@[i as int].1));
                assert(view.dom().contains(kk) && view[kk] == entries@[i as int].1);
                assert(entity_matches(view[kk], needle@));
                assert(renders(entry, view[kk], range));
            }
            out.push(entry);
            proof {
                let kk = entries@[i as int].0@;
                assert(!seen.contains(kk)) by {
                    if seen.contains(kk) {
                        let t = choose|t: int|
                            0 <= t < i && (#[trigger] entries@[t]).0@ == kk;
                        assert(entries@[t].0@ != entries@[i as int].0@);
                    }
                }
                vstd::set::axiom_set_insert_len(seen, kk);
                seen = seen.insert(kk);
                let last = out@.len() - 1;
                assert(out@ =~= before.push(entry));
                assert(out@[last] == entry);
                assert forall|j: int|
                    0 <= j < out@.len() implies renders_some_match(
                    view,
                    needle@,
                    range,
                    #[trigger] out@[j],
                ) by {
                    if j < last {
                        assert(out@[j] == before[j]);
                    } else {
                        assert(view.dom().contains(kk) && entity_matches(view[kk], needle@)
                            && renders(out@[j], view[kk], range));
                    }
                }
                assert forall|t: int|
                    0 <= t < i + 1 && entity_matches(
                        (#[trigger] entries@[t]).1,
                        needle@,
                    ) implies rendered_in(out@, entries@[t].1, range) by {
                    if t < i {
                        let j = choose|j: int|
                            0 <= j < before.len() && renders(#[trigger] before[j], entries@[t].1, range);
                        assert(out@[j] == before[j]);
                        assert(renders(out@[j], entries@[t].1, range));
                    } else {
                        assert(renders(out@[last], entries@[t].1, range));
                    }
                }
            }
        } else {
            proof {
                assert(!entity_matches(entries@[i as int].1, needle@));
            }
        }
        i += 1;
    }
    proof {
        assert forall|k: Seq<char>|
            #[trigger] view.dom().contains(k) && entity_matches(view[k], needle@) implies rendered_in(
            out@,
            view[k],
            range,
        ) by {
            let t = choose|t: int| 0 <= t < entries@.len() && (#[trigger] entries@[t]).0@ == k;
            assert(view.contains_pair(entries@[t].0@, entries@[t].1));
            assert(view[k] == entries@[t].1);
        }
        assert forall|k: Seq<char>|
            matching_keys(view, needle@).contains(k) implies seen.contains(k) by {
            assert(view.dom().contains(k) && entity_matches(view[k], needle@));
            let t = choose|t: int| 0 <= t < entries@.len() && (#[trigger] entries@[t]).0@ == k;
            assert(view.contains_pair(entries@[t].0@, entries@[t].1));
            assert(entity_matches(entries@[t].1, needle@));
        }
        assert forall|k: Seq<char>| seen.contains(k) implies matching_keys(
            view,
            needle@,
        ).contains(k) by {
            assert(view.dom().contains(k) && entity_matches(view[k], needle@));
        }
        assert(seen =~= matching_keys(view, needle@));
    }
    out
}

impl Session {
    /// `#`: completions from the issue cache.
    pub fn search_issue_and_pr(&self, needle: &str, range: ReplaceRange) -> (r: Vec<
        CompletionEntry,
    >)
        ensures
            completion_set(self.issues_view(), needle@, range, r@),
    {
        render_cache(&self.issues, needle, range)
    }

    /// `@`: completions from the member cache.
    pub fn search_user(&self, needle: &str, range: ReplaceRange) -> (r: Vec<CompletionEntry>)
        ensures
            completion_set(self.members_view(), needle@, range, r@),
    {
        render_cache(&self.members, needle, range)
    }

    /// `[`: completions from the wiki cache.
    pub fn search_wiki(&self, needle: &str, range: ReplaceRange) -> (r: Vec<CompletionEntry>)
        ensures
            completion_set(self.wikis_view(), needle@, range, r@),
    {
        render_cache(&self.wikis, needle, range)
    }

    /// `/`: completions from the repository cache.
    pub fn search_repo(&self, needle: &str, range: ReplaceRange) -> (r: Vec<CompletionEntry>)
        ensures
            completion_set(self.repos_view(), needle@, range, r@),
    {
        render_cache(&self.repos, needle, range)
    }
}

/// What a `:` completion sends to the remote user search: the needle with
/// every colon removed. `None` when nothing remains — then no remote call
/// is made and the completion list is empty.
pub fn owner_search_needle(needle: &str) -> (r: Option<String>)
    ensures
        match r {
            Some(s) => s@ == remove_occ(needle@, ":"@) && s@.len() > 0,
            None => remove_occ(needle@, ":"@).len() == 0,
        },
{
    let stripped = remove_all(needle, ":");
    if stripped.as_str().unicode_len() == 0 {
        None
    } else {
        Some(stripped)
    }
}

/// The logins that begin with the needle, in provider order.
pub open spec fn owner_filter(logins: Seq<String>, needle: Seq<char>) -> Seq<String>
    decreases logins.len(),
{
    if logins.len() == 0 {
        Seq::empty()
    } else {
        let rest = owner_filter(logins.drop_last(), needle);
        if starts_with_seq(logins.last()@, needle) {
            rest.push(logins.last())
        } else {
            rest
        }
    }
}

/// Render the remote user-search results of a `:` completion: keep the
/// logins that begin with the needle, in the order the provider returned
/// them, each rendered as a member completion.
pub fn render_owner_results(
    needle: &str,
    range: ReplaceRange,
    logins: &Vec<String>,
) -> (out: Vec<CompletionEntry>)
    ensures
        out@.len() == owner_filter(logins@, needle@).len(),
        forall|j: int|
            0 <= j < out@.len() ==> renders(
                #[trigger] out@[j],
                Entity::Member(Member { login: owner_filter(logins@, needle@)[j] }),
                range,
            ),
{
    let mut out: Vec<CompletionEntry> = Vec::new();
    let mut i: usize = 0;
    proof {
        assert(logins@.take(0) =~= Seq::<String>::empty());
    }
    while i < logins.len()
        invariant
            i <= logins@.len(),
            out@.len() == owner_filter(logins@.take(i as int), needle@).len(),
            forall|j: int|
                0 <= j < out@.len() ==> renders(
                    #[trigger] out@[j],
                    Entity::Member(
                        Member { login: owner_filter(logins@.take(i as int), needle@)[j] },
                    ),
                    range,
                ),
        decreases logins@.len() - i,
    {
        let ghost pre = logins@.take(i as int);
        proof {
            assert(logins@.take(i + 1).drop_last() =~= pre);
            assert(logins@.take(i + 1).last() == logins@[i as int]);
        }
        if str_starts_with(logins[i].as_str(), needle) {
            let member = Member { login: logins[i].clone() };
            let label = member.get_label();
            let detail = member.get_detail();
            let new_text = member.get_edit();
            out.push(CompletionEntry { label, detail: Some(detail), range, new_text });
            proof {
                assert(owner_filter(logins@.take(i + 1), needle@) =~= owner_filter(
                    pre,
                    needle@,
                ).push(logins@[i as int]));
            }
        } else {
            proof {
                assert(owner_filter(logins@.take(i + 1), needle@) =~= owner_filter(pre, needle@));
            }
        }
        i += 1;
    }
    proof {
        assert(logins@.take(logins@.len() as int) =~= logins@);
    }
    out
}


/// A completion answer: the rendered entries, or — for a non-empty `:`
/// needle — a directive to run the remote user search with the given
/// needle and replacement span, and render its results with
/// `render_owner_results`.
#[derive(Debug)]
pub enum CompletionOutcome {
    Items(Vec<CompletionEntry>),
    RemoteSearch { needle: String, range: ReplaceRange },
}

/// The span a completion at (line_no, col) replaces.
pub open spec fn trigger_range_spec(line: Seq<char>, line_no: int, col: int) -> ReplaceRange {
    ReplaceRange {
        line: line_no as usize,
        start_col: range_start_spec(
            clamp_col(line, col),
            needle_of(word_of(line, col)).len() as int,
        ) as usize,
        end_col: clamp_col(line, col) as usize,
    }
}

impl Session {
    /// Answer a completion request at (line_no, col): parse the trigger at
    /// the cursor (the column clamped to the line length, so a stale column
    /// is no error) and filter the cache the sigil selects. A `#`, `@`, `[`
    /// or `/` sigil is answered from its cache; `:` with a non-empty
    /// stripped needle asks the transport for a remote user search, and
    /// with an empty one yields an empty list at once, with no remote call;
    /// any other sigil yields an empty list.
    pub fn completion(&self, id: &String, line_no: usize, col: usize) -> (r: Result<
        CompletionOutcome,
        RequestError,
    >)
        ensures
            match r {
                Err(RequestError::UnknownDocument) => !self.docs_view().dom().contains(id@),
                Err(RequestError::RangeOutOfBounds) => self.docs_view().dom().contains(id@)
                    && !line_exists(self.docs_view()[id@].content@, line_no as int),
                Ok(outcome) => self.docs_view().dom().contains(id@) && line_exists(
                    self.docs_view()[id@].content@,
                    line_no as int,
                ) && ({
                    let line = line_at(self.docs_view()[id@].content@, line_no as int);
                    let w = word_of(line, col as int);
                    let needle = needle_of(w);
                    let rng = trigger_range_spec(line, line_no as int, col as int);
                    match outcome {
                        CompletionOutcome::Items(items) => {
                            if sigil_of(w) == Some('#') {
                                completion_set(self.issues_view(), needle, rng, items@)
                            } else if sigil_of(w) == Some('@') {
                                completion_set(self.members_view(), needle, rng, items@)
                            } else if sigil_of(w) == Some('[') {
                                completion_set(self.wikis_view(), needle, rng, items@)
                            } else if sigil_of(w) == Some('/') {
                                completion_set(self.repos_view(), needle, rng, items@)
                            } else if sigil_of(w) == Some(':') {
                                remove_occ(needle, ":"@).len() == 0 && items@.len() == 0
                            } else {
                                items@.len() == 0
                            }
                        },
                        CompletionOutcome::RemoteSearch { needle: n, range: rg } => {
                            &&& sigil_of(w) == Some(':')
                            &&& n@ == remove_occ(needle, ":"@)
                            &&& n@.len() > 0
                            &&& rg == rng
                        },
                    }
                }),
            },
    {
        let line = match self.get_line(id, line_no) {
            Err(e) => {
                return Err(e);
            },
            Ok(line) => line,
        };
        let tc = parse_trigger(line.as_str(), line_no, col);
        proof {
            assert(tc.range == trigger_range_spec(line@, line_no as int, col as int));
        }
        match tc.sigil {
            Some('#') => Ok(
                CompletionOutcome::Items(self.search_issue_and_pr(tc.needle.as_str(), tc.range)),
            ),
            Some('@') => Ok(
                CompletionOutcome::Items(self.search_user(tc.needle.as_str(), tc.range)),
            ),
            Some('[') => Ok(
                CompletionOutcome::Items(self.search_wiki(tc.needle.as_str(), tc.range)),
            ),
            Some('/') => Ok(
                CompletionOutcome::Items(self.search_repo(tc.needle.as_str(), tc.range)),
            ),
            Some(':') => {
                match owner_search_needle(tc.needle.as_str()) {
                    None => Ok(CompletionOutcome::Items(Vec::new())),
                    Some(n) => Ok(CompletionOutcome::RemoteSearch { needle: n, range: tc.range }),
                }
            },
            _ => Ok(CompletionOutcome::Items(Vec::new())),
        }
    }
}

} // verus!
