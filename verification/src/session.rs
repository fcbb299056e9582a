//! The session: one object owning the document store and the four entity
//! caches, with the operations that populate and mutate them.

use vstd::prelude::*;

use crate::cache::{
    buffer_map_get, buffer_map_insert, buffer_map_new, buffer_map_view, entity_map_insert,
    entity_map_new, entity_map_view, no_buffers, no_entities,
};
use crate::document::{apply_edits_spec, Buffer, Edit, RequestError, line_at, line_exists};
use crate::entity::{cache_key_spec, Entity, Issue, Member, Repository, WikiArticle};

verus! {

/// One metadata kind, for speaking about what a cache may hold.
#[derive(Clone, Copy, Debug, PartialEq, Eq, Structural)]
pub enum EntityKind {
    Issue,
    Member,
    Repo,
    Wiki,
}

/// Whether a record is of the given kind.
pub open spec fn is_kind(e: Entity, k: EntityKind) -> bool {
    match k {
        EntityKind::Issue => e is Issue,
        EntityKind::Member => e is Member,
        EntityKind::Repo => e is Repo,
        EntityKind::Wiki => e is Wiki,
    }
}

/// Every record of the cache contents is of kind `k`.
pub open spec fn cache_of_kind(m: Map<Seq<char>, Entity>, k: EntityKind) -> bool {
    forall|key: Seq<char>| m.dom().contains(key) ==> is_kind(m[key], k)
}

/// Every record of the sequence is of kind `k`.
pub open spec fn records_of_kind(es: Seq<Entity>, k: EntityKind) -> bool {
    forall|i: int| 0 <= i < es.len() ==> is_kind(es[i], k)
}

/// Cache contents after inserting the records in order, each under its own
/// key: a later record with an equal key overwrites an earlier one
/// (last-writer-wins).
pub open spec fn merge_records(m: Map<Seq<char>, Entity>, es: Seq<Entity>) -> Map<Seq<char>, Entity>
    decreases es.len(),
{
    if es.len() == 0 {
        m
    } else {
        merge_records(m.insert(cache_key_spec(es[0]), es[0]), es.skip(1))
    }
}

/// Merging records of one kind into a cache of that kind leaves a cache of
/// that kind.
pub proof fn lemma_merge_keeps_kind(m: Map<Seq<char>, Entity>, es: Seq<Entity>, k: EntityKind)
    requires
        cache_of_kind(m, k),
        records_of_kind(es, k),
    ensures
        cache_of_kind(merge_records(m, es), k),
    decreases es.len(),
{
    if es.len() > 0 {
        assert(is_kind(es[0], k));
        assert(records_of_kind(es.skip(1), k)) by {
            assert(forall|i: int| 0 <= i < es.skip(1).len() ==> es.skip(1)[i] == es[i + 1]);
        }
        lemma_merge_keeps_kind(m.insert(cache_key_spec(es[0]), es[0]), es.skip(1), k);
    }
}

/// Insert every record of `records`, in order, each under its own key.
fn ingest_all(m: &mut dashmap::DashMap<String, Entity>, records: &Vec<Entity>)
    ensures
        entity_map_view(*final(m)) == merge_records(entity_map_view(*old(m)), records@),
{
    let ghost v0 = entity_map_view(*m);
    let mut i: usize = 0;
    proof {
        assert(records@.skip(0) =~= records@);
    }
    while i < records.len()
        invariant
            i <= records@.len(),
            merge_records(v0, records@) == merge_records(
                entity_map_view(*m),
                records@.skip(i as int),
            ),
        decreases records@.len() - i,
    {
        let e = records[i].clone();
        let key = e.cache_key();
        proof {
            assert(records@.skip(i as int)[0] == records@[i as int]);
            assert(records@.skip(i as int).skip(1) =~= records@.skip(i + 1));
        }
        entity_map_insert(m, key, e);
        i += 1;
    }
    proof {
        assert(records@.skip(records@.len() as int) =~= Seq::<Entity>::empty());
    }
}

/// The state of one pagination loop: which page to ask for next, and whether
/// the loop has stopped.
#[derive(Clone, Copy, Debug)]
pub struct PageLoop {
    pub next_page: u32,
    pub done: bool,
}

impl PageLoop {
    /// A pagination loop about to ask for its first page.
    pub fn start() -> (r: PageLoop)
        ensures
            r.next_page == 0,
            !r.done,
    {
        PageLoop { next_page: 0, done: false }
    }
}

/// Feed one provider answer into a cache. `None` stands for a provider
/// error; it and an empty page stop the loop, keeping what was already
/// merged. A non-empty page is merged (last-writer-wins by key) and the loop
/// asks for the following page.
fn page_step(
    m: &mut dashmap::DashMap<String, Entity>,
    st: &mut PageLoop,
    page: &Option<Vec<Entity>>,
) -> (r: bool)
    requires
        !old(st).done,
    ensures
        r == !final(st).done,
        match *page {
            None => final(st).done && entity_map_view(*final(m)) == entity_map_view(*old(m))
                && final(st).next_page == old(st).next_page,
            Some(records) => {
                &&& entity_map_view(*final(m)) == merge_records(
                    entity_map_view(*old(m)),
                    records@,
                )
                &&& (records@.len() == 0 ==> final(st).done && final(st).next_page
                    == old(st).next_page)
                &&& (records@.len() > 0 && old(st).next_page < u32::MAX ==> !final(st).done
                    && final(st).next_page == old(st).next_page + 1)
                &&& (records@.len() > 0 && old(st).next_page == u32::MAX ==> final(st).done)
            },
        },
{
    match page {
        None => {
            st.done = true;
            false
        },
        Some(records) => {
            if records.len() == 0 {
                st.done = true;
                proof {
                    assert(merge_records(entity_map_view(*m), records@) == entity_map_view(*m));
                }
                false
            } else {
                ingest_all(m, records);
                if st.next_page == u32::MAX {
                    st.done = true;
                    false
                } else {
                    st.next_page = st.next_page + 1;
                    true
                }
            }
        },
    }
}

/// The session: the document store, the four entity caches, and the (owner,
/// repository) pair scoping issue queries. Constructed once and shared by
/// every handler.
#[derive(Debug)]
pub struct Session {
    pub documents: dashmap::DashMap<String, Buffer>,
    pub issues: dashmap::DashMap<String, Entity>,
    pub members: dashmap::DashMap<String, Entity>,
    pub repos: dashmap::DashMap<String, Entity>,
    pub wikis: dashmap::DashMap<String, Entity>,
    pub owner: String,
    pub repo: String,
}

impl Session {
    /// The document store's contents.
    pub open spec fn docs_view(&self) -> Map<Seq<char>, Buffer> {
        buffer_map_view(self.documents)
    }

    /// The issue cache's contents.
    pub open spec fn issues_view(&self) -> Map<Seq<char>, Entity> {
        entity_map_view(self.issues)
    }

    /// The member cache's contents.
    pub open spec fn members_view(&self) -> Map<Seq<char>, Entity> {
        entity_map_view(self.members)
    }

    /// The repository cache's contents.
    pub open spec fn repos_view(&self) -> Map<Seq<char>, Entity> {
        entity_map_view(self.repos)
    }

    /// The wiki cache's contents.
    pub open spec fn wikis_view(&self) -> Map<Seq<char>, Entity> {
        entity_map_view(self.wikis)
    }

    /// Each cache holds records of its own kind only.
    pub open spec fn wf(&self) -> bool {
        &&& cache_of_kind(self.issues_view(), EntityKind::Issue)
        &&& cache_of_kind(self.members_view(), EntityKind::Member)
        &&& cache_of_kind(self.repos_view(), EntityKind::Repo)
        &&& cache_of_kind(self.wikis_view(), EntityKind::Wiki)
    }

    /// The entity caches are the same as before.
    pub open spec fn caches_unchanged(self, other: Session) -> bool {
        &&& self.issues == other.issues
        &&& self.members == other.members
        &&& self.repos == other.repos
        &&& self.wikis == other.wikis
    }

    /// Owner, repository and the document store are the same as before.
    pub open spec fn documents_unchanged(self, other: Session) -> bool {
        &&& self.documents == other.documents
        &&& self.owner == other.owner
        &&& self.repo == other.repo
    }

    /// A fresh session: empty document store, empty caches.
    pub fn new(owner: String, repo: String) -> (r: Session)
        ensures
            r.docs_view() == no_buffers(),
            r.issues_view() == no_entities(),
            r.members_view() == no_entities(),
            r.repos_view() == no_entities(),
            r.wikis_view() == no_entities(),
            r.owner@ == owner@,
            r.repo@ == repo@,
            r.wf(),
    {
        Session {
            documents: buffer_map_new(),
            issues: entity_map_new(),
            members: entity_map_new(),
            repos: entity_map_new(),
            wikis: entity_map_new(),
            owner,
            repo,
        }
    }

    /// Open (or overwrite) a document with full text.
    pub fn open_document(&mut self, id: String, text: String, version: i32)
        ensures
            final(self).docs_view().dom() == old(self).docs_view().dom().insert(id@),
            final(self).docs_view()[id@].content@ == text@,
            final(self).docs_view()[id@].version == version,
            forall|k: Seq<char>|
                k != id@ && old(self).docs_view().dom().contains(k) ==> final(self).docs_view()[k]
                    == old(self).docs_view()[k],
            old(self).caches_unchanged(*final(self)),
            final(self).owner == old(self).owner,
            final(self).repo == old(self).repo,
    {
        let buffer = Buffer::open(text, version);
        buffer_map_insert(&mut self.documents, id, buffer);
    }

    /// Apply a batch of edits to an open document, in arrival order. Fails
    /// with `UnknownDocument` when no document has this id, and with
    /// `RangeOutOfBounds` when an edit's range does not fit the content the
    /// preceding edits produced; on failure nothing changes.
    pub fn apply_edits(&mut self, id: &String, edits: &Vec<Edit>, version: i32) -> (r: Result<
        (),
        RequestError,
    >)
        ensures
            match r {
                Ok(()) => {
                    &&& old(self).docs_view().dom().contains(id@)
                    &&& apply_edits_spec(old(self).docs_view()[id@].content@, edits@) is Some
                    &&& final(self).docs_view().dom() == old(self).docs_view().dom()
                    &&& final(self).docs_view()[id@].content@ == apply_edits_spec(
                        old(self).docs_view()[id@].content@,
                        edits@,
                    ).unwrap()
                    &&& final(self).docs_view()[id@].version == version
                    &&& forall|k: Seq<char>|
                        k != id@ && old(self).docs_view().dom().contains(k)
                            ==> final(self).docs_view()[k] == old(self).docs_view()[k]
                },
                Err(RequestError::UnknownDocument) => !old(self).docs_view().dom().contains(id@)
                    && *final(self) == *old(self),
                Err(RequestError::RangeOutOfBounds) => old(self).docs_view().dom().contains(id@)
                    && apply_edits_spec(old(self).docs_view()[id@].content@, edits@) is None
                    && *final(self) == *old(self),
            },
            old(self).caches_unchanged(*final(self)),
            final(self).owner == old(self).owner,
            final(self).repo == old(self).repo,
    {
        match buffer_map_get(&self.documents, id) {
            None => Err(RequestError::UnknownDocument),
            Some(mut buffer) => {
                match buffer.apply_edits(edits, version) {
                    Ok(()) => {
                        buffer_map_insert(&mut self.documents, id.clone(), buffer);
                        proof {
                            assert(self.docs_view().dom() =~= old(self).docs_view().dom());
                        }
                        Ok(())
                    },
                    Err(e) => Err(e),
                }
            },
        }
    }

    /// The text of one line of an open document, without its terminator.
    pub fn get_line(&self, id: &String, line: usize) -> (r: Result<String, RequestError>)
        ensures
            match r {
                Ok(t) => self.docs_view().dom().contains(id@) && line_exists(
                    self.docs_view()[id@].content@,
                    line as int,
                ) && t@ == line_at(self.docs_view()[id@].content@, line as int),
                Err(RequestError::UnknownDocument) => !self.docs_view().dom().contains(id@),
                Err(RequestError::RangeOutOfBounds) => self.docs_view().dom().contains(id@)
                    && !line_exists(self.docs_view()[id@].content@, line as int),
            },
    {
        match buffer_map_get(&self.documents, id) {
            None => Err(RequestError::UnknownDocument),
            Some(buffer) => {
                match buffer.line(line) {
                    None => Err(RequestError::RangeOutOfBounds),
                    Some(t) => Ok(t.to_owned()),
                }
            },
        }
    }
}

/// The records of a sequence of issues, each tagged as an issue.
pub open spec fn issues_as_entities(s: Seq<Issue>) -> Seq<Entity> {
    Seq::new(s.len(), |i: int| Entity::Issue(s[i]))
}

/// The records of a sequence of members, each tagged as a member.
pub open spec fn members_as_entities(s: Seq<Member>) -> Seq<Entity> {
    Seq::new(s.len(), |i: int| Entity::Member(s[i]))
}

/// The records of a sequence of repositories, each tagged as a repository.
pub open spec fn repos_as_entities(s: Seq<Repository>) -> Seq<Entity> {
    Seq::new(s.len(), |i: int| Entity::Repo(s[i]))
}

/// The records of a sequence of wiki articles, each tagged as an article.
pub open spec fn wikis_as_entities(s: Seq<WikiArticle>) -> Seq<Entity> {
    Seq::new(s.len(), |i: int| Entity::Wiki(s[i]))
}

fn issues_to_entities(v: &Vec<Issue>) -> (r: Vec<Entity>)
    ensures
        r@ == issues_as_entities(v@),
{
    let mut r: Vec<Entity> = Vec::new();
    let mut i: usize = 0;
    while i < v.len()
        invariant
            i <= v@.len(),
            r@.len() == i,
            forall|j: int| 0 <= j < i ==> r@[j] == Entity::Issue(v@[j]),
        decreases v@.len() - i,
    {
        r.push(Entity::Issue(v[i].clone()));
        i += 1;
    }
    proof {
        assert(r@ =~= issues_as_entities(v@));
    }
    r
}

fn members_to_entities(v: &Vec<Member>) -> (r: Vec<Entity>)
    ensures
        r@ == members_as_entities(v@),
{
    let mut r: Vec<Entity> = Vec::new();
    let mut i: usize = 0;
    while i < v.len()
        invariant
            i <= v@.len(),
            r@.len() == i,
            forall|j: int| 0 <= j < i ==> r@[j] == Entity::Member(v@[j]),
        decreases v@.len() - i,
    {
        r.push(Entity::Member(v[i].clone()));
        i += 1;
    }
    proof {
        assert(r@ =~= members_as_entities(v@));
    }
    r
}

fn repos_to_entities(v: &Vec<Repository>) -> (r: Vec<Entity>)
    ensures
        r@ == repos_as_entities(v@),
{
    let mut r: Vec<Entity> = Vec::new();
    let mut i: usize = 0;
    while i < v.len()
        invariant
            i <= v@.len(),
            r@.len() == i,
            forall|j: int| 0 <= j < i ==> r@[j] == Entity::Repo(v@[j]),
        decreases v@.len() - i,
    {
        r.push(Entity::Repo(v[i].clone()));
        i += 1;
    }
    proof {
        assert(r@ =~= repos_as_entities(v@));
    }
    r
}

fn wikis_to_entities(v: &Vec<WikiArticle>) -> (r: Vec<Entity>)
    ensures
        r@ == wikis_as_entities(v@),
{
    let mut r: Vec<Entity> = Vec::new();
    let mut i: usize = 0;
    while i < v.len()
        invariant
            i <= v@.len(),
            r@.len() == i,
            forall|j: int| 0 <= j < i ==> r@[j] == Entity::Wiki(v@[j]),
        decreases v@.len() - i,
    {
        r.push(Entity::Wiki(v[i].clone()));
        i += 1;
    }
    proof {
        assert(r@ =~= wikis_as_entities(v@));
    }
    r
}

impl Session {
    /// Feed one provider page of issues into the issue cache. `None` is a
    /// provider error; it and an empty page stop the loop, keeping what was
    /// already merged. Returns whether the loop should fetch another page.
    pub fn ingest_issue_page(&mut self, st: &mut PageLoop, page: &Option<Vec<Issue>>) -> (r: bool)
        requires
            !old(st).done,
            old(self).wf(),
        ensures
            final(self).wf(),
            r == !final(st).done,
            old(self).documents_unchanged(*final(self)),
            final(self).members == old(self).members,
            final(self).repos == old(self).repos,
            final(self).wikis == old(self).wikis,
            match *page {
                None => final(self).issues_view() == old(self).issues_view() && final(st).done
                    && final(st).next_page == old(st).next_page,
                Some(records) => {
                    &&& final(self).issues_view() == merge_records(
                        old(self).issues_view(),
                        issues_as_entities(records@),
                    )
                    &&& (records@.len() == 0 ==> final(st).done && final(st).next_page
                        == old(st).next_page)
                    &&& (records@.len() > 0 && old(st).next_page < u32::MAX ==> !final(st).done
                        && final(st).next_page == old(st).next_page + 1)
                    &&& (records@.len() > 0 && old(st).next_page == u32::MAX ==> final(st).done)
                },
            },
    {
        let more = match page {
            None => page_step(&mut self.issues, st, &None),
            Some(records) => {
                let ents = issues_to_entities(records);
                let wrapped = Some(ents);
                page_step(&mut self.issues, st, &wrapped)
            },
        };
        proof {
            if let Some(records) = page {
                lemma_merge_keeps_kind(
                    old(self).issues_view(),
                    issues_as_entities(records@),
                    EntityKind::Issue,
                );
            }
        }
        more
    }

    /// Feed one provider page of members into the member cache, as
    /// `ingest_issue_page` does for issues.
    pub fn ingest_member_page(&mut self, st: &mut PageLoop, page: &Option<Vec<Member>>) -> (r:
        bool)
        requires
            !old(st).done,
            old(self).wf(),
        ensures
            final(self).wf(),
            r == !final(st).done,
            old(self).documents_unchanged(*final(self)),
            final(self).issues == old(self).issues,
            final(self).repos == old(self).repos,
            final(self).wikis == old(self).wikis,
            match *page {
                None => final(self).members_view() == old(self).members_view() && final(st).done
                    && final(st).next_page == old(st).next_page,
                Some(records) => {
                    &&& final(self).members_view() == merge_records(
                        old(self).members_view(),
                        members_as_entities(records@),
                    )
                    &&& (records@.len() == 0 ==> final(st).done && final(st).next_page
                        == old(st).next_page)
                    &&& (records@.len() > 0 && old(st).next_page < u32::MAX ==> !final(st).done
                        && final(st).next_page == old(st).next_page + 1)
                    &&& (records@.len() > 0 && old(st).next_page == u32::MAX ==> final(st).done)
                },
            },
    {
        let more = match page {
            None => page_step(&mut self.members, st, &None),
            Some(records) => {
                let ents = members_to_entities(records);
                let wrapped = Some(ents);
                page_step(&mut self.members, st, &wrapped)
            },
        };
        proof {
            if let Some(records) = page {
                lemma_merge_keeps_kind(
                    old(self).members_view(),
                    members_as_entities(records@),
                    EntityKind::Member,
                );
            }
        }
        more
    }

    /// Feed one provider page of repositories into the repository cache, as
    /// `ingest_issue_page` does for issues. Called once per affiliation
    /// class; a repository fetched under a later affiliation overwrites one
    /// of the same name fetched earlier.
    pub fn ingest_repo_page(&mut self, st: &mut PageLoop, page: &Option<Vec<Repository>>) -> (r:
        bool)
        requires
            !old(st).done,
            old(self).wf(),
        ensures
            final(self).wf(),
            r == !final(st).done,
            old(self).documents_unchanged(*final(self)),
            final(self).issues == old(self).issues,
            final(self).members == old(self).members,
            final(self).wikis == old(self).wikis,
            match *page {
                None => final(self).repos_view() == old(self).repos_view() && final(st).done
                    && final(st).next_page == old(st).next_page,
                Some(records) => {
                    &&& final(self).repos_view() == merge_records(
                        old(self).repos_view(),
                        repos_as_entities(records@),
                    )
                    &&& (records@.len() == 0 ==> final(st).done && final(st).next_page
                        == old(st).next_page)
                    &&& (records@.len() > 0 && old(st).next_page < u32::MAX ==> !final(st).done
                        && final(st).next_page == old(st).next_page + 1)
                    &&& (records@.len() > 0 && old(st).next_page == u32::MAX ==> final(st).done)
                },
            },
    {
        let more = match page {
            None => page_step(&mut self.repos, st, &None),
            Some(records) => {
                let ents = repos_to_entities(records);
                let wrapped = Some(ents);
                page_step(&mut self.repos, st, &wrapped)
            },
        };
        proof {
            if let Some(records) = page {
                lemma_merge_keeps_kind(
                    old(self).repos_view(),
                    repos_as_entities(records@),
                    EntityKind::Repo,
                );
            }
        }
        more
    }

    /// Merge a batch of wiki articles into the wiki cache, each under its
    /// title, later articles overwriting earlier ones of the same title.
    pub fn ingest_wiki_articles(&mut self, articles: &Vec<WikiArticle>)
        requires
            old(self).wf(),
        ensures
            final(self).wf(),
            old(self).documents_unchanged(*final(self)),
            final(self).issues == old(self).issues,
            final(self).members == old(self).members,
            final(self).repos == old(self).repos,
            final(self).wikis_view() == merge_records(
                old(self).wikis_view(),
                wikis_as_entities(articles@),
            ),
    {
        let ents = wikis_to_entities(articles);
        ingest_all(&mut self.wikis, &ents);
        proof {
            lemma_merge_keeps_kind(
                old(self).wikis_view(),
                wikis_as_entities(articles@),
                EntityKind::Wiki,
            );
        }
    }
}

} // verus!
