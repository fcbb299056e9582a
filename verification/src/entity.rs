//! Cached metadata records — issues/PRs, members, repositories, wiki pages —
//! and their rendered label, detail and edit-snippet texts.

use vstd::prelude::*;
use vstd::string::StringExecFns;

use crate::strutil::{dec_digits, remove_occ, u64_to_string, remove_all};

verus! {

/// Whether an issue or pull request is open or closed.
#[derive(Clone, Copy, Debug, PartialEq, Eq, Structural)]
pub enum IssueState {
    Open,
    Closed,
}

/// An issue or pull request.
#[derive(Debug)]
pub struct Issue {
    pub number: u64,
    pub state: IssueState,
    pub title: String,
    pub body: Option<String>,
    pub url: String,
}

/// A project member.
#[derive(Debug)]
pub struct Member {
    pub login: String,
}

/// A repository the session's user can reach.
#[derive(Debug)]
pub struct Repository {
    pub owner: String,
    pub name: String,
    pub description: Option<String>,
}

/// One article of the project wiki.
#[derive(Debug)]
pub struct WikiArticle {
    pub title: String,
    pub uri: String,
}

/// The label of an issue state.
pub open spec fn state_label_spec(st: IssueState) -> Seq<char> {
    if st is Open {
        "Open"@
    } else {
        "Closed"@
    }
}

/// The issue's link target: its API address with the service-API prefixes
/// removed.
pub open spec fn issue_web_url_spec(url: Seq<char>) -> Seq<char> {
    remove_occ(remove_occ(url, "api."@), "repos/"@)
}

/// `#<number> [<state>] <title>`
pub open spec fn issue_label_spec(i: Issue) -> Seq<char> {
    "#"@ + dec_digits(i.number as nat) + " ["@ + state_label_spec(i.state) + "] "@ + i.title@
}

/// `[#<number>: <title>](<url>)`
pub open spec fn issue_edit_spec(i: Issue) -> Seq<char> {
    "[#"@ + dec_digits(i.number as nat) + ": "@ + i.title@ + "]("@ + issue_web_url_spec(i.url@)
        + ")"@
}

/// The issue's label as a heading — `# #<number> [<state>] <title>` — a
/// blank line, then the body (or the title again when the issue has none).
pub open spec fn issue_detail_spec(i: Issue) -> Seq<char> {
    "# "@ + issue_label_spec(i) + "\n\n"@ + (match i.body {
        Some(b) => b@,
        None => i.title@,
    })
}

/// `[<login>](https://host/<login>)`
pub open spec fn member_edit_spec(m: Member) -> Seq<char> {
    "["@ + m.login@ + "](https://github.com/"@ + m.login@ + ")"@
}

/// `<owner>/<name>`
pub open spec fn repo_label_spec(r: Repository) -> Seq<char> {
    r.owner@ + "/"@ + r.name@
}

/// `[<owner>/<name>](https://host/<owner>/<name>)`
pub open spec fn repo_edit_spec(r: Repository) -> Seq<char> {
    "["@ + repo_label_spec(r) + "](https://github.com/"@ + repo_label_spec(r) + ")"@
}

/// The edit snippet, a line break, then the description (or a placeholder).
pub open spec fn repo_detail_spec(r: Repository) -> Seq<char> {
    repo_edit_spec(r) + "\n"@ + (match r.description {
        Some(d) => d@,
        None => "No description."@,
    })
}

/// `[<title>](https://host<relativeUri>)`
pub open spec fn wiki_edit_spec(w: WikiArticle) -> Seq<char> {
    "["@ + w.title@ + "](https://github.com"@ + w.uri@ + ")"@
}

impl IssueState {
    /// The state's display label.
    pub fn get_label(&self) -> (r: &'static str)
        ensures
            r@ == state_label_spec(*self),
    {
        if let IssueState::Open = self {
            "Open"
        } else {
            "Closed"
        }
    }
}

impl Issue {
    /// The completion label: `#<number> [<state>] <title>`.
    pub fn get_label(&self) -> (r: String)
        ensures
            r@ == issue_label_spec(*self),
    {
        let mut r = String::from_str("#");
        r.append(u64_to_string(self.number).as_str());
        r.append(" [");
        r.append(self.state.get_label());
        r.append("] ");
        r.append(self.title.as_str());
        r
    }

    /// The markdown snippet inserted on acceptance.
    pub fn get_edit(&self) -> (r: String)
        ensures
            r@ == issue_edit_spec(*self),
    {
        let url = remove_all(remove_all(self.url.as_str(), "api.").as_str(), "repos/");
        let mut r = String::from_str("[#");
        r.append(u64_to_string(self.number).as_str());
        r.append(": ");
        r.append(self.title.as_str());
        r.append("](");
        r.append(url.as_str());
        r.append(")");
        r
    }

    /// The hover/detail text of the issue.
    pub fn get_detail(&self) -> (r: String)
        ensures
            r@ == issue_detail_spec(*self),
    {
        let mut r = String::from_str("# ");
        r.append(self.get_label().as_str());
        r.append("\n\n");
        match &self.body {
            Some(b) => r.append(b.as_str()),
            None => r.append(self.title.as_str()),
        }
        r
    }
}

impl Member {
    /// The completion label: the member's login.
    pub fn get_label(&self) -> (r: String)
        ensures
            r@ == self.login@,
    {
        self.login.clone()
    }

    /// The markdown snippet inserted on acceptance.
    pub fn get_edit(&self) -> (r: String)
        ensures
            r@ == member_edit_spec(*self),
    {
        let mut r = String::from_str("[");
        r.append(self.login.as_str());
        r.append("](https://github.com/");
        r.append(self.login.as_str());
        r.append(")");
        r
    }

    /// The detail text: the login again.
    pub fn get_detail(&self) -> (r: String)
        ensures
            r@ == self.login@,
    {
        self.login.clone()
    }
}

impl Repository {
    /// The completion label: `<owner>/<name>`.
    pub fn get_label(&self) -> (r: String)
        ensures
            r@ == repo_label_spec(*self),
    {
        let mut r = self.owner.clone();
        r.append("/");
        r.append(self.name.as_str());
        r
    }

    /// The markdown snippet inserted on acceptance.
    pub fn get_edit(&self) -> (r: String)
        ensures
            r@ == repo_edit_spec(*self),
    {
        let label = self.get_label();
        let mut r = String::from_str("[");
        r.append(label.as_str());
        r.append("](https://github.com/");
        r.append(label.as_str());
        r.append(")");
        r
    }

    /// The detail text: the edit snippet and the description.
    pub fn get_detail(&self) -> (r: String)
        ensures
            r@ == repo_detail_spec(*self),
    {
        let mut r = self.get_edit();
        r.append("\n");
        match &self.description {
            Some(d) => r.append(d.as_str()),
            None => r.append("No description."),
        }
        r
    }
}

impl WikiArticle {
    /// The completion label: the article's title.
    pub fn get_label(&self) -> (r: String)
        ensures
            r@ == self.title@,
    {
        self.title.clone()
    }

    /// The markdown snippet inserted on acceptance.
    pub fn get_edit(&self) -> (r: String)
        ensures
            r@ == wiki_edit_spec(*self),
    {
        let mut r = String::from_str("[");
        r.append(self.title.as_str());
        r.append("](https://github.com");
        r.append(self.uri.as_str());
        r.append(")");
        r
    }
}

/// One cached record, tagged by kind.
#[derive(Debug)]
pub enum Entity {
    Issue(Issue),
    Member(Member),
    Repo(Repository),
    Wiki(WikiArticle),
}

/// The key a record is cached under: issue and wiki titles, member logins,
/// repository names. Keys are not unique; later inserts overwrite.
pub open spec fn cache_key_spec(e: Entity) -> Seq<char> {
    match e {
        Entity::Issue(i) => i.title@,
        Entity::Member(m) => m.login@,
        Entity::Repo(r) => r.name@,
        Entity::Wiki(w) => w.title@,
    }
}

/// The rendered completion label of a record.
pub open spec fn entity_label_spec(e: Entity) -> Seq<char> {
    match e {
        Entity::Issue(i) => issue_label_spec(i),
        Entity::Member(m) => m.login@,
        Entity::Repo(r) => repo_label_spec(r),
        Entity::Wiki(w) => w.title@,
    }
}

/// The detail text of a record; for a wiki article, its title. Completion
/// filtering matches the needle against this text, uniformly for all kinds.
pub open spec fn entity_detail_spec(e: Entity) -> Seq<char> {
    match e {
        Entity::Issue(i) => issue_detail_spec(i),
        Entity::Member(m) => m.login@,
        Entity::Repo(r) => repo_detail_spec(r),
        Entity::Wiki(w) => w.title@,
    }
}

/// The markdown snippet a completion inserts for a record.
pub open spec fn entity_edit_spec(e: Entity) -> Seq<char> {
    match e {
        Entity::Issue(i) => issue_edit_spec(i),
        Entity::Member(m) => member_edit_spec(m),
        Entity::Repo(r) => repo_edit_spec(r),
        Entity::Wiki(w) => wiki_edit_spec(w),
    }
}

impl Entity {
    /// The key this record is cached under.
    pub fn cache_key(&self) -> (r: String)
        ensures
            r@ == cache_key_spec(*self),
    {
        match self {
            Entity::Issue(i) => i.title.clone(),
            Entity::Member(m) => m.login.clone(),
            Entity::Repo(r) => r.name.clone(),
            Entity::Wiki(w) => w.title.clone(),
        }
    }

    /// The rendered completion label.
    pub fn get_label(&self) -> (r: String)
        ensures
            r@ == entity_label_spec(*self),
    {
        match self {
            Entity::Issue(i) => i.get_label(),
            Entity::Member(m) => m.get_label(),
            Entity::Repo(r) => r.get_label(),
            Entity::Wiki(w) => w.get_label(),
        }
    }

    /// The detail text, the text completion filtering matches against.
    pub fn get_detail(&self) -> (r: String)
        ensures
            r@ == entity_detail_spec(*self),
    {
        match self {
            Entity::Issue(i) => i.get_detail(),
            Entity::Member(m) => m.get_detail(),
            Entity::Repo(r) => r.get_detail(),
            Entity::Wiki(w) => w.get_label(),
        }
    }

    /// The markdown snippet inserted on acceptance.
    pub fn get_edit(&self) -> (r: String)
        ensures
            r@ == entity_edit_spec(*self),
    {
        match self {
            Entity::Issue(i) => i.get_edit(),
            Entity::Member(m) => m.get_edit(),
            Entity::Repo(r) => r.get_edit(),
            Entity::Wiki(w) => w.get_edit(),
        }
    }
}


impl Clone for Issue {
    /// An exact copy.
    fn clone(&self) -> (r: Self)
        ensures
            r == *self,
    {
        Issue {
            number: self.number,
            state: self.state,
            title: self.title.clone(),
            body: match &self.body {
                Some(b) => Some(b.clone()),
                None => None,
            },
            url: self.url.clone(),
        }
    }
}

impl Clone for Member {
    /// An exact copy.
    fn clone(&self) -> (r: Self)
        ensures
            r == *self,
    {
        Member { login: self.login.clone() }
    }
}

impl Clone for Repository {
    /// An exact copy.
    fn clone(&self) -> (r: Self)
        ensures
            r == *self,
    {
        Repository {
            owner: self.owner.clone(),
            name: self.name.clone(),
            description: match &self.description {
                Some(d) => Some(d.clone()),
                None => None,
            },
        }
    }
}

impl Clone for WikiArticle {
    /// An exact copy.
    fn clone(&self) -> (r: Self)
        ensures
            r == *self,
    {
        WikiArticle { title: self.title.clone(), uri: self.uri.clone() }
    }
}

impl Clone for Entity {
    /// An exact copy.
    fn clone(&self) -> (r: Self)
        ensures
            r == *self,
    {
        match self {
            Entity::Issue(i) => Entity::Issue(i.clone()),
            Entity::Member(m) => Entity::Member(m.clone()),
            Entity::Repo(r) => Entity::Repo(r.clone()),
            Entity::Wiki(w) => Entity::Wiki(w.clone()),
        }
    }
}

} // verus!
