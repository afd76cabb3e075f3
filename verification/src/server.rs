//! Remote-repository records and the pure halves of the remote operations:
//! resolving a project by URL, a user by identifier, a branch's head commit,
//! the first merge request of a branch, and the strings a finished review
//! composes.

use vstd::prelude::*;
use crate::error::Error;
use crate::text::str_eq;

verus! {

/// A remote project record.
#[derive(Debug)]
pub struct Project {
    pub id: u64,
    pub path_with_namespace: String,
    pub ssh_url_to_repo: String,
}

/// A remote user record.
#[derive(Debug)]
pub struct User {
    pub username: String,
    pub name: String,
    pub id: u64,
}

/// A remote branch record.
#[derive(Debug)]
pub struct Branch {
    pub name: String,
    pub commit: Commit,
}

/// A commit, by identifier.
#[derive(Debug)]
pub struct Commit {
    pub id: String,
}

/// The state a merge request can be in.
#[derive(Clone, Copy, PartialEq, Eq, Structural, Debug)]
pub enum MergeRequestState {
    Opened,
    Merged,
    Closed,
}

/// A merge request record; ordered by identifier.
#[derive(Debug, PartialEq)]
pub struct MergeRequest {
    pub iid: u64,
    pub web_url: String,
    pub state: MergeRequestState,
}

impl PartialOrd for MergeRequest {
    /// Merge requests compare by identifier alone.
    fn partial_cmp(&self, other: &MergeRequest) -> (r: Option<core::cmp::Ordering>) {
        self.iid.partial_cmp(&other.iid)
    }
}

impl vstd::std_specs::cmp::PartialOrdSpecImpl for MergeRequest {
    open spec fn obeys_partial_cmp_spec() -> bool {
        true
    }

    open spec fn partial_cmp_spec(&self, other: &MergeRequest) -> Option<core::cmp::Ordering> {
        if self.iid < other.iid {
            Some(core::cmp::Ordering::Less)
        } else if self.iid == other.iid {
            Some(core::cmp::Ordering::Equal)
        } else {
            Some(core::cmp::Ordering::Greater)
        }
    }
}

impl Default for MergeRequest {
    /// An absent merge request: identifier zero, no URL, already merged.
    fn default() -> (d: MergeRequest)
        ensures
            d.iid == 0,
            d.web_url@ == Seq::<char>::empty(),
            d.state == MergeRequestState::Merged,
    {
        MergeRequest { iid: 0u64, web_url: String::new(), state: MergeRequestState::Merged }
    }
}

/// A nickname resolved to a remote username; the two coincide here.
pub fn from_nick(name: &str) -> (r: &str)
    ensures
        r@ == name@,
{
    name
}

/// A remote username turned back into a nickname; the two coincide here.
pub fn to_nick(name: &str) -> (r: &str)
    ensures
        r@ == name@,
{
    name
}

/// The first index of a project whose ssh url equals `url`, if any.
pub open spec fn project_find(ps: Seq<Project>, url: Seq<char>) -> Option<int>
    decreases ps.len(),
{
    if ps.len() == 0 {
        None
    } else if ps[0].ssh_url_to_repo@ == url {
        Some(0)
    } else {
        match project_find(ps.drop_first(), url) {
            Some(i) => Some(i + 1),
            None => None,
        }
    }
}

/// The first index of a user whose username equals `username`, if any.
pub open spec fn user_find(us: Seq<User>, username: Seq<char>) -> Option<int>
    decreases us.len(),
{
    if us.len() == 0 {
        None
    } else if us[0].username@ == username {
        Some(0)
    } else {
        match user_find(us.drop_first(), username) {
            Some(i) => Some(i + 1),
            None => None,
        }
    }
}

/// The first index of a branch named `name`, if any.
pub open spec fn branch_find(bs: Seq<Branch>, name: Seq<char>) -> Option<int>
    decreases bs.len(),
{
    if bs.len() == 0 {
        None
    } else if bs[0].name@ == name {
        Some(0)
    } else {
        match branch_find(bs.drop_first(), name) {
            Some(i) => Some(i + 1),
            None => None,
        }
    }
}

proof fn lemma_project_find_at(ps: Seq<Project>, url: Seq<char>, i: int)
    requires
        0 <= i < ps.len(),
        ps[i].ssh_url_to_repo@ == url,
        forall|j: int| 0 <= j < i ==> ps[j].ssh_url_to_repo@ != url,
    ensures
        project_find(ps, url) == Some(i),
    decreases i,
{
    if i > 0 {
        lemma_project_find_at(ps.drop_first(), url, i - 1);
    }
}

proof fn lemma_project_find_none(ps: Seq<Project>, url: Seq<char>)
    requires
        forall|j: int| 0 <= j < ps.len() ==> ps[j].ssh_url_to_repo@ != url,
    ensures
        project_find(ps, url) is None,
    decreases ps.len(),
{
    if ps.len() > 0 {
        lemma_project_find_none(ps.drop_first(), url);
    }
}

proof fn lemma_user_find_at(us: Seq<User>, username: Seq<char>, i: int)
    requires
        0 <= i < us.len(),
        us[i].username@ == username,
        forall|j: int| 0 <= j < i ==> us[j].username@ != username,
    ensures
        user_find(us, username) == Some(i),
    decreases i,
{
    if i > 0 {
        lemma_user_find_at(us.drop_first(), username, i - 1);
    }
}

proof fn lemma_user_find_none(us: Seq<User>, username: Seq<char>)
    requires
        forall|j: int| 0 <= j < us.len() ==> us[j].username@ != username,
    ensures
        user_find(us, username) is None,
    decreases us.len(),
{
    if us.len() > 0 {
        lemma_user_find_none(us.drop_first(), username);
    }
}

proof fn lemma_branch_find_at(bs: Seq<Branch>, name: Seq<char>, i: int)
    requires
        0 <= i < bs.len(),
        bs[i].name@ == name,
        forall|j: int| 0 <= j < i ==> bs[j].name@ != name,
    ensures
        branch_find(bs, name) == Some(i),
    decreases i,
{
    if i > 0 {
        lemma_branch_find_at(bs.drop_first(), name, i - 1);
    }
}

proof fn lemma_branch_find_none(bs: Seq<Branch>, name: Seq<char>)
    requires
        forall|j: int| 0 <= j < bs.len() ==> bs[j].name@ != name,
    ensures
        branch_find(bs, name) is None,
    decreases bs.len(),
{
    if bs.len() > 0 {
        lemma_branch_find_none(bs.drop_first(), name);
    }
}

/// Every known project's ssh url, in order, for a not-found diagnostic.
fn project_urls(projects: &Vec<Project>) -> (r: Vec<String>)
    ensures
        r.deep_view() == projects@.map_values(|p: Project| p.ssh_url_to_repo@),
{
    let ghost m = projects@.map_values(|p: Project| p.ssh_url_to_repo@);
    let n = projects.len();
    let mut r: Vec<String> = Vec::new();
    let mut i: usize = 0;
    while i < n
        invariant
            i <= n,
            n == projects@.len(),
            m == projects@.map_values(|p: Project| p.ssh_url_to_repo@),
            r@.len() == i,
            forall|j: int| 0 <= j < i ==> #[trigger] r@[j]@ == m[j],
        decreases n - i,
    {
        r.push(projects[i].ssh_url_to_repo.clone());
        assert(r@[i as int]@ == m[i as int]);
        i += 1;
    }
    proof {
        assert forall|j: int| 0 <= j < n implies r.deep_view()[j] == m[j] by {
            assert(r.deep_view()[j] == r@[j]@);
        }
        assert(r.deep_view() =~= m);
    }
    r
}

/// Every known username, in order, for a not-found diagnostic.
fn user_names(users: &Vec<User>) -> (r: Vec<String>)
    ensures
        r.deep_view() == users@.map_values(|u: User| u.username@),
{
    let ghost m = users@.map_values(|u: User| u.username@);
    let n = users.len();
    let mut r: Vec<String> = Vec::new();
    let mut i: usize = 0;
    while i < n
        invariant
            i <= n,
            n == users@.len(),
            m == users@.map_values(|u: User| u.username@),
            r@.len() == i,
            forall|j: int| 0 <= j < i ==> #[trigger] r@[j]@ == m[j],
        decreases n - i,
    {
        r.push(users[i].username.clone());
        assert(r@[i as int]@ == m[i as int]);
        i += 1;
    }
    proof {
        assert forall|j: int| 0 <= j < n implies r.deep_view()[j] == m[j] by {
            assert(r.deep_view()[j] == r@[j]@);
        }
        assert(r.deep_view() =~= m);
    }
    r
}

/// The project whose ssh url equals `url`, as an index into `projects`; on
/// a miss, a not-found error listing every known project's url.
pub fn find_project(projects: &Vec<Project>, url: &str) -> (r: Result<usize, Error>)
    ensures
        match r {
            Ok(i) => i < projects@.len() && project_find(projects@, url@) == Some(i as int),
            Err(e) => project_find(projects@, url@) is None && (e matches Error::NotFound(known)
                && known.deep_view() == projects@.map_values(|p: Project| p.ssh_url_to_repo@)),
        },
{
    let n = projects.len();
    let mut i: usize = 0;
    while i < n
        invariant
            i <= n,
            n == projects@.len(),
            forall|j: int| 0 <= j < i ==> projects@[j].ssh_url_to_repo@ != url@,
        decreases n - i,
    {
        if str_eq(projects[i].ssh_url_to_repo.as_str(), url) {
            proof {
                lemma_project_find_at(projects@, url@, i as int);
            }
            return Ok(i);
        }
        i += 1;
    }
    proof {
        lemma_project_find_none(projects@, url@);
    }
    Err(Error::NotFound(project_urls(projects)))
}

/// The user whose username equals `username` (resolved through the
/// nickname table when asked), as an index into `users`; on a miss, a
/// not-found error listing every known username.
pub fn find_user(users: &Vec<User>, username: &str, resolve_nick: bool) -> (r: Result<
    usize,
    Error,
>)
    ensures
        match r {
            Ok(i) => i < users@.len() && user_find(users@, username@) == Some(i as int),
            Err(e) => user_find(users@, username@) is None && (e matches Error::NotFound(known)
                && known.deep_view() == users@.map_values(|u: User| u.username@)),
        },
{
    let uname = if resolve_nick {
        from_nick(username)
    } else {
        username
    };
    assert(uname@ == username@);
    let n = users.len();
    let mut i: usize = 0;
    while i < n
        invariant
            i <= n,
            n == users@.len(),
            uname@ == username@,
            forall|j: int| 0 <= j < i ==> users@[j].username@ != username@,
        decreases n - i,
    {
        if str_eq(users[i].username.as_str(), uname) {
            proof {
                lemma_user_find_at(users@, username@, i as int);
            }
            return Ok(i);
        }
        i += 1;
    }
    proof {
        lemma_user_find_none(users@, username@);
    }
    Err(Error::NotFound(user_names(users)))
}

/// The head commit id of the branch named `name` among the project's
/// branches; a not-found error when no branch carries the name.
pub fn find_head_commit(branches: &Vec<Branch>, name: &str) -> (r: Result<String, Error>)
    ensures
        match r {
            Ok(id) => (branch_find(branches@, name@) matches Some(i) && id@
                == branches@[i].commit.id@),
            Err(e) => branch_find(branches@, name@) is None && (e matches Error::NotFound(known)
                && known@.len() == 0),
        },
{
    let n = branches.len();
    let mut i: usize = 0;
    while i < n
        invariant
            i <= n,
            n == branches@.len(),
            forall|j: int| 0 <= j < i ==> branches@[j].name@ != name@,
        decreases n - i,
    {
        if str_eq(branches[i].name.as_str(), name) {
            proof {
                lemma_branch_find_at(branches@, name@, i as int);
            }
            return Ok(branches[i].commit.id.clone());
        }
        i += 1;
    }
    proof {
        lemma_branch_find_none(branches@, name@);
    }
    Err(Error::NotFound(Vec::new()))
}

/// The work-in-progress title a newly opened merge request carries.
pub fn wip_title(branch: &str) -> (r: String)
    ensures
        r@ == "WIP: "@ + branch@,
{
    let mut t = String::from_str("WIP: ");
    t.append(branch);
    t
}

/// The first merge request of the listing, the one a finished review
/// updates: its identifier, web URL and state. `None` when none exists.
pub fn find_merge_request(mrs: &Vec<MergeRequest>) -> (r: Option<(u64, String, MergeRequestState)>)
    ensures
        match r {
            Some(t) => mrs@.len() > 0 && t.0 == mrs@[0].iid && t.1@ == mrs@[0].web_url@ && t.2
                == mrs@[0].state,
            None => mrs@.len() == 0,
        },
{
    if mrs.len() == 0 {
        return None;
    }
    Some((mrs[0].iid, mrs[0].web_url.clone(), mrs[0].state))
}

/// An `@mention` line per name, each followed by a blank line.
pub open spec fn mention_block(names: Seq<Seq<char>>) -> Seq<char>
    decreases names.len(),
{
    if names.len() == 0 {
        Seq::<char>::empty()
    } else {
        "<at>"@ + names[0] + "</at>\n\n"@ + mention_block(names.drop_first())
    }
}

/// The notification text of a finished review: the mentions, the merge
/// request's URL, the operator's name and the rendered changelog, joined in
/// that order with blank-line separation.
pub open spec fn review_summary(
    mention: Seq<char>,
    url: Seq<char>,
    dev: Seq<char>,
    description: Seq<char>,
) -> Seq<char> {
    "\n"@ + mention + "  \n\n"@ + url + "  \n\n_"@ + dev + "_  \n\n---\n\n"@ + description + "\n"@
}

proof fn lemma_mention_block_snoc(names: Seq<Seq<char>>, i: int)
    requires
        0 <= i < names.len(),
    ensures
        mention_block(names.take(i + 1)) == mention_block(names.take(i)) + ("<at>"@ + names[i]
            + "</at>\n\n"@),
    decreases i,
{
    let t1 = names.take(i + 1);
    let t0 = names.take(i);
    assert(t1.len() == i + 1);
    assert(t1[0] == names[0]);
    let head = "<at>"@ + names[0] + "</at>\n\n"@;
    let tail = "<at>"@ + names[i] + "</at>\n\n"@;
    if i == 0 {
        assert(t1.drop_first() =~= t0);
        assert(t0.len() == 0);
        assert(mention_block(t1) == head + mention_block(t0));
        assert(mention_block(t0) == Seq::<char>::empty());
        assert(head + Seq::<char>::empty() =~= head);
        assert(Seq::<char>::empty() + head =~= head);
    } else {
        let d = names.drop_first();
        assert(t1.drop_first() =~= d.take(i));
        assert(mention_block(t1) == head + mention_block(d.take(i)));
        lemma_mention_block_snoc(d, i - 1);
        assert(d[i - 1] == names[i]);
        assert(t0[0] == names[0]);
        assert(t0.drop_first() =~= d.take(i - 1));
        assert(mention_block(t0) == head + mention_block(d.take(i - 1)));
        assert((head + mention_block(d.take(i - 1))) + tail =~= head + (mention_block(
            d.take(i - 1),
        ) + tail));
    }
}

/// The `@mention` block for the given names, in order.
pub fn compose_mentions(names: &Vec<String>) -> (r: String)
    ensures
        r@ == mention_block(names.deep_view()),
{
    let mut out = String::new();
    let n = names.len();
    proof {
        assert(mention_block(names.deep_view().take(0)) == Seq::<char>::empty());
    }
    let mut i: usize = 0;
    while i < n
        invariant
            i <= n,
            n == names@.len(),
            out@ == mention_block(names.deep_view().take(i as int)),
        decreases n - i,
    {
        proof {
            lemma_mention_block_snoc(names.deep_view(), i as int);
        }
        out.append("<at>");
        out.append(names[i].as_str());
        out.append("</at>\n\n");
        proof {
            assert(names.deep_view()[i as int] == names@[i as int]@);
            assert(out@ =~= mention_block(names.deep_view().take(i + 1)));
        }
        i += 1;
    }
    proof {
        assert(names.deep_view().take(n as int) =~= names.deep_view());
    }
    out
}

/// The strings a finished review hands on: the merge request's new bare
/// title, and the notification text composed from the mention block,
/// the merge request's URL, the operator's name and the description.
pub fn final_merge_request(
    branch: &str,
    merge_request_url: &str,
    reviewers: &Vec<String>,
    dev_name: &str,
    description: &str,
) -> (r: (String, String))
    ensures
        r.0@ == branch@,
        r.1@ == review_summary(
            mention_block(reviewers.deep_view()),
            merge_request_url@,
            dev_name@,
            description@,
        ),
{
    let title = String::from_str(branch);
    let mention = compose_mentions(reviewers);
    let mut text = String::from_str("\n");
    text.append(mention.as_str());
    text.append("  \n\n");
    text.append(merge_request_url);
    text.append("  \n\n_");
    text.append(dev_name);
    text.append("_  \n\n---\n\n");
    text.append(description);
    text.append("\n");
    proof {
        assert(text@ =~= review_summary(
            mention_block(reviewers.deep_view()),
            merge_request_url@,
            dev_name@,
            description@,
        ));
    }
    (title, text)
}

} // verus!
