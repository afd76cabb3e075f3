//! The branch lifecycle orchestrator's decisions: everything `start` and
//! `review` check and compose before any side effect happens. The caller
//! carries the resulting plan out against the local repository, the remote
//! and the notification channel, in the plan's order.

use vstd::prelude::*;
use crate::branch;
use crate::branch::{Type, base_spec, resolve_spec, type_of_spec, well_formed_spec};
use crate::changelog::{Changelog, doc_has_content, formatted, render_doc};
use crate::error::Error;
use crate::server::{
    MergeRequest,
    Project,
    User,
    find_merge_request,
    find_project,
    find_user,
    final_merge_request,
    mention_block,
    project_find,
    review_summary,
    user_find,
    wip_title,
};

verus! {

/// What `start` performs once its checks pass: create and push the branch,
/// set its upstream, and open a work-in-progress merge request into the
/// base branch of the project found for the remote URL.
#[derive(Debug)]
pub struct StartPlan {
    /// The canonical branch identifier to create and push.
    pub branch: String,
    /// The integration branch the merge request targets.
    pub base: String,
    /// The work-in-progress title of the new merge request.
    pub title: String,
    /// The project the merge request is opened in.
    pub project_id: u64,
}

/// Decides the `start` transition: requires a clean working tree, then a
/// well-formed name, then a project matching the remote URL, and composes
/// the branch identifier, base branch and merge-request title.
pub fn start(
    branch_type: Type,
    name: &str,
    index_clean: bool,
    projects: &Vec<Project>,
    remote_url: &str,
) -> (r: Result<StartPlan, Error>)
    ensures
        r is Err <==> (!index_clean || !well_formed_spec(name@) || project_find(
            projects@,
            remote_url@,
        ) is None),
        !index_clean ==> r matches Err(Error::Precondition),
        index_clean && !well_formed_spec(name@) ==> r matches Err(Error::Validation),
        (index_clean && well_formed_spec(name@) && project_find(projects@, remote_url@) is None)
            ==> (r matches Err(Error::NotFound(known)) && known.deep_view()
            == projects@.map_values(|p: Project| p.ssh_url_to_repo@)),
        r matches Ok(p) ==> ({
            &&& p.branch@ == resolve_spec(branch_type, name@)
            &&& p.base@ == base_spec(branch_type)
            &&& p.title@ == "WIP: "@ + resolve_spec(branch_type, name@)
            &&& (project_find(projects@, remote_url@) matches Some(i) && p.project_id
                == projects@[i].id)
        }),
{
    if !index_clean {
        return Err(Error::Precondition);
    }
    if !branch::well_formed(name) {
        return Err(Error::Validation);
    }
    let pi = match find_project(projects, remote_url) {
        Ok(i) => i,
        Err(e) => {
            return Err(e);
        },
    };
    let b = branch::resolve(branch_type, name);
    let title = wip_title(b.as_str());
    let base = String::from_str(branch::base(branch_type));
    Ok(StartPlan { branch: b, base, title, project_id: projects[pi].id })
}

/// The collaborator state a finished review decides over, fetched by the
/// caller before the decision: the branch's parsed changelog, the remote's
/// users, the operator's username, and the branch's merge requests.
#[derive(Debug)]
pub struct ReviewData {
    pub changelog: Changelog,
    pub users: Vec<User>,
    pub dev_username: String,
    pub merge_requests: Vec<MergeRequest>,
}

/// The merge-request update and notification of a finished review.
#[derive(Debug)]
pub struct FinishPlan {
    /// The merge request to update: the branch's first listed one.
    pub merge_request_iid: u64,
    /// Its new title: the bare branch identifier, the WIP marker dropped.
    pub title: String,
    /// The first resolved user, who becomes the assignee.
    pub assignee: u64,
    /// Its new description: the rendered changelog.
    pub description: String,
    /// The notification payload's title and text.
    pub note_title: String,
    pub note_text: String,
}

/// What `review` performs once its checks pass.
#[derive(Debug)]
pub struct ReviewPlan {
    /// Rebase onto the base branch before pushing.
    pub needs_rebase: bool,
    /// The branch to push.
    pub branch: String,
    /// The merge-request update and notification; absent when nobody was
    /// named for the final review, in which case the branch stays
    /// work-in-progress.
    pub finish: Option<FinishPlan>,
}

/// Some name on the review list has no user record.
pub open spec fn some_reviewer_unknown(users: Seq<User>, reviewers: Seq<Seq<char>>) -> bool {
    exists|i: int| 0 <= i < reviewers.len() && user_find(users, reviewers[i]) is None
}

/// The display name of the user with the given username, if found.
pub open spec fn user_name_of(users: Seq<User>, username: Seq<char>) -> Seq<char> {
    match user_find(users, username) {
        Some(i) => users[i].name@,
        None => Seq::<char>::empty(),
    }
}

/// Each identifier on the review list resolved to its user's display name.
pub open spec fn resolved_names(users: Seq<User>, reviewers: Seq<Seq<char>>) -> Seq<Seq<char>> {
    reviewers.map_values(|rv: Seq<char>| user_name_of(users, rv))
}

/// What a finished review (at least one name on the review list) must
/// decide, after the kind and clean-tree gates have passed: the changelog
/// must contain entries, every name on the list and the operator must
/// resolve to users, a merge request must exist; then the update and the
/// notification are fixed.
pub open spec fn review_finish_post(
    r: Result<ReviewPlan, Error>,
    d: ReviewData,
    reviewers: Seq<Seq<char>>,
    branch_name: Seq<char>,
) -> bool {
    if !doc_has_content(d.changelog) {
        r matches Err(Error::Validation)
    } else if some_reviewer_unknown(d.users@, reviewers) || user_find(
        d.users@,
        d.dev_username@,
    ) is None {
        r matches Err(Error::NotFound(known)) && known.deep_view() == d.users@.map_values(
            |u: User| u.username@,
        )
    } else if d.merge_requests@.len() == 0 {
        r matches Err(Error::NotFound(known)) && known@.len() == 0
    } else {
        r matches Ok(p) && (p.finish matches Some(f) && {
            &&& f.merge_request_iid == d.merge_requests@[0].iid
            &&& f.title@ == branch_name
            &&& (user_find(d.users@, reviewers[0]) matches Some(i0) && f.assignee
                == d.users@[i0].id)
            &&& f.description@ == render_doc(d.changelog)
            &&& f.note_title@ == branch_name
            &&& f.note_text@ == review_summary(
                mention_block(resolved_names(d.users@, reviewers)),
                d.merge_requests@[0].web_url@,
                user_name_of(d.users@, d.dev_username@),
                render_doc(d.changelog),
            )
        })
    }
}

/// Decides the `review` transition for the current branch. The branch must
/// carry a feature or hotfix prefix and the working tree must be clean; the
/// branch is then pushed (after a rebase when it is not up to date). With
/// name given for the final review the branch stays work-in-progress; with
/// names given, the merge-request update and notification are decided by
/// [`review_finish_post`].
pub fn review(
    branch_name: &str,
    index_clean: bool,
    up_to_date: bool,
    reviewers: &Vec<String>,
    data: Option<&ReviewData>,
) -> (r: Result<ReviewPlan, Error>)
    requires
        reviewers@.len() > 0 ==> data is Some,
    ensures
        type_of_spec(branch_name@) is None ==> r matches Err(Error::Validation),
        (type_of_spec(branch_name@) is Some && !index_clean) ==> r matches Err(
            Error::Precondition,
        ),
        r matches Ok(p) ==> (p.needs_rebase == !up_to_date && p.branch@ == branch_name@),
        reviewers@.len() == 0 ==> (r matches Ok(p) ==> p.finish is None),
        reviewers@.len() > 0 ==> (r matches Ok(p) ==> p.finish is Some),
        (type_of_spec(branch_name@) is Some && index_clean && reviewers@.len() == 0) ==> (
        r matches Ok(p) && p.finish is None),
        (type_of_spec(branch_name@) is Some && index_clean && reviewers@.len() > 0)
            ==> review_finish_post(r, *data->0, reviewers.deep_view(), branch_name@),
{
    let kind = branch::type_of(branch_name);
    if kind.is_none() {
        return Err(Error::Validation);
    }
    if !index_clean {
        return Err(Error::Precondition);
    }
    let needs_rebase = !up_to_date;
    let branch_string = String::from_str(branch_name);
    if reviewers.len() == 0 {
        return Ok(ReviewPlan { needs_rebase, branch: branch_string, finish: None });
    }
    let d = data.unwrap();
    if !d.changelog.contains_entries() {
        return Err(Error::Validation);
    }
    let mut names: Vec<String> = Vec::new();
    let mut primary: u64 = 0;
    let n = reviewers.len();
    let mut i: usize = 0;
    while i < n
        invariant
            i <= n,
            n == reviewers@.len(),
            type_of_spec(branch_name@) is Some,
            index_clean,
            reviewers@.len() > 0,
            data == Some(d),
            doc_has_content(d.changelog),
            forall|j: int| 0 <= j < i ==> #[trigger] user_find(
                d.users@,
                reviewers.deep_view()[j],
            ) is Some,
            names@.len() == i,
            forall|j: int| 0 <= j < i ==> #[trigger] names@[j]@ == user_name_of(
                d.users@,
                reviewers.deep_view()[j],
            ),
            i > 0 ==> (user_find(d.users@, reviewers.deep_view()[0]) matches Some(i0) && primary
                == d.users@[i0].id),
        decreases n - i,
    {
        assert(reviewers.deep_view()[i as int] == reviewers@[i as int]@);
        match find_user(&d.users, reviewers[i].as_str(), true) {
            Ok(u) => {
                names.push(d.users[u].name.clone());
                if i == 0 {
                    primary = d.users[u].id;
                }
            },
            Err(e) => {
                proof {
                    assert(some_reviewer_unknown(d.users@, reviewers.deep_view()));
                }
                return Err(e);
            },
        }
        i += 1;
    }
    assert(!some_reviewer_unknown(d.users@, reviewers.deep_view())) by {
        if some_reviewer_unknown(d.users@, reviewers.deep_view()) {
            let j = choose|j: int|
                0 <= j < reviewers.deep_view().len() && user_find(
                    d.users@,
                    reviewers.deep_view()[j],
                ) is None;
            assert(user_find(d.users@, reviewers.deep_view()[j]) is Some);
        }
    };
    let dev = match find_user(&d.users, d.dev_username.as_str(), false) {
        Ok(ud) => d.users[ud].name.clone(),
        Err(e) => {
            return Err(e);
        },
    };
    let description = formatted(&d.changelog);
    match find_merge_request(&d.merge_requests) {
        None => Err(Error::NotFound(Vec::new())),
        Some((iid, url, _state)) => {
            proof {
                let rn = resolved_names(d.users@, reviewers.deep_view());
                assert forall|j: int| 0 <= j < n implies names.deep_view()[j] == rn[j] by {
                    assert(names.deep_view()[j] == names@[j]@);
                    assert(user_find(d.users@, reviewers.deep_view()[j]) is Some);
                }
                assert(names.deep_view() =~= rn);
            }
            let (note_title, note_text) = final_merge_request(
                branch_name,
                url.as_str(),
                &names,
                dev.as_str(),
                description.as_str(),
            );
            Ok(
                ReviewPlan {
                    needs_rebase,
                    branch: branch_string,
                    finish: Some(
                        FinishPlan {
                            merge_request_iid: iid,
                            title: String::from_str(branch_name),
                            assignee: primary,
                            description,
                            note_title,
                            note_text,
                        },
                    ),
                },
            )
        },
    }
}

} // verus!
