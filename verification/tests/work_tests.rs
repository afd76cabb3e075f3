use git_me::branch::Type;
use git_me::changelog::{Changelog, Section, Work};
use git_me::error::Error;
use git_me::server::{
    find_head_commit, find_merge_request, find_project, find_user, final_merge_request, from_nick,
    to_nick, wip_title, Branch, Commit, MergeRequest, MergeRequestState, Project, User,
};
use git_me::work::{review, start, ReviewData};

fn projects() -> Vec<Project> {
    vec![
        Project {
            id: 7,
            path_with_namespace: "team/one".to_string(),
            ssh_url_to_repo: "git@host:team/one.git".to_string(),
        },
        Project {
            id: 9,
            path_with_namespace: "team/two".to_string(),
            ssh_url_to_repo: "git@host:team/two.git".to_string(),
        },
    ]
}

fn users() -> Vec<User> {
    vec![
        User { username: "alice".to_string(), name: "Alice A".to_string(), id: 1 },
        User { username: "bob".to_string(), name: "Bob B".to_string(), id: 2 },
    ]
}

fn full_changelog() -> Changelog {
    Changelog {
        artists: Work {
            sections: vec![Section {
                title: "General".to_string(),
                lines: vec!["fix X".to_string()],
            }],
        },
        technical: Work { sections: vec![] },
    }
}

fn review_data() -> ReviewData {
    ReviewData {
        changelog: full_changelog(),
        users: users(),
        dev_username: "bob".to_string(),
        merge_requests: vec![MergeRequest {
            iid: 42,
            web_url: "https://host/mr/42".to_string(),
            state: MergeRequestState::Opened,
        }],
    }
}

#[test]
fn nicknames_coincide_with_usernames() {
    assert_eq!(from_nick("alice"), "alice");
    assert_eq!(to_nick("alice"), "alice");
}

#[test]
fn find_project_by_url() {
    let ps = projects();
    assert_eq!(find_project(&ps, "git@host:team/two.git").unwrap(), 1);
    match find_project(&ps, "git@host:other.git") {
        Err(Error::NotFound(known)) => {
            assert_eq!(known, vec![
                "git@host:team/one.git".to_string(),
                "git@host:team/two.git".to_string(),
            ]);
        }
        other => panic!("expected a not-found listing, got {:?}", other),
    }
}

#[test]
fn find_user_by_username() {
    let us = users();
    assert_eq!(find_user(&us, "bob", true).unwrap(), 1);
    assert_eq!(find_user(&us, "alice", false).unwrap(), 0);
    match find_user(&us, "carol", true) {
        Err(Error::NotFound(known)) => {
            assert_eq!(known, vec!["alice".to_string(), "bob".to_string()]);
        }
        other => panic!("expected a not-found listing, got {:?}", other),
    }
}

#[test]
fn find_head_commit_by_branch_name() {
    let bs = vec![
        Branch { name: "develop".to_string(), commit: Commit { id: "abc123".to_string() } },
        Branch { name: "master".to_string(), commit: Commit { id: "def456".to_string() } },
    ];
    assert_eq!(find_head_commit(&bs, "master").unwrap(), "def456");
    assert!(matches!(find_head_commit(&bs, "gone"), Err(Error::NotFound(_))));
}

#[test]
fn find_merge_request_takes_the_first() {
    let mrs = vec![
        MergeRequest { iid: 5, web_url: "u5".to_string(), state: MergeRequestState::Opened },
        MergeRequest { iid: 6, web_url: "u6".to_string(), state: MergeRequestState::Closed },
    ];
    let (iid, url, state) = find_merge_request(&mrs).unwrap();
    assert_eq!(iid, 5);
    assert_eq!(url, "u5");
    assert_eq!(state, MergeRequestState::Opened);
    assert!(find_merge_request(&Vec::new()).is_none());
}

#[test]
fn merge_requests_order_by_identifier() {
    let a = MergeRequest { iid: 1, web_url: "a".to_string(), state: MergeRequestState::Opened };
    let b = MergeRequest { iid: 2, web_url: "b".to_string(), state: MergeRequestState::Merged };
    assert!(a < b);
    let d = MergeRequest::default();
    assert_eq!(d.iid, 0);
    assert_eq!(d.web_url, "");
    assert_eq!(d.state, MergeRequestState::Merged);
}

#[test]
fn wip_title_prefixes_the_branch() {
    assert_eq!(wip_title("feature/x"), "WIP: feature/x");
}

#[test]
fn final_merge_request_composes_the_notification() {
    let names = vec!["Alice A".to_string(), "Bob B".to_string()];
    let (title, text) = final_merge_request(
        "feature/x",
        "https://host/mr/42",
        &names,
        "Bob B",
        "## Artists\n",
    );
    assert_eq!(title, "feature/x");
    assert_eq!(
        text,
        "\n<at>Alice A</at>\n\n<at>Bob B</at>\n\n  \n\nhttps://host/mr/42  \n\n_Bob B_  \n\n---\n\n## Artists\n\n"
    );
}

#[test]
fn start_composes_the_plan() {
    let p = start(Type::Feature, "x", true, &projects(), "git@host:team/one.git").unwrap();
    assert_eq!(p.branch, "feature/x");
    assert_eq!(p.base, "develop");
    assert_eq!(p.title, "WIP: feature/x");
    assert_eq!(p.project_id, 7);
}

#[test]
fn start_requires_a_clean_tree_first() {
    assert!(matches!(
        start(Type::Feature, "x", false, &projects(), "git@host:team/one.git"),
        Err(Error::Precondition)
    ));
    // the clean-tree check comes before the name check
    assert!(matches!(
        start(Type::Feature, "Bad Name", false, &projects(), "git@host:team/one.git"),
        Err(Error::Precondition)
    ));
}

#[test]
fn start_rejects_a_malformed_name() {
    assert!(matches!(
        start(Type::Hotfix, "Bad Name", true, &projects(), "git@host:team/one.git"),
        Err(Error::Validation)
    ));
}

#[test]
fn start_reports_an_unknown_remote_with_the_known_urls() {
    match start(Type::Feature, "x", true, &projects(), "git@host:missing.git") {
        Err(Error::NotFound(known)) => assert_eq!(known.len(), 2),
        other => panic!("expected a not-found listing, got {:?}", other),
    }
}

#[test]
fn review_with_no_reviewers_keeps_the_merge_request_untouched() {
    let r = review("feature/x", true, true, &Vec::new(), None).unwrap();
    assert!(!r.needs_rebase);
    assert_eq!(r.branch, "feature/x");
    assert!(r.finish.is_none());
}

#[test]
fn review_schedules_a_rebase_when_behind() {
    let r = review("hotfix/x", true, false, &Vec::new(), None).unwrap();
    assert!(r.needs_rebase);
}

#[test]
fn review_needs_a_feature_or_hotfix_branch() {
    assert!(matches!(
        review("main", true, true, &Vec::new(), None),
        Err(Error::Validation)
    ));
}

#[test]
fn review_requires_a_clean_tree() {
    assert!(matches!(
        review("feature/x", false, true, &Vec::new(), None),
        Err(Error::Precondition)
    ));
}

#[test]
fn review_with_reviewers_updates_the_merge_request() {
    let data = review_data();
    let reviewers = vec!["alice".to_string(), "bob".to_string()];
    let r = review("feature/x", true, true, &reviewers, Some(&data)).unwrap();
    let f = r.finish.expect("a finished review must update the merge request");
    assert_eq!(f.merge_request_iid, 42);
    assert_eq!(f.title, "feature/x");
    assert_eq!(f.assignee, 1);
    assert_eq!(f.description, "## Artists\n### General\n\n- fix X\n\n## Technical\n");
    assert_eq!(f.note_title, "feature/x");
    assert_eq!(
        f.note_text,
        "\n<at>Alice A</at>\n\n<at>Bob B</at>\n\n  \n\nhttps://host/mr/42  \n\n_Bob B_  \n\n---\n\n## Artists\n### General\n\n- fix X\n\n## Technical\n\n"
    );
}

#[test]
fn review_refuses_an_unfilled_changelog() {
    let mut data = review_data();
    data.changelog = Changelog::new();
    let reviewers = vec!["alice".to_string()];
    assert!(matches!(
        review("feature/x", true, true, &reviewers, Some(&data)),
        Err(Error::Validation)
    ));
}

#[test]
fn review_reports_an_unknown_reviewer_with_the_known_usernames() {
    let data = review_data();
    let reviewers = vec!["carol".to_string()];
    match review("feature/x", true, true, &reviewers, Some(&data)) {
        Err(Error::NotFound(known)) => {
            assert_eq!(known, vec!["alice".to_string(), "bob".to_string()]);
        }
        other => panic!("expected a not-found listing, got {:?}", other),
    }
}

#[test]
fn review_fails_without_a_merge_request() {
    let mut data = review_data();
    data.merge_requests = Vec::new();
    let reviewers = vec!["alice".to_string()];
    match review("feature/x", true, true, &reviewers, Some(&data)) {
        Err(Error::NotFound(known)) => assert_eq!(known.len(), 0),
        other => panic!("expected a not-found error, got {:?}", other),
    }
}
