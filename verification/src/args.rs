//! The command surface, as plain data: every task the tool can be asked to
//! perform, with its options. The binary parses the command line into these
//! values and dispatches on them.

use vstd::prelude::*;

verus! {

/// A parsed invocation: one task.
#[derive(Debug)]
pub struct Tasks {
    pub task: Task,
}

/// Every task the tool performs.
#[derive(Debug)]
pub enum Task {
    Feature(Feature),
    Hotfix(Hotfix),
    Review(Review),
    Changelog(Changelog),
    Setup(Setup),
    Info(Info),
    Project(Project),
}

/// Start a new feature or hotfix branch.
#[derive(Debug)]
pub struct Start {
    /// The short name of the new branch.
    pub name: String,
}

/// Push the current branch for review.
#[derive(Debug)]
pub struct Review {
    /// Who is asked to look at a finished branch; empty for a dry run.
    pub finished: Vec<String>,
}

/// Rebase the current branch onto its base.
#[derive(Debug)]
pub struct Rebase {}

/// The stage a feature or hotfix is moved to.
#[derive(Debug)]
pub enum Status {
    Start(Start),
    Rebase(Rebase),
}

/// Work with a feature branch.
#[derive(Debug)]
pub struct Feature {
    pub status: Status,
}

/// Work with a hotfix branch.
#[derive(Debug)]
pub struct Hotfix {
    pub status: Status,
}

/// Build the release changelog for a tag by merging branch changelogs.
#[derive(Debug)]
pub struct Aggregate {
    /// The release tag the aggregate is named after.
    pub tag: String,
}

/// Check that a changelog document is valid.
#[derive(Debug)]
pub struct Validate {
    /// The path of the document to check.
    pub path: String,
}

/// Edit the current branch's changelog.
#[derive(Debug)]
pub struct Edit {
    /// Commit the changelog after the edit.
    pub commit: bool,
    /// Seed the changelog from the last commit message.
    pub last_commit: bool,
}

/// The changelog operations.
#[derive(Debug)]
pub enum ChangelogStatus {
    Aggregate(Aggregate),
    Validate(Validate),
    Edit(Edit),
}

/// Work with changelogs.
#[derive(Debug)]
pub struct Changelog {
    pub status: ChangelogStatus,
}

/// List the remote projects.
#[derive(Debug)]
pub struct ProjectList {}

/// The project operations.
#[derive(Debug)]
pub enum ProjectCommand {
    List(ProjectList),
}

/// Work with remote projects.
#[derive(Debug)]
pub struct Project {
    pub project: ProjectCommand,
}

/// Store the remote server and its access token.
#[derive(Debug)]
pub struct Setup {
    /// The remote server to talk to.
    pub server: String,
    /// The API token to authenticate with.
    pub private_token: String,
}

/// Show the stored configuration.
#[derive(Debug)]
pub struct Info {}

} // verus!
