//! The repositories of a project: what the listing, adding and removing of
//! a project's repositories decide once the stored rows are at hand.

use vstd::prelude::*;

verus! {

/// One repository of a project as the listing shows it.
pub struct ListItem {
    pub repo: String,
    pub branch: Option<String>,
}

/// The request to add a repository to a project.
pub struct Add {
    pub repo_ref: String,
    pub branch: Option<String>,
}

/// One stored row of a project's repositories. `repo` is `None` where the
/// stored reference does not name a repository that is known.
pub struct RepoRow {
    pub repo: Option<String>,
    pub branch: Option<String>,
}

/// Why a request on a project's repositories is refused.
#[derive(Clone, Copy, Debug, PartialEq, Eq, Structural)]
pub enum ProjectError {
    /// The request carries no user.
    NoUserId,
    /// The user has no project of that id.
    ProjectNotFound,
    /// The project has no such repository.
    ProjectRepoNotFound,
}

/// The items of the rows whose repository is known, in the order of the rows.
pub open spec fn listed(rows: Seq<RepoRow>) -> Seq<ListItem>
    decreases rows.len(),
{
    if rows.len() == 0 {
        Seq::empty()
    } else {
        let front = listed(rows.drop_last());
        match rows.last().repo {
            Some(repo) => front.push(ListItem { repo, branch: rows.last().branch }),
            None => front,
        }
    }
}

impl ProjectError {
    /// The text of the refusal.
    pub fn message(&self) -> (text: &'static str)
        ensures
            text@ == match *self {
                ProjectError::NoUserId => "missing user id"@,
                ProjectError::ProjectNotFound => "project not found"@,
                ProjectError::ProjectRepoNotFound => "project repo not found"@,
            },
    {
        match self {
            ProjectError::NoUserId => "missing user id",
            ProjectError::ProjectNotFound => "project not found",
            ProjectError::ProjectRepoNotFound => "project repo not found",
        }
    }
}

/// The user id of a request, which every operation on a project needs.
pub fn require_user(username: Option<&str>) -> (user: Result<String, ProjectError>)
    ensures
        match user {
            Ok(id) => username matches Some(name) && id@ == name@,
            Err(error) => username is None && error == ProjectError::NoUserId,
        },
{
    match username {
        Some(name) => Ok(name.to_owned()),
        None => Err(ProjectError::NoUserId),
    }
}

/// Passes where the row that an operation needs was found, and refuses with
/// `missing` where it was not.
pub fn require_found(found: bool, missing: ProjectError) -> (checked: Result<(), ProjectError>)
    ensures
        checked == if found {
            Ok::<(), ProjectError>(())
        } else {
            Err::<(), ProjectError>(missing)
        },
{
    if found {
        Ok(())
    } else {
        Err(missing)
    }
}

/// The listing of a project: one item for each row whose repository is
/// known, in the order of the rows; the other rows are passed over.
pub fn list_items(rows: &Vec<RepoRow>) -> (items: Vec<ListItem>)
    ensures
        items@ == listed(rows@),
{
    let mut items: Vec<ListItem> = Vec::new();
    let mut k: usize = 0;
    while k < rows.len()
        invariant
            k <= rows.len(),
            items@ == listed(rows@.take(k as int)),
        decreases rows.len() - k,
    {
        proof {
            assert(rows@.take(k as int + 1).drop_last() =~= rows@.take(k as int));
        }
        match &rows[k].repo {
            Some(repo) => {
                let branch = match &rows[k].branch {
                    Some(name) => Some(name.clone()),
                    None => None,
                };
                items.push(ListItem { repo: repo.clone(), branch });
            },
            None => {},
        }
        k = k + 1;
    }
    proof {
        assert(rows@.take(k as int) =~= rows@);
    }
    items
}

} // verus!
