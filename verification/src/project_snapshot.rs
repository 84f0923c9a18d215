//! What a project looked like when a thread began.

use vstd::prelude::*;

use crate::text;

verus! {

/// What is known of a repository.
#[derive(Debug)]
pub struct GitState {
    pub remote_url: Option<String>,
    pub head_sha: Option<String>,
    pub current_branch: Option<String>,
    pub diff: Option<String>,
}

pub ghost struct GitView {
    pub remote_url: Option<Seq<char>>,
    pub head_sha: Option<Seq<char>>,
    pub current_branch: Option<Seq<char>>,
    pub diff: Option<Seq<char>>,
}

impl View for GitState {
    type V = GitView;

    open spec fn view(&self) -> GitView {
        GitView {
            remote_url: text::opt_view(self.remote_url),
            head_sha: text::opt_view(self.head_sha),
            current_branch: text::opt_view(self.current_branch),
            diff: text::opt_view(self.diff),
        }
    }
}

/// What is known of a directory of a project.
#[derive(Debug)]
pub struct WorktreeSnapshot {
    pub worktree_path: String,
    pub git_state: Option<GitState>,
}

pub ghost struct WorktreeView {
    pub worktree_path: Seq<char>,
    pub git_state: Option<GitView>,
}

impl View for WorktreeSnapshot {
    type V = WorktreeView;

    open spec fn view(&self) -> WorktreeView {
        WorktreeView {
            worktree_path: self.worktree_path@,
            git_state: match self.git_state {
                Some(state) => Some(state@),
                None => None,
            },
        }
    }
}

/// What a project looked like at a time, in milliseconds since 1970.
#[derive(Debug)]
pub struct ProjectSnapshot {
    pub worktree_snapshots: Vec<WorktreeSnapshot>,
    pub timestamp_ms: u64,
}

pub ghost struct SnapshotView {
    pub worktrees: Seq<WorktreeView>,
    pub timestamp_ms: u64,
}

/// What directories hold.
pub open spec fn worktree_views(worktrees: Seq<WorktreeSnapshot>) -> Seq<WorktreeView> {
    worktrees.map_values(|w: WorktreeSnapshot| w@)
}

impl View for ProjectSnapshot {
    type V = SnapshotView;

    open spec fn view(&self) -> SnapshotView {
        SnapshotView {
            worktrees: worktree_views(self.worktree_snapshots@),
            timestamp_ms: self.timestamp_ms,
        }
    }
}

/// What a snapshot holds, where there is one.
pub open spec fn opt_snapshot(snapshot: Option<ProjectSnapshot>) -> Option<SnapshotView> {
    match snapshot {
        Some(s) => Some(s@),
        None => None,
    }
}

impl GitState {
    pub fn copy(&self) -> (r: GitState)
        ensures
            r@ == self@,
    {
        GitState {
            remote_url: text::copy_option(&self.remote_url),
            head_sha: text::copy_option(&self.head_sha),
            current_branch: text::copy_option(&self.current_branch),
            diff: text::copy_option(&self.diff),
        }
    }
}

impl WorktreeSnapshot {
    pub fn copy(&self) -> (r: WorktreeSnapshot)
        ensures
            r@ == self@,
    {
        WorktreeSnapshot {
            worktree_path: self.worktree_path.clone(),
            git_state: match &self.git_state {
                Some(state) => Some(state.copy()),
                None => None,
            },
        }
    }
}

impl ProjectSnapshot {
    pub fn copy(&self) -> (r: ProjectSnapshot)
        ensures
            r@ == self@,
    {
        let mut worktree_snapshots: Vec<WorktreeSnapshot> = Vec::new();
        for i in 0..self.worktree_snapshots.len()
            invariant
                worktree_snapshots@.len() == i,
                forall|k: int|
                    0 <= k < i ==> (#[trigger] worktree_snapshots@[k])@
                        == self.worktree_snapshots@[k]@,
        {
            worktree_snapshots.push(self.worktree_snapshots[i].copy());
        }
        assert(worktree_views(worktree_snapshots@) =~= worktree_views(self.worktree_snapshots@));
        ProjectSnapshot { worktree_snapshots, timestamp_ms: self.timestamp_ms }
    }
}

/// What was found of the repository that holds a directory.
#[derive(Debug)]
pub struct Repository {
    pub current_branch: Option<String>,
    /// Whether it is on this machine. Of another one only the branch is known.
    pub local: bool,
    pub remote_url: Option<String>,
    pub head_sha: Option<String>,
    pub diff: Option<String>,
}

/// What is kept of a repository.
pub open spec fn git_view(repository: Repository) -> GitView {
    let current_branch = text::opt_view(repository.current_branch);
    if repository.local {
        GitView {
            remote_url: text::opt_view(repository.remote_url),
            head_sha: text::opt_view(repository.head_sha),
            current_branch,
            diff: text::opt_view(repository.diff),
        }
    } else {
        GitView { remote_url: None, head_sha: None, current_branch, diff: None }
    }
}

/// What is kept of a directory: nothing of one that is gone, and of one that no repository holds its
/// path alone.
pub fn worktree_snapshot(path: Option<String>, repository: Option<Repository>) -> (r:
    WorktreeSnapshot)
    ensures
        r@.worktree_path == (match path {
            Some(p) => p@,
            None => Seq::empty(),
        }),
        r@.git_state == (match (path, repository) {
            (Some(_), Some(repository)) => Some(git_view(repository)),
            _ => None,
        }),
{
    let worktree_path = match path {
        None => return WorktreeSnapshot { worktree_path: String::new(), git_state: None },
        Some(p) => p,
    };
    let git_state = match repository {
        None => None,
        Some(found) => {
            if found.local {
                Some(
                    GitState {
                        remote_url: found.remote_url,
                        head_sha: found.head_sha,
                        current_branch: found.current_branch,
                        diff: found.diff,
                    },
                )
            } else {
                Some(
                    GitState {
                        remote_url: None,
                        head_sha: None,
                        current_branch: found.current_branch,
                        diff: None,
                    },
                )
            }
        },
    };
    WorktreeSnapshot { worktree_path, git_state }
}

} // verus!
