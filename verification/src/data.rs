//! What is known of a repository, and how it is shown and selected.

use vstd::prelude::*;

use crate::fs_path::FsPath;

verus! {

/// A worktree: its directory and the branch checked out in it.
#[derive(Debug)]
pub struct Worktree {
    pub path: FsPath,
    pub branch: String,
}

/// A pull request.
#[derive(Debug, Clone, Copy)]
pub struct PullRequest {
    pub number: i64,
}

/// A session of a coding agent.
#[derive(Debug)]
pub struct Session {
    pub id: String,
}

/// An issue.
#[derive(Debug)]
pub struct Issue {
    pub number: i64,
    pub title: String,
}

/// A row of the table that stands for work: a branch with the worktree and the pull request that
/// belong to it, by their positions.
#[derive(Debug)]
pub struct WorkItem {
    pub branch: Option<String>,
    pub worktree_idx: Option<usize>,
    pub pr_idx: Option<usize>,
}

/// A row of the table.
#[derive(Debug)]
pub enum TableEntry {
    Header,
    Item(WorkItem),
}

/// What is known of a repository, and the table made of it.
#[derive(Debug)]
pub struct DataStore {
    pub worktrees: Vec<Worktree>,
    pub prs: Vec<PullRequest>,
    pub sessions: Vec<Session>,
    pub remote_branches: Vec<String>,
    pub issues: Vec<Issue>,
    pub table_entries: Vec<TableEntry>,
    /// The rows of the table that can be selected.
    pub selectable_indices: Vec<usize>,
}

impl DataStore {
    /// Whether nothing is known.
    pub open spec fn is_blank(self) -> bool {
        &&& self.worktrees@.len() == 0
        &&& self.prs@.len() == 0
        &&& self.sessions@.len() == 0
        &&& self.remote_branches@.len() == 0
        &&& self.issues@.len() == 0
        &&& self.table_entries@.len() == 0
        &&& self.selectable_indices@.len() == 0
    }
}

impl Default for DataStore {
    /// A store in which nothing is known.
    fn default() -> (d: DataStore)
        ensures
            d.is_blank(),
    {
        DataStore {
            worktrees: Vec::new(),
            prs: Vec::new(),
            sessions: Vec::new(),
            remote_branches: Vec::new(),
            issues: Vec::new(),
            table_entries: Vec::new(),
            selectable_indices: Vec::new(),
        }
    }
}

/// How many of each kind a repository has, by which changes are noticed.
#[derive(Debug, Clone, Copy, PartialEq, Eq, Structural)]
pub struct Snapshot {
    pub worktrees: usize,
    pub prs: usize,
    pub sessions: usize,
    pub remote_branches: usize,
    pub issues: usize,
}

/// How many of each kind there are in `d`.
pub open spec fn counts(d: DataStore) -> Snapshot {
    Snapshot {
        worktrees: d.worktrees@.len() as usize,
        prs: d.prs@.len() as usize,
        sessions: d.sessions@.len() as usize,
        remote_branches: d.remote_branches@.len() as usize,
        issues: d.issues@.len() as usize,
    }
}

/// The row of a table that is selected, and the first one in view.
#[derive(Debug, Clone, Copy, PartialEq, Eq, Structural)]
pub struct TableSelection {
    pub offset: usize,
    pub selected: Option<usize>,
}

/// The selection `t` after a row, or none, is selected: without one the view starts at the top.
pub open spec fn selecting(t: TableSelection, row: Option<usize>) -> TableSelection {
    TableSelection {
        offset: if row is None {
            0
        } else {
            t.offset
        },
        selected: row,
    }
}

impl TableSelection {
    /// Selects a row, or none.
    pub fn select(&mut self, row: Option<usize>)
        ensures
            *final(self) == selecting(*old(self), row),
    {
        if row.is_none() {
            self.offset = 0;
        }
        self.selected = row;
    }
}

/// A repository in the dashboard.
#[derive(Debug)]
pub struct RepoState {
    pub data: DataStore,
    pub table: TableSelection,
    /// The selected one of the rows that can be selected.
    pub selected_selectable_idx: Option<usize>,
    /// Whether something changed since the repository was last looked at.
    pub has_unseen_changes: bool,
    /// How much was known when the repository was last handed out to be read anew.
    pub before: Snapshot,
}

/// The selection that a refresh leaves: none where nothing can be selected, the first where
/// nothing was selected, else the one that was, or the last if there are fewer now.
pub open spec fn kept_selection(selected: Option<usize>, rows: Seq<usize>) -> Option<usize> {
    if rows.len() == 0 {
        None
    } else {
        match selected {
            None => Some(0),
            Some(si) => if si < rows.len() {
                Some(si)
            } else {
                Some((rows.len() - 1) as usize)
            },
        }
    }
}

/// The row of the table that a selection among the rows that can be selected stands for.
pub open spec fn row_of(selected: Option<usize>, rows: Seq<usize>) -> Option<usize> {
    match selected {
        None => None,
        Some(si) => Some(rows[si as int]),
    }
}

/// The repository `r` after new data came in for what it handed out.
pub open spec fn absorbed(r: RepoState, data: DataStore, is_active: bool) -> RepoState {
    let selected = kept_selection(r.selected_selectable_idx, data.selectable_indices@);
    RepoState {
        data,
        table: selecting(r.table, row_of(selected, data.selectable_indices@)),
        selected_selectable_idx: selected,
        has_unseen_changes: r.has_unseen_changes || (r.before != counts(data) && !is_active),
        before: r.before,
    }
}

impl RepoState {
    /// A repository of which nothing is known yet.
    pub fn new() -> (r: RepoState)
        ensures
            r.data.is_blank(),
            r.table == (TableSelection { offset: 0, selected: None }),
            r.selected_selectable_idx is None,
            !r.has_unseen_changes,
            r.before == counts(r.data),
    {
        RepoState {
            data: DataStore::default(),
            table: TableSelection { offset: 0, selected: None },
            selected_selectable_idx: None,
            has_unseen_changes: false,
            before: Snapshot { worktrees: 0, prs: 0, sessions: 0, remote_branches: 0, issues: 0 },
        }
    }

    /// How many of each kind the repository has.
    pub fn data_snapshot(&self) -> (s: Snapshot)
        ensures
            s == counts(self.data),
    {
        Snapshot {
            worktrees: self.data.worktrees.len(),
            prs: self.data.prs.len(),
            sessions: self.data.sessions.len(),
            remote_branches: self.data.remote_branches.len(),
            issues: self.data.issues.len(),
        }
    }

    /// Hands out what is known of the repository, and keeps how much that was. Nothing is known of
    /// it then.
    pub fn hand_out(&mut self) -> (data: DataStore)
        ensures
            data == old(self).data,
            final(self).data.is_blank(),
            *final(self) == (RepoState {
                data: final(self).data,
                before: counts(old(self).data),
                ..*old(self)
            }),
    {
        self.before = self.data_snapshot();
        let mut data = DataStore::default();
        std::mem::swap(&mut data, &mut self.data);
        data
    }

    /// Takes in new data for what was handed out: notices changes unless the repository is the
    /// one looked at, and keeps the selection as far as it can be kept.
    pub fn absorb(&mut self, data: DataStore, is_active: bool)
        ensures
            *final(self) == absorbed(*old(self), data, is_active),
    {
        self.data = data;
        let after = self.data_snapshot();
        if self.before != after && !is_active {
            self.has_unseen_changes = true;
        }
        let n: usize = self.data.selectable_indices.len();
        if n == 0 {
            self.selected_selectable_idx = None;
            self.table.select(None);
        } else {
            let si: usize = match self.selected_selectable_idx {
                None => 0,
                Some(si) => if si < n {
                    si
                } else {
                    n - 1
                },
            };
            self.selected_selectable_idx = Some(si);
            self.table.select(Some(self.data.selectable_indices[si]));
        }
    }
}

/// A snapshot holds how many worktrees, pull requests, sessions, remote branches and issues there
/// are, so that two snapshots differ exactly where one of the five numbers does.
pub proof fn snapshots_differ_with_the_numbers(d: DataStore, e: DataStore)
    ensures
        counts(d).worktrees == d.worktrees.len(),
        counts(d).prs == d.prs.len(),
        counts(d).sessions == d.sessions.len(),
        counts(d).remote_branches == d.remote_branches.len(),
        counts(d).issues == d.issues.len(),
        counts(d) != counts(e) <==> d.worktrees.len() != e.worktrees.len() || d.prs.len()
            != e.prs.len() || d.sessions.len() != e.sessions.len() || d.remote_branches.len()
            != e.remote_branches.len() || d.issues.len() != e.issues.len(),
{
}

/// A row that is selected is the selected one, and the view stays where it was; without a selected
/// row the view starts at the top.
pub proof fn selecting_moves_the_view_only_to_the_top(t: TableSelection, row: Option<usize>)
    ensures
        selecting(t, row).selected == row,
        row is Some ==> selecting(t, row).offset == t.offset,
        row is None ==> selecting(t, row).offset == 0,
{
}

/// Nothing is known exactly where all seven lists are empty.
pub proof fn blank_stores_hold_nothing(d: DataStore)
    ensures
        d.is_blank() <==> d.worktrees.len() == 0 && d.prs.len() == 0 && d.sessions.len() == 0
            && d.remote_branches.len() == 0 && d.issues.len() == 0 && d.table_entries.len() == 0
            && d.selectable_indices.len() == 0,
{
}

} // verus!
