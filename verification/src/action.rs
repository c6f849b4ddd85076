//! What the user asked for, and the steps that carry it out.
//!
//! Carrying out an action alternates between decisions, which are made here, and work outside:
//! `begin` says what is to be done first and `resume` what comes next, given how that went.

use vstd::prelude::*;

use crate::dashboard;
use crate::dashboard::{App, DeleteConfirmInfo, InputLine, InputMode};
use crate::data::{DataStore, Issue, TableEntry, WorkItem};
use crate::fs_path::FsPath;
use crate::text;
use crate::views;

verus! {

/// Something that the user asked for and that waits to be carried out.
#[derive(Debug)]
pub enum PendingAction {
    Nothing,
    /// Open a workspace on the worktree of that number.
    SwitchWorktree(usize),
    SelectWorkspace(String),
    /// Collect what is shown before the worktree of that selectable row is removed.
    FetchDeleteInfo(usize),
    /// Remove the worktree that the shown information is about.
    ConfirmDelete,
    OpenPr(i64),
    OpenIssueBrowser(i64),
    CreateWorktree(String),
    ArchiveSession(usize),
    /// Open a workspace that attaches to a session, on the worktree of that number or on a new
    /// one for the branch.
    TeleportSession { session_id: String, branch: Option<String>, worktree_idx: Option<usize> },
    /// Suggest a branch name for the issues of those numbers.
    GenerateBranchName(Vec<usize>),
    AddRepo(FsPath),
}

/// Work to be done outside.
#[derive(Debug)]
pub enum Effect {
    /// Nothing; the action is over.
    Done,
    /// Read all repositories anew; the action is over then.
    Refresh,
    /// Offer a branch name to be edited; the action is over then.
    PrefillBranch { name: String },
    /// Open a workspace in a directory, after the template of a repository, and run a command.
    CreateWorkspace { template_root: FsPath, directory: FsPath, command: String, name: String },
    SelectWorkspace { ws_ref: String },
    FetchDeleteInfo {
        branch: String,
        worktree: Option<FsPath>,
        pr_number: Option<i64>,
        repo: FsPath,
    },
    RemoveWorktree { branch: String, repo: FsPath },
    OpenPr { number: i64, repo: FsPath },
    OpenIssue { number: i64, repo: FsPath },
    CreateWorktree { branch: String, repo: FsPath },
    ArchiveSession { session_id: String },
    /// Suggest a branch name for issues, given by number and title.
    NameBranch { issues: Vec<(i64, String)>, repo: FsPath },
    /// Remember a repository for the next start.
    SaveRepo { path: FsPath },
}

/// How far an action has come, and what is needed to go on.
#[derive(Debug)]
pub enum Stage {
    /// The action is over.
    Over,
    OpeningWorkspace,
    SelectingWorkspace,
    FetchingDeleteInfo,
    RemovingWorktree,
    OpeningBrowser,
    CreatingWorktree { branch: String },
    ArchivingSession,
    /// A worktree is being made in which a command is run then.
    PreparingTeleport { command: String, name: String },
    NamingBranch { issues: Vec<(i64, String)> },
    SavingRepo { path: FsPath },
}

/// How the work outside went.
#[derive(Debug)]
pub enum Reply {
    Finished,
    Failed(String),
    /// A worktree was made there.
    Worktree(FsPath),
    DeleteInfo(DeleteConfirmInfo),
    Branch(String),
}

/// `PendingAction`, by the texts and paths that it holds.
pub enum PendingView {
    Nothing,
    SwitchWorktree(usize),
    SelectWorkspace(Seq<char>),
    FetchDeleteInfo(usize),
    ConfirmDelete,
    OpenPr(i64),
    OpenIssueBrowser(i64),
    CreateWorktree(Seq<char>),
    ArchiveSession(usize),
    TeleportSession {
        session_id: Seq<char>,
        branch: Option<Seq<char>>,
        worktree_idx: Option<usize>,
    },
    GenerateBranchName(Seq<usize>),
    AddRepo(Seq<u8>),
}

/// `Effect`, by the texts and paths that it holds.
pub enum EffectView {
    Done,
    Refresh,
    PrefillBranch { name: Seq<char> },
    CreateWorkspace {
        template_root: Seq<u8>,
        directory: Seq<u8>,
        command: Seq<char>,
        name: Seq<char>,
    },
    SelectWorkspace { ws_ref: Seq<char> },
    FetchDeleteInfo {
        branch: Seq<char>,
        worktree: Option<Seq<u8>>,
        pr_number: Option<i64>,
        repo: Seq<u8>,
    },
    RemoveWorktree { branch: Seq<char>, repo: Seq<u8> },
    OpenPr { number: i64, repo: Seq<u8> },
    OpenIssue { number: i64, repo: Seq<u8> },
    CreateWorktree { branch: Seq<char>, repo: Seq<u8> },
    ArchiveSession { session_id: Seq<char> },
    NameBranch { issues: Seq<(i64, Seq<char>)>, repo: Seq<u8> },
    SaveRepo { path: Seq<u8> },
}

/// `Stage`, by the texts and paths that it holds.
pub enum StageView {
    Over,
    OpeningWorkspace,
    SelectingWorkspace,
    FetchingDeleteInfo,
    RemovingWorktree,
    OpeningBrowser,
    CreatingWorktree { branch: Seq<char> },
    ArchivingSession,
    PreparingTeleport { command: Seq<char>, name: Seq<char> },
    NamingBranch { issues: Seq<(i64, Seq<char>)> },
    SavingRepo { path: Seq<u8> },
}

/// `Reply`, by the texts and paths that it holds.
pub enum ReplyView {
    Finished,
    Failed(Seq<char>),
    Worktree(Seq<u8>),
    DeleteInfo(dashboard::DeleteConfirmView),
    Branch(Seq<char>),
}

/// Issues by number and title.
pub open spec fn issue_texts(issues: Seq<(i64, String)>) -> Seq<(i64, Seq<char>)> {
    Seq::new(issues.len(), |i: int| (issues[i].0, issues[i].1@))
}

impl View for PendingAction {
    type V = PendingView;

    open spec fn view(&self) -> PendingView {
        match *self {
            PendingAction::Nothing => PendingView::Nothing,
            PendingAction::SwitchWorktree(i) => PendingView::SwitchWorktree(i),
            PendingAction::SelectWorkspace(s) => PendingView::SelectWorkspace(s@),
            PendingAction::FetchDeleteInfo(i) => PendingView::FetchDeleteInfo(i),
            PendingAction::ConfirmDelete => PendingView::ConfirmDelete,
            PendingAction::OpenPr(n) => PendingView::OpenPr(n),
            PendingAction::OpenIssueBrowser(n) => PendingView::OpenIssueBrowser(n),
            PendingAction::CreateWorktree(b) => PendingView::CreateWorktree(b@),
            PendingAction::ArchiveSession(i) => PendingView::ArchiveSession(i),
            PendingAction::TeleportSession {
                session_id,
                branch,
                worktree_idx,
            } => PendingView::TeleportSession {
                session_id: session_id@,
                branch: text::opt_text(branch),
                worktree_idx,
            },
            PendingAction::GenerateBranchName(v) => PendingView::GenerateBranchName(v@),
            PendingAction::AddRepo(p) => PendingView::AddRepo(p@),
        }
    }
}

impl View for Effect {
    type V = EffectView;

    open spec fn view(&self) -> EffectView {
        match *self {
            Effect::Done => EffectView::Done,
            Effect::Refresh => EffectView::Refresh,
            Effect::PrefillBranch { name } => EffectView::PrefillBranch { name: name@ },
            Effect::CreateWorkspace {
                template_root,
                directory,
                command,
                name,
            } => EffectView::CreateWorkspace {
                template_root: template_root@,
                directory: directory@,
                command: command@,
                name: name@,
            },
            Effect::SelectWorkspace { ws_ref } => EffectView::SelectWorkspace { ws_ref: ws_ref@ },
            Effect::FetchDeleteInfo {
                branch,
                worktree,
                pr_number,
                repo,
            } => EffectView::FetchDeleteInfo {
                branch: branch@,
                worktree: views::opt_path(worktree),
                pr_number,
                repo: repo@,
            },
            Effect::RemoveWorktree { branch, repo } => EffectView::RemoveWorktree {
                branch: branch@,
                repo: repo@,
            },
            Effect::OpenPr { number, repo } => EffectView::OpenPr { number, repo: repo@ },
            Effect::OpenIssue { number, repo } => EffectView::OpenIssue { number, repo: repo@ },
            Effect::CreateWorktree { branch, repo } => EffectView::CreateWorktree {
                branch: branch@,
                repo: repo@,
            },
            Effect::ArchiveSession { session_id } => EffectView::ArchiveSession {
                session_id: session_id@,
            },
            Effect::NameBranch { issues, repo } => EffectView::NameBranch {
                issues: issue_texts(issues@),
                repo: repo@,
            },
            Effect::SaveRepo { path } => EffectView::SaveRepo { path: path@ },
        }
    }
}

impl View for Stage {
    type V = StageView;

    open spec fn view(&self) -> StageView {
        match *self {
            Stage::Over => StageView::Over,
            Stage::OpeningWorkspace => StageView::OpeningWorkspace,
            Stage::SelectingWorkspace => StageView::SelectingWorkspace,
            Stage::FetchingDeleteInfo => StageView::FetchingDeleteInfo,
            Stage::RemovingWorktree => StageView::RemovingWorktree,
            Stage::OpeningBrowser => StageView::OpeningBrowser,
            Stage::CreatingWorktree { branch } => StageView::CreatingWorktree { branch: branch@ },
            Stage::ArchivingSession => StageView::ArchivingSession,
            Stage::PreparingTeleport { command, name } => StageView::PreparingTeleport {
                command: command@,
                name: name@,
            },
            Stage::NamingBranch { issues } => StageView::NamingBranch {
                issues: issue_texts(issues@),
            },
            Stage::SavingRepo { path } => StageView::SavingRepo { path: path@ },
        }
    }
}

impl View for Reply {
    type V = ReplyView;

    open spec fn view(&self) -> ReplyView {
        match *self {
            Reply::Finished => ReplyView::Finished,
            Reply::Failed(e) => ReplyView::Failed(e@),
            Reply::Worktree(p) => ReplyView::Worktree(p@),
            Reply::DeleteInfo(info) => ReplyView::DeleteInfo(info@),
            Reply::Branch(b) => ReplyView::Branch(b@),
        }
    }
}

/// Those of the issues that the numbers point at, in the order of the numbers; a number beyond
/// the last issue points at none.
pub open spec fn picked(issues: Seq<Issue>, numbers: Seq<usize>) -> Seq<(i64, Seq<char>)>
    decreases numbers.len(),
{
    if numbers.len() == 0 {
        Seq::empty()
    } else {
        let before = picked(issues, numbers.drop_last());
        let k = numbers.last();
        if k < issues.len() {
            before.push((issues[k as int].number, issues[k as int].title@))
        } else {
            before
        }
    }
}

/// The name that stands for one issue.
pub open spec fn issue_name(issue: (i64, Seq<char>)) -> Seq<char> {
    "issue-"@ + text::decimal(issue.0 as int)
}

/// The branch name for issues where none was suggested.
pub open spec fn fallback_name(issues: Seq<(i64, Seq<char>)>) -> Seq<char> {
    text::joined(Seq::new(issues.len(), |i: int| issue_name(issues[i])), "-"@)
}

/// The work item on the selectable row of that number, if there is one.
pub open spec fn item_at(d: DataStore, si: usize) -> Option<WorkItem> {
    if si < d.selectable_indices@.len() && d.selectable_indices@[si as int]
        < d.table_entries@.len() {
        match d.table_entries@[d.selectable_indices@[si as int] as int] {
            TableEntry::Item(item) => Some(item),
            TableEntry::Header => None,
        }
    } else {
        None
    }
}

/// The directory of the worktree of that number, if there is one.
pub open spec fn worktree_path(d: DataStore, idx: Option<usize>) -> Option<Seq<u8>> {
    match idx {
        Some(i) => if i < d.worktrees@.len() {
            Some(d.worktrees@[i as int].path@)
        } else {
            None
        },
        None => None,
    }
}

/// The number of the pull request at that position, if there is one.
pub open spec fn pr_number(d: DataStore, idx: Option<usize>) -> Option<i64> {
    match idx {
        Some(i) => if i < d.prs@.len() {
            Some(d.prs@[i as int].number)
        } else {
            None
        },
        None => None,
    }
}

/// The text, or the empty one.
pub open spec fn text_or_empty(t: Option<Seq<char>>) -> Seq<char> {
    match t {
        Some(s) => s,
        None => Seq::empty(),
    }
}

/// The work to open a workspace of the repository at `root`.
pub open spec fn opening(
    root: Seq<u8>,
    directory: Seq<u8>,
    command: Seq<char>,
    name: Seq<char>,
) -> (StageView, EffectView) {
    (
        StageView::OpeningWorkspace,
        EffectView::CreateWorkspace { template_root: root, directory, command, name },
    )
}

/// The first work to be done for an action.
pub open spec fn first_work(a: App, p: PendingView) -> (StageView, EffectView) {
    let d = a.tabs@[a.active_repo as int].state.data;
    let root = a.active_path();
    let nothing = (StageView::Over, EffectView::Done);
    match p {
        PendingView::Nothing => nothing,
        PendingView::SwitchWorktree(i) => if i < d.worktrees@.len() {
            let w = d.worktrees@[i as int];
            opening(root, w.path@, a.agent@, w.branch@)
        } else {
            nothing
        },
        PendingView::SelectWorkspace(ws_ref) => (
            StageView::SelectingWorkspace,
            EffectView::SelectWorkspace { ws_ref },
        ),
        PendingView::FetchDeleteInfo(si) => match item_at(d, si) {
            Some(item) => (
                StageView::FetchingDeleteInfo,
                EffectView::FetchDeleteInfo {
                    branch: text_or_empty(text::opt_text(item.branch)),
                    worktree: worktree_path(d, item.worktree_idx),
                    pr_number: pr_number(d, item.pr_idx),
                    repo: root,
                },
            ),
            None => nothing,
        },
        PendingView::ConfirmDelete => match a.delete_confirm_info {
            Some(info) => (
                StageView::RemovingWorktree,
                EffectView::RemoveWorktree { branch: info.branch@, repo: root },
            ),
            None => nothing,
        },
        PendingView::OpenPr(number) => (
            StageView::OpeningBrowser,
            EffectView::OpenPr { number, repo: root },
        ),
        PendingView::OpenIssueBrowser(number) => (
            StageView::OpeningBrowser,
            EffectView::OpenIssue { number, repo: root },
        ),
        PendingView::CreateWorktree(branch) => (
            StageView::CreatingWorktree { branch },
            EffectView::CreateWorktree { branch, repo: root },
        ),
        PendingView::ArchiveSession(i) => if i < d.sessions@.len() {
            (
                StageView::ArchivingSession,
                EffectView::ArchiveSession { session_id: d.sessions@[i as int].id@ },
            )
        } else {
            nothing
        },
        PendingView::TeleportSession { session_id, branch, worktree_idx } => {
            let command = a.agent@ + " --teleport "@ + session_id;
            let name = match branch {
                Some(b) => b,
                None => "session"@,
            };
            match (worktree_path(d, worktree_idx), worktree_idx, branch) {
                (Some(path), _, _) => opening(root, path, command, name),
                (None, None, Some(b)) => (
                    StageView::PreparingTeleport { command, name },
                    EffectView::CreateWorktree { branch: b, repo: root },
                ),
                _ => (StageView::Over, EffectView::Refresh),
            }
        },
        PendingView::GenerateBranchName(numbers) => (
            StageView::NamingBranch { issues: picked(d.issues@, numbers) },
            EffectView::NameBranch { issues: picked(d.issues@, numbers), repo: root },
        ),
        PendingView::AddRepo(path) => (
            StageView::SavingRepo { path },
            EffectView::SaveRepo { path },
        ),
    }
}

/// Whether an action can go on from `s` with the reply `r`.
pub open spec fn accepts(s: StageView, r: ReplyView) -> bool {
    match s {
        StageView::Over => false,
        StageView::FetchingDeleteInfo => r is DeleteInfo,
        StageView::CreatingWorktree { .. } | StageView::PreparingTeleport { .. } => r is Worktree
            || r is Failed,
        StageView::NamingBranch { .. } => r is Branch || r is Failed,
        StageView::SavingRepo { .. } => r is Finished,
        _ => r is Finished || r is Failed,
    }
}

/// The next work to be done for an action.
pub open spec fn next_work(a: App, s: StageView, r: ReplyView) -> (StageView, EffectView) {
    let root = a.active_path();
    match (s, r) {
        (StageView::CreatingWorktree { branch }, ReplyView::Worktree(path)) => opening(
            root,
            path,
            a.agent@,
            branch,
        ),
        (StageView::PreparingTeleport { command, name }, ReplyView::Worktree(path)) => opening(
            root,
            path,
            command,
            name,
        ),
        (StageView::NamingBranch { .. }, ReplyView::Branch(name)) => (
            StageView::Over,
            EffectView::PrefillBranch { name },
        ),
        (StageView::NamingBranch { issues }, _) => (
            StageView::Over,
            EffectView::PrefillBranch { name: fallback_name(issues) },
        ),
        (
            StageView::SelectingWorkspace | StageView::FetchingDeleteInfo
            | StageView::OpeningBrowser,
            _,
        ) => (StageView::Over, EffectView::Done),
        _ => (StageView::Over, EffectView::Refresh),
    }
}

/// Whether a failure at this stage is shown to the user.
pub open spec fn shows_failure(s: StageView) -> bool {
    match s {
        StageView::OpeningWorkspace | StageView::SelectingWorkspace | StageView::RemovingWorktree
        | StageView::CreatingWorktree { .. } | StageView::ArchivingSession => true,
        _ => false,
    }
}

/// The status line after a reply.
pub open spec fn next_status(
    status: Option<Seq<char>>,
    s: StageView,
    r: ReplyView,
) -> Option<Seq<char>> {
    match r {
        ReplyView::Failed(e) => if shows_failure(s) {
            Some(e)
        } else {
            status
        },
        _ => status,
    }
}

/// Whether `b` is the dashboard `a` with a tab for the repository at `path` behind the others,
/// unless it has one, looking at the last tab.
pub open spec fn repo_added(a: App, path: Seq<u8>, b: App) -> bool {
    let last = b.tabs@.len() - 1;
    &&& dashboard::has_tab(b.tabs@, path)
    &&& b.active_repo == last
    &&& b == a.with_tabs(b.tabs, b.active_repo)
    &&& !b.tabs@[last].state.has_unseen_changes
    &&& if dashboard::has_tab(a.tabs@, path) {
        b.tabs@ == a.tabs@.update(a.tabs@.len() - 1, dashboard::seen(a.tabs@.last()))
    } else {
        &&& b.tabs@.len() == a.tabs@.len() + 1
        &&& b.tabs@.drop_last() == a.tabs@
        &&& b.tabs@[last].path@ == path
        &&& dashboard::is_fresh(b.tabs@[last].state)
    }
}

/// Whether starting an action turns the dashboard `a` into `b`: the status line is cleared, and
/// the information that a confirmed removal rests on is used up.
pub open spec fn started(a: App, p: PendingView, b: App) -> bool {
    b == App {
        status_message: if p is Nothing {
            a.status_message
        } else {
            None
        },
        delete_confirm_info: if p is ConfirmDelete {
            None
        } else {
            a.delete_confirm_info
        },
        ..a
    }
}

/// Whether a reply turns the dashboard `a` into `b`.
pub open spec fn continued(a: App, s: StageView, r: Reply, b: App) -> bool {
    &&& text::opt_text(b.status_message) == next_status(text::opt_text(a.status_message), s, r@)
    &&& match (s, r) {
        (StageView::FetchingDeleteInfo, Reply::DeleteInfo(info)) => b == App {
            delete_confirm_info: Some(info),
            delete_confirm_loading: false,
            ..a
        },
        (StageView::SavingRepo { path }, _) => repo_added(a, path, b),
        _ => b == App { status_message: b.status_message, ..a },
    }
}

/// Whether nothing but a refresh, or offering a branch name, is left to be done.
pub open spec fn is_last(e: EffectView) -> bool {
    e is Done || e is Refresh || e is PrefillBranch
}

/// How many replies an action can still need.
pub open spec fn replies_left(s: StageView) -> nat {
    match s {
        StageView::Over => 0,
        StageView::CreatingWorktree { .. } | StageView::PreparingTeleport { .. } => 2,
        _ => 1,
    }
}

impl Stage {
    /// Whether the action can go on with a reply.
    pub fn accepts(&self, r: &Reply) -> (b: bool)
        ensures
            b == accepts(self@, r@),
    {
        match self {
            Stage::Over => false,
            Stage::FetchingDeleteInfo => matches!(r, Reply::DeleteInfo(_)),
            Stage::CreatingWorktree { .. } | Stage::PreparingTeleport { .. } => matches!(
                r,
                Reply::Worktree(_) | Reply::Failed(_)
            ),
            Stage::NamingBranch { .. } => matches!(r, Reply::Branch(_) | Reply::Failed(_)),
            Stage::SavingRepo { .. } => matches!(r, Reply::Finished),
            _ => matches!(r, Reply::Finished | Reply::Failed(_)),
        }
    }
}

/// Those of the issues that the numbers point at.
fn pick_issues(issues: &Vec<Issue>, numbers: &Vec<usize>) -> (r: Vec<(i64, String)>)
    ensures
        issue_texts(r@) == picked(issues@, numbers@),
{
    let mut out: Vec<(i64, String)> = Vec::new();
    let mut i: usize = 0;
    assert(issue_texts(out@) =~= picked(issues@, numbers@.take(0)));
    while i < numbers.len()
        invariant
            i <= numbers@.len(),
            issue_texts(out@) == picked(issues@, numbers@.take(i as int)),
        decreases numbers@.len() - i,
    {
        let ghost before = issue_texts(out@);
        assert(numbers@.take(i + 1).drop_last() =~= numbers@.take(i as int));
        let k: usize = numbers[i];
        if k < issues.len() {
            out.push((issues[k].number, issues[k].title.clone()));
            assert(issue_texts(out@) =~= before.push(
                (issues@[k as int].number, issues@[k as int].title@),
            ));
        }
        i = i + 1;
    }
    assert(numbers@.take(i as int) =~= numbers@);
    out
}

/// A copy of issues given by number and title.
fn copy_issues(issues: &Vec<(i64, String)>) -> (r: Vec<(i64, String)>)
    ensures
        issue_texts(r@) == issue_texts(issues@),
{
    let mut out: Vec<(i64, String)> = Vec::new();
    let mut i: usize = 0;
    while i < issues.len()
        invariant
            i <= issues@.len(),
            out@.len() == i,
            forall|j: int|
                0 <= j < i ==> (#[trigger] out@[j]).0 == issues@[j].0 && out@[j].1@
                    == issues@[j].1@,
        decreases issues@.len() - i,
    {
        out.push((issues[i].0, issues[i].1.clone()));
        i = i + 1;
    }
    assert(issue_texts(out@) =~= issue_texts(issues@));
    out
}

/// The branch name for issues where none was suggested: `issue-` and the number of each, with
/// dashes between them.
pub fn fallback_branch_name(issues: &Vec<(i64, String)>) -> (name: String)
    ensures
        name@ == fallback_name(issue_texts(issues@)),
{
    let mut names: Vec<String> = Vec::new();
    let mut i: usize = 0;
    let ghost wanted = Seq::new(
        issues@.len(),
        |i: int| issue_name(issue_texts(issues@)[i]),
    );
    while i < issues.len()
        invariant
            i <= issues@.len(),
            names@.len() == i,
            wanted.len() == issues@.len(),
            forall|j: int|
                0 <= j < issues@.len() ==> #[trigger] wanted[j] == issue_name(
                    issue_texts(issues@)[j],
                ),
            forall|j: int| 0 <= j < i ==> (#[trigger] names@[j])@ == wanted[j],
        decreases issues@.len() - i,
    {
        let mut name = "issue-".to_owned();
        text::append_decimal(&mut name, issues[i].0);
        assert(name@ == wanted[i as int]);
        names.push(name);
        i = i + 1;
    }
    assert(text::texts(names@) =~= wanted);
    assert(wanted =~= Seq::new(
        issue_texts(issues@).len(),
        |i: int| issue_name(issue_texts(issues@)[i]),
    ));
    text::join(&names, "-")
}

impl App {
    /// The path of the repository that is looked at.
    pub fn active_repo_root(&self) -> (p: FsPath)
        requires
            self.wf(),
        ensures
            p@ == self.active_path(),
    {
        self.tabs[self.active_repo].path.clone()
    }

    /// The work that opens a workspace of the repository that is looked at.
    fn open_workspace(&self, directory: FsPath, command: String, name: String) -> (r: (
        Stage,
        Effect,
    ))
        requires
            self.wf(),
        ensures
            (r.0@, r.1@) == opening(self.active_path(), directory@, command@, name@),
    {
        (
            Stage::OpeningWorkspace,
            Effect::CreateWorkspace {
                template_root: self.active_repo_root(),
                directory,
                command,
                name,
            },
        )
    }

    /// The directory of the worktree of that number in the repository that is looked at.
    fn worktree_dir(&self, idx: Option<usize>) -> (p: Option<FsPath>)
        requires
            self.wf(),
        ensures
            views::opt_path(p) == worktree_path(
                self.tabs@[self.active_repo as int].state.data,
                idx,
            ),
    {
        let d = &self.tabs[self.active_repo].state.data;
        match idx {
            Some(i) => if i < d.worktrees.len() {
                Some(d.worktrees[i].path.clone())
            } else {
                None
            },
            None => None,
        }
    }

    /// The work that collects what is shown before a worktree is removed.
    fn fetch_delete_info(&self, si: usize) -> (r: (Stage, Effect))
        requires
            self.wf(),
        ensures
            (r.0@, r.1@) == first_work(*self, PendingView::FetchDeleteInfo(si)),
    {
        let d = &self.tabs[self.active_repo].state.data;
        if si >= d.selectable_indices.len() {
            return (Stage::Over, Effect::Done);
        }
        let row: usize = d.selectable_indices[si];
        if row >= d.table_entries.len() {
            return (Stage::Over, Effect::Done);
        }
        match &d.table_entries[row] {
            TableEntry::Header => (Stage::Over, Effect::Done),
            TableEntry::Item(item) => {
                let branch = match &item.branch {
                    Some(b) => b.clone(),
                    None => String::new(),
                };
                let worktree = self.worktree_dir(item.worktree_idx);
                let pr_number = match item.pr_idx {
                    Some(i) => if i < d.prs.len() {
                        Some(d.prs[i].number)
                    } else {
                        None
                    },
                    None => None,
                };
                let repo = self.active_repo_root();
                (
                    Stage::FetchingDeleteInfo,
                    Effect::FetchDeleteInfo { branch, worktree, pr_number, repo },
                )
            },
        }
    }

    /// The first work of attaching to a session.
    fn teleport(&self, session_id: String, branch: Option<String>, worktree_idx: Option<usize>) -> (r:
        (Stage, Effect))
        requires
            self.wf(),
        ensures
            (r.0@, r.1@) == first_work(
                *self,
                PendingView::TeleportSession {
                    session_id: session_id@,
                    branch: text::opt_text(branch),
                    worktree_idx,
                },
            ),
    {
        let mut command = self.agent.clone();
        command.append(" --teleport ");
        command.append(session_id.as_str());
        let name = match &branch {
            Some(b) => b.clone(),
            None => "session".to_owned(),
        };
        if worktree_idx.is_some() {
            match self.worktree_dir(worktree_idx) {
                Some(path) => self.open_workspace(path, command, name),
                None => (Stage::Over, Effect::Refresh),
            }
        } else {
            match branch {
                Some(branch) => {
                    let repo = self.active_repo_root();
                    (
                        Stage::PreparingTeleport { command, name },
                        Effect::CreateWorktree { branch, repo },
                    )
                },
                None => (Stage::Over, Effect::Refresh),
            }
        }
    }

    /// Starts to carry out an action.
    pub fn begin(&mut self, p: PendingAction) -> (r: (Stage, Effect))
        requires
            old(self).wf(),
        ensures
            (r.0@, r.1@) == first_work(*old(self), p@),
            started(*old(self), p@, *final(self)),
            final(self).wf(),
    {
        if !matches!(p, PendingAction::Nothing) {
            self.status_message = None;
        }
        match p {
            PendingAction::Nothing => (Stage::Over, Effect::Done),
            PendingAction::SwitchWorktree(i) => {
                let d = &self.tabs[self.active_repo].state.data;
                if i < d.worktrees.len() {
                    let name = d.worktrees[i].branch.clone();
                    let path = d.worktrees[i].path.clone();
                    self.open_workspace(path, self.agent.clone(), name)
                } else {
                    (Stage::Over, Effect::Done)
                }
            },
            PendingAction::SelectWorkspace(ws_ref) => (
                Stage::SelectingWorkspace,
                Effect::SelectWorkspace { ws_ref },
            ),
            PendingAction::FetchDeleteInfo(si) => self.fetch_delete_info(si),
            PendingAction::ConfirmDelete => match self.delete_confirm_info.take() {
                Some(info) => {
                    let repo = self.active_repo_root();
                    (Stage::RemovingWorktree, Effect::RemoveWorktree { branch: info.branch, repo })
                },
                None => (Stage::Over, Effect::Done),
            },
            PendingAction::OpenPr(number) => {
                let repo = self.active_repo_root();
                (Stage::OpeningBrowser, Effect::OpenPr { number, repo })
            },
            PendingAction::OpenIssueBrowser(number) => {
                let repo = self.active_repo_root();
                (Stage::OpeningBrowser, Effect::OpenIssue { number, repo })
            },
            PendingAction::CreateWorktree(branch) => {
                let repo = self.active_repo_root();
                (
                    Stage::CreatingWorktree { branch: branch.clone() },
                    Effect::CreateWorktree { branch, repo },
                )
            },
            PendingAction::ArchiveSession(i) => {
                let d = &self.tabs[self.active_repo].state.data;
                if i < d.sessions.len() {
                    let session_id = d.sessions[i].id.clone();
                    (Stage::ArchivingSession, Effect::ArchiveSession { session_id })
                } else {
                    (Stage::Over, Effect::Done)
                }
            },
            PendingAction::TeleportSession { session_id, branch, worktree_idx } => self.teleport(
                session_id,
                branch,
                worktree_idx,
            ),
            PendingAction::GenerateBranchName(numbers) => {
                let issues = pick_issues(
                    &self.tabs[self.active_repo].state.data.issues,
                    &numbers,
                );
                let repo = self.active_repo_root();
                let copy = copy_issues(&issues);
                (Stage::NamingBranch { issues: copy }, Effect::NameBranch { issues, repo })
            },
            PendingAction::AddRepo(path) => (
                Stage::SavingRepo { path: path.clone() },
                Effect::SaveRepo { path },
            ),
        }
    }

    /// Adds a tab for a repository and looks at the last tab.
    fn add_and_show(&mut self, path: FsPath)
        requires
            old(self).wf(),
        ensures
            repo_added(*old(self), path@, *final(self)),
            final(self).wf(),
    {
        let ghost p = path@;
        let ghost start = *self;
        self.add_repo(path);
        let ghost mid = *self;
        let last: usize = self.tabs.len() - 1;
        self.switch_tab(last);
        proof {
            let k = choose|k: int|
                0 <= k < mid.tabs@.len() && crate::fs_path::same((#[trigger] mid.tabs@[k]).path@, p);
            assert(self.tabs@[k].path == mid.tabs@[k].path);
            if !dashboard::has_tab(start.tabs@, p) {
                assert(self.tabs@.drop_last() =~= start.tabs@) by {
                    assert(mid.tabs@.drop_last() == start.tabs@);
                }
            }
            assert forall|i: int, j: int|
                #![trigger self.tabs@[i], self.tabs@[j]]
                0 <= i < j < self.tabs@.len() implies !crate::fs_path::same(
                self.tabs@[i].path@,
                self.tabs@[j].path@,
            ) by {
                assert(self.tabs@[i].path == mid.tabs@[i].path);
                assert(self.tabs@[j].path == mid.tabs@[j].path);
            }
        }
    }

    /// Offers a branch name to be edited.
    pub fn prefill_branch(&mut self, name: String)
        ensures
            final(self).input_mode == InputMode::BranchName,
            final(self).input.is_text(name@),
            *final(self) == (App {
                input_mode: final(self).input_mode,
                input: final(self).input,
                ..*old(self)
            }),
    {
        self.input_mode = InputMode::BranchName;
        self.input = InputLine::from_text(name);
    }

    /// Goes on with an action, given how the work for it went.
    pub fn resume(&mut self, s: Stage, r: Reply) -> (next: (Stage, Effect))
        requires
            old(self).wf(),
            accepts(s@, r@),
        ensures
            (next.0@, next.1@) == next_work(*old(self), s@, r@),
            continued(*old(self), s@, r, *final(self)),
            final(self).wf(),
    {
        match s {
            Stage::Over => (Stage::Over, Effect::Done),
            Stage::SelectingWorkspace => {
                if let Reply::Failed(e) = r {
                    self.status_message = Some(e);
                }
                (Stage::Over, Effect::Done)
            },
            Stage::OpeningBrowser => (Stage::Over, Effect::Done),
            Stage::FetchingDeleteInfo => {
                if let Reply::DeleteInfo(info) = r {
                    self.delete_confirm_info = Some(info);
                    self.delete_confirm_loading = false;
                }
                (Stage::Over, Effect::Done)
            },
            Stage::OpeningWorkspace | Stage::RemovingWorktree | Stage::ArchivingSession => {
                if let Reply::Failed(e) = r {
                    self.status_message = Some(e);
                }
                (Stage::Over, Effect::Refresh)
            },
            Stage::CreatingWorktree { branch } => match r {
                Reply::Worktree(path) => self.open_workspace(path, self.agent.clone(), branch),
                Reply::Failed(e) => {
                    self.status_message = Some(e);
                    (Stage::Over, Effect::Refresh)
                },
                _ => (Stage::Over, Effect::Refresh),
            },
            Stage::PreparingTeleport { command, name } => match r {
                Reply::Worktree(path) => self.open_workspace(path, command, name),
                _ => (Stage::Over, Effect::Refresh),
            },
            Stage::NamingBranch { issues } => match r {
                Reply::Branch(name) => (Stage::Over, Effect::PrefillBranch { name }),
                _ => (
                    Stage::Over,
                    Effect::PrefillBranch { name: fallback_branch_name(&issues) },
                ),
            },
            Stage::SavingRepo { path } => {
                self.add_and_show(path);
                (Stage::Over, Effect::Refresh)
            },
        }
    }
}

/// An action is over exactly when the work handed out needs no reply, and it needs two replies at
/// the most.
pub proof fn actions_end_after_two_replies(a: App, p: PendingView)
    ensures
        replies_left(first_work(a, p).0) <= 2,
        first_work(a, p).0 is Over <==> is_last(first_work(a, p).1),
{
}

/// Every reply brings an action nearer to its end.
pub proof fn replies_bring_actions_to_an_end(a: App, s: StageView, r: ReplyView)
    requires
        accepts(s, r),
    ensures
        replies_left(next_work(a, s, r).0) < replies_left(s),
        next_work(a, s, r).0 is Over <==> is_last(next_work(a, s, r).1),
{
}

/// Every stage but the last can go on: some reply is accepted.
pub proof fn unfinished_actions_can_go_on(s: StageView)
    requires
        !(s is Over),
    ensures
        exists|r: ReplyView| accepts(s, r),
{
    match s {
        StageView::FetchingDeleteInfo => {
            let info = dashboard::DeleteConfirmView {
                branch: Seq::empty(),
                uncommitted: Seq::empty(),
                pr_status: None,
            };
            assert(accepts(s, ReplyView::DeleteInfo(info)));
        },
        StageView::SavingRepo { .. } => {
            assert(accepts(s, ReplyView::Finished));
        },
        _ => {
            assert(accepts(s, ReplyView::Failed(Seq::empty())));
        },
    }
}

/// The status line is cleared when an action starts, and left alone when none does.
pub proof fn starting_an_action_clears_the_status(a: App, p: PendingView, b: App)
    requires
        started(a, p, b),
    ensures
        p is Nothing ==> b == a,
        !(p is Nothing) ==> b.status_message is None,
{
}

/// A failure that is shown is what the status line says afterwards; nothing else that an action
/// does changes the status line, short of a refresh.
pub proof fn failures_are_shown(a: App, s: StageView, r: Reply, b: App)
    requires
        accepts(s, r@),
        continued(a, s, r, b),
    ensures
        r@ matches ReplyView::Failed(e) ==> shows_failure(s) ==> text::opt_text(b.status_message)
            == Some(e),
        !(r is Failed && shows_failure(s)) ==> text::opt_text(b.status_message) == text::opt_text(
            a.status_message,
        ),
{
}

/// An action stays with the repository that it was started in: until it is over, the same one is
/// looked at.
pub proof fn actions_stay_with_their_repository(a: App, s: StageView, r: Reply, b: App)
    requires
        accepts(s, r@),
        continued(a, s, r, b),
        !(next_work(a, s, r@).0 is Over),
    ensures
        b.tabs == a.tabs,
        b.active_path() == a.active_path(),
{
}

/// A worktree that was made for a branch is opened as a workspace that bears the name of the
/// branch and runs the coding agent, in the directory of the worktree; everything is read anew
/// then.
pub proof fn new_worktrees_are_opened(
    a: App,
    branch: Seq<char>,
    b: App,
    path: FsPath,
    c: App,
    reply: ReplyView,
)
    requires
        started(a, PendingView::CreateWorktree(branch), b),
        continued(b, StageView::CreatingWorktree { branch }, Reply::Worktree(path), c),
        reply is Finished || reply is Failed,
    ensures
        ({
            let root = a.active_path();
            let (making, make) = first_work(a, PendingView::CreateWorktree(branch));
            let (opening, open) = next_work(b, making, ReplyView::Worktree(path@));
            &&& making == StageView::CreatingWorktree { branch }
            &&& make == EffectView::CreateWorktree { branch, repo: root }
            &&& accepts(making, ReplyView::Worktree(path@))
            &&& open == EffectView::CreateWorkspace {
                template_root: root,
                directory: path@,
                command: a.agent@,
                name: branch,
            }
            &&& accepts(opening, reply)
            &&& next_work(c, opening, reply) == (StageView::Over, EffectView::Refresh)
        }),
{
}

/// A workspace runs the coding agent and nothing else: with the session to attach to where the
/// action is about one, else without an argument.
pub proof fn workspaces_run_the_agent(a: App, p: PendingView)
    ensures
        ({
            let command = match p {
                PendingView::TeleportSession { session_id, .. } => a.agent@ + " --teleport "@
                    + session_id,
                _ => a.agent@,
            };
            let (s, e) = first_work(a, p);
            &&& (e matches EffectView::CreateWorkspace { command: c, .. } ==> c == command)
            &&& forall|path: Seq<u8>|
                (#[trigger] next_work(a, s, ReplyView::Worktree(path))).1 matches
                    EffectView::CreateWorkspace { command: c, .. } ==> c == command
        }),
{
}

/// What a removal was confirmed for can be used only once: the second time nothing is removed.
pub proof fn removals_are_confirmed_once(a: App, b: App)
    requires
        started(a, PendingView::ConfirmDelete, b),
    ensures
        first_work(b, PendingView::ConfirmDelete) == (StageView::Over, EffectView::Done),
{
}

/// What is shown before a removal decides what a confirmation removes.
pub proof fn confirmation_removes_what_was_shown(
    a: App,
    s: StageView,
    info: DeleteConfirmInfo,
    b: App,
)
    requires
        s is FetchingDeleteInfo,
        continued(a, s, Reply::DeleteInfo(info), b),
    ensures
        !b.delete_confirm_loading,
        first_work(b, PendingView::ConfirmDelete).1 == (EffectView::RemoveWorktree {
            branch: info.branch@,
            repo: a.active_path(),
        }),
{
}

/// Adding a repository keeps the tabs that there are, in their order, and looks at the last one;
/// a repository that has a tab gets no second one.
pub proof fn adding_a_repository_keeps_the_others(a: App, path: Seq<u8>, b: App)
    requires
        a.wf(),
        repo_added(a, path, b),
    ensures
        b.active_repo == b.tabs@.len() - 1,
        dashboard::has_tab(b.tabs@, path),
        dashboard::has_tab(a.tabs@, path) ==> dashboard::tab_paths(b.tabs@)
            == dashboard::tab_paths(a.tabs@),
        !dashboard::has_tab(a.tabs@, path) ==> dashboard::tab_paths(b.tabs@)
            == dashboard::tab_paths(a.tabs@).push(path),
{
    if dashboard::has_tab(a.tabs@, path) {
        assert(dashboard::tab_paths(b.tabs@) =~= dashboard::tab_paths(a.tabs@));
    } else {
        assert forall|i: int| 0 <= i < a.tabs@.len() implies (#[trigger] b.tabs@[i]) == a.tabs@[i] by {
            assert(b.tabs@.drop_last()[i] == b.tabs@[i]);
        }
        assert(dashboard::tab_paths(b.tabs@) =~= dashboard::tab_paths(a.tabs@).push(path));
    }
}

/// Opening the worktree of a number hands out a workspace in the directory of that worktree, named
/// after its branch, that runs the coding agent after the template of the repository looked at;
/// a number without a worktree hands out nothing.
pub proof fn switching_opens_the_chosen_worktree(a: App, i: usize, s: Stage, e: Effect)
    requires
        (s@, e@) == first_work(a, PendingAction::SwitchWorktree(i)@),
    ensures
        ({
            let trees = a.tabs@[a.active_repo as int].state.data.worktrees@;
            &&& i < trees.len() ==> s is OpeningWorkspace && (e matches Effect::CreateWorkspace {
                template_root,
                directory,
                command,
                name,
            } && {
                &&& template_root@ == a.tabs@[a.active_repo as int].path@
                &&& directory@ == trees[i as int].path@
                &&& command@ == a.agent@
                &&& name@ == trees[i as int].branch@
            })
            &&& i >= trees.len() ==> s is Over && e is Done
        }),
{
}

/// Selecting a workspace hands out its handle.
pub proof fn selecting_hands_out_the_handle(a: App, ws_ref: String, s: Stage, e: Effect)
    requires
        (s@, e@) == first_work(a, PendingAction::SelectWorkspace(ws_ref)@),
    ensures
        s is SelectingWorkspace,
        e matches Effect::SelectWorkspace { ws_ref: handed } && handed@ == ws_ref@,
{
}

/// Preparing a removal hands out the branch of the item on the selectable row, the directory of
/// its worktree and the number of its pull request, each where there is one, with the repository
/// looked at; a row without an item hands out nothing.
pub proof fn removals_are_prepared_for_the_row(a: App, si: usize, s: Stage, e: Effect)
    requires
        (s@, e@) == first_work(a, PendingAction::FetchDeleteInfo(si)@),
    ensures
        ({
            let d = a.tabs@[a.active_repo as int].state.data;
            let row = d.selectable_indices@[si as int] as int;
            let there = si < d.selectable_indices@.len() && row < d.table_entries@.len();
            &&& !there || d.table_entries@[row] is Header ==> s is Over && e is Done
            &&& there ==> (d.table_entries@[row] matches TableEntry::Item(item) ==> s
                is FetchingDeleteInfo && (e matches Effect::FetchDeleteInfo {
                branch,
                worktree,
                pr_number,
                repo,
            } && {
                &&& (item.branch matches Some(b) ==> branch@ == b@)
                &&& (item.branch is None ==> branch@.len() == 0)
                &&& (worktree is Some <==> item.worktree_idx is Some && item.worktree_idx->0
                    < d.worktrees@.len())
                &&& (worktree matches Some(w) ==> w@
                    == d.worktrees@[item.worktree_idx->0 as int].path@)
                &&& (pr_number is Some <==> item.pr_idx is Some && item.pr_idx->0 < d.prs@.len())
                &&& (pr_number matches Some(n) ==> n == d.prs@[item.pr_idx->0 as int].number)
                &&& repo@ == a.tabs@[a.active_repo as int].path@
            }))
        }),
{
}

/// A confirmed removal removes the worktree of the branch that was shown, in the repository looked
/// at, and uses up what was shown; where nothing was shown, nothing is removed.
pub proof fn confirmed_removals_remove_what_was_shown(a: App, b: App, s: Stage, e: Effect)
    requires
        (s@, e@) == first_work(a, PendingAction::ConfirmDelete@),
        started(a, PendingAction::ConfirmDelete@, b),
    ensures
        a.delete_confirm_info matches Some(info) ==> s is RemovingWorktree && (
        e matches Effect::RemoveWorktree { branch, repo } && branch@ == info.branch@ && repo@
            == a.tabs@[a.active_repo as int].path@),
        a.delete_confirm_info is None ==> s is Over && e is Done,
        b.delete_confirm_info is None,
{
}

/// A browser is opened on the pull request or the issue of that number, in the repository looked
/// at.
pub proof fn browsers_open_the_number(a: App, number: i64, s: Stage, e: Effect)
    ensures
        (s@, e@) == first_work(a, PendingAction::OpenPr(number)@) ==> s is OpeningBrowser && (
        e matches Effect::OpenPr { number: n, repo } && n == number && repo@
            == a.tabs@[a.active_repo as int].path@),
        (s@, e@) == first_work(a, PendingAction::OpenIssueBrowser(number)@) ==> s
            is OpeningBrowser && (e matches Effect::OpenIssue { number: n, repo } && n == number
            && repo@ == a.tabs@[a.active_repo as int].path@),
{
}

/// A worktree is made for the branch, in the repository looked at, and the branch is kept for what
/// follows.
pub proof fn worktrees_are_made_for_the_branch(a: App, branch: String, s: Stage, e: Effect)
    requires
        (s@, e@) == first_work(a, PendingAction::CreateWorktree(branch)@),
    ensures
        s matches Stage::CreatingWorktree { branch: kept } && kept@ == branch@,
        e matches Effect::CreateWorktree { branch: handed, repo } && handed@ == branch@ && repo@
            == a.tabs@[a.active_repo as int].path@,
{
}

/// The session of a number is archived by its id; a number without a session hands out nothing.
pub proof fn sessions_are_archived_by_id(a: App, i: usize, s: Stage, e: Effect)
    requires
        (s@, e@) == first_work(a, PendingAction::ArchiveSession(i)@),
    ensures
        ({
            let sessions = a.tabs@[a.active_repo as int].state.data.sessions@;
            &&& i < sessions.len() ==> s is ArchivingSession && (
            e matches Effect::ArchiveSession { session_id } && session_id@
                == sessions[i as int].id@)
            &&& i >= sessions.len() ==> s is Over && e is Done
        }),
{
}

/// Attaching to a session opens a workspace in the worktree of the number, where one is given and
/// there; makes a worktree for the branch, where a branch alone is given; and else does nothing
/// but read everything anew. The workspace is named after the branch, or `session` without one,
/// and runs the coding agent with the session.
pub proof fn sessions_are_attached_to(
    a: App,
    session_id: String,
    branch: Option<String>,
    worktree_idx: Option<usize>,
    s: Stage,
    e: Effect,
)
    requires
        (s@, e@) == first_work(
            a,
            PendingAction::TeleportSession { session_id, branch, worktree_idx }@,
        ),
    ensures
        ({
            let trees = a.tabs@[a.active_repo as int].state.data.worktrees@;
            let root = a.tabs@[a.active_repo as int].path@;
            let run = a.agent@ + " --teleport "@ + session_id@;
            let called = if branch is Some {
                branch->0@
            } else {
                "session"@
            };
            &&& worktree_idx is Some && worktree_idx->0 < trees.len() ==> s is OpeningWorkspace
                && (e matches Effect::CreateWorkspace { template_root, directory, command, name }
                && template_root@ == root && directory@ == trees[worktree_idx->0 as int].path@
                && command@ == run && name@ == called)
            &&& worktree_idx is Some && worktree_idx->0 >= trees.len() ==> s is Over && e is Refresh
            &&& worktree_idx is None && branch is Some ==> (s matches Stage::PreparingTeleport {
                command,
                name,
            } && command@ == run && name@ == called) && (e matches Effect::CreateWorktree {
                branch: handed,
                repo,
            } && handed@ == branch->0@ && repo@ == root)
            &&& worktree_idx is None && branch is None ==> s is Over && e is Refresh
        }),
{
}

/// A branch name is asked for the issues that the numbers point at, in the repository looked at,
/// and the same issues are kept for the case that none comes.
pub proof fn branch_names_are_asked_for_the_issues(
    a: App,
    numbers: Vec<usize>,
    s: Stage,
    e: Effect,
)
    requires
        (s@, e@) == first_work(a, PendingAction::GenerateBranchName(numbers)@),
    ensures
        ({
            let issues = a.tabs@[a.active_repo as int].state.data.issues@;
            &&& (s matches Stage::NamingBranch { issues: kept } && issue_texts(kept@) == picked(
                issues,
                numbers@,
            ))
            &&& (e matches Effect::NameBranch { issues: handed, repo } && issue_texts(handed@)
                == picked(issues, numbers@) && repo@ == a.tabs@[a.active_repo as int].path@)
        }),
{
}

/// One number picks the issue that it points at, by its number and its title, and none where it
/// points at none; several numbers pick what each of them picks, in their order.
pub proof fn issues_are_picked_one_by_one(
    issues: Seq<Issue>,
    k: usize,
    first: Seq<usize>,
    second: Seq<usize>,
)
    ensures
        k < issues.len() ==> picked(issues, seq![k]) == seq![
            (issues[k as int].number, issues[k as int].title@),
        ],
        k >= issues.len() ==> picked(issues, seq![k]) == Seq::<(i64, Seq<char>)>::empty(),
        picked(issues, Seq::empty()) == Seq::<(i64, Seq<char>)>::empty(),
        picked(issues, first + second) == picked(issues, first) + picked(issues, second),
    decreases second.len(),
{
    assert(seq![k].drop_last() =~= Seq::<usize>::empty());
    assert(picked(issues, seq![k].drop_last()) =~= Seq::<(i64, Seq<char>)>::empty());
    assert(seq![k].last() == k);
    if second.len() == 0 {
        assert(first + second =~= first);
        assert(picked(issues, first) + picked(issues, second) =~= picked(issues, first));
    } else {
        issues_are_picked_one_by_one(issues, k, first, second.drop_last());
        assert((first + second).drop_last() =~= first + second.drop_last());
        assert((first + second).last() == second.last());
        assert(picked(issues, first + second) =~= picked(issues, first) + picked(issues, second));
    }
}

/// Issues are told by their numbers and titles, one by one.
pub proof fn issues_keep_number_and_title(issues: Seq<(i64, String)>, i: int)
    requires
        0 <= i < issues.len(),
    ensures
        issue_texts(issues).len() == issues.len(),
        issue_texts(issues)[i] == (issues[i].0, issues[i].1@),
{
}

/// A repository to be added is remembered first, and kept for what follows.
pub proof fn repositories_are_remembered_first(a: App, path: FsPath, s: Stage, e: Effect)
    requires
        (s@, e@) == first_work(a, PendingAction::AddRepo(path)@),
    ensures
        s matches Stage::SavingRepo { path: kept } && kept@ == path@,
        e matches Effect::SaveRepo { path: handed } && handed@ == path@,
{
}

/// Without an action nothing happens. Starting one clears the status line, and a confirmed removal
/// uses up what was shown; nothing else changes.
pub proof fn starting_changes_the_status_only(a: App, p: PendingAction, b: App, s: Stage, e: Effect)
    requires
        (s@, e@) == first_work(a, p@),
        started(a, p@, b),
    ensures
        p is Nothing ==> b == a && s is Over && e is Done,
        !(p is Nothing) && !(p is ConfirmDelete) ==> b == (App { status_message: None, ..a }),
        p is ConfirmDelete ==> b == (App { status_message: None, delete_confirm_info: None, ..a }),
{
}

/// Which replies each stage goes on with.
pub proof fn stages_go_on_with_their_replies(s: Stage, r: Reply)
    ensures
        s is Over ==> !accepts(s@, r@),
        s is OpeningWorkspace || s is SelectingWorkspace || s is RemovingWorktree || s
            is OpeningBrowser || s is ArchivingSession ==> (accepts(s@, r@) <==> r is Finished || r
            is Failed),
        s is FetchingDeleteInfo ==> (accepts(s@, r@) <==> r is DeleteInfo),
        s is CreatingWorktree || s is PreparingTeleport ==> (accepts(s@, r@) <==> r is Worktree
            || r is Failed),
        s is NamingBranch ==> (accepts(s@, r@) <==> r is Branch || r is Failed),
        s is SavingRepo ==> (accepts(s@, r@) <==> r is Finished),
{
}

/// After a workspace was opened, a worktree removed or a session archived, everything is read
/// anew; after a workspace was selected, nothing is left to be done. Where the work failed, the
/// status line says why; nothing else changes.
pub proof fn plain_work_ends_the_action(a: App, s: Stage, r: Reply, b: App, t: Stage, e: Effect)
    requires
        accepts(s@, r@),
        (t@, e@) == next_work(a, s@, r@),
        continued(a, s@, r, b),
        s is OpeningWorkspace || s is RemovingWorktree || s is ArchivingSession || s
            is SelectingWorkspace,
    ensures
        t is Over,
        s is SelectingWorkspace ==> e is Done,
        !(s is SelectingWorkspace) ==> e is Refresh,
        r matches Reply::Failed(why) ==> (b.status_message matches Some(shown) && shown@ == why@),
        r is Finished ==> text::opt_text(b.status_message) == text::opt_text(a.status_message),
        b == (App { status_message: b.status_message, ..a }),
{
}

/// After a browser was opened nothing is left to be done, and nothing is shown, whether or not it
/// failed.
pub proof fn browsers_fail_silently(a: App, r: Reply, b: App, t: Stage, e: Effect)
    requires
        accepts(Stage::OpeningBrowser@, r@),
        (t@, e@) == next_work(a, Stage::OpeningBrowser@, r@),
        continued(a, Stage::OpeningBrowser@, r, b),
    ensures
        t is Over && e is Done,
        text::opt_text(b.status_message) == text::opt_text(a.status_message),
        b == (App { status_message: b.status_message, ..a }),
{
}

/// What was collected before a removal is shown as it came, and is no longer awaited; nothing else
/// changes, and nothing is left to be done.
pub proof fn collected_information_is_shown(
    a: App,
    info: DeleteConfirmInfo,
    b: App,
    t: Stage,
    e: Effect,
)
    requires
        (t@, e@) == next_work(a, Stage::FetchingDeleteInfo@, Reply::DeleteInfo(info)@),
        continued(a, Stage::FetchingDeleteInfo@, Reply::DeleteInfo(info), b),
    ensures
        t is Over && e is Done,
        b == (App {
            delete_confirm_info: Some(info),
            delete_confirm_loading: false,
            ..a
        }),
{
}

/// A worktree that was made is opened: as a workspace in its directory, named after its branch,
/// that runs the coding agent. Where it could not be made, the status line says why, and
/// everything is read anew.
pub proof fn made_worktrees_are_opened(
    a: App,
    branch: String,
    r: Reply,
    b: App,
    t: Stage,
    e: Effect,
)
    requires
        accepts(Stage::CreatingWorktree { branch }@, r@),
        (t@, e@) == next_work(a, Stage::CreatingWorktree { branch }@, r@),
        continued(a, Stage::CreatingWorktree { branch }@, r, b),
    ensures
        r matches Reply::Worktree(path) ==> t is OpeningWorkspace && (
        e matches Effect::CreateWorkspace { template_root, directory, command, name }
            && template_root@ == a.tabs@[a.active_repo as int].path@ && directory@ == path@
            && command@ == a.agent@ && name@ == branch@) && text::opt_text(b.status_message)
            == text::opt_text(a.status_message),
        r matches Reply::Failed(why) ==> t is Over && e is Refresh && (
        b.status_message matches Some(shown) && shown@ == why@),
        b == (App { status_message: b.status_message, ..a }),
{
}

/// A worktree that was made for a session is opened with the command and the name that were kept.
/// Where it could not be made, everything is read anew and nothing is shown.
pub proof fn prepared_sessions_are_attached_to(
    a: App,
    command: String,
    name: String,
    r: Reply,
    b: App,
    t: Stage,
    e: Effect,
)
    requires
        accepts(Stage::PreparingTeleport { command, name }@, r@),
        (t@, e@) == next_work(a, Stage::PreparingTeleport { command, name }@, r@),
        continued(a, Stage::PreparingTeleport { command, name }@, r, b),
    ensures
        r matches Reply::Worktree(path) ==> t is OpeningWorkspace && (
        e matches Effect::CreateWorkspace { template_root, directory, command: run, name: called }
            && template_root@ == a.tabs@[a.active_repo as int].path@ && directory@ == path@ && run@
            == command@ && called@ == name@),
        r is Failed ==> t is Over && e is Refresh,
        text::opt_text(b.status_message) == text::opt_text(a.status_message),
        b == (App { status_message: b.status_message, ..a }),
{
}

/// A branch name that was suggested is offered as it came. Where none was, the numbers of the
/// issues make one: `issue-` and the number of each, with dashes between them.
pub proof fn branch_names_are_offered(
    a: App,
    issues: Vec<(i64, String)>,
    r: Reply,
    b: App,
    t: Stage,
    e: Effect,
)
    requires
        accepts(Stage::NamingBranch { issues }@, r@),
        (t@, e@) == next_work(a, Stage::NamingBranch { issues }@, r@),
        continued(a, Stage::NamingBranch { issues }@, r, b),
    ensures
        t is Over,
        e is PrefillBranch,
        r matches Reply::Branch(suggested) ==> e->PrefillBranch_name@ == suggested@,
        r is Failed ==> e->PrefillBranch_name@ == text::joined(
            Seq::new(
                issues@.len(),
                |i: int| "issue-"@ + text::decimal(issues@[i].0 as int),
            ),
            "-"@,
        ),
        text::opt_text(b.status_message) == text::opt_text(a.status_message),
        b == (App { status_message: b.status_message, ..a }),
{
    let texts = issue_texts(issues@);
    assert(Seq::new(texts.len(), |i: int| issue_name(texts[i])) =~= Seq::new(
        issues@.len(),
        |i: int| "issue-"@ + text::decimal(issues@[i].0 as int),
    ));
}

/// A repository that was remembered gets a tab behind the others, unless it has one; the last tab
/// is looked at, and everything is read anew. The other tabs stay as they are, and nothing else
/// changes.
pub proof fn remembered_repositories_get_a_tab(
    a: App,
    path: FsPath,
    r: Reply,
    b: App,
    t: Stage,
    e: Effect,
)
    requires
        a.wf(),
        accepts(Stage::SavingRepo { path }@, r@),
        (t@, e@) == next_work(a, Stage::SavingRepo { path }@, r@),
        continued(a, Stage::SavingRepo { path }@, r, b),
    ensures
        t is Over && e is Refresh,
        b == (App { tabs: b.tabs, active_repo: b.active_repo, ..a }),
        b.active_repo == b.tabs@.len() - 1,
        !b.tabs@.last().state.has_unseen_changes,
        (exists|i: int| 0 <= i < a.tabs@.len() && crate::fs_path::same(
            (#[trigger] a.tabs@[i]).path@,
            path@,
        )) ==> b.tabs@.len() == a.tabs@.len() && b.tabs@.last().path == a.tabs@.last().path
            && b.tabs@.last().state == (crate::data::RepoState {
            has_unseen_changes: false,
            ..a.tabs@.last().state
        }) && forall|i: int|
            #![trigger b.tabs@[i]]
            0 <= i < a.tabs@.len() - 1 ==> b.tabs@[i] == a.tabs@[i],
        !(exists|i: int| 0 <= i < a.tabs@.len() && crate::fs_path::same(
            (#[trigger] a.tabs@[i]).path@,
            path@,
        )) ==> b.tabs@.len() == a.tabs@.len() + 1 && b.tabs@.last().path@ == path@
            && dashboard::is_fresh(b.tabs@.last().state) && forall|i: int|
            #![trigger b.tabs@[i]]
            0 <= i < a.tabs@.len() ==> b.tabs@[i] == a.tabs@[i],
{
    if !dashboard::has_tab(a.tabs@, path@) {
        assert forall|i: int| #![trigger b.tabs@[i]] 0 <= i < a.tabs@.len() implies b.tabs@[i]
            == a.tabs@[i] by {
            assert(b.tabs@.drop_last()[i] == b.tabs@[i]);
        }
    }
}

} // verus!
