//! The state of the dashboard: a tab per repository, and what is open over it.

use vstd::prelude::*;

use crate::action::PendingAction;
use crate::data::{RepoState, TableSelection};
use crate::fs_path;
use crate::fs_path::FsPath;
use crate::text;

verus! {

/// A rectangle of the terminal.
#[derive(Debug, Clone, Copy, PartialEq, Eq, Structural)]
pub struct Area {
    pub x: u16,
    pub y: u16,
    pub width: u16,
    pub height: u16,
}

impl Area {
    /// Whether a cell lies in the rectangle.
    pub open spec fn holds(self, column: u16, row: u16) -> bool {
        &&& self.x <= column < self.x + self.width
        &&& self.y <= row < self.y + self.height
    }

    /// Whether a cell lies in the rectangle.
    pub fn contains(&self, column: u16, row: u16) -> (b: bool)
        ensures
            b == self.holds(column, row),
    {
        column >= self.x && column - self.x < self.width && row >= self.y && row - self.y
            < self.height
    }
}

/// What typed keys go to.
#[derive(Debug, Clone, Copy, PartialEq, Eq, Structural)]
pub enum InputMode {
    Normal,
    BranchName,
    AddRepo,
}

/// A line being typed, with the cursor before the character of that number.
#[derive(Debug)]
pub struct InputLine {
    pub value: String,
    pub cursor: usize,
}

impl InputLine {
    /// Whether the line holds a text and the cursor stands behind it.
    pub open spec fn is_text(self, text: Seq<char>) -> bool {
        self.value@ == text && self.cursor == text.len()
    }

    /// An empty line.
    pub fn empty() -> (l: InputLine)
        ensures
            l.is_text(Seq::empty()),
    {
        InputLine { value: String::new(), cursor: 0 }
    }

    /// A line that holds a text, with the cursor behind it.
    pub fn from_text(text: String) -> (l: InputLine)
        ensures
            l.is_text(text@),
    {
        let cursor: usize = text.as_str().unicode_len();
        InputLine { value: text, cursor }
    }
}

/// What is shown before a worktree is removed.
#[derive(Debug)]
pub struct DeleteConfirmInfo {
    pub branch: String,
    /// What would be lost with the worktree.
    pub uncommitted: Vec<String>,
    /// The state of the pull request, if there is one.
    pub pr_status: Option<String>,
}

/// `DeleteConfirmInfo`, by the texts that it holds.
pub struct DeleteConfirmView {
    pub branch: Seq<char>,
    pub uncommitted: Seq<Seq<char>>,
    pub pr_status: Option<Seq<char>>,
}

impl View for DeleteConfirmInfo {
    type V = DeleteConfirmView;

    open spec fn view(&self) -> DeleteConfirmView {
        DeleteConfirmView {
            branch: self.branch@,
            uncommitted: text::texts(self.uncommitted@),
            pr_status: text::opt_text(self.pr_status),
        }
    }
}

/// A repository and its place in the file system.
#[derive(Debug)]
pub struct Tab {
    pub path: FsPath,
    pub state: RepoState,
}

/// The dashboard.
#[derive(Debug)]
pub struct App {
    /// The repositories, in the order of their tabs.
    pub tabs: Vec<Tab>,
    /// The command that starts a coding agent.
    pub agent: String,
    /// The tab that is looked at.
    pub active_repo: usize,
    /// Where the tabs were drawn, in their order.
    pub tab_areas: Vec<Area>,
    /// Where the button that adds a repository was drawn.
    pub add_tab_area: Area,
    pub input_mode: InputMode,
    pub input: InputLine,
    /// The directories offered while a repository is being added.
    pub dir_entries: Vec<String>,
    pub dir_selected: usize,
    pub show_action_menu: bool,
    pub show_help: bool,
    pub show_delete_confirm: bool,
    pub delete_confirm_info: Option<DeleteConfirmInfo>,
    pub delete_confirm_loading: bool,
    pub status_message: Option<String>,
    pub pending_action: PendingAction,
    pub should_quit: bool,
}

/// Whether nothing is known of a repository yet.
pub open spec fn is_fresh(r: RepoState) -> bool {
    &&& r.data.is_blank()
    &&& r.table == (TableSelection { offset: 0, selected: None })
    &&& r.selected_selectable_idx is None
    &&& !r.has_unseen_changes
    &&& r.before == crate::data::counts(r.data)
}

/// Whether one of the tabs is that of the path `p`.
pub open spec fn has_tab(tabs: Seq<Tab>, p: Seq<u8>) -> bool {
    exists|i: int| 0 <= i < tabs.len() && fs_path::same((#[trigger] tabs[i]).path@, p)
}

/// Whether no two tabs are those of one path.
pub open spec fn tabs_differ(tabs: Seq<Tab>) -> bool {
    forall|i: int, j: int|
        #![trigger tabs[i], tabs[j]]
        0 <= i < j < tabs.len() ==> !fs_path::same(tabs[i].path@, tabs[j].path@)
}

/// The paths of tabs, in their order.
pub open spec fn tab_paths(tabs: Seq<Tab>) -> Seq<Seq<u8>> {
    Seq::new(tabs.len(), |i: int| tabs[i].path@)
}

/// The paths, without those that stand for one that came before.
pub open spec fn distinct(paths: Seq<Seq<u8>>) -> Seq<Seq<u8>> {
    crate::startup::merged(Seq::empty(), paths)
}

impl App {
    /// There is a tab to look at, and no repository has two tabs.
    pub open spec fn wf(self) -> bool {
        &&& self.active_repo < self.tabs@.len()
        &&& tabs_differ(self.tabs@)
    }

    /// The path of the repository that is looked at.
    pub open spec fn active_path(self) -> Seq<u8> {
        self.tabs@[self.active_repo as int].path@
    }

    /// The dashboard with nothing but its tabs changed.
    pub open spec fn with_tabs(self, tabs: Vec<Tab>, active_repo: usize) -> App {
        App { tabs, active_repo, ..self }
    }

    /// A dashboard with a tab for each of the given repositories, in their order; the first is
    /// looked at, and nothing is open over it. Coding agents are started by the given command.
    pub fn new(repo_roots: Vec<FsPath>, agent: String) -> (a: App)
        requires
            repo_roots@.len() > 0,
        ensures
            a.wf(),
            tab_paths(a.tabs@) == distinct(crate::views::views(repo_roots@)),
            forall|i: int|
                #![trigger a.tabs@[i]]
                0 <= i < a.tabs@.len() ==> is_fresh(a.tabs@[i].state),
            a.agent@ == agent@,
            a.active_repo == 0,
            a.tab_areas@.len() == 0,
            a.add_tab_area == (Area { x: 0, y: 0, width: 0, height: 0 }),
            a.input_mode == InputMode::Normal,
            a.input.is_text(Seq::empty()),
            a.dir_entries@.len() == 0,
            a.dir_selected == 0,
            !a.show_action_menu && !a.show_help && !a.show_delete_confirm,
            a.delete_confirm_info is None,
            !a.delete_confirm_loading,
            a.status_message is None,
            a.pending_action is Nothing,
            !a.should_quit,
    {
        let mut a = App {
            tabs: Vec::new(),
            agent,
            active_repo: 0,
            tab_areas: Vec::new(),
            add_tab_area: Area { x: 0, y: 0, width: 0, height: 0 },
            input_mode: InputMode::Normal,
            input: InputLine::empty(),
            dir_entries: Vec::new(),
            dir_selected: 0,
            show_action_menu: false,
            show_help: false,
            show_delete_confirm: false,
            delete_confirm_info: None,
            delete_confirm_loading: false,
            status_message: None,
            pending_action: PendingAction::Nothing,
            should_quit: false,
        };
        let ghost roots = crate::views::views(repo_roots@);
        let ghost blank = a;
        let mut i: usize = 0;
        assert(tab_paths(a.tabs@) =~= distinct(roots.take(0)));
        while i < repo_roots.len()
            invariant
                i <= repo_roots@.len(),
                roots == crate::views::views(repo_roots@),
                tab_paths(a.tabs@) == distinct(roots.take(i as int)),
                tabs_differ(a.tabs@),
                i > 0 ==> a.tabs@.len() > 0,
                a == blank.with_tabs(a.tabs, 0),
                forall|j: int|
                    #![trigger a.tabs@[j]]
                    0 <= j < a.tabs@.len() ==> is_fresh(a.tabs@[j].state),
            decreases repo_roots@.len() - i,
        {
            let ghost before = a.tabs@;
            assert(roots.take(i + 1).drop_last() =~= roots.take(i as int));
            assert(roots.take(i + 1).last() == repo_roots@[i as int]@);
            proof {
                lemma_known_tabs(a.tabs@, repo_roots@[i as int]@);
            }
            a.add_repo(repo_roots[i].clone());
            assert(tab_paths(a.tabs@) =~= distinct(roots.take(i + 1)));
            assert forall|j: int| #![trigger a.tabs@[j]] 0 <= j < a.tabs@.len() implies is_fresh(
                a.tabs@[j].state,
            ) by {
                if j < before.len() {
                    assert(a.tabs@[j] == before[j]) by {
                        if a.tabs@.len() > before.len() {
                            assert(a.tabs@.drop_last()[j] == a.tabs@[j]);
                        }
                    }
                }
            }
            i = i + 1;
        }
        assert(roots.take(i as int) =~= roots);
        a
    }

    /// Whether there is a tab to look at, and no repository has two tabs.
    pub fn is_valid(&self) -> (b: bool)
        ensures
            b == self.wf(),
    {
        if self.active_repo >= self.tabs.len() {
            return false;
        }
        let mut i: usize = 0;
        while i < self.tabs.len()
            invariant
                i <= self.tabs@.len(),
                forall|k: int, j: int|
                    #![trigger self.tabs@[k], self.tabs@[j]]
                    0 <= k < i && k < j < self.tabs@.len() ==> !fs_path::same(
                        self.tabs@[k].path@,
                        self.tabs@[j].path@,
                    ),
            decreases self.tabs@.len() - i,
        {
            let mut j: usize = i + 1;
            while j < self.tabs.len()
                invariant
                    i < j <= self.tabs@.len(),
                    forall|m: int|
                        i < m < j ==> !fs_path::same(
                            self.tabs@[i as int].path@,
                            (#[trigger] self.tabs@[m]).path@,
                        ),
                decreases self.tabs@.len() - j,
            {
                if self.tabs[i].path.same_as(&self.tabs[j].path) {
                    assert(!tabs_differ(self.tabs@)) by {
                        assert(fs_path::same(
                            self.tabs@[i as int].path@,
                            self.tabs@[j as int].path@,
                        ));
                    }
                    return false;
                }
                j = j + 1;
            }
            i = i + 1;
        }
        true
    }

    /// Whether the repository at that path has a tab.
    pub fn has_repo(&self, path: &FsPath) -> (b: bool)
        ensures
            b == has_tab(self.tabs@, path@),
    {
        let mut i: usize = 0;
        while i < self.tabs.len()
            invariant
                i <= self.tabs@.len(),
                forall|j: int|
                    0 <= j < i ==> !fs_path::same((#[trigger] self.tabs@[j]).path@, path@),
            decreases self.tabs@.len() - i,
        {
            if self.tabs[i].path.same_as(path) {
                return true;
            }
            i = i + 1;
        }
        false
    }

    /// Adds a tab for a repository behind the others, unless it has one.
    pub fn add_repo(&mut self, path: FsPath)
        requires
            tabs_differ(old(self).tabs@),
        ensures
            has_tab(old(self).tabs@, path@) ==> *final(self) == *old(self),
            !has_tab(old(self).tabs@, path@) ==> {
                &&& final(self).tabs@.len() == old(self).tabs@.len() + 1
                &&& final(self).tabs@.drop_last() == old(self).tabs@
                &&& final(self).tabs@.last().path@ == path@
                &&& is_fresh(final(self).tabs@.last().state)
            },
            *final(self) == old(self).with_tabs(final(self).tabs, old(self).active_repo),
            tabs_differ(final(self).tabs@),
            has_tab(final(self).tabs@, path@),
    {
        if !self.has_repo(&path) {
            let ghost before = self.tabs@;
            let ghost p = path@;
            self.tabs.push(Tab { path, state: RepoState::new() });
            assert(self.tabs@.drop_last() =~= before);
            assert forall|i: int, j: int|
                #![trigger self.tabs@[i], self.tabs@[j]]
                0 <= i < j < self.tabs@.len() implies !fs_path::same(
                self.tabs@[i].path@,
                self.tabs@[j].path@,
            ) by {
                assert(self.tabs@[i] == before[i]);
                if j < before.len() {
                    assert(self.tabs@[j] == before[j]);
                }
            }
            assert(fs_path::same(self.tabs@[before.len() as int].path@, p));
        }
    }

    /// Looks at another tab, whose changes are seen then; a tab that is not there changes nothing.
    pub fn switch_tab(&mut self, i: usize)
        ensures
            i >= old(self).tabs@.len() ==> *final(self) == *old(self),
            i < old(self).tabs@.len() ==> {
                &&& *final(self) == old(self).with_tabs(final(self).tabs, i)
                &&& final(self).tabs@ == old(self).tabs@.update(
                    i as int,
                    seen(old(self).tabs@[i as int]),
                )
            },
    {
        if i < self.tabs.len() {
            let ghost before = self.tabs@;
            self.active_repo = i;
            self.tabs[i].state.has_unseen_changes = false;
            assert(self.tabs@ =~= before.update(i as int, seen(before[i as int])));
        }
    }

    /// Takes the action that waits, if any; none waits afterwards.
    pub fn take_pending_action(&mut self) -> (p: PendingAction)
        ensures
            p == old(self).pending_action,
            *final(self) == (App { pending_action: PendingAction::Nothing, ..*old(self) }),
    {
        let mut p = PendingAction::Nothing;
        std::mem::swap(&mut p, &mut self.pending_action);
        p
    }
}

/// The tab once its changes were seen.
pub open spec fn seen(t: Tab) -> Tab {
    Tab { state: RepoState { has_unseen_changes: false, ..t.state }, ..t }
}

proof fn lemma_distinct_keeps_the_first(paths: Seq<Seq<u8>>)
    requires
        paths.len() > 0,
    ensures
        distinct(paths).len() > 0,
        distinct(paths)[0] == paths[0],
    decreases paths.len(),
{
    let rest = paths.drop_last();
    if rest.len() > 0 {
        lemma_distinct_keeps_the_first(rest);
        assert(rest[0] == paths[0]);
    } else {
        assert(distinct(rest) =~= Seq::<Seq<u8>>::empty());
        assert(!crate::startup::known(distinct(rest), paths.last()));
    }
}

/// The first repository from the command line, or else the detected one, is the one looked at in
/// a new dashboard, whatever is remembered.
pub proof fn the_first_root_is_looked_at(
    given: Seq<crate::startup::GivenRoot>,
    run: Option<crate::process::ProcessOutput>,
    persisted: Seq<Seq<u8>>,
    a: App,
)
    requires
        crate::startup::first_roots(given, run).len() > 0,
        tab_paths(a.tabs@) == distinct(
            crate::startup::merged(crate::startup::first_roots(given, run), persisted),
        ),
        a.active_repo == 0,
    ensures
        a.active_path() == crate::startup::first_roots(given, run)[0],
{
    let first = crate::startup::first_roots(given, run);
    let roots = crate::startup::merged(first, persisted);
    crate::startup::merged_begins_with_the_first(first, persisted);
    assert(roots.take(first.len() as int)[0] == roots[0]);
    lemma_distinct_keeps_the_first(roots);
    assert(tab_paths(a.tabs@)[0] == a.tabs@[0].path@);
}

proof fn lemma_known_tabs(tabs: Seq<Tab>, p: Seq<u8>)
    ensures
        has_tab(tabs, p) == crate::startup::known(tab_paths(tabs), p),
{
    if has_tab(tabs, p) {
        let i = choose|i: int| 0 <= i < tabs.len() && fs_path::same((#[trigger] tabs[i]).path@, p);
        assert(fs_path::same(tab_paths(tabs)[i], p));
    }
    if crate::startup::known(tab_paths(tabs), p) {
        let i = choose|i: int|
            0 <= i < tab_paths(tabs).len() && fs_path::same(#[trigger] tab_paths(tabs)[i], p);
        assert(fs_path::same(tabs[i].path@, p));
    }
}

/// A rectangle holds the cells from its corner on, as many across and down as it is wide and high.
pub proof fn areas_hold_their_cells(area: Area, column: u16, row: u16)
    ensures
        area.holds(column, row) <==> area.x <= column && column < area.x + area.width && area.y
            <= row && row < area.y + area.height,
{
}

/// A line that holds a text has the cursor behind it.
pub proof fn lines_end_at_the_cursor(line: InputLine, text: Seq<char>)
    ensures
        line.is_text(text) <==> line.value@ == text && line.cursor == text.len(),
{
}

/// A dashboard is valid exactly where the tab looked at is there and no two tabs are those of one
/// path; the repository looked at is that of this tab.
pub proof fn valid_dashboards_have_a_tab_to_look_at(a: App)
    ensures
        a.wf() <==> a.active_repo < a.tabs@.len() && forall|i: int, j: int|
            #![trigger a.tabs@[i], a.tabs@[j]]
            0 <= i < j < a.tabs@.len() ==> !fs_path::same(a.tabs@[i].path@, a.tabs@[j].path@),
        a.active_path() == a.tabs@[a.active_repo as int].path@,
{
}

/// A repository that was not read yet has no data, no selection and no mark, and its table is
/// shown from the top.
pub proof fn fresh_repositories_hold_nothing(r: RepoState)
    requires
        is_fresh(r),
    ensures
        r.data.worktrees.len() == 0 && r.data.prs.len() == 0 && r.data.sessions.len() == 0,
        r.data.remote_branches.len() == 0 && r.data.issues.len() == 0,
        r.data.table_entries.len() == 0 && r.data.selectable_indices.len() == 0,
        r.table.offset == 0 && r.table.selected is None,
        r.selected_selectable_idx is None,
        !r.has_unseen_changes,
{
}

/// A new dashboard has a tab for each root and for nothing else, in the order of the roots; the
/// first root is looked at.
pub proof fn new_dashboards_show_the_roots(roots: Seq<Seq<u8>>, a: App, i: int)
    requires
        tab_paths(a.tabs@) == distinct(roots),
        0 <= i < roots.len(),
    ensures
        exists|k: int|
            0 <= k < a.tabs@.len() && fs_path::same((#[trigger] a.tabs@[k]).path@, roots[i]),
        forall|k: int| 0 <= k < a.tabs@.len() ==> roots.contains((#[trigger] a.tabs@[k]).path@),
        a.tabs@.len() > 0 && a.tabs@[0].path@ == roots[0],
        forall|n: int|
            0 <= n <= roots.len() ==> (#[trigger] distinct(roots.take(n))).is_prefix_of(
                distinct(roots),
            ),
{
    let none = Seq::<Seq<u8>>::empty();
    assert(fs_path::same(roots[i], roots[i]));
    crate::startup::merged_knows_every_path(none, roots, roots[i]);
    lemma_known_tabs(a.tabs@, roots[i]);
    assert forall|k: int| 0 <= k < a.tabs@.len() implies roots.contains(
        (#[trigger] a.tabs@[k]).path@,
    ) by {
        assert(tab_paths(a.tabs@)[k] == a.tabs@[k].path@);
        crate::startup::merged_invents_no_path(none, roots, k);
    }
    lemma_distinct_keeps_the_first(roots);
    assert(tab_paths(a.tabs@)[0] == a.tabs@[0].path@);
    assert forall|n: int| 0 <= n <= roots.len() implies (#[trigger] distinct(
        roots.take(n),
    )).is_prefix_of(distinct(roots)) by {
        crate::startup::merged_keeps_the_order(none, roots, n);
    }
}

} // verus!
