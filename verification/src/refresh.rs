//! Reading all repositories anew.

use vstd::prelude::*;

use crate::dashboard;
use crate::dashboard::{App, Tab};
use crate::data;
use crate::data::DataStore;
use crate::fs_path;
use crate::fs_path::FsPath;
use crate::text;

verus! {

/// A repository handed out to be read anew: its path and what was known of it.
#[derive(Debug)]
pub struct RefreshJob {
    pub path: FsPath,
    pub data: DataStore,
}

/// What reading a repository anew brought: the new data, and what went wrong.
#[derive(Debug)]
pub struct RefreshResult {
    pub data: DataStore,
    pub errors: Vec<String>,
}

/// Whether `job` hands out what the tab `t` holds.
pub open spec fn hands_out(job: RefreshJob, t: Tab) -> bool {
    &&& job.path@ == t.path@
    &&& job.data == t.state.data
}

/// Whether the tab `b` is `a` with its data handed out: how much that was is kept.
pub open spec fn emptied(a: Tab, b: Tab) -> bool {
    &&& b.state.data.is_blank()
    &&& b == Tab {
        state: data::RepoState {
            data: b.state.data,
            before: data::counts(a.state.data),
            ..a.state
        },
        ..a
    }
}

/// Whether `b` is the dashboard `a` with the data of all repositories handed out.
pub open spec fn begun(a: App, b: App) -> bool {
    &&& b.tabs@.len() == a.tabs@.len()
    &&& forall|i: int|
        #![trigger b.tabs@[i]]
        0 <= i < b.tabs@.len() ==> emptied(a.tabs@[i], b.tabs@[i])
    &&& b == a.with_tabs(b.tabs, a.active_repo)
}

/// The tab of that number after the result for it came in.
pub open spec fn updated_tab(t: Tab, r: RefreshResult, is_active: bool) -> Tab {
    Tab { state: data::absorbed(t.state, r.data, is_active), ..t }
}

/// What went wrong with one repository, each message behind its name.
pub open spec fn named_errors(t: Tab, r: RefreshResult) -> Seq<Seq<char>> {
    Seq::new(
        r.errors@.len(),
        |i: int| fs_path::repo_name_of(t.path@) + ": "@ + r.errors@[i]@,
    )
}

/// What went wrong with the first `n` repositories, in the order of the tabs.
pub open spec fn errors_upto(tabs: Seq<Tab>, results: Seq<RefreshResult>, n: nat) -> Seq<Seq<char>>
    decreases n,
{
    if n == 0 {
        Seq::empty()
    } else {
        errors_upto(tabs, results, (n - 1) as nat) + named_errors(tabs[n - 1], results[n - 1])
    }
}

/// The status line after a refresh: what went wrong, or what it was before if nothing did.
pub open spec fn status_after(
    status: Option<Seq<char>>,
    tabs: Seq<Tab>,
    results: Seq<RefreshResult>,
) -> Option<Seq<char>> {
    let errors = errors_upto(tabs, results, tabs.len());
    if errors.len() > 0 {
        Some(text::joined(errors, "; "@))
    } else {
        status
    }
}

/// Whether the results turn the dashboard `a` into `b`.
pub open spec fn refreshed(a: App, results: Seq<RefreshResult>, b: App) -> bool {
    &&& b.tabs@.len() == a.tabs@.len()
    &&& forall|i: int|
        #![trigger b.tabs@[i]]
        0 <= i < a.tabs@.len() ==> b.tabs@[i] == updated_tab(
            a.tabs@[i],
            results[i],
            i == a.active_repo,
        )
    &&& text::opt_text(b.status_message) == status_after(
        text::opt_text(a.status_message),
        a.tabs@,
        results,
    )
    &&& b == App { tabs: b.tabs, status_message: b.status_message, ..a }
}

impl App {
    /// Hands out every repository to be read anew, in the order of the tabs. Until the results
    /// are taken in, nothing is known of the repositories.
    pub fn begin_refresh(&mut self) -> (jobs: Vec<RefreshJob>)
        ensures
            jobs@.len() == old(self).tabs@.len(),
            forall|i: int|
                #![trigger jobs@[i]]
                0 <= i < jobs@.len() ==> hands_out(jobs@[i], old(self).tabs@[i]),
            begun(*old(self), *final(self)),
    {
        let ghost start = *self;
        let mut jobs: Vec<RefreshJob> = Vec::new();
        let mut i: usize = 0;
        while i < self.tabs.len()
            invariant
                i <= self.tabs@.len(),
                self.tabs@.len() == start.tabs@.len(),
                jobs@.len() == i,
                forall|j: int|
                    #![trigger jobs@[j]]
                    0 <= j < i ==> hands_out(jobs@[j], start.tabs@[j]),
                forall|j: int|
                    #![trigger self.tabs@[j]]
                    0 <= j < i ==> emptied(start.tabs@[j], self.tabs@[j]),
                forall|j: int|
                    #![trigger self.tabs@[j]]
                    i <= j < self.tabs@.len() ==> self.tabs@[j] == start.tabs@[j],
                *self == start.with_tabs(self.tabs, start.active_repo),
            decreases self.tabs@.len() - i,
        {
            let path = self.tabs[i].path.clone();
            let data = self.tabs[i].state.hand_out();
            jobs.push(RefreshJob { path, data });
            i = i + 1;
        }
        jobs
    }

    /// Takes in the results for all tabs, in their order: notices changes where nobody looks,
    /// keeps the selections, and shows what went wrong.
    pub fn finish_refresh(&mut self, results: Vec<RefreshResult>)
        requires
            results@.len() == old(self).tabs@.len(),
        ensures
            refreshed(*old(self), results@, *final(self)),
    {
        let ghost start = *self;
        let ghost all = results@;
        let n: usize = results.len();
        let mut errors: Vec<String> = Vec::new();
        let mut rest = results;
        let mut i: usize = 0;
        assert(text::texts(errors@) =~= errors_upto(start.tabs@, all, 0));
        while i < n
            invariant
                i <= n,
                n == all.len(),
                n == start.tabs@.len(),
                rest@ == all.skip(i as int),
                self.tabs@.len() == n,
                forall|j: int|
                    #![trigger self.tabs@[j]]
                    0 <= j < i ==> self.tabs@[j] == updated_tab(
                        start.tabs@[j],
                        all[j],
                        j == start.active_repo,
                    ),
                forall|j: int|
                    #![trigger self.tabs@[j]]
                    i <= j < n ==> self.tabs@[j] == start.tabs@[j],
                *self == start.with_tabs(self.tabs, start.active_repo),
                text::texts(errors@) == errors_upto(start.tabs@, all, i as nat),
            decreases n - i,
        {
            let ghost tabs_before = self.tabs@;
            assert(rest@[0] == all[i as int]);
            let result = rest.remove(0);
            assert(rest@ =~= all.skip(i + 1));
            let is_active: bool = i == self.active_repo;
            let name = self.tabs[i].path.repo_name();
            self.tabs[i].state.absorb(result.data, is_active);
            let ghost errors_before = text::texts(errors@);
            let ghost named = named_errors(start.tabs@[i as int], all[i as int]);
            let mut k: usize = 0;
            assert(errors_before + named.take(0) =~= errors_before);
            while k < result.errors.len()
                invariant
                    k <= result.errors@.len(),
                    result.errors@ == all[i as int].errors@,
                    named == named_errors(start.tabs@[i as int], all[i as int]),
                    name@ == fs_path::repo_name_of(start.tabs@[i as int].path@),
                    text::texts(errors@) == errors_before + named.take(k as int),
                decreases result.errors@.len() - k,
            {
                let ghost before = errors@;
                let mut message = name.clone();
                message.append(": ");
                message.append(result.errors[k].as_str());
                assert(message@ == named[k as int]);
                errors.push(message);
                assert(text::texts(errors@) =~= text::texts(before).push(named[k as int]));
                assert(named.take(k + 1) =~= named.take(k as int).push(named[k as int]));
                assert(text::texts(errors@) =~= errors_before + named.take(k + 1));
                k = k + 1;
            }
            assert(named.take(k as int) =~= named);
            i = i + 1;
        }
        if errors.len() > 0 {
            assert(text::texts(errors@).len() > 0);
            self.status_message = Some(text::join(&errors, "; "));
        } else {
            assert(text::texts(errors@).len() == 0);
        }
    }
}

/// A refresh keeps the tabs, their order and the one that is looked at.
pub proof fn refresh_keeps_the_tabs(a: App, handed_out: App, results: Seq<RefreshResult>, b: App)
    requires
        a.wf(),
        begun(a, handed_out),
        refreshed(handed_out, results, b),
    ensures
        b.wf(),
        dashboard::tab_paths(b.tabs@) == dashboard::tab_paths(a.tabs@),
        b.active_repo == a.active_repo,
{
    assert forall|i: int| 0 <= i < a.tabs@.len() implies (#[trigger] b.tabs@[i]).path@
        == a.tabs@[i].path@ by {
        assert(handed_out.tabs@[i].path == a.tabs@[i].path);
    }
    assert(dashboard::tab_paths(b.tabs@) =~= dashboard::tab_paths(a.tabs@));
}

/// A refresh marks a repository as changed exactly where the number of its worktrees, pull
/// requests, sessions, remote branches or issues changed and nobody looks at it. It takes no
/// mark away, and the repository that is looked at gets none.
pub proof fn refresh_marks_unseen_changes(
    a: App,
    handed_out: App,
    results: Seq<RefreshResult>,
    b: App,
    i: int,
)
    requires
        begun(a, handed_out),
        refreshed(handed_out, results, b),
        0 <= i < a.tabs@.len(),
    ensures
        b.tabs@[i].state.data == results[i].data,
        b.tabs@[i].state.has_unseen_changes <==> a.tabs@[i].state.has_unseen_changes || (i
            != a.active_repo && data::counts(a.tabs@[i].state.data) != data::counts(
            b.tabs@[i].state.data,
        )),
{
    assert(emptied(a.tabs@[i], handed_out.tabs@[i]));
    assert(b.tabs@[i] == updated_tab(handed_out.tabs@[i], results[i], i == a.active_repo));
}

/// After a refresh a repository has a selection exactly where something can be selected. It is
/// one of the rows that can be selected, the table shows that row, and it is the one from before
/// where that is still there.
pub proof fn refresh_leaves_a_valid_selection(
    a: App,
    results: Seq<RefreshResult>,
    b: App,
    i: int,
)
    requires
        refreshed(a, results, b),
        0 <= i < a.tabs@.len(),
    ensures
        ({
            let r = b.tabs@[i].state;
            let rows = r.data.selectable_indices@;
            &&& r.selected_selectable_idx is None <==> rows.len() == 0
            &&& r.selected_selectable_idx matches Some(si) ==> si < rows.len() && r.table.selected
                == Some(rows[si as int])
            &&& rows.len() == 0 ==> r.table.selected is None
            &&& a.tabs@[i].state.selected_selectable_idx matches Some(si) ==> si < rows.len()
                ==> r.selected_selectable_idx == Some(si)
        }),
{
    assert(b.tabs@[i] == updated_tab(a.tabs@[i], results[i], i == a.active_repo));
}

/// A refresh in which nothing goes wrong leaves the status line alone; one in which something
/// does shows it there.
pub proof fn refresh_shows_what_went_wrong(a: App, results: Seq<RefreshResult>, b: App)
    requires
        refreshed(a, results, b),
        results.len() == a.tabs@.len(),
    ensures
        (forall|i: int| 0 <= i < results.len() ==> (#[trigger] results[i]).errors@.len() == 0)
            ==> text::opt_text(b.status_message) == text::opt_text(a.status_message),
        forall|i: int|
            0 <= i < results.len() && (#[trigger] results[i]).errors@.len() > 0
                ==> b.status_message is Some,
{
    lemma_errors_upto(a.tabs@, results, a.tabs@.len());
}

proof fn lemma_errors_upto(tabs: Seq<Tab>, results: Seq<RefreshResult>, n: nat)
    requires
        n <= results.len(),
    ensures
        errors_upto(tabs, results, n).len() == 0 <==> forall|i: int|
            0 <= i < n ==> (#[trigger] results[i]).errors@.len() == 0,
    decreases n,
{
    if n > 0 {
        lemma_errors_upto(tabs, results, (n - 1) as nat);
        let last = named_errors(tabs[n - 1], results[n - 1]);
        assert(last.len() == results[n - 1].errors@.len());
    }
}

/// A refresh marks a repository that nobody looks at and that had no mark exactly where the number
/// of its worktrees, pull requests, sessions, remote branches or issues is another one than
/// before; the repository that is looked at gets no mark, and no mark is taken away.
pub proof fn refresh_notices_every_number(
    a: App,
    handed_out: App,
    results: Seq<RefreshResult>,
    b: App,
    i: int,
)
    requires
        begun(a, handed_out),
        refreshed(handed_out, results, b),
        0 <= i < a.tabs@.len(),
    ensures
        ({
            let old_data = a.tabs@[i].state.data;
            let new_data = results[i].data;
            let had_mark = a.tabs@[i].state.has_unseen_changes;
            let has_mark = b.tabs@[i].state.has_unseen_changes;
            &&& i != a.active_repo && !had_mark ==> (has_mark <==> {
                ||| old_data.worktrees.len() != new_data.worktrees.len()
                ||| old_data.prs.len() != new_data.prs.len()
                ||| old_data.sessions.len() != new_data.sessions.len()
                ||| old_data.remote_branches.len() != new_data.remote_branches.len()
                ||| old_data.issues.len() != new_data.issues.len()
            })
            &&& i == a.active_repo ==> has_mark == had_mark
            &&& had_mark ==> has_mark
        }),
{
    assert(emptied(a.tabs@[i], handed_out.tabs@[i]));
    assert(b.tabs@[i] == updated_tab(
        handed_out.tabs@[i],
        results[i],
        i == handed_out.active_repo,
    ));
    data::snapshots_differ_with_the_numbers(a.tabs@[i].state.data, results[i].data);
}

/// A refresh brings each repository the data that was read for it, and selects a row of it: none
/// where no row can be selected, the first where none was selected, the one that was where it is
/// still there, else the last. The table shows that row, and the view moves only where nothing is
/// selected. The path stays.
pub proof fn refresh_takes_in_data_and_selects(
    a: App,
    handed_out: App,
    results: Seq<RefreshResult>,
    b: App,
    i: int,
)
    requires
        begun(a, handed_out),
        refreshed(handed_out, results, b),
        0 <= i < a.tabs@.len(),
    ensures
        ({
            let before = a.tabs@[i].state;
            let after = b.tabs@[i].state;
            let rows = results[i].data.selectable_indices@;
            &&& b.tabs@[i].path == a.tabs@[i].path
            &&& after.data == results[i].data
            &&& rows.len() == 0 ==> after.selected_selectable_idx is None
                && after.table.selected is None && after.table.offset == 0
            &&& rows.len() > 0 ==> after.table.offset == before.table.offset && (
            match before.selected_selectable_idx {
                None => after.selected_selectable_idx == Some(0usize) && after.table.selected
                    == Some(rows[0]),
                Some(si) => if si < rows.len() {
                    after.selected_selectable_idx == Some(si) && after.table.selected == Some(
                        rows[si as int],
                    )
                } else {
                    after.selected_selectable_idx matches Some(k) && k == rows.len() - 1
                        && after.table.selected == Some(rows[rows.len() - 1])
                },
            })
        }),
{
    assert(emptied(a.tabs@[i], handed_out.tabs@[i]));
    assert(b.tabs@[i] == updated_tab(
        handed_out.tabs@[i],
        results[i],
        i == handed_out.active_repo,
    ));
    assert(results[i].data.selectable_indices.len() == results[i].data.selectable_indices@.len());
}

/// Nothing but the tabs and the status line changes in a refresh.
pub proof fn refresh_changes_tabs_and_status_only(
    a: App,
    handed_out: App,
    results: Seq<RefreshResult>,
    b: App,
)
    requires
        begun(a, handed_out),
        refreshed(handed_out, results, b),
    ensures
        b.tabs@.len() == a.tabs@.len(),
        b == (App { tabs: b.tabs, status_message: b.status_message, ..a }),
        handed_out == (App { tabs: handed_out.tabs, ..a }),
{
}

/// What is handed out for a tab is its path and all that was known there; nothing is known of the
/// repository then, and its selection and its mark stay.
pub proof fn all_data_is_handed_out(a: App, job: RefreshJob, handed_out: App, i: int)
    requires
        begun(a, handed_out),
        0 <= i < a.tabs@.len(),
        hands_out(job, a.tabs@[i]),
    ensures
        job.path@ == a.tabs@[i].path@,
        job.data == a.tabs@[i].state.data,
        handed_out.tabs@[i].path == a.tabs@[i].path,
        handed_out.tabs@[i].state.table == a.tabs@[i].state.table,
        handed_out.tabs@[i].state.selected_selectable_idx
            == a.tabs@[i].state.selected_selectable_idx,
        handed_out.tabs@[i].state.has_unseen_changes == a.tabs@[i].state.has_unseen_changes,
        handed_out.tabs@[i].state.data.worktrees.len() == 0,
        handed_out.tabs@[i].state.data.prs.len() == 0,
        handed_out.tabs@[i].state.data.sessions.len() == 0,
        handed_out.tabs@[i].state.data.remote_branches.len() == 0,
        handed_out.tabs@[i].state.data.issues.len() == 0,
        handed_out.tabs@[i].state.data.table_entries.len() == 0,
        handed_out.tabs@[i].state.data.selectable_indices.len() == 0,
{
    assert(emptied(a.tabs@[i], handed_out.tabs@[i]));
}

/// How many messages there are on the first `n` repositories.
pub open spec fn messages_before(results: Seq<RefreshResult>, n: int) -> int
    decreases n,
{
    if n <= 0 {
        0
    } else {
        messages_before(results, n - 1) + results[n - 1].errors@.len()
    }
}

proof fn lemma_messages(tabs: Seq<Tab>, results: Seq<RefreshResult>, n: nat, k: int, j: int)
    ensures
        errors_upto(tabs, results, n).len() == messages_before(results, n as int),
        0 <= messages_before(results, n as int),
        0 <= k < n && 0 <= j < results[k].errors@.len() ==> {
            &&& 0 <= messages_before(results, k) + j < errors_upto(tabs, results, n).len()
            &&& errors_upto(tabs, results, n)[messages_before(results, k) + j]
                == fs_path::repo_name_of(tabs[k].path@) + ": "@ + results[k].errors@[j]@
        },
    decreases n,
{
    if n > 0 {
        let m = (n - 1) as nat;
        lemma_messages(tabs, results, m, k, j);
        let before = errors_upto(tabs, results, m);
        let own = named_errors(tabs[n - 1], results[n - 1]);
        assert(errors_upto(tabs, results, n) == before + own);
        if k == n - 1 && 0 <= j < results[k].errors@.len() {
            assert((before + own)[before.len() + j] == own[j]);
        }
    }
}

/// Whether `shown` holds the message `j` on the repository `k`, behind the name of the repository,
/// where its turn is.
pub open spec fn shown_in_turn(
    shown: Seq<Seq<char>>,
    tabs: Seq<Tab>,
    results: Seq<RefreshResult>,
    k: int,
    j: int,
) -> bool {
    &&& 0 <= messages_before(results, k) + j < shown.len()
    &&& shown[messages_before(results, k) + j] == fs_path::repo_name_of(tabs[k].path@) + ": "@
        + results[k].errors@[j]@
}

/// Whether `shown` holds every message on every repository, and nothing else: in the order of the
/// tabs, and for one repository in the order in which they came.
pub open spec fn lists_messages(
    shown: Seq<Seq<char>>,
    tabs: Seq<Tab>,
    results: Seq<RefreshResult>,
) -> bool {
    &&& shown.len() == messages_before(results, tabs.len() as int)
    &&& forall|k: int, j: int|
        0 <= k < tabs.len() && 0 <= j < results[k].errors@.len() ==> #[trigger] shown_in_turn(
            shown,
            tabs,
            results,
            k,
            j,
        )
}

/// Where something goes wrong, the status line holds every message, with semicolons between them;
/// where nothing does it stays.
pub proof fn every_message_is_shown(a: App, results: Seq<RefreshResult>, b: App)
    requires
        refreshed(a, results, b),
    ensures
        messages_before(results, a.tabs@.len() as int) == 0 ==> text::opt_text(b.status_message)
            == text::opt_text(a.status_message),
        messages_before(results, a.tabs@.len() as int) > 0 ==> b.status_message is Some && exists|
            shown: Seq<Seq<char>>,
        | #[trigger]
            lists_messages(shown, a.tabs@, results) && b.status_message->0@ == text::joined(
                shown,
                "; "@,
            ),
{
    let shown = errors_upto(a.tabs@, results, a.tabs@.len());
    lemma_messages(a.tabs@, results, a.tabs@.len(), 0, 0);
    assert forall|k: int, j: int|
        0 <= k < a.tabs@.len() && 0 <= j < results[k].errors@.len() implies #[trigger] shown_in_turn(
        shown,
        a.tabs@,
        results,
        k,
        j,
    ) by {
        lemma_messages(a.tabs@, results, a.tabs@.len(), k, j);
    }
    assert(lists_messages(shown, a.tabs@, results));
}

} // verus!
