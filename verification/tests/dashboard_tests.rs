use flotilla::action::{fallback_branch_name, Effect, PendingAction, Reply, Stage};
use flotilla::dashboard::{App, Area, DeleteConfirmInfo, InputLine, InputMode};
use flotilla::data::{DataStore, Issue, PullRequest, RepoState, Session, Snapshot, TableEntry};
use flotilla::data::{TableSelection, WorkItem, Worktree};
use flotilla::event::{Event, KeyCode, Response};
use flotilla::fs_path::FsPath;
use flotilla::refresh::RefreshResult;
use flotilla::startup::{startup_roots, GivenRoot};

fn path(s: &str) -> FsPath {
    FsPath::from_text(s)
}

fn app(roots: &[&str]) -> App {
    App::new(roots.iter().map(|s| path(s)).collect(), "agent".to_string())
}

fn paths(a: &App) -> Vec<String> {
    a.tabs.iter().map(|t| t.path.display()).collect()
}

fn sample() -> DataStore {
    DataStore {
        worktrees: vec![Worktree { path: path("/wt/x"), branch: "feat-x".to_string() }],
        prs: vec![PullRequest { number: 5 }],
        sessions: vec![Session { id: "s1".to_string() }],
        remote_branches: vec!["main".to_string()],
        issues: vec![
            Issue { number: 7, title: "bug".to_string() },
            Issue { number: 12, title: "idea".to_string() },
        ],
        table_entries: vec![
            TableEntry::Header,
            TableEntry::Item(WorkItem {
                branch: Some("feat-x".to_string()),
                worktree_idx: Some(0),
                pr_idx: Some(0),
            }),
            TableEntry::Item(WorkItem { branch: None, worktree_idx: Some(9), pr_idx: None }),
        ],
        selectable_indices: vec![1, 2, 0, 99],
    }
}

fn loaded() -> App {
    let mut a = app(&["/repo"]);
    a.tabs[0].state.data = sample();
    a
}

fn rows(n: usize) -> DataStore {
    DataStore { selectable_indices: (10..10 + n).collect(), ..DataStore::default() }
}

fn refresh(a: &mut App, data: Vec<DataStore>, errors: Vec<Vec<&str>>) {
    let jobs = a.begin_refresh();
    let results = jobs
        .into_iter()
        .zip(data)
        .zip(errors)
        .map(|((_, data), errors)| RefreshResult {
            data,
            errors: errors.iter().map(|e| e.to_string()).collect(),
        })
        .collect();
    a.finish_refresh(results);
}

#[test]
fn a_dashboard_has_a_tab_per_repository() {
    let a = app(&["/b", "/a", "/b/", "/c"]);
    assert_eq!(paths(&a), vec!["/b", "/a", "/c"]);
    assert_eq!(a.active_repo, 0);
    assert_eq!(a.active_repo_root().display(), "/b");
    assert_eq!(a.input_mode, InputMode::Normal);
    assert!(a.status_message.is_none() && !a.should_quit);
}

#[test]
fn snapshots_count_what_there_is() {
    let mut r = RepoState::new();
    r.data = sample();
    let expected =
        Snapshot { worktrees: 1, prs: 1, sessions: 1, remote_branches: 1, issues: 2 };
    assert_eq!(r.data_snapshot(), expected);
}

#[test]
fn selecting_nothing_goes_to_the_top() {
    let mut t = TableSelection { offset: 4, selected: Some(7) };
    t.select(Some(3));
    assert_eq!(t, TableSelection { offset: 4, selected: Some(3) });
    t.select(None);
    assert_eq!(t, TableSelection { offset: 0, selected: None });
}

#[test]
fn a_refresh_marks_changes_where_nobody_looks() {
    let mut a = app(&["/a", "/b", "/c"]);
    refresh(&mut a, vec![sample(), sample(), DataStore::default()], vec![vec![], vec![], vec![]]);
    let marks: Vec<bool> = a.tabs.iter().map(|t| t.state.has_unseen_changes).collect();
    assert_eq!(marks, vec![false, true, false]);
    refresh(&mut a, vec![sample(), sample(), sample()], vec![vec![], vec![], vec![]]);
    let marks: Vec<bool> = a.tabs.iter().map(|t| t.state.has_unseen_changes).collect();
    assert_eq!(marks, vec![false, true, true]);
    assert_eq!(paths(&a), vec!["/a", "/b", "/c"]);
    a.switch_tab(1);
    assert_eq!(a.active_repo, 1);
    assert!(!a.tabs[1].state.has_unseen_changes && a.tabs[2].state.has_unseen_changes);
}

#[test]
fn refreshing_hands_the_data_out() {
    let mut a = loaded();
    let jobs = a.begin_refresh();
    assert_eq!(jobs.len(), 1);
    assert_eq!(jobs[0].path.display(), "/repo");
    assert_eq!(jobs[0].data.issues.len(), 2);
    assert_eq!(a.tabs[0].state.before.issues, 2);
    assert!(a.tabs[0].state.data.issues.is_empty());
}

#[test]
fn a_refresh_keeps_the_selection_as_far_as_it_can() {
    let mut a = app(&["/a"]);
    let selection = |a: &App| {
        (a.tabs[0].state.selected_selectable_idx, a.tabs[0].state.table.selected)
    };
    refresh(&mut a, vec![rows(3)], vec![vec![]]);
    assert_eq!(selection(&a), (Some(0), Some(10)));
    a.tabs[0].state.selected_selectable_idx = Some(2);
    refresh(&mut a, vec![rows(3)], vec![vec![]]);
    assert_eq!(selection(&a), (Some(2), Some(12)));
    refresh(&mut a, vec![rows(2)], vec![vec![]]);
    assert_eq!(selection(&a), (Some(1), Some(11)));
    refresh(&mut a, vec![rows(0)], vec![vec![]]);
    assert_eq!(selection(&a), (None, None));
}

#[test]
fn a_refresh_shows_what_went_wrong() {
    let mut a = app(&["/dev/scratch", "/dev/other"]);
    let blank = || vec![DataStore::default(), DataStore::default()];
    a.status_message = Some("before".to_string());
    refresh(&mut a, blank(), vec![vec![], vec![]]);
    assert_eq!(a.status_message.as_deref(), Some("before"));
    refresh(&mut a, blank(), vec![vec!["sessions: token expired", "prs: x"], vec!["y"]]);
    assert_eq!(
        a.status_message.as_deref(),
        Some("scratch: sessions: token expired; scratch: prs: x; other: y")
    );
}

#[test]
fn the_r_key_refreshes_unless_something_is_open() {
    let r = Event::Key(KeyCode::Char('r'));
    let mut a = app(&["/a"]);
    assert_eq!(a.on_event(r), Response::Refresh);
    assert_eq!(a.on_event(Event::Key(KeyCode::Char('q'))), Response::HandleKey);
    assert_eq!(a.on_event(Event::Key(KeyCode::Other)), Response::HandleKey);
    a.show_help = true;
    assert_eq!(a.on_event(r), Response::HandleKey);
    a.show_help = false;
    a.show_action_menu = true;
    assert_eq!(a.on_event(r), Response::HandleKey);
    a.show_action_menu = false;
    a.show_delete_confirm = true;
    assert_eq!(a.on_event(r), Response::HandleKey);
    a.show_delete_confirm = false;
    a.input_mode = InputMode::BranchName;
    assert_eq!(a.on_event(r), Response::HandleKey);
}

#[test]
fn time_refreshes_every_ten_seconds() {
    let mut a = app(&["/a"]);
    assert_eq!(a.on_event(Event::Tick { elapsed: 9 }), Response::Handled);
    assert_eq!(a.on_event(Event::Tick { elapsed: 10 }), Response::Refresh);
}

#[test]
fn clicks_reach_the_first_tab_drawn_there() {
    let mut a = app(&["/a", "/b"]);
    a.tab_areas = vec![
        Area { x: 10, y: 0, width: 5, height: 1 },
        Area { x: 14, y: 0, width: 5, height: 1 },
        Area { x: 30, y: 0, width: 5, height: 1 },
    ];
    a.tabs[1].state.has_unseen_changes = true;
    let click = |column: u16| Event::Mouse { left_down: true, column, row: 0 };
    assert_eq!(a.on_event(click(9)), Response::HandleMouse);
    assert_eq!(a.on_event(click(15)), Response::Handled);
    assert_eq!(a.active_repo, 1);
    assert!(!a.tabs[1].state.has_unseen_changes);
    assert_eq!(a.on_event(click(14)), Response::Handled);
    assert_eq!(a.active_repo, 0);
    assert_eq!(a.on_event(click(19)), Response::HandleMouse);
    assert_eq!(a.on_event(click(30)), Response::Handled);
    assert_eq!(a.active_repo, 0);
    let move_over = Event::Mouse { left_down: false, column: 15, row: 0 };
    assert_eq!(a.on_event(move_over), Response::HandleMouse);
    assert_eq!(a.active_repo, 0);
}

#[test]
fn areas_hold_their_cells() {
    let area = Area { x: 65530, y: 2, width: 10, height: 2 };
    assert!(area.contains(65530, 2) && area.contains(65535, 3));
    assert!(!area.contains(65529, 2) && !area.contains(65530, 4) && !area.contains(65530, 1));
    assert!(!Area { x: 1, y: 1, width: 0, height: 1 }.contains(1, 1));
}

#[test]
fn the_add_button_offers_the_directory_around() {
    let mut a = app(&["/code/proj"]);
    a.add_tab_area = Area { x: 40, y: 0, width: 3, height: 1 };
    a.dir_entries = vec!["old".to_string()];
    a.dir_selected = 3;
    let e = Event::Mouse { left_down: true, column: 41, row: 0 };
    assert_eq!(a.on_event(e), Response::ListDirectory);
    assert_eq!(a.input_mode, InputMode::AddRepo);
    assert_eq!((a.input.value.as_str(), a.input.cursor), ("/code/", 6));
    assert!(a.dir_entries.is_empty() && a.dir_selected == 0);
    let mut root = app(&["/"]);
    root.add_tab_area = a.add_tab_area;
    root.input = InputLine::from_text("x".to_string());
    assert_eq!(root.on_event(e), Response::ListDirectory);
    assert_eq!((root.input.value.as_str(), root.input.cursor), ("", 0));
}

#[test]
fn nothing_pending_changes_nothing() {
    let mut a = loaded();
    a.status_message = Some("kept".to_string());
    a.pending_action = PendingAction::OpenPr(1);
    assert!(matches!(a.take_pending_action(), PendingAction::OpenPr(1)));
    assert!(matches!(a.take_pending_action(), PendingAction::Nothing));
    assert!(matches!(a.begin(PendingAction::Nothing), (Stage::Over, Effect::Done)));
    assert_eq!(a.status_message.as_deref(), Some("kept"));
}

#[test]
fn worktrees_are_opened_as_workspaces() {
    let mut a = loaded();
    a.status_message = Some("old".to_string());
    let (stage, effect) = a.begin(PendingAction::SwitchWorktree(0));
    assert!(a.status_message.is_none());
    match effect {
        Effect::CreateWorkspace { template_root, directory, command, name } => {
            assert_eq!(template_root.display(), "/repo");
            assert_eq!(directory.display(), "/wt/x");
            assert_eq!((command.as_str(), name.as_str()), ("agent", "feat-x"));
        },
        _ => panic!("a workspace is opened"),
    }
    assert!(stage.accepts(&Reply::Finished) && !stage.accepts(&Reply::Branch(String::new())));
    let end = a.resume(stage, Reply::Failed("no cmux".to_string()));
    assert!(matches!(end, (Stage::Over, Effect::Refresh)));
    assert_eq!(a.status_message.as_deref(), Some("no cmux"));
    assert!(matches!(a.begin(PendingAction::SwitchWorktree(1)), (Stage::Over, Effect::Done)));
}

#[test]
fn workspaces_are_selected_by_their_handle() {
    let mut a = loaded();
    let (stage, effect) = a.begin(PendingAction::SelectWorkspace("ws:1".to_string()));
    assert!(matches!(effect, Effect::SelectWorkspace { ws_ref } if ws_ref == "ws:1"));
    let end = a.resume(stage, Reply::Finished);
    assert!(matches!(end, (Stage::Over, Effect::Done)));
    assert!(a.status_message.is_none());
    let (stage, _) = a.begin(PendingAction::SelectWorkspace("ws:2".to_string()));
    a.resume(stage, Reply::Failed("gone".to_string()));
    assert_eq!(a.status_message.as_deref(), Some("gone"));
}

#[test]
fn removals_are_prepared_and_confirmed_once() {
    let mut a = loaded();
    a.delete_confirm_loading = true;
    let (stage, effect) = a.begin(PendingAction::FetchDeleteInfo(0));
    match effect {
        Effect::FetchDeleteInfo { branch, worktree, pr_number, repo } => {
            assert_eq!(branch, "feat-x");
            assert_eq!(worktree.unwrap().display(), "/wt/x");
            assert_eq!(pr_number, Some(5));
            assert_eq!(repo.display(), "/repo");
        },
        _ => panic!("information is fetched"),
    }
    let info = DeleteConfirmInfo {
        branch: "feat-x".to_string(),
        uncommitted: vec!["?? new.rs".to_string()],
        pr_status: Some("OPEN".to_string()),
    };
    assert!(matches!(a.resume(stage, Reply::DeleteInfo(info)), (Stage::Over, Effect::Done)));
    assert!(!a.delete_confirm_loading && a.delete_confirm_info.is_some());
    let (stage, effect) = a.begin(PendingAction::ConfirmDelete);
    assert!(matches!(effect, Effect::RemoveWorktree { branch, .. } if branch == "feat-x"));
    assert!(matches!(a.resume(stage, Reply::Finished), (Stage::Over, Effect::Refresh)));
    assert!(matches!(a.begin(PendingAction::ConfirmDelete), (Stage::Over, Effect::Done)));
}

#[test]
fn rows_without_work_prepare_no_removal() {
    let mut a = loaded();
    let (_, effect) = a.begin(PendingAction::FetchDeleteInfo(1));
    match effect {
        Effect::FetchDeleteInfo { branch, worktree, pr_number, .. } => {
            assert!(branch.is_empty() && worktree.is_none() && pr_number.is_none());
        },
        _ => panic!("information is fetched"),
    }
    for si in [2, 3, 4] {
        let first = a.begin(PendingAction::FetchDeleteInfo(si));
        assert!(matches!(first, (Stage::Over, Effect::Done)));
    }
}

#[test]
fn browsers_are_opened_without_a_fuss() {
    let mut a = loaded();
    let (stage, effect) = a.begin(PendingAction::OpenPr(5));
    assert!(matches!(effect, Effect::OpenPr { number: 5, .. }));
    let end = a.resume(stage, Reply::Failed("no browser".to_string()));
    assert!(matches!(end, (Stage::Over, Effect::Done)));
    assert!(a.status_message.is_none());
    let (_, effect) = a.begin(PendingAction::OpenIssueBrowser(-3));
    assert!(matches!(effect, Effect::OpenIssue { number: -3, .. }));
}

#[test]
fn new_worktrees_are_opened_too() {
    let mut a = loaded();
    let (stage, effect) = a.begin(PendingAction::CreateWorktree("feat-y".to_string()));
    assert!(matches!(effect, Effect::CreateWorktree { branch, .. } if branch == "feat-y"));
    let (stage, effect) = a.resume(stage, Reply::Worktree(path("/wt/y")));
    match effect {
        Effect::CreateWorkspace { directory, command, name, .. } => {
            assert_eq!(directory.display(), "/wt/y");
            assert_eq!((command.as_str(), name.as_str()), ("agent", "feat-y"));
        },
        _ => panic!("a workspace is opened"),
    }
    assert!(matches!(a.resume(stage, Reply::Finished), (Stage::Over, Effect::Refresh)));
    let (stage, _) = a.begin(PendingAction::CreateWorktree("feat-z".to_string()));
    let end = a.resume(stage, Reply::Failed("exists".to_string()));
    assert!(matches!(end, (Stage::Over, Effect::Refresh)));
    assert_eq!(a.status_message.as_deref(), Some("exists"));
}

#[test]
fn sessions_are_archived_by_id() {
    let mut a = loaded();
    let (stage, effect) = a.begin(PendingAction::ArchiveSession(0));
    assert!(matches!(effect, Effect::ArchiveSession { session_id } if session_id == "s1"));
    let end = a.resume(stage, Reply::Failed("offline".to_string()));
    assert!(matches!(end, (Stage::Over, Effect::Refresh)));
    assert_eq!(a.status_message.as_deref(), Some("offline"));
    assert!(matches!(a.begin(PendingAction::ArchiveSession(1)), (Stage::Over, Effect::Done)));
}

fn teleport(branch: Option<&str>, worktree_idx: Option<usize>) -> PendingAction {
    PendingAction::TeleportSession {
        session_id: "s1".to_string(),
        branch: branch.map(|b| b.to_string()),
        worktree_idx,
    }
}

#[test]
fn teleporting_uses_the_worktree_there_is() {
    let mut a = loaded();
    match a.begin(teleport(None, Some(0))).1 {
        Effect::CreateWorkspace { directory, command, name, .. } => {
            assert_eq!(directory.display(), "/wt/x");
            assert_eq!((command.as_str(), name.as_str()), ("agent --teleport s1", "session"));
        },
        _ => panic!("a workspace is opened"),
    }
    assert!(matches!(a.begin(teleport(Some("b"), Some(7))), (Stage::Over, Effect::Refresh)));
    assert!(matches!(a.begin(teleport(None, None)), (Stage::Over, Effect::Refresh)));
}

#[test]
fn teleporting_makes_a_worktree_for_a_branch() {
    let mut a = loaded();
    let (stage, effect) = a.begin(teleport(Some("b"), None));
    assert!(matches!(effect, Effect::CreateWorktree { branch, .. } if branch == "b"));
    match a.resume(stage, Reply::Worktree(path("/wt/b"))).1 {
        Effect::CreateWorkspace { directory, command, name, .. } => {
            assert_eq!(directory.display(), "/wt/b");
            assert_eq!((command.as_str(), name.as_str()), ("agent --teleport s1", "b"));
        },
        _ => panic!("a workspace is opened"),
    }
    let (stage, _) = a.begin(teleport(Some("b"), None));
    let end = a.resume(stage, Reply::Failed("exists".to_string()));
    assert!(matches!(end, (Stage::Over, Effect::Refresh)));
    assert!(a.status_message.is_none());
}

#[test]
fn branch_names_fall_back_on_the_issues() {
    let mut a = loaded();
    let (stage, effect) = a.begin(PendingAction::GenerateBranchName(vec![1, 5, 0]));
    match effect {
        Effect::NameBranch { issues, repo } => {
            assert_eq!(issues, vec![(12, "idea".to_string()), (7, "bug".to_string())]);
            assert_eq!(repo.display(), "/repo");
        },
        _ => panic!("a name is asked for"),
    }
    match a.resume(stage, Reply::Failed("no agent".to_string())) {
        (Stage::Over, Effect::PrefillBranch { name }) => assert_eq!(name, "issue-12-issue-7"),
        _ => panic!("a name is offered"),
    }
    assert!(a.status_message.is_none());
    let (stage, _) = a.begin(PendingAction::GenerateBranchName(vec![0]));
    match a.resume(stage, Reply::Branch("fix-bug".to_string())) {
        (Stage::Over, Effect::PrefillBranch { name }) => assert_eq!(name, "fix-bug"),
        _ => panic!("a name is offered"),
    }
    assert_eq!(fallback_branch_name(&Vec::new()), "");
    assert_eq!(fallback_branch_name(&vec![(-4, String::new())]), "issue--4");
}

#[test]
fn added_repositories_get_the_last_tab() {
    let mut a = app(&["/a"]);
    let (stage, effect) = a.begin(PendingAction::AddRepo(path("/b")));
    assert!(matches!(effect, Effect::SaveRepo { path } if path.display() == "/b"));
    assert_eq!(paths(&a), vec!["/a"]);
    assert!(matches!(a.resume(stage, Reply::Finished), (Stage::Over, Effect::Refresh)));
    assert_eq!(paths(&a), vec!["/a", "/b"]);
    assert_eq!(a.active_repo, 1);
    assert!(a.has_repo(&path("/a/")) && !a.has_repo(&path("/c")));
    let (stage, _) = a.begin(PendingAction::AddRepo(path("/a/.")));
    a.resume(stage, Reply::Finished);
    assert_eq!(paths(&a), vec!["/a", "/b"]);
    assert_eq!(a.active_repo, 1);
}

#[test]
fn tabs_that_are_not_there_cannot_be_looked_at() {
    let mut a = app(&["/a", "/b"]);
    a.switch_tab(2);
    assert_eq!(a.active_repo, 0);
    a.switch_tab(1);
    assert_eq!(a.active_repo, 1);
}

#[test]
fn a_dashboard_without_a_tab_to_look_at_is_not_valid() {
    let mut a = app(&["/a", "/b"]);
    assert!(a.is_valid());
    a.active_repo = 2;
    assert!(!a.is_valid());
    a.active_repo = 0;
    a.tabs[1].path = path("/a/.");
    assert!(!a.is_valid());
}

#[test]
fn the_first_given_repository_is_looked_at() {
    let given = vec![
        GivenRoot { given: path("/z"), canonical: None },
        GivenRoot { given: path("/y"), canonical: None },
    ];
    let roots = startup_roots(given, None, vec![path("/a"), path("/y")]).unwrap();
    let a = App::new(roots, "agent".to_string());
    assert_eq!(a.active_repo_root().display(), "/z");
    assert_eq!(paths(&a), vec!["/z", "/y", "/a"]);
}

#[test]
fn branch_names_are_offered_for_editing() {
    let mut a = app(&["/a"]);
    a.status_message = Some("kept".to_string());
    a.prefill_branch("issue-7".to_string());
    assert_eq!(a.input_mode, InputMode::BranchName);
    assert_eq!((a.input.value.as_str(), a.input.cursor), ("issue-7", 7));
    assert_eq!(a.status_message.as_deref(), Some("kept"));
}
