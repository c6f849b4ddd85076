use flotilla::discovery::{detect_providers, register_found, remote_host, Evidence, RemoteHost};
use flotilla::discovery::{AI_UTILITY, CMUX, CODING_AGENT, GIT, GITHUB_ISSUES, GITHUB_REVIEW};
use flotilla::discovery::{GIT_WORKTREE, JJ, TMUX, WT, ZELLIJ};
use flotilla::fs_path::FsPath;
use flotilla::overrides::{apply_overrides, configured_providers, Overrides};
use flotilla::registry::{register, ProviderRegistry};

fn is_empty(r: &ProviderRegistry) -> bool {
    r.vcs.is_empty()
        && r.checkout_managers.is_empty()
        && r.code_review.is_empty()
        && r.issue_trackers.is_empty()
        && r.coding_agents.is_empty()
        && r.ai_utilities.is_empty()
        && r.workspace_manager.is_none()
}

fn nothing() -> Evidence {
    Evidence {
        git_dir: false,
        jj_dir: false,
        wt: false,
        remote: None,
        gh: false,
        agent: None,
        cmux_session: false,
        cmux: false,
        zellij_session: false,
        tmux_session: false,
    }
}

fn detect(e: &Evidence) -> ProviderRegistry {
    detect_providers(&FsPath::from_text("/code/x"), e)
}

#[test]
fn registries_start_out_empty() {
    assert!(is_empty(&ProviderRegistry::new()));
    assert!(is_empty(&ProviderRegistry::default()));
    assert!(is_empty(&detect(&nothing())));
}

#[test]
fn registered_names_keep_their_place() {
    let mut r = ProviderRegistry::new();
    register(&mut r.vcs, "git", 1);
    register(&mut r.vcs, "jj", 2);
    register(&mut r.vcs, "git", 3);
    let entries: Vec<(String, u64)> = r.vcs.iter().map(|(k, v)| (k.clone(), *v)).collect();
    assert_eq!(entries, vec![("git".to_string(), 3), ("jj".to_string(), 2)]);
    assert_eq!(r.vcs.get("jj"), Some(&2));
}

#[test]
fn nothing_found_leaves_the_registry_empty() {
    let mut r = ProviderRegistry::new();
    register_found(&mut r, &nothing());
    assert!(is_empty(&r));
    let odd = Evidence { wt: true, remote: Some(b"https://github.com/a/b".to_vec()), ..nothing() };
    register_found(&mut r, &odd);
    assert!(is_empty(&r));
}

#[test]
fn what_is_found_is_detected() {
    let r = detect(&Evidence {
        git_dir: true,
        wt: true,
        remote: Some(b"git@github.com:a/b.git\n".to_vec()),
        gh: true,
        agent: Some("helper".to_string()),
        cmux: true,
        ..nothing()
    });
    assert_eq!(r.vcs.get("git"), Some(&GIT));
    assert_eq!(r.checkout_managers.get("git"), Some(&WT));
    assert_eq!(r.code_review.get("github"), Some(&GITHUB_REVIEW));
    assert_eq!(r.issue_trackers.get("github"), Some(&GITHUB_ISSUES));
    assert_eq!(r.coding_agents.get("helper"), Some(&CODING_AGENT));
    assert_eq!(r.ai_utilities.get("helper"), Some(&AI_UTILITY));
    assert_eq!(r.workspace_manager, Some(("cmux".to_string(), CMUX)));
}

#[test]
fn addresses_tell_the_host() {
    assert_eq!(remote_host("https://github.com/a/b\n"), Some(RemoteHost::GitHub));
    assert_eq!(remote_host("git@gitlab.example.org:a/b"), Some(RemoteHost::GitLab));
    assert_eq!(remote_host("/srv/git/a"), None);
}

#[test]
fn version_control_is_git_or_jujutsu() {
    let r = detect(&Evidence { git_dir: true, jj_dir: true, ..nothing() });
    assert_eq!(r.vcs.keys().collect::<Vec<_>>(), vec!["git", "jj"]);
    assert_eq!(r.checkout_managers.get("git"), Some(&GIT_WORKTREE));
    let r = detect(&Evidence { jj_dir: true, wt: true, ..nothing() });
    assert_eq!(r.vcs.get("jj"), Some(&JJ));
    assert!(r.vcs.len() == 1 && r.checkout_managers.is_empty());
}

#[test]
fn workspace_managers_are_told_by_the_environment() {
    let manager = |e: Evidence| detect(&e).workspace_manager;
    let cmux = Some(("cmux".to_string(), CMUX));
    let zellij = Some(("zellij".to_string(), ZELLIJ));
    let tmux = Some(("tmux".to_string(), TMUX));
    assert_eq!(manager(Evidence { cmux_session: true, tmux_session: true, ..nothing() }), cmux);
    assert_eq!(manager(Evidence { zellij_session: true, tmux_session: true, ..nothing() }), zellij);
    assert_eq!(manager(Evidence { tmux_session: true, ..nothing() }), tmux);
    assert_eq!(manager(nothing()), None);
}

#[test]
fn github_needs_a_tool_and_a_remote_there() {
    let github = Some(b"https://github.com/a/b".to_vec());
    assert!(detect(&Evidence { remote: github.clone(), ..nothing() }).code_review.is_empty());
    let elsewhere = Some(b"https://gitlab.com/a/b".to_vec());
    assert!(detect(&Evidence { remote: elsewhere, gh: true, ..nothing() }).code_review.is_empty());
    assert_eq!(detect(&Evidence { remote: github, gh: true, ..nothing() }).issue_trackers.len(), 1);
}

fn no_overrides() -> Overrides {
    Overrides {
        vcs: Vec::new(),
        checkout_managers: Vec::new(),
        code_review: Vec::new(),
        issue_trackers: Vec::new(),
        coding_agents: Vec::new(),
        ai_utilities: Vec::new(),
        workspace_manager: None,
    }
}

#[test]
fn overrides_win_over_what_is_detected() {
    let e = Evidence { git_dir: true, cmux: true, ..nothing() };
    let o = Overrides {
        checkout_managers: vec![("git".to_string(), WT)],
        issue_trackers: vec![("linear".to_string(), 20), ("linear".to_string(), 21)],
        workspace_manager: Some(("tmux".to_string(), TMUX)),
        ..no_overrides()
    };
    let r = configured_providers(&FsPath::from_text("/code/x"), &e, &o);
    assert_eq!(r.vcs.get("git"), Some(&GIT));
    assert_eq!(r.checkout_managers.get("git"), Some(&WT));
    assert_eq!(r.issue_trackers.get("linear"), Some(&21));
    assert_eq!(r.workspace_manager, Some(("tmux".to_string(), TMUX)));
}

#[test]
fn without_overrides_what_is_detected_stays() {
    let mut r = detect(&Evidence { git_dir: true, cmux: true, ..nothing() });
    apply_overrides(&mut r, &no_overrides());
    assert_eq!(r.checkout_managers.get("git"), Some(&GIT_WORKTREE));
    assert_eq!(r.workspace_manager, Some(("cmux".to_string(), CMUX)));
}
