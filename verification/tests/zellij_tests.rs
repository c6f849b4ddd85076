use flotilla::process::ProcessOutput;
use flotilla::fs_path::FsPath;
use flotilla::places::{config_place, config_place_in};
use flotilla::workspace::CorrelationKey;
use flotilla::zellij::{TabState, ZellijState, ZellijWorkspaceManager as Zellij};

fn ran(success: bool, stdout: &str, stderr: &str) -> Result<ProcessOutput, String> {
    Ok(ProcessOutput {
        success,
        stdout: stdout.as_bytes().to_vec(),
        stderr: stderr.as_bytes().to_vec(),
    })
}

fn state() -> ZellijState {
    let mut s = ZellijState::default();
    s.insert(
        "feat-x".to_string(),
        TabState { working_directory: "/code/feat-x".to_string(), created_at: "now".to_string() },
    );
    s
}

fn version(s: &str) -> Result<(), String> {
    Zellij::check_version(Ok(s.as_bytes().to_vec()))
}

#[test]
fn versions_from_0_40_are_accepted() {
    assert_eq!(version("zellij 0.42.2\n"), Ok(()));
    assert_eq!(version("zellij 0.40"), Ok(()));
    assert_eq!(version("zellij 0.40.0"), Ok(()));
    assert_eq!(version("zellij 1.0.0"), Ok(()));
    assert_eq!(version("zellij 1.2.3.4"), Ok(()));
    assert_eq!(
        version("zellij 0.39.9"),
        Err("zellij >= 0.40 required, found 0.39.9".to_string())
    );
    assert_eq!(version("zellij 0.0"), Err("zellij >= 0.40 required, found 0.0".to_string()));
}

#[test]
fn other_version_output_is_refused() {
    assert_eq!(
        version("  screen 4.9 \n"),
        Err("unexpected zellij version output: screen 4.9".to_string())
    );
    assert_eq!(version("zellij"), Err("unexpected zellij version output: zellij".to_string()));
    assert_eq!(version("zellij 42"), Err("cannot parse zellij version: 42".to_string()));
    assert_eq!(version("zellij v0.42"), Err("invalid major version: v0".to_string()));
    assert_eq!(version("zellij 0.x"), Err("invalid minor version: x".to_string()));
    assert_eq!(version("zellij 0..1"), Err("invalid minor version: ".to_string()));
    assert_eq!(
        Zellij::check_version(Err("no such file".to_string())),
        Err("failed to run zellij --version: no such file".to_string())
    );
    assert_eq!(
        Zellij::check_version(Ok(vec![0xff])),
        Err("unexpected zellij version output: \u{fffd}".to_string())
    );
}

#[test]
fn version_text_is_judged_alone() {
    assert_eq!(Zellij::check_version_text("zellij 0.42.2"), Ok(()));
    assert!(Zellij::check_version_text("zellij 0.4").is_err());
}

#[test]
fn actions_return_what_was_printed() {
    assert_eq!(
        Zellij::zellij_action(&["query-tab-names"], ran(true, " a\nb \n", "noise")),
        Ok("a\nb".to_string())
    );
}

#[test]
fn failed_actions_quote_what_was_printed() {
    assert_eq!(
        Zellij::zellij_action(&["go-to-tab-name", "x"], ran(false, "out", " err\n")),
        Err("zellij action go-to-tab-name failed: err".to_string())
    );
    assert_eq!(
        Zellij::zellij_action(&["go-to-tab-name", "x"], ran(false, "out\n", " \n")),
        Err("zellij action go-to-tab-name failed: out".to_string())
    );
    assert_eq!(
        Zellij::zellij_action(&[], ran(false, "", "")),
        Err("zellij action  failed: ".to_string())
    );
    assert_eq!(
        Zellij::zellij_action(&["x"], Err("not found".to_string())),
        Err("failed to run zellij action: not found".to_string())
    );
    assert_eq!(
        Zellij::action_reply(&["x"], false, "o", "e"),
        Err("zellij action x failed: e".to_string())
    );
}

#[test]
fn actions_are_run_as_subcommands() {
    assert_eq!(Zellij::action_command(&["query-tab-names"]), vec!["action", "query-tab-names"]);
    assert_eq!(Zellij::action_command(&[]), vec!["action"]);
}

#[test]
fn sessions_are_named_by_the_environment() {
    assert_eq!(Zellij::session_name(Some("main".to_string())), Ok("main".to_string()));
    assert_eq!(
        Zellij::session_name(None),
        Err("not running inside a zellij session (ZELLIJ_SESSION_NAME not set)".to_string())
    );
}

#[test]
fn sessions_are_remembered_below_the_config_directory() {
    let file = |session: &str| {
        let dir = Some(FsPath::from_text("/home/me/.config"));
        String::from_utf8(Zellij::state_path_in(dir, session).unwrap().as_bytes().to_vec()).unwrap()
    };
    assert_eq!(file("main"), "/home/me/.config/flotilla/zellij/main/state.toml");
    assert_eq!(file("/etc"), "/home/me/.config/flotilla/zellij/etc/state.toml");
    assert_eq!(file("//a/b"), "/home/me/.config/flotilla/zellij/a/b/state.toml");
    assert_eq!(file("/"), file(""));
    assert_eq!(file(""), "/home/me/.config/flotilla/zellij/state.toml");
    assert_ne!(file("a"), file("b"));
    assert!(matches!(
        Zellij::state_path_in(None, "main"),
        Err(e) if e == "could not determine config directory"
    ));
}

#[test]
fn the_config_directory_is_the_users() {
    match (Zellij::state_path("main"), dirs::config_dir()) {
        (Ok(p), Some(dir)) => {
            let expected = dir.join("flotilla").join("zellij").join("main").join("state.toml");
            assert_eq!(p.as_bytes(), expected.to_str().unwrap().as_bytes());
        },
        (Err(e), None) => assert_eq!(e, "could not determine config directory"),
        _ => panic!("one of the two found a directory"),
    }
}

#[test]
fn configuration_is_kept_in_dot_config() {
    let place = |config: Option<&str>, home: Option<&str>| {
        config_place_in(config.map(FsPath::from_text), home.map(FsPath::from_text))
    };
    let robert = Some("/Users/robert");
    let support = place(Some("/Users/robert/Library/Application Support"), robert);
    let file = Zellij::state_path_in(support, "main").unwrap();
    assert_eq!(file.as_bytes(), b"/Users/robert/.config/flotilla/zellij/main/state.toml");
    let plain = place(Some("/Users/robert/.config"), robert).unwrap();
    assert_eq!(plain.as_bytes(), b"/Users/robert/.config");
    assert_eq!(place(Some("/xdg"), robert).unwrap().as_bytes(), b"/xdg");
    assert_eq!(place(Some("/xdg"), None).unwrap().as_bytes(), b"/xdg");
    assert!(place(None, robert).is_none());
}

#[test]
fn the_home_directory_is_the_users() {
    let expected = dirs::config_dir().map(|dir| {
        match dirs::home_dir() {
            Some(home) if dir == home.join("Library/Application Support") => home.join(".config"),
            _ => dir,
        }
    });
    let found = config_place().map(|p| p.as_bytes().to_vec());
    assert_eq!(found, expected.map(|p| p.to_str().unwrap().as_bytes().to_vec()));
}

#[test]
fn unreadable_state_is_empty() {
    assert!(Zellij::load_state(Ok(state())).get("feat-x").is_some());
    assert!(Zellij::load_state(Err("gone".to_string())).get("feat-x").is_none());
}

#[test]
fn remembered_tabs_are_replaced_by_name() {
    let mut s = state();
    s.insert(
        "feat-x".to_string(),
        TabState { working_directory: "/new".to_string(), created_at: String::new() },
    );
    assert_eq!(s.get("feat-x").unwrap().working_directory, "/new");
    assert!(s.get("other").is_none());
    s.insert(
        "other".to_string(),
        TabState { working_directory: "/o".to_string(), created_at: String::new() },
    );
    let names: Vec<&str> = s.tabs().iter().map(|(name, _)| name.as_str()).collect();
    assert_eq!(names, vec!["feat-x", "other"]);
    assert_eq!(s.tabs()[0].1.working_directory, "/new");
}

#[test]
fn every_tab_is_a_workspace() {
    let list = Zellij::list_workspaces(Ok("main\n\nfeat-x\r\nmain".to_string()), Ok(state()));
    let list = list.unwrap();
    let names: Vec<&str> = list.iter().map(|w| w.name.as_str()).collect();
    assert_eq!(names, vec!["main", "feat-x", "main"]);
    for w in &list {
        assert_eq!(w.ws_ref, w.name);
        assert_eq!(w.directories.len(), w.correlation_keys.len());
    }
    assert!(list[0].directories.is_empty());
    assert_eq!(list[1].directories[0].as_bytes(), b"/code/feat-x");
    let CorrelationKey::CheckoutPath(p) = &list[1].correlation_keys[0];
    assert_eq!(p.as_bytes(), b"/code/feat-x");
}

#[test]
fn tabs_are_listed_without_state_too() {
    let list = Zellij::list_workspaces(Ok("feat-x".to_string()), Err("no session".to_string()));
    assert!(list.unwrap()[0].directories.is_empty());
    assert!(Zellij::workspaces_from("", &state()).is_empty());
}

#[test]
fn a_failed_list_is_an_error() {
    let list = Zellij::list_workspaces(Err("boom".to_string()), Ok(state()));
    assert!(matches!(list, Err(e) if e == "boom"));
}

#[test]
fn selecting_a_listed_workspace_goes_to_its_tab() {
    let list = Zellij::workspaces_from("one\ntwo", &state());
    assert_eq!(Zellij::select_request(&list[1].ws_ref), vec!["go-to-tab-name", "two"]);
    assert_eq!(Zellij::list_request(), vec!["query-tab-names"]);
    assert_eq!(Zellij::select_workspace(Ok("ignored".to_string())), Ok(()));
    assert_eq!(Zellij::select_workspace(Err("no".to_string())), Err("no".to_string()));
}

#[test]
fn the_manager_has_a_name() {
    assert_eq!(Zellij::new().display_name(), "zellij Workspaces");
    assert_eq!(Zellij::default().display_name(), "zellij Workspaces");
}
