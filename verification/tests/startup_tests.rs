use flotilla::fs_path::FsPath;
use flotilla::process::ProcessOutput;
use flotilla::startup::config_file_name;
use flotilla::startup::{detected_root, merge_roots, root_from_text, startup_roots, GivenRoot};

fn paths(list: &[&str]) -> Vec<FsPath> {
    list.iter().map(|s| FsPath::from_text(s)).collect()
}

fn texts(list: &[FsPath]) -> Vec<String> {
    list.iter().map(|p| p.display()).collect()
}

fn git(success: bool, stdout: &str) -> Option<ProcessOutput> {
    Some(ProcessOutput { success, stdout: stdout.as_bytes().to_vec(), stderr: Vec::new() })
}

fn given(path: &str, canonical: Option<&str>) -> GivenRoot {
    GivenRoot { given: FsPath::from_text(path), canonical: canonical.map(FsPath::from_text) }
}

#[test]
fn given_roots_come_first_and_stop_the_detection() {
    let roots = startup_roots(
        vec![given("./b", Some("/code/b")), given("/gone", None)],
        git(true, "/code/here\n"),
        paths(&["/code/a", "/code/b/", "/code/a"]),
    );
    assert_eq!(texts(&roots.unwrap()), vec!["/code/b", "/gone", "/code/a"]);
}

#[test]
fn without_given_roots_the_detected_one_comes_first() {
    let roots = startup_roots(Vec::new(), git(true, "/code/here\n"), paths(&["/code/a"]));
    assert_eq!(texts(&roots.unwrap()), vec!["/code/here", "/code/a"]);
}

#[test]
fn remembered_roots_are_enough() {
    let roots = startup_roots(Vec::new(), git(false, "fatal"), paths(&["/a", "/b"]));
    assert_eq!(texts(&roots.unwrap()), vec!["/a", "/b"]);
    let roots = startup_roots(Vec::new(), None, paths(&["/a"]));
    assert_eq!(texts(&roots.unwrap()), vec!["/a"]);
}

#[test]
fn it_is_an_error_to_have_no_root() {
    let roots = startup_roots(Vec::new(), git(false, "/x"), Vec::new());
    assert!(matches!(
        roots,
        Err(e) if e == "Error: no git repositories found (use --repo-root to specify)"
    ));
}

#[test]
fn given_roots_are_kept_as_they_are() {
    let roots = startup_roots(vec![given("/a", None), given("/a/", None)], None, Vec::new());
    assert_eq!(texts(&roots.unwrap()), vec!["/a", "/a/"]);
}

#[test]
fn merging_knows_every_path_once() {
    let mut roots = paths(&["/b", "/a"]);
    merge_roots(&mut roots, paths(&["/a/.", "/c", "/c/", "c"]));
    assert_eq!(texts(&roots), vec!["/b", "/a", "/c", "c"]);
}

#[test]
fn git_prints_the_root() {
    assert_eq!(root_from_text(" /code/x \n").display(), "/code/x");
    assert_eq!(detected_root(git(true, "/code/x\n")).unwrap().display(), "/code/x");
    assert!(detected_root(git(false, "/code/x\n")).is_none());
    assert!(detected_root(None).is_none());
}

#[test]
fn repositories_are_remembered_under_their_path() {
    let name = |s: &str| config_file_name(&FsPath::from_text(s)).display();
    assert_eq!(name("/Users/robert/dev/scratch"), "users-robert-dev-scratch.toml");
    assert_eq!(name("a//B/"), "a--b-.toml");
    assert_eq!(name("/"), ".toml");
    assert_eq!(name(""), ".toml");
}
