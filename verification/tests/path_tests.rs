use flotilla::fs_path::FsPath;
use std::path::Path;

const PATHS: [&str; 34] = [
    "", "/", "//", ".", "./", "..", "a", "a/", "./a", "a/.", "a/./b", "a//b", "a/b", "a/b/", "/a",
    "/a/", "//a", "/./a", "/a/b", "/a//b", "/a/./b", "/a/b/.", "/a/b/..", "/a/../b", "a/..", "../a",
    "./.", "/.", "/..", "./..", "...", "/a/.b", ".a", "a/b/c/d",
];

fn path(s: &str) -> FsPath {
    FsPath::from_text(s)
}

fn text(p: &FsPath) -> String {
    String::from_utf8(p.as_bytes().to_vec()).unwrap()
}

#[test]
fn paths_are_the_same_by_their_components() {
    for a in PATHS {
        for b in PATHS {
            assert_eq!(path(a).same_as(&path(b)), Path::new(a) == Path::new(b), "{:?} {:?}", a, b);
        }
    }
}

#[test]
fn being_the_same_is_an_equivalence() {
    let (a, b, c) = (path("/a/b"), path("/a//b"), path("/a/./b/"));
    assert!(a.same_as(&a));
    assert!(a.same_as(&b) && b.same_as(&a));
    assert!(b.same_as(&c) && a.same_as(&c));
    assert!(!a.same_as(&path("a/b")));
}

#[test]
fn parents_drop_the_last_component() {
    for s in PATHS {
        let expected = Path::new(s).parent().map(|p| p.to_str().unwrap().to_string());
        assert_eq!(path(s).parent().map(|p| text(&p)), expected, "{:?}", s);
    }
}

#[test]
fn joining_looks_up_from_the_base() {
    for a in PATHS {
        for b in PATHS {
            let expected = Path::new(a).join(b);
            assert_eq!(text(&path(a).join(&path(b))), expected.to_str().unwrap());
        }
    }
}

#[test]
fn a_joined_name_is_the_last_component() {
    let p = path("/config/").join(&path("flotilla"));
    assert_eq!(text(&p), "/config/flotilla");
    assert_eq!(text(&p.parent().unwrap()), "/config");
    assert_eq!(p.repo_name(), "flotilla");
}

#[test]
fn repositories_are_named_by_their_last_component() {
    assert_eq!(path("/Users/robert/dev/scratch").repo_name(), "scratch");
    assert_eq!(path("/Users/robert/dev/scratch/").repo_name(), "scratch");
    assert_eq!(path("/").repo_name(), "/");
    assert_eq!(path("/a/..").repo_name(), "/a/..");
    assert_eq!(path(".").repo_name(), ".");
    assert_eq!(path("").repo_name(), "");
}

#[test]
fn paths_need_not_be_text() {
    let p = FsPath::from_bytes(vec![0x2f, 0xff, 0x2f, 0x61]);
    assert_eq!(p.as_bytes(), &[0x2f, 0xff, 0x2f, 0x61]);
    assert_eq!(p.display(), "/\u{fffd}/a");
    assert_eq!(p.parent().unwrap().as_bytes(), &[0x2f, 0xff]);
    assert!(p.same_as(&p.clone()));
}

#[test]
fn relative_paths_do_not_start_at_the_root() {
    for s in PATHS {
        let relative = path(s).relative();
        assert_eq!(text(&relative), s.trim_start_matches('/'));
        let looked_up = path("/base").join(&relative);
        assert!(Path::new(&text(&looked_up)).starts_with("/base"));
    }
}
