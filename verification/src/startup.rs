//! Which repositories the dashboard opens with.

use vstd::prelude::*;

use crate::fs_path;
use crate::fs_path::FsPath;
use crate::process::ProcessOutput;
use crate::text;
use crate::views;

verus! {

/// A repository root from the command line: as it was given, and as the file system resolved it,
/// if it did.
#[derive(Debug)]
pub struct GivenRoot {
    pub given: FsPath,
    pub canonical: Option<FsPath>,
}

/// The path that a root from the command line stands for.
pub open spec fn root_path(r: GivenRoot) -> Seq<u8> {
    match r.canonical {
        Some(p) => p@,
        None => r.given@,
    }
}

/// The paths that the roots from the command line stand for.
pub open spec fn root_paths(rs: Seq<GivenRoot>) -> Seq<Seq<u8>> {
    Seq::new(rs.len(), |i: int| root_path(rs[i]))
}

/// The root that git printed, if it ran and succeeded.
pub open spec fn detected_root_of(run: Option<ProcessOutput>) -> Option<Seq<u8>> {
    match run {
        Some(out) => if out.success {
            Some(printed_root(text::decoded(out.stdout@)))
        } else {
            None
        },
        None => None,
    }
}

/// The root that a text printed by git names.
pub open spec fn printed_root(printed: Seq<char>) -> Seq<u8> {
    vstd::utf8::encode_utf8(text::trimmed(printed))
}

/// Whether one of `paths` is the same path as `p`.
pub open spec fn known(paths: Seq<Seq<u8>>, p: Seq<u8>) -> bool {
    exists|i: int| 0 <= i < paths.len() && fs_path::same(#[trigger] paths[i], p)
}

/// `paths`, followed by those of `more` that are not known when their turn comes.
pub open spec fn merged(paths: Seq<Seq<u8>>, more: Seq<Seq<u8>>) -> Seq<Seq<u8>>
    decreases more.len(),
{
    if more.len() == 0 {
        paths
    } else {
        let before = merged(paths, more.drop_last());
        if known(before, more.last()) {
            before
        } else {
            before.push(more.last())
        }
    }
}

/// The roots to begin with: those from the command line, or the detected one if there are none.
pub open spec fn first_roots(given: Seq<GivenRoot>, run: Option<ProcessOutput>) -> Seq<Seq<u8>> {
    if given.len() > 0 {
        root_paths(given)
    } else {
        match detected_root_of(run) {
            Some(p) => seq![p],
            None => Seq::empty(),
        }
    }
}

/// Whether one of `paths` is the same path as `p`.
pub fn is_known(paths: &Vec<FsPath>, p: &FsPath) -> (b: bool)
    ensures
        b == known(views::views(paths@), p@),
{
    let mut i: usize = 0;
    while i < paths.len()
        invariant
            i <= paths@.len(),
            forall|j: int|
                0 <= j < i ==> !fs_path::same(#[trigger] views::views(paths@)[j], p@),
        decreases paths@.len() - i,
    {
        if paths[i].same_as(p) {
            assert(fs_path::same(views::views(paths@)[i as int], p@));
            return true;
        }
        i = i + 1;
    }
    false
}

/// The root that a text printed by git names.
pub fn root_from_text(printed: &str) -> (p: FsPath)
    ensures
        p@ == printed_root(printed@),
{
    FsPath::from_text(text::trim(printed).as_str())
}

/// The root that git printed, if it ran and succeeded.
pub fn detected_root(run: Option<ProcessOutput>) -> (r: Option<FsPath>)
    ensures
        views::opt_path(r) == detected_root_of(run),
{
    match run {
        Some(out) => if out.success {
            let printed = text::decode(out.stdout.as_slice());
            Some(root_from_text(printed.as_str()))
        } else {
            None
        },
        None => None,
    }
}

/// Appends to `roots` the paths of `more` that are not known yet.
pub fn merge_roots(roots: &mut Vec<FsPath>, more: Vec<FsPath>)
    ensures
        views::views(final(roots)@) == merged(
            views::views(old(roots)@),
            views::views(more@),
        ),
{
    let ghost start = views::views(roots@);
    let ghost all = views::views(more@);
    let mut i: usize = 0;
    assert(all.take(0) =~= Seq::<Seq<u8>>::empty());
    while i < more.len()
        invariant
            i <= more@.len(),
            all == views::views(more@),
            views::views(roots@) == merged(start, all.take(i as int)),
        decreases more@.len() - i,
    {
        let ghost before = views::views(roots@);
        assert(all.take(i + 1).drop_last() =~= all.take(i as int));
        assert(all.take(i + 1).last() == more@[i as int]@);
        if !is_known(roots, &more[i]) {
            roots.push(more[i].clone());
            assert(views::views(roots@) =~= before.push(more@[i as int]@));
        }
        i = i + 1;
    }
    assert(all.take(i as int) =~= all);
}

/// The repositories to open and to remember: those from the command line, or else the one that
/// git detects around the working directory; then those remembered from before that are not
/// among them. It is an error if there are none.
pub fn startup_roots(
    given: Vec<GivenRoot>,
    run: Option<ProcessOutput>,
    persisted: Vec<FsPath>,
) -> (r: Result<Vec<FsPath>, String>)
    ensures
        ({
            let roots = merged(first_roots(given@, run), views::views(persisted@));
            match r {
                Ok(paths) => roots.len() > 0 && views::views(paths@) == roots,
                Err(e) => roots.len() == 0 && e@
                    == "Error: no git repositories found (use --repo-root to specify)"@,
            }
        }),
{
    let mut roots: Vec<FsPath> = Vec::new();
    let mut i: usize = 0;
    assert(views::views(roots@) =~= root_paths(given@).take(0));
    while i < given.len()
        invariant
            i <= given@.len(),
            views::views(roots@) == root_paths(given@).take(i as int),
        decreases given@.len() - i,
    {
        let ghost before = views::views(roots@);
        let root = match &given[i].canonical {
            Some(p) => p.clone(),
            None => given[i].given.clone(),
        };
        roots.push(root);
        assert(views::views(roots@) =~= before.push(root_path(given@[i as int])));
        assert(root_paths(given@).take(i + 1) =~= before.push(root_path(given@[i as int])));
        i = i + 1;
    }
    assert(root_paths(given@).take(i as int) =~= root_paths(given@));
    if roots.len() == 0 {
        if let Some(root) = detected_root(run) {
            roots.push(root);
        }
    }
    assert(views::views(roots@) =~= first_roots(given@, run));
    merge_roots(&mut roots, persisted);
    assert(views::views(roots@).len() == roots@.len());
    if roots.len() == 0 {
        Err("Error: no git repositories found (use --repo-root to specify)".to_owned())
    } else {
        Ok(roots)
    }
}

/// The byte that a byte of a path becomes in the name of a file.
pub open spec fn slug_byte(b: u8) -> u8 {
    if b == fs_path::slash() {
        0x2d
    } else if 0x41 <= b <= 0x5a {
        (b + 0x20) as u8
    } else {
        b
    }
}

/// A path as a part of the name of a file: in lower case, with a dash for each separator but a
/// leading one.
pub open spec fn slug_of(p: Seq<u8>) -> Seq<u8> {
    if p.len() > 0 && p[0] == fs_path::slash() {
        p.skip(1).map_values(|b: u8| slug_byte(b))
    } else {
        p.map_values(|b: u8| slug_byte(b))
    }
}

/// The name of the file that a repository is remembered in, such as
/// `users-robert-dev-scratch.toml` for `/Users/robert/dev/scratch`.
pub fn config_file_name(path: &FsPath) -> (name: FsPath)
    ensures
        name@ == slug_of(path@) + vstd::utf8::encode_utf8(".toml"@),
{
    let bytes = path.as_bytes();
    let mut out: Vec<u8> = Vec::new();
    let start: usize = if bytes.len() > 0 && bytes[0] == 0x2f {
        1
    } else {
        0
    };
    let mut i: usize = start;
    while i < bytes.len()
        invariant
            start <= i <= bytes@.len(),
            out@ == bytes@.subrange(start as int, i as int).map_values(|b: u8| slug_byte(b)),
        decreases bytes@.len() - i,
    {
        let b: u8 = bytes[i];
        let c: u8 = if b == 0x2f {
            0x2d
        } else if b >= 0x41 && b <= 0x5a {
            b + 0x20
        } else {
            b
        };
        out.push(c);
        assert(out@ =~= bytes@.subrange(start as int, i + 1).map_values(|b: u8| slug_byte(b)));
        i = i + 1;
    }
    assert(out@ =~= slug_of(path@));
    let ending = FsPath::from_text(".toml");
    let tail = ending.as_bytes();
    let mut k: usize = 0;
    while k < tail.len()
        invariant
            k <= tail@.len(),
            out@ == slug_of(path@) + tail@.take(k as int),
        decreases tail@.len() - k,
    {
        out.push(tail[k]);
        assert(out@ =~= slug_of(path@) + tail@.take(k + 1));
        k = k + 1;
    }
    assert(tail@.take(k as int) =~= tail@);
    FsPath::from_bytes(out)
}

/// Merging keeps what was there first, in its order, before anything that it adds.
pub proof fn merged_begins_with_the_first(paths: Seq<Seq<u8>>, more: Seq<Seq<u8>>)
    ensures
        merged(paths, more).len() >= paths.len(),
        merged(paths, more).take(paths.len() as int) == paths,
    decreases more.len(),
{
    if more.len() > 0 {
        merged_begins_with_the_first(paths, more.drop_last());
        let before = merged(paths, more.drop_last());
        assert(before.push(more.last()).take(paths.len() as int) =~= before.take(
            paths.len() as int,
        ));
    } else {
        assert(paths.take(paths.len() as int) =~= paths);
    }
}

/// Merging leaves no path out: each one is known afterwards.
pub proof fn merged_knows_every_path(paths: Seq<Seq<u8>>, more: Seq<Seq<u8>>, p: Seq<u8>)
    requires
        known(paths, p) || known(more, p),
    ensures
        known(merged(paths, more), p),
    decreases more.len(),
{
    if more.len() == 0 {
    } else {
        let rest = more.drop_last();
        let before = merged(paths, rest);
        let after = merged(paths, more);
        if known(paths, p) || known(rest, p) {
            merged_knows_every_path(paths, rest, p);
            let i = choose|i: int| 0 <= i < before.len() && fs_path::same(#[trigger] before[i], p);
            assert(after[i] == before[i]);
        } else {
            let j = choose|j: int| 0 <= j < more.len() && fs_path::same(#[trigger] more[j], p);
            assert(j == more.len() - 1) by {
                if j < more.len() - 1 {
                    assert(rest[j] == more[j]);
                }
            }
            if known(before, more.last()) {
                let i = choose|i: int|
                    0 <= i < before.len() && fs_path::same(#[trigger] before[i], more.last());
                assert(fs_path::same(after[i], p));
            } else {
                assert(after[before.len() as int] == more.last());
                assert(fs_path::same(after[before.len() as int], p));
            }
        }
    }
}

/// Merging adds no path twice: what it adds differs from every path before it.
pub proof fn merged_adds_no_path_twice(paths: Seq<Seq<u8>>, more: Seq<Seq<u8>>, i: int, j: int)
    requires
        0 <= i < j < merged(paths, more).len(),
        paths.len() <= j,
    ensures
        !fs_path::same(merged(paths, more)[i], merged(paths, more)[j]),
    decreases more.len(),
{
    merged_begins_with_the_first(paths, more);
    if more.len() > 0 {
        let before = merged(paths, more.drop_last());
        if j < before.len() {
            merged_adds_no_path_twice(paths, more.drop_last(), i, j);
            assert(merged(paths, more)[i] == before[i]);
            assert(merged(paths, more)[j] == before[j]);
        } else {
            assert(!known(before, more.last()));
            assert(merged(paths, more)[i] == before[i]);
            assert(merged(paths, more)[j] == more.last());
        }
    }
}

/// Every path that merging yields was among those merged.
pub proof fn merged_invents_no_path(paths: Seq<Seq<u8>>, more: Seq<Seq<u8>>, i: int)
    requires
        0 <= i < merged(paths, more).len(),
    ensures
        paths.contains(merged(paths, more)[i]) || more.contains(merged(paths, more)[i]),
    decreases more.len(),
{
    if more.len() > 0 {
        let before = merged(paths, more.drop_last());
        if i < before.len() {
            merged_invents_no_path(paths, more.drop_last(), i);
            assert(merged(paths, more)[i] == before[i]);
            if more.drop_last().contains(before[i]) {
                let k = choose|k: int|
                    0 <= k < more.drop_last().len() && more.drop_last()[k] == before[i];
                assert(more[k] == before[i]);
            }
        } else {
            assert(more[more.len() - 1] == merged(paths, more)[i]);
        }
    } else {
        assert(paths[i] == merged(paths, more)[i]);
    }
}

/// No repository is found only where none was given, none was detected and none was remembered.
pub proof fn no_roots_only_without_any(
    given: Seq<GivenRoot>,
    run: Option<ProcessOutput>,
    persisted: Seq<Seq<u8>>,
)
    ensures
        merged(first_roots(given, run), persisted).len() == 0 <==> given.len() == 0
            && detected_root_of(run) is None && persisted.len() == 0,
{
    merged_begins_with_the_first(first_roots(given, run), persisted);
    if persisted.len() > 0 {
        assert(fs_path::same(persisted[0], persisted[0]));
        assert(known(persisted, persisted[0]));
        merged_knows_every_path(first_roots(given, run), persisted, persisted[0]);
    }
}

/// A path is known exactly where one of the paths is the same.
pub proof fn known_paths_are_the_same_as_one(paths: Seq<Seq<u8>>, p: Seq<u8>)
    ensures
        known(paths, p) <==> exists|i: int|
            0 <= i < paths.len() && fs_path::same(#[trigger] paths[i], p),
{
}

/// Merging takes the paths in their order: what the first `n` of them yield stays where it is when
/// the others follow.
pub proof fn merged_keeps_the_order(paths: Seq<Seq<u8>>, more: Seq<Seq<u8>>, n: int)
    requires
        0 <= n <= more.len(),
    ensures
        merged(paths, more.take(n)).is_prefix_of(merged(paths, more)),
    decreases more.len(),
{
    if n == more.len() {
        assert(more.take(n) =~= more);
    } else {
        merged_keeps_the_order(paths, more.drop_last(), n);
        assert(more.drop_last().take(n) =~= more.take(n));
    }
}

/// Where roots are given on the command line, the repositories begin with exactly those, in their
/// order, each as the file system resolved it or else as it was given; what git printed makes no
/// difference.
pub proof fn given_roots_come_first(
    given: Seq<GivenRoot>,
    run: Option<ProcessOutput>,
    other_run: Option<ProcessOutput>,
    persisted: Seq<Seq<u8>>,
)
    requires
        given.len() > 0,
    ensures
        ({
            let roots = merged(first_roots(given, run), persisted);
            &&& roots.len() >= given.len()
            &&& forall|i: int|
                #![trigger given[i]]
                0 <= i < given.len() ==> roots[i] == match given[i].canonical {
                    Some(p) => p@,
                    None => given[i].given@,
                }
            &&& roots == merged(first_roots(given, other_run), persisted)
        }),
{
    let first = first_roots(given, run);
    let roots = merged(first, persisted);
    merged_begins_with_the_first(first, persisted);
    assert forall|i: int| #![trigger given[i]] 0 <= i < given.len() implies roots[i]
        == match given[i].canonical {
        Some(p) => p@,
        None => given[i].given@,
    } by {
        assert(roots.take(first.len() as int)[i] == first[i]);
    }
}

/// Without roots on the command line, the repositories begin with the one that git printed, without
/// the white space around it, where git ran and succeeded; else they are the remembered ones
/// alone. They are never more than there are sources for.
pub proof fn without_given_roots_git_decides(
    run: Option<ProcessOutput>,
    persisted: Seq<Seq<u8>>,
)
    ensures
        ({
            let roots = merged(first_roots(Seq::empty(), run), persisted);
            &&& (run matches Some(out) && out.success) ==> roots.len() >= 1 && roots[0]
                == vstd::utf8::encode_utf8(text::trimmed(text::decoded(run->0.stdout@)))
            &&& !(run matches Some(out) && out.success) ==> roots == merged(
                Seq::empty(),
                persisted,
            )
        }),
{
    let first = first_roots(Seq::empty(), run);
    merged_begins_with_the_first(first, persisted);
    if run matches Some(out) && out.success {
        assert(merged(first, persisted).take(1)[0] == first[0]);
    }
}

/// The remembered repositories that are not among the others follow them: each one is there, none
/// twice, in the order in which they are remembered.
pub proof fn remembered_roots_follow(first: Seq<Seq<u8>>, persisted: Seq<Seq<u8>>, i: int)
    requires
        0 <= i < persisted.len(),
    ensures
        ({
            let before = merged(first, persisted.take(i));
            let after = merged(first, persisted.take(i + 1));
            &&& (exists|k: int| 0 <= k < before.len() && fs_path::same(
                #[trigger] before[k],
                persisted[i],
            )) ==> after == before
            &&& !(exists|k: int| 0 <= k < before.len() && fs_path::same(
                #[trigger] before[k],
                persisted[i],
            )) ==> after == before.push(persisted[i])
            &&& after.is_prefix_of(merged(first, persisted))
        }),
{
    assert(persisted.take(i + 1).drop_last() =~= persisted.take(i));
    assert(persisted.take(i + 1).last() == persisted[i]);
    merged_keeps_the_order(first, persisted, i + 1);
}

/// The name of a repository's file has a byte for each byte of the path but a leading slash: a
/// dash for a slash, the small letter for a capital one, and every other byte as it is.
pub proof fn file_names_follow_the_path(p: Seq<u8>)
    ensures
        ({
            let start: int = if p.len() > 0 && p[0] == 0x2f {
                1
            } else {
                0
            };
            &&& slug_of(p).len() == p.len() - start
            &&& forall|i: int|
                #![trigger slug_of(p)[i]]
                0 <= i < p.len() - start ==> {
                    let b = p[i + start];
                    &&& b == 0x2f ==> slug_of(p)[i] == 0x2d
                    &&& 0x41 <= b <= 0x5a ==> slug_of(p)[i] == b + 0x20
                    &&& b != 0x2f && !(0x41 <= b <= 0x5a) ==> slug_of(p)[i] == b
                }
        }),
{
}

} // verus!
