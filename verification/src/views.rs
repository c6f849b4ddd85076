//! What values stand for in contracts: texts, paths and sequences of them.

use vstd::prelude::*;

use crate::fs_path::FsPath;

verus! {

/// The views of the elements of a sequence.
pub open spec fn views<T: View>(s: Seq<T>) -> Seq<T::V> {
    Seq::new(s.len(), |i: int| s[i]@)
}

/// The texts of string slices.
pub open spec fn slices(s: Seq<&str>) -> Seq<Seq<char>> {
    Seq::new(s.len(), |i: int| s[i]@)
}

/// The texts that a result holds.
pub open spec fn text_result(r: Result<String, String>) -> Result<Seq<char>, Seq<char>> {
    match r {
        Ok(s) => Ok(s@),
        Err(e) => Err(e@),
    }
}

/// A result without a value, by the text of its error.
pub open spec fn unit_result(r: Result<(), String>) -> Result<(), Seq<char>> {
    match r {
        Ok(()) => Ok(()),
        Err(e) => Err(e@),
    }
}

/// The bytes of an optional path.
pub open spec fn opt_path(o: Option<FsPath>) -> Option<Seq<u8>> {
    match o {
        Some(p) => Some(p@),
        None => None,
    }
}

/// A result that holds a path, by its bytes.
pub open spec fn path_result(r: Result<FsPath, String>) -> Result<Seq<u8>, Seq<char>> {
    match r {
        Ok(p) => Ok(p@),
        Err(e) => Err(e@),
    }
}

/// The views of a sequence are those of its elements, one for each and in their order.
pub proof fn views_follow_the_elements<T: View>(s: Seq<T>, i: int)
    requires
        0 <= i < s.len(),
    ensures
        views(s).len() == s.len(),
        views(s)[i] == s[i]@,
{
}

/// The texts of string slices are those of the slices, one for each and in their order.
pub proof fn slices_follow_the_elements(s: Seq<&str>, i: int)
    requires
        0 <= i < s.len(),
    ensures
        slices(s).len() == s.len(),
        slices(s)[i] == s[i]@,
{
}

/// Results and optional values are told apart as they are, and by what they hold.
pub proof fn results_keep_what_they_hold(
    t: Result<String, String>,
    u: Result<(), String>,
    o: Option<FsPath>,
    p: Result<FsPath, String>,
)
    ensures
        t matches Ok(s) ==> text_result(t) == Ok::<Seq<char>, Seq<char>>(s@),
        t matches Err(e) ==> text_result(t) == Err::<Seq<char>, Seq<char>>(e@),
        u is Ok ==> unit_result(u) == Ok::<(), Seq<char>>(()),
        u matches Err(e) ==> unit_result(u) == Err::<(), Seq<char>>(e@),
        o matches Some(f) ==> opt_path(o) == Some(f@),
        o is None ==> opt_path(o) is None,
        p matches Ok(f) ==> path_result(p) == Ok::<Seq<u8>, Seq<char>>(f@),
        p matches Err(e) ==> path_result(p) == Err::<Seq<u8>, Seq<char>>(e@),
{
}

} // verus!
