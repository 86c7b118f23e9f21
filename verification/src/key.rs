//! Where a tape lies: a directory for each path, a file for each method.
//!
//! What identifies a tape is the request's path with its query, and its
//! method. Nothing else of the request has a part in it: neither a header
//! nor the body.

use vstd::prelude::*;
use vstd::string::StringExecFns;

verus! {

/// The name of a tape: `<folder>/<path>/<method>`.
pub open spec fn spec_recording_name(folder: Seq<char>, path: Seq<char>, method: Seq<char>) -> Seq<
    char,
> {
    folder + seq!['/'] + path + seq!['/'] + method
}

/// The name of the directory that holds a path's tapes: `<folder>/<path>`.
pub open spec fn spec_container_name(folder: Seq<char>, path: Seq<char>) -> Seq<char> {
    folder + seq!['/'] + path
}

/// The name of the tape for `path` and `method` below `folder`.
pub fn recording_name(folder: &str, path: &str, method: &str) -> (name: String)
    ensures
        name@ == spec_recording_name(folder@, path@, method@),
{
    let mut name = String::from_str(folder);
    name.append("/");
    name.append(path);
    name.append("/");
    name.append(method);
    proof {
        reveal_strlit("/");
        assert("/"@ =~= seq!['/']);
    }
    name
}

/// The name of the directory that holds the tapes for `path` below `folder`.
pub fn container_name(folder: &str, path: &str) -> (name: String)
    ensures
        name@ == spec_container_name(folder@, path@),
{
    let mut name = String::from_str(folder);
    name.append("/");
    name.append(path);
    proof {
        reveal_strlit("/");
        assert("/"@ =~= seq!['/']);
    }
    name
}

/// A tape lies in the directory of its path.
pub proof fn lemma_recording_in_container(folder: Seq<char>, path: Seq<char>, method: Seq<char>)
    ensures
        spec_recording_name(folder, path, method) == spec_container_name(folder, path) + seq!['/']
            + method,
{
}

/// Different keys have different tapes: where two names below one folder
/// are the same and neither method holds a `/`, the paths are the same and
/// the methods are the same.
pub proof fn lemma_recording_name_injective(
    folder: Seq<char>,
    path1: Seq<char>,
    method1: Seq<char>,
    path2: Seq<char>,
    method2: Seq<char>,
)
    requires
        !method1.contains('/'),
        !method2.contains('/'),
        spec_recording_name(folder, path1, method1) == spec_recording_name(folder, path2, method2),
    ensures
        path1 == path2,
        method1 == method2,
{
    let name1 = spec_recording_name(folder, path1, method1);
    let name2 = spec_recording_name(folder, path2, method2);
    let total = name1.len() as int;
    assert(total == folder.len() + 1 + path1.len() + 1 + method1.len());
    assert(total == name2.len());
    assert(total == folder.len() + 1 + path2.len() + 1 + method2.len());
    let slash1 = total - method1.len() - 1;
    let slash2 = total - method2.len() - 1;
    assert(name1[slash1] == '/');
    assert(name2[slash2] == '/');
    if method1.len() < method2.len() {
        assert(name2[slash1] == method2[slash1 - slash2 - 1]);
        assert(method2.contains('/'));
    } else if method2.len() < method1.len() {
        assert(name1[slash2] == method1[slash2 - slash1 - 1]);
        assert(method1.contains('/'));
    }
    assert(method1 =~= method2) by {
        assert forall|i: int| 0 <= i < method1.len() implies method1[i] == method2[i] by {
            assert(name1[slash1 + 1 + i] == method1[i]);
            assert(name2[slash2 + 1 + i] == method2[i]);
        }
    }
    assert(path1 =~= path2) by {
        let start = folder.len() as int + 1;
        assert forall|i: int| 0 <= i < path1.len() implies path1[i] == path2[i] by {
            assert(name1[start + i] == path1[i]);
            assert(name2[start + i] == path2[i]);
        }
    }
}

} // verus!
