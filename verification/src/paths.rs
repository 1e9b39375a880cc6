use vstd::prelude::*;
use vstd::string::*;

use crate::text::{contains, has_substring, remove_occurrences, without};

verus! {

/// The directory that holds the join-and-compute checkout, below the
/// directory the service was started in.
pub open spec fn project_dir_spec(root: Seq<char>) -> Seq<char> {
    root + "/private-join-and-compute"@
}

/// The directory that holds the sanction lists: the working directory with
/// every `private-join-and-compute` taken out, followed by `sanction-lists/`.
pub open spec fn sanctions_dir_spec(cwd: Seq<char>) -> Seq<char> {
    without(cwd, "private-join-and-compute"@) + "sanction-lists/"@
}

/// The directory to change into at start-up.
pub fn project_dir(root: &str) -> (r: String)
    ensures
        r@ == project_dir_spec(root@),
{
    let mut r = String::from_str(root);
    r.append("/private-join-and-compute");
    r
}

/// The directory in which the sanction lists are looked up.
pub fn sanctions_dir(cwd: &str) -> (r: String)
    ensures
        r@ == sanctions_dir_spec(cwd@),
{
    proof {
        reveal_strlit("private-join-and-compute");
    }
    let mut r = remove_occurrences(cwd, "private-join-and-compute");
    r.append("sanction-lists/");
    r
}

/// The first of `paths` whose text contains `file_name`, or `None` when none
/// does.
pub fn find_path(paths: &Vec<String>, file_name: &str) -> (r: Option<String>)
    ensures
        match r {
            Some(p) => exists|i: int|
                0 <= i < paths.len() && contains(paths[i]@, file_name@) && p@ == paths[i]@ && forall|
                    j: int,
                | 0 <= j < i ==> !contains(#[trigger] paths[j]@, file_name@),
            None => forall|i: int| 0 <= i < paths.len() ==> !contains(#[trigger] paths[i]@, file_name@),
        },
{
    let mut i: usize = 0;
    while i < paths.len()
        invariant
            i <= paths.len(),
            forall|j: int| 0 <= j < i ==> !contains(#[trigger] paths[j]@, file_name@),
        decreases paths.len() - i,
    {
        if has_substring(paths[i].as_str(), file_name) {
            let p = paths[i].clone();
            assert(contains(paths[i as int]@, file_name@));
            return Some(p);
        }
        i = i + 1;
    }
    None
}

} // verus!
