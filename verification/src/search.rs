//! Search-path resolution: which candidate `<dir>/<name>` the ordered
//! directory list selects.  Probing the filesystem is the environment's
//! part; it reports for each directory whether the candidate exists, and
//! the choice of the first hit is made — and verified — here.

use vstd::prelude::*;

use vstd::string::StringExecFns;

verus! {

/// The candidate path of a file in a directory.
pub open spec fn spec_candidate(dir: Seq<char>, file: Seq<char>) -> Seq<char> {
    dir + "/"@ + file
}

/// The candidate path of a file in a directory.
pub fn candidate_path(dir: &str, file: &str) -> (r: String)
    ensures
        r@ == spec_candidate(dir@, file@),
{
    String::from_str(dir).concat("/").concat(file)
}

/// The position of the first hit in the probe answers, if any.
pub open spec fn first_hit(exists: Seq<bool>) -> Option<int>
    decreases exists.len(),
{
    if exists.len() == 0 {
        None
    } else if exists[0] {
        Some(0)
    } else {
        match first_hit(exists.skip(1)) {
            Some(i) => Some(i + 1),
            None => None,
        }
    }
}

/// Resolves a file name against the search path: `dirs` is the ordered
/// directory list and `exists[i]` the environment's answer whether the
/// candidate `dirs[i]/file` exists.  The candidate of the first hit is
/// returned, and nothing when no directory has one.
pub fn file_on_path(file: &str, dirs: &Vec<String>, exists: &Vec<bool>) -> (r: Option<String>)
    requires
        dirs@.len() == exists@.len(),
    ensures
        match first_hit(exists@) {
            Some(i) => r matches Some(p) && p@ == spec_candidate(dirs.deep_view()[i], file@),
            None => r is None,
        },
{
    let ghost all = exists@;
    let mut i: usize = 0;
    proof {
        assert(all.skip(0) =~= all);
    }
    while i < dirs.len()
        invariant
            i <= dirs@.len(),
            dirs@.len() == all.len(),
            all == exists@,
            dirs.deep_view().len() == dirs@.len(),
            forall|j: int| 0 <= j < i ==> !all[j],
            first_hit(all) == first_hit_from(all, i as int),
        decreases dirs@.len() - i,
    {
        if exists[i] {
            proof {
                assert(all.skip(i as int)[0] == all[i as int]);
            }
            let p = candidate_path(dirs[i].as_str(), file);
            return Some(p);
        }
        proof {
            assert(all.skip(i as int)[0] == all[i as int]);
            assert(all.skip(i as int).skip(1) =~= all.skip(i + 1 as int));
        }
        i += 1;
    }
    proof {
        assert(all.skip(all.len() as int) =~= Seq::<bool>::empty());
    }
    None
}

/// The first hit at or after position `i`, counted from the front.
spec fn first_hit_from(exists: Seq<bool>, i: int) -> Option<int>
    recommends
        0 <= i <= exists.len(),
{
    match first_hit(exists.skip(i)) {
        Some(k) => Some(k + i),
        None => None,
    }
}

} // verus!
