//! Planning an interface-definition build: from the given definition file
//! paths, the distinct directories they reside in, which a build tool
//! passes as include roots. Running the build tool itself is the
//! surrounding program's work.

use vstd::prelude::*;

verus! {

/// Where a path's directory part ends: just after the last `/`, or the
/// start when the path has none.
pub open spec fn spec_dir_end(s: Seq<char>, j: int) -> int
    decreases j,
{
    if j <= 0 {
        0
    } else if s[j - 1] == '/' {
        j - 1
    } else {
        spec_dir_end(s, j - 1)
    }
}

/// The directory a path resides in: everything before the last `/`, or
/// the empty path when there is none.
pub open spec fn spec_parent_dir(s: Seq<char>) -> Seq<char> {
    s.subrange(0, spec_dir_end(s, s.len() as int))
}

/// The directory part of one path.
pub fn parent_dir(path: &str) -> (r: &str)
    ensures
        r@ == spec_parent_dir(path@),
{
    let n = path.unicode_len();
    let ghost s = path@;
    let mut j: usize = n;
    while j > 0
        invariant
            0 <= j <= n,
            n == s.len(),
            s == path@,
            spec_dir_end(s, n as int) == spec_dir_end(s, j as int),
        decreases j,
    {
        if path.get_char(j - 1) == '/' {
            proof {
                assert(spec_dir_end(s, j as int) == j - 1);
            }
            return path.substring_char(0, j - 1);
        }
        j -= 1;
    }
    proof {
        assert(spec_dir_end(s, 0) == 0);
        assert(path@.subrange(0, 0) =~= Seq::<char>::empty());
    }
    path.substring_char(0, 0)
}

/// Whether a string with this content is already among the collected
/// directories.
fn contains_string(dirs: &Vec<String>, d: &String) -> (r: bool)
    ensures
        r == (exists|i: int| 0 <= i < dirs@.len() && #[trigger] dirs@[i]@ == d@),
{
    let mut i: usize = 0;
    while i < dirs.len()
        invariant
            i <= dirs@.len(),
            forall|j: int| 0 <= j < i ==> #[trigger] dirs@[j]@ != d@,
        decreases dirs@.len() - i,
    {
        if dirs[i] == *d {
            proof {
                assert(dirs@[i as int]@ == d@);
            }
            return true;
        }
        i += 1;
    }
    false
}

/// Whether `d` is the parent directory of one of the given files.
pub open spec fn spec_is_some_parent(protos: Seq<String>, d: Seq<char>) -> bool {
    exists|j: int| 0 <= j < protos.len() && d == spec_parent_dir(#[trigger] protos[j]@)
}

/// Whether the collected directories hold one with this content.
pub open spec fn spec_has_dir(dirs: Seq<String>, d: Seq<char>) -> bool {
    exists|a: int| 0 <= a < dirs.len() && #[trigger] dirs[a]@ == d
}

/// The collected directories are exactly the files' parent directories,
/// each exactly once.
pub open spec fn spec_include_dirs_ok(protos: Seq<String>, dirs: Seq<String>) -> bool {
    &&& forall|a: int, b: int| 0 <= a < b < dirs.len() ==> dirs[a]@ != dirs[b]@
    &&& forall|a: int| 0 <= a < dirs.len() ==> spec_is_some_parent(protos, #[trigger] dirs[a]@)
    &&& forall|j: int|
        0 <= j < protos.len() ==> spec_has_dir(dirs, spec_parent_dir(#[trigger] protos[j]@))
}

/// Plan the build of the given interface-definition files: collect the
/// distinct directories the files reside in, each once, in first-use
/// order. A build tool passes the files and these directories on.
pub fn compile_protos(protos: &Vec<String>) -> (r: Vec<String>)
    ensures
        spec_include_dirs_ok(protos@, r@),
{
    let mut dirs: Vec<String> = Vec::new();
    let mut i: usize = 0;
    while i < protos.len()
        invariant
            i <= protos@.len(),
            forall|a: int, b: int| 0 <= a < b < dirs@.len() ==> dirs@[a]@ != dirs@[b]@,
            forall|a: int|
                0 <= a < dirs@.len() ==> spec_is_some_parent(protos@, #[trigger] dirs@[a]@),
            forall|j: int|
                0 <= j < i ==> spec_has_dir(dirs@, spec_parent_dir(#[trigger] protos@[j]@)),
        decreases protos@.len() - i,
    {
        let d = parent_dir(protos[i].as_str());
        let owned = d.to_owned();
        let ghost pre_dirs = dirs@;
        let ghost target = spec_parent_dir(protos@[i as int]@);
        proof {
            assert(owned@ == target);
        }
        let had = contains_string(&dirs, &owned);
        if !had {
            dirs.push(owned);
        }
        proof {
            assert(forall|a: int| 0 <= a < pre_dirs.len() ==> dirs@[a] == pre_dirs[a]);
            if !had {
                assert(dirs@[dirs@.len() - 1]@ == target);
            }
            assert forall|a: int, b: int| 0 <= a < b < dirs@.len() implies dirs@[a]@
                != dirs@[b]@ by {
                if b == dirs@.len() - 1 && !had {
                    assert(pre_dirs[a]@ != owned@);
                }
            }
            assert forall|a: int|
                0 <= a < dirs@.len() implies spec_is_some_parent(
                protos@,
                #[trigger] dirs@[a]@,
            ) by {
                if a < pre_dirs.len() {
                    assert(spec_is_some_parent(protos@, pre_dirs[a]@));
                } else {
                    assert(dirs@[a]@ == spec_parent_dir(protos@[i as int]@));
                }
            }
            assert forall|j: int|
                0 <= j < i + 1 implies spec_has_dir(
                dirs@,
                spec_parent_dir(#[trigger] protos@[j]@),
            ) by {
                if j == i {
                    if had {
                        let a = choose|a: int|
                            0 <= a < pre_dirs.len() && #[trigger] pre_dirs[a]@ == owned@;
                        assert(dirs@[a]@ == spec_parent_dir(protos@[j]@));
                    } else {
                        assert(dirs@[dirs@.len() - 1]@ == spec_parent_dir(protos@[j]@));
                    }
                } else {
                    assert(spec_has_dir(pre_dirs, spec_parent_dir(protos@[j]@)));
                    let a = choose|a: int|
                        0 <= a < pre_dirs.len() && #[trigger] pre_dirs[a]@ == spec_parent_dir(
                            protos@[j]@,
                        );
                    assert(dirs@[a]@ == spec_parent_dir(protos@[j]@));
                }
            }
        }
        i += 1;
    }
    dirs
}

} // verus!
