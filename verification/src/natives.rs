//! Scanning a libraries tree for native-code archives, and consolidating
//! platform-named subfolders into the flat natives root.

use vstd::prelude::*;
use crate::platform::{is_native_archive_name, is_native_archive_name_exec, is_native_library_name, is_native_library_name_exec};
use crate::text::{basename, basename_exec, ends_with_ci, ends_with_ci_exec};

verus! {

/// The candidate archives among `paths`: those whose final path component
/// names a native-code archive, kept in order.
pub open spec fn native_archive_paths(paths: Seq<Seq<char>>) -> Seq<Seq<char>>
    decreases paths.len(),
{
    if paths.len() == 0 {
        Seq::<Seq<char>>::empty()
    } else {
        let rest = native_archive_paths(paths.drop_last());
        if is_native_archive_name(basename(paths.last())) {
            rest.push(paths.last())
        } else {
            rest
        }
    }
}

/// All archives among `paths`, native or not, as expanded into a classpath.
pub open spec fn archive_paths(paths: Seq<Seq<char>>) -> Seq<Seq<char>>
    decreases paths.len(),
{
    if paths.len() == 0 {
        Seq::<Seq<char>>::empty()
    } else {
        let rest = archive_paths(paths.drop_last());
        if ends_with_ci(basename(paths.last()), ".jar"@) {
            rest.push(paths.last())
        } else {
            rest
        }
    }
}

/// Keeps the paths whose final component names a native-code archive, in
/// the order given. The caller passes every file found under the libraries
/// root; a missing root is an empty list, not an error.
pub fn scan_native_archives(paths: &Vec<String>) -> (r: Vec<String>)
    ensures
        r.deep_view() == native_archive_paths(paths.deep_view()),
{
    let mut r: Vec<String> = Vec::new();
    let mut i: usize = 0;
    while i < paths.len()
        invariant
            0 <= i <= paths@.len(),
            r.deep_view() == native_archive_paths(paths.deep_view().take(i as int)),
        decreases paths@.len() - i,
    {
        let ghost dv = paths.deep_view();
        let name = basename_exec(paths[i].as_str());
        proof {
            assert(dv.take(i + 1).drop_last() =~= dv.take(i as int));
            assert(dv.take(i + 1).last() == dv[i as int]);
        }
        if is_native_archive_name_exec(name.as_str()) {
            r.push(paths[i].clone());
        }
        proof {
            assert(r.deep_view() =~= native_archive_paths(dv.take(i + 1)));
        }
        i += 1;
    }
    proof {
        assert(paths.deep_view().take(paths@.len() as int) =~= paths.deep_view());
    }
    r
}

/// Keeps the paths whose final component carries the archive suffix, in the
/// order given: the classpath expansion of the libraries root.
pub fn list_archives(paths: &Vec<String>) -> (r: Vec<String>)
    ensures
        r.deep_view() == archive_paths(paths.deep_view()),
{
    let mut r: Vec<String> = Vec::new();
    let mut i: usize = 0;
    while i < paths.len()
        invariant
            0 <= i <= paths@.len(),
            r.deep_view() == archive_paths(paths.deep_view().take(i as int)),
        decreases paths@.len() - i,
    {
        let ghost dv = paths.deep_view();
        let name = basename_exec(paths[i].as_str());
        proof {
            assert(dv.take(i + 1).drop_last() =~= dv.take(i as int));
            assert(dv.take(i + 1).last() == dv[i as int]);
        }
        if ends_with_ci_exec(name.as_str(), ".jar") {
            r.push(paths[i].clone());
        }
        proof {
            assert(r.deep_view() =~= archive_paths(dv.take(i + 1)));
        }
        i += 1;
    }
    proof {
        assert(paths.deep_view().take(paths@.len() as int) =~= paths.deep_view());
    }
    r
}

/// The base file names to copy from the platform subfolders into the root:
/// walking the subfolder files in order, a native-library base name is
/// planned once unless a file of that name already sits at the root.
pub open spec fn consolidation_plan(root: Seq<Seq<char>>, subs: Seq<Seq<char>>) -> Seq<Seq<char>>
    decreases subs.len(),
{
    if subs.len() == 0 {
        Seq::<Seq<char>>::empty()
    } else {
        let n = basename(subs[0]);
        if is_native_library_name(n) && !root.contains(n) {
            seq![n] + consolidation_plan(root.push(n), subs.drop_first())
        } else {
            consolidation_plan(root, subs.drop_first())
        }
    }
}

/// Does some element of `v` view as `x`?
pub fn vec_contains_string(v: &Vec<String>, x: &String) -> (r: bool)
    ensures
        r == v.deep_view().contains(x@),
{
    let mut i: usize = 0;
    while i < v.len()
        invariant
            0 <= i <= v@.len(),
            forall|k: int| 0 <= k < i ==> v.deep_view()[k] != x@,
        decreases v@.len() - i,
    {
        if v[i].eq(x) {
            assert(v.deep_view()[i as int] == x@);
            return true;
        }
        i += 1;
    }
    false
}

/// Computes the consolidation plan for the given root and subfolder files.
/// The copies are returned, not performed; the informational copy count is
/// the length of the result.
pub fn consolidate_natives(root_files: &Vec<String>, subdir_files: &Vec<String>) -> (plan: Vec<
    String,
>)
    ensures
        plan.deep_view() == consolidation_plan(root_files.deep_view(), subdir_files.deep_view()),
{
    let ghost root0 = root_files.deep_view();
    let ghost subs = subdir_files.deep_view();
    let mut plan: Vec<String> = Vec::new();
    proof {
        assert(plan.deep_view() =~= Seq::<Seq<char>>::empty());
        assert(root0 + plan.deep_view() =~= root0);
        assert(subs.skip(0) =~= subs);
        assert(plan.deep_view() + consolidation_plan(root0, subs) =~= consolidation_plan(
            root0,
            subs,
        ));
    }
    let mut i: usize = 0;
    while i < subdir_files.len()
        invariant
            0 <= i <= subs.len(),
            subs == subdir_files.deep_view(),
            root0 == root_files.deep_view(),
            consolidation_plan(root0, subs) == plan.deep_view() + consolidation_plan(
                root0 + plan.deep_view(),
                subs.skip(i as int),
            ),
        decreases subs.len() - i,
    {
        let ghost plan0 = plan.deep_view();
        let ghost cur = root0 + plan0;
        let ghost rest = subs.skip(i as int);
        proof {
            assert(rest[0] == subs[i as int]);
            assert(rest.drop_first() =~= subs.skip(i + 1));
        }
        let name = basename_exec(subdir_files[i].as_str());
        if is_native_library_name_exec(name.as_str()) && !vec_contains_string(
            root_files,
            &name,
        ) && !vec_contains_string(&plan, &name) {
            proof {
                assert(!cur.contains(name@)) by {
                    if cur.contains(name@) {
                        let k = choose|k: int| 0 <= k < cur.len() && cur[k] == name@;
                        if k < root0.len() {
                            assert(root0[k] == name@);
                        } else {
                            assert(plan0[k - root0.len()] == name@);
                        }
                    }
                }
                assert(consolidation_plan(cur, rest) == seq![name@] + consolidation_plan(
                    cur.push(name@),
                    subs.skip(i + 1),
                ));
            }
            plan.push(name);
            proof {
                assert(plan.deep_view() =~= plan0 + seq![name@]);
                assert(root0 + plan.deep_view() =~= cur.push(name@));
                assert(plan0 + (seq![name@] + consolidation_plan(cur.push(name@), subs.skip(i + 1)))
                    =~= plan.deep_view() + consolidation_plan(cur.push(name@), subs.skip(i + 1)));
            }
        } else {
            proof {
                if is_native_library_name(name@) {
                    assert(root0.contains(name@) || plan0.contains(name@));
                    assert(cur.contains(name@)) by {
                        if root0.contains(name@) {
                            let k = choose|k: int|
                                0 <= k < root0.len() && root0[k] == name@;
                            assert(cur[k] == name@);
                        } else {
                            let k = choose|k: int|
                                0 <= k < plan0.len() && plan0[k] == name@;
                            assert(cur[root0.len() + k] == name@);
                        }
                    }
                }
                assert(consolidation_plan(cur, rest) == consolidation_plan(cur, subs.skip(i + 1)));
            }
        }
        i += 1;
    }
    proof {
        assert(subs.skip(subs.len() as int) =~= Seq::<Seq<char>>::empty());
        assert(consolidation_plan(root0 + plan.deep_view(), subs.skip(subs.len() as int))
            =~= Seq::<Seq<char>>::empty());
        assert(consolidation_plan(root0, subs) =~= plan.deep_view());
    }
    plan
}

/// Every native-library base name among the subfolder files ends up either
/// already at the root or in the consolidation plan.
proof fn lemma_consolidation_covers(root: Seq<Seq<char>>, subs: Seq<Seq<char>>, j: int)
    requires
        0 <= j < subs.len(),
        is_native_library_name(basename(subs[j])),
    ensures
        (root + consolidation_plan(root, subs)).contains(basename(subs[j])),
    decreases subs.len(),
{
    let n = basename(subs[0]);
    let plan = consolidation_plan(root, subs);
    if is_native_library_name(n) && !root.contains(n) {
        let tail_plan = consolidation_plan(root.push(n), subs.drop_first());
        assert(plan == seq![n] + tail_plan);
        if j == 0 {
            assert((root + plan)[root.len() as int] == n);
        } else {
            lemma_consolidation_covers(root.push(n), subs.drop_first(), j - 1);
            let m = basename(subs.drop_first()[j - 1]);
            let there = root.push(n) + tail_plan;
            assert(there.contains(m));
            let k = choose|k: int| 0 <= k < there.len() && there[k] == m;
            if k < root.len() {
                assert((root + plan)[k] == m);
            } else if k == root.len() {
                assert((root + plan)[root.len() as int] == m);
            } else {
                assert((root + plan)[k] == m);
            }
            assert(subs.drop_first()[j - 1] == subs[j]);
        }
    } else {
        let tail_plan = consolidation_plan(root, subs.drop_first());
        assert(plan == tail_plan);
        if j == 0 {
            assert(root.contains(n));
            let k = choose|k: int| 0 <= k < root.len() && root[k] == n;
            assert((root + plan)[k] == n);
        } else {
            lemma_consolidation_covers(root, subs.drop_first(), j - 1);
            let m = basename(subs.drop_first()[j - 1]);
            let there = root + tail_plan;
            assert(there.contains(m));
            let k = choose|k: int| 0 <= k < there.len() && there[k] == m;
            assert((root + plan)[k] == m);
            assert(subs.drop_first()[j - 1] == subs[j]);
        }
    }
}

/// A root that already holds every native-library base name of the
/// subfolder files gets an empty consolidation plan.
proof fn lemma_consolidation_saturated(root: Seq<Seq<char>>, subs: Seq<Seq<char>>)
    requires
        forall|j: int|
            0 <= j < subs.len() && is_native_library_name(basename(#[trigger] subs[j]))
                ==> root.contains(basename(subs[j])),
    ensures
        consolidation_plan(root, subs) == Seq::<Seq<char>>::empty(),
    decreases subs.len(),
{
    if subs.len() > 0 {
        let n = basename(subs[0]);
        assert(is_native_library_name(n) ==> root.contains(n));
        assert(forall|j: int|
            0 <= j < subs.drop_first().len() && is_native_library_name(
                basename(#[trigger] subs.drop_first()[j]),
            ) ==> root.contains(basename(subs.drop_first()[j]))) by {
            assert(forall|j: int|
                0 <= j < subs.drop_first().len() ==> #[trigger] subs.drop_first()[j] == subs[j
                    + 1]);
        }
        lemma_consolidation_saturated(root, subs.drop_first());
    }
}

/// Consolidation is idempotent: once the plan has been carried out, so the
/// root holds its old files and the copies, a second run plans no copy and
/// leaves the root's file set unchanged.
pub proof fn lemma_consolidation_idempotent(root: Seq<Seq<char>>, subs: Seq<Seq<char>>)
    ensures
        consolidation_plan(root + consolidation_plan(root, subs), subs) == Seq::<
            Seq<char>,
        >::empty(),
{
    let root2 = root + consolidation_plan(root, subs);
    assert(forall|j: int|
        0 <= j < subs.len() && is_native_library_name(basename(#[trigger] subs[j]))
            ==> root2.contains(basename(subs[j]))) by {
        assert forall|j: int|
            0 <= j < subs.len() && is_native_library_name(basename(#[trigger] subs[j]))
            implies root2.contains(basename(subs[j])) by {
            lemma_consolidation_covers(root, subs, j);
        }
    }
    lemma_consolidation_saturated(root2, subs);
}

} // verus!
