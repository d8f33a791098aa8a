//! The preparation orchestrator: one idempotent "ensure the natives are
//! ready" pass over a libraries root.
//!
//! The caller snapshots the file system (names at the natives root, files
//! under the platform subfolders, bytes of the candidate archives) and
//! carries out the returned report: copy the consolidation names, write the
//! produced native files. Everything decided here — what is copied, which
//! archives are attempted, when preparation already holds or fails — is
//! stated in the contract.

use vstd::prelude::*;
use crate::archive::{archive_entries, extract_native_entries, open_archive, parsed_archive, valid_extraction, NativeFile};
use crate::natives::{consolidate_natives, consolidation_plan};
use crate::platform::{is_native_library_name, is_native_library_name_exec, should_extract_archive, should_extract_archive_exec, Platform};
use crate::text::{basename, basename_exec};

verus! {

/// A candidate archive: its path under the libraries root and its bytes.
pub struct ArchiveInput {
    pub path: String,
    pub data: Vec<u8>,
}

impl DeepView for ArchiveInput {
    type V = (Seq<char>, Seq<u8>);

    open spec fn deep_view(&self) -> (Seq<char>, Seq<u8>) {
        (self.path@, self.data@)
    }
}

/// Why preparation failed.
#[derive(Clone, Copy, PartialEq, Eq, Structural, Debug)]
pub enum PrepareError {
    /// Candidate archives exist, yet after consolidation and extraction not
    /// a single native library sits at the destination root.
    NoNativesPrepared,
}

impl PrepareError {
    /// A human-readable description of the failure.
    pub fn message(&self) -> (r: String)
        ensures
            r@ == "no native libraries could be prepared"@,
    {
        String::from_str("no native libraries could be prepared")
    }
}

/// What happened to one attempted archive.
pub struct ArchiveExtraction {
    /// The archive's path under the libraries root.
    pub path: String,
    /// Whether its bytes parsed as an archive.
    pub opened: bool,
    /// The native files it yielded.
    pub produced: Vec<NativeFile>,
    /// Stored names of native entries whose read failed.
    pub failed_entries: Vec<String>,
}

impl DeepView for ArchiveExtraction {
    type V = (Seq<char>, bool, Seq<(Seq<char>, Seq<u8>)>, Seq<Seq<char>>);

    open spec fn deep_view(&self) -> (Seq<char>, bool, Seq<(Seq<char>, Seq<u8>)>, Seq<Seq<char>>) {
        (self.path@, self.opened, self.produced.deep_view(), self.failed_entries.deep_view())
    }
}

/// The whole outcome of one preparation pass.
pub struct PrepareReport {
    /// Base names to copy from the platform subfolders into the root.
    pub copies: Vec<String>,
    /// The root already held a native library once consolidation was
    /// accounted for; nothing was extracted.
    pub already_satisfied: bool,
    /// One record per attempted archive, in candidate order.
    pub extractions: Vec<ArchiveExtraction>,
    /// Success, or the failure to report.
    pub outcome: Result<(), PrepareError>,
}

/// Some name in the list is a native library's.
pub open spec fn has_native_file(names: Seq<Seq<char>>) -> bool {
    exists|j: int| 0 <= j < names.len() && is_native_library_name(names[j])
}

/// The candidates that pass the platform filter on the host, in order.
pub open spec fn filter_candidates(cands: Seq<(Seq<char>, Seq<u8>)>, host: Platform) -> Seq<
    (Seq<char>, Seq<u8>),
>
    decreases cands.len(),
{
    if cands.len() == 0 {
        Seq::<(Seq<char>, Seq<u8>)>::empty()
    } else {
        let rest = filter_candidates(cands.drop_last(), host);
        if should_extract_archive(basename(cands.last().0), host) {
            rest.push(cands.last())
        } else {
            rest
        }
    }
}

/// How the extraction records relate to the candidate list: exactly the
/// candidates passing the platform filter are attempted, in order; each
/// record carries whether the bytes parsed, and a valid extraction of the
/// parsed entry list when they did.
pub open spec fn extractions_match(
    cands: Seq<(Seq<char>, Seq<u8>)>,
    host: Platform,
    exts: Seq<(Seq<char>, bool, Seq<(Seq<char>, Seq<u8>)>, Seq<Seq<char>>)>,
) -> bool
    decreases cands.len(),
{
    if cands.len() == 0 {
        exts.len() == 0
    } else {
        let c = cands.last();
        let rest = cands.drop_last();
        if should_extract_archive(basename(c.0), host) {
            exts.len() > 0 && {
                let x = exts.last();
                x.0 == c.0 && x.1 == (parsed_archive(c.1) is Some) && (x.1
                    ==> valid_extraction(parsed_archive(c.1).unwrap(), x.2, x.3)) && (!x.1
                    ==> x.2.len() == 0 && x.3.len() == 0) && extractions_match(
                    rest,
                    host,
                    exts.drop_last(),
                )
            }
        } else {
            extractions_match(rest, host, exts)
        }
    }
}

/// The number of native files all the extraction records together produced.
pub open spec fn total_produced(
    exts: Seq<(Seq<char>, bool, Seq<(Seq<char>, Seq<u8>)>, Seq<Seq<char>>)>,
) -> nat
    decreases exts.len(),
{
    if exts.len() == 0 {
        0
    } else {
        total_produced(exts.drop_last()) + exts.last().2.len()
    }
}

/// Is some name of `v` a native library's?
fn any_native_name(v: &Vec<String>) -> (r: bool)
    ensures
        r == has_native_file(v.deep_view()),
{
    let mut i: usize = 0;
    while i < v.len()
        invariant
            0 <= i <= v@.len(),
            forall|k: int| 0 <= k < i ==> !is_native_library_name(v.deep_view()[k]),
        decreases v@.len() - i,
    {
        if is_native_library_name_exec(v[i].as_str()) {
            assert(is_native_library_name(v.deep_view()[i as int]));
            return true;
        }
        i += 1;
    }
    false
}

fn count_produced(exts: &Vec<ArchiveExtraction>) -> (r: bool)
    ensures
        r == (total_produced(exts.deep_view()) > 0),
{
    let mut i: usize = 0;
    while i < exts.len()
        invariant
            0 <= i <= exts@.len(),
            total_produced(exts.deep_view().take(i as int)) == 0,
        decreases exts@.len() - i,
    {
        let ghost dv = exts.deep_view();
        proof {
            assert(dv.take(i + 1).drop_last() =~= dv.take(i as int));
            assert(dv.take(i + 1).last() == dv[i as int]);
        }
        if exts[i].produced.len() > 0 {
            proof {
                lemma_total_produced_bound(dv, i as int);
            }
            return true;
        }
        i += 1;
    }
    proof {
        assert(exts.deep_view().take(exts@.len() as int) =~= exts.deep_view());
    }
    false
}

/// A record with produced files pushes the total above zero.
proof fn lemma_total_produced_bound(
    exts: Seq<(Seq<char>, bool, Seq<(Seq<char>, Seq<u8>)>, Seq<Seq<char>>)>,
    i: int,
)
    requires
        0 <= i < exts.len(),
        exts[i].2.len() > 0,
    ensures
        total_produced(exts) > 0,
    decreases exts.len(),
{
    if i == exts.len() - 1 {
    } else {
        lemma_total_produced_bound(exts.drop_last(), i);
    }
}

/// One preparation pass. The caller has snapshotted: the file names at the
/// natives root, the files under the platform subfolders, and the candidate
/// archives with their bytes (as found by the scanner). The report says
/// what to copy and write, which archives were attempted, and whether
/// preparation succeeded.
pub fn prepare_natives(
    root_files: &Vec<String>,
    subdir_files: &Vec<String>,
    candidates: &Vec<ArchiveInput>,
    host: Platform,
) -> (r: PrepareReport)
    ensures
        r.copies.deep_view() == consolidation_plan(root_files.deep_view(), subdir_files.deep_view()),
        r.already_satisfied == has_native_file(root_files.deep_view() + r.copies.deep_view()),
        r.already_satisfied ==> r.extractions@.len() == 0,
        !r.already_satisfied ==> extractions_match(
            candidates.deep_view(),
            host,
            r.extractions.deep_view(),
        ),
        r.outcome is Ok <==> (r.already_satisfied || candidates@.len() == 0 || total_produced(
            r.extractions.deep_view(),
        ) > 0),
{
    let copies = consolidate_natives(root_files, subdir_files);
    let satisfied = any_native_name(root_files) || any_native_name(&copies);
    proof {
        lemma_has_native_split(root_files.deep_view(), copies.deep_view());
    }
    let mut exts: Vec<ArchiveExtraction> = Vec::new();
    if !satisfied {
        let ghost cands = candidates.deep_view();
        proof {
            assert(cands.take(0) =~= Seq::<(Seq<char>, Seq<u8>)>::empty());
            assert(exts.deep_view() =~= Seq::<
                (Seq<char>, bool, Seq<(Seq<char>, Seq<u8>)>, Seq<Seq<char>>),
            >::empty());
        }
        let mut i: usize = 0;
        while i < candidates.len()
            invariant
                cands == candidates.deep_view(),
                0 <= i <= cands.len(),
                extractions_match(cands.take(i as int), host, exts.deep_view()),
            decreases cands.len() - i,
        {
            let ghost exts0 = exts.deep_view();
            proof {
                assert(cands.take(i + 1).drop_last() =~= cands.take(i as int));
                assert(cands.take(i + 1).last() == cands[i as int]);
            }
            let base = basename_exec(candidates[i].path.as_str());
            if should_extract_archive_exec(base.as_str(), host) {
                match open_archive(&candidates[i].data) {
                    Some(mut a) => {
                        let ghost entries = archive_entries(a);
                        let (produced, failed_entries) = extract_native_entries(&mut a);
                        exts.push(
                            ArchiveExtraction {
                                path: candidates[i].path.clone(),
                                opened: true,
                                produced,
                                failed_entries,
                            },
                        );
                        proof {
                            assert(exts.deep_view() =~= exts0.push(
                                exts.deep_view().last(),
                            ));
                            assert(exts.deep_view().drop_last() =~= exts0);
                        }
                    },
                    None => {
                        exts.push(
                            ArchiveExtraction {
                                path: candidates[i].path.clone(),
                                opened: false,
                                produced: Vec::new(),
                                failed_entries: Vec::new(),
                            },
                        );
                        proof {
                            assert(exts.deep_view() =~= exts0.push(
                                exts.deep_view().last(),
                            ));
                            assert(exts.deep_view().drop_last() =~= exts0);
                            assert(exts.deep_view().last().2.len() == 0);
                            assert(exts.deep_view().last().3.len() == 0);
                        }
                    },
                }
            }
            i += 1;
        }
        proof {
            assert(cands.take(cands.len() as int) =~= cands);
        }
    }
    let produced_any = count_produced(&exts);
    let outcome = if satisfied || candidates.len() == 0 || produced_any {
        Ok(())
    } else {
        Err(PrepareError::NoNativesPrepared)
    };
    PrepareReport { copies, already_satisfied: satisfied, extractions: exts, outcome }
}

/// A native name in a concatenation sits in one of the halves.
proof fn lemma_has_native_split(a: Seq<Seq<char>>, b: Seq<Seq<char>>)
    ensures
        has_native_file(a + b) == (has_native_file(a) || has_native_file(b)),
{
    if has_native_file(a + b) {
        let j = choose|j: int| 0 <= j < (a + b).len() && is_native_library_name((a + b)[j]);
        if j < a.len() {
            assert(is_native_library_name(a[j]));
        } else {
            assert(is_native_library_name(b[j - a.len()]));
        }
    }
    if has_native_file(a) {
        let j = choose|j: int| 0 <= j < a.len() && is_native_library_name(a[j]);
        assert(is_native_library_name((a + b)[j]));
    }
    if has_native_file(b) {
        let j = choose|j: int| 0 <= j < b.len() && is_native_library_name(b[j]);
        assert(is_native_library_name((a + b)[a.len() + j]));
    }
}

/// Every attempted archive passed the platform filter, under the candidate
/// it came from: the attempted list is exactly the filtered candidate list,
/// in order, so an archive named for a foreign platform is never attempted,
/// and one with no marker or the host's marker always is.
pub proof fn lemma_attempted_are_filtered(
    cands: Seq<(Seq<char>, Seq<u8>)>,
    host: Platform,
    exts: Seq<(Seq<char>, bool, Seq<(Seq<char>, Seq<u8>)>, Seq<Seq<char>>)>,
)
    requires
        extractions_match(cands, host, exts),
    ensures
        exts.len() == filter_candidates(cands, host).len(),
        forall|k: int|
            0 <= k < exts.len() ==> (#[trigger] exts[k]).0 == filter_candidates(cands, host)[k].0,
        forall|k: int|
            0 <= k < exts.len() ==> should_extract_archive(
                basename((#[trigger] exts[k]).0),
                host,
            ),
    decreases cands.len(),
{
    if cands.len() == 0 {
    } else {
        let c = cands.last();
        let fc = filter_candidates(cands, host);
        if should_extract_archive(basename(c.0), host) {
            lemma_attempted_are_filtered(cands.drop_last(), host, exts.drop_last());
            let fcr = filter_candidates(cands.drop_last(), host);
            assert(fc == fcr.push(c));
            assert(forall|k: int|
                0 <= k < exts.len() - 1 ==> #[trigger] exts[k] == exts.drop_last()[k]);
            assert(forall|k: int| 0 <= k < fcr.len() ==> #[trigger] fc[k] == fcr[k]);
            assert(exts[exts.len() - 1].0 == c.0);
        } else {
            lemma_attempted_are_filtered(cands.drop_last(), host, exts);
        }
    }
}

/// With no candidate archives at all, nothing is attempted and nothing is
/// produced: together with the outcome clause of the preparation contract,
/// a libraries root with no archives and no pre-existing native files
/// prepares successfully, leaving the natives directory empty.
pub proof fn lemma_prepare_no_candidates(
    host: Platform,
    exts: Seq<(Seq<char>, bool, Seq<(Seq<char>, Seq<u8>)>, Seq<Seq<char>>)>,
)
    requires
        extractions_match(Seq::<(Seq<char>, Seq<u8>)>::empty(), host, exts),
    ensures
        exts.len() == 0,
        total_produced(exts) == 0,
{
}

/// When every candidate is marked for a foreign platform, nothing is
/// attempted and nothing is produced, so preparation over an empty root
/// fails rather than spawning a doomed process.
pub proof fn lemma_foreign_only_fails(
    cands: Seq<(Seq<char>, Seq<u8>)>,
    host: Platform,
    exts: Seq<(Seq<char>, bool, Seq<(Seq<char>, Seq<u8>)>, Seq<Seq<char>>)>,
)
    requires
        extractions_match(cands, host, exts),
        forall|j: int|
            0 <= j < cands.len() ==> !should_extract_archive(
                basename((#[trigger] cands[j]).0),
                host,
            ),
    ensures
        exts.len() == 0,
        total_produced(exts) == 0,
    decreases cands.len(),
{
    if cands.len() > 0 {
        assert(forall|j: int|
            0 <= j < cands.len() - 1 ==> #[trigger] cands.drop_last()[j] == cands[j]);
        lemma_foreign_only_fails(cands.drop_last(), host, exts);
    }
}


/// The flat natives directory the runtime's library search path points at.
pub open spec fn natives_dir_spec(game_dir: Seq<char>) -> Seq<char> {
    game_dir + "/natives"@
}

/// Builds the natives directory path under the working directory.
pub fn natives_dir_path(game_dir: &String) -> (r: String)
    ensures
        r@ == natives_dir_spec(game_dir@),
{
    let mut r = game_dir.clone();
    r.append("/natives");
    proof {
        assert(r@ =~= natives_dir_spec(game_dir@));
    }
    r
}

/// The libraries root the scanner and the classpath expansion walk.
pub open spec fn libraries_root_spec(game_dir: Seq<char>) -> Seq<char> {
    game_dir + "/libraries"@
}

/// Builds the libraries root path under the working directory.
pub fn libraries_root_path(game_dir: &String) -> (r: String)
    ensures
        r@ == libraries_root_spec(game_dir@),
{
    let mut r = game_dir.clone();
    r.append("/libraries");
    proof {
        assert(r@ =~= libraries_root_spec(game_dir@));
    }
    r
}

/// What probing a directory path found.
#[derive(Clone, Copy, PartialEq, Eq, Structural, Debug)]
pub enum DirProbe {
    /// Nothing at the path.
    Missing,
    /// A directory.
    IsDirectory,
    /// Something that is not a directory.
    NotADirectory,
}

/// Decides the directory validation a launch begins with: a missing
/// working or asset directory is created; a path occupied by a
/// non-directory is a hard error and the launch is never attempted.
/// On success the pair says which of the two to create.
pub fn validate_launch_dirs(game: DirProbe, assets: DirProbe) -> (r: Result<(bool, bool), String>)
    ensures
        r is Ok <==> (game != DirProbe::NotADirectory && assets != DirProbe::NotADirectory),
        r is Ok ==> r.unwrap().0 == (game == DirProbe::Missing) && r.unwrap().1 == (assets
            == DirProbe::Missing),
        game == DirProbe::NotADirectory ==> r is Err && r.unwrap_err()@
            == "game directory path exists but is not a directory"@,
        game != DirProbe::NotADirectory && assets == DirProbe::NotADirectory ==> r is Err
            && r.unwrap_err()@ == "assets directory path exists but is not a directory"@,
{
    if game == DirProbe::NotADirectory {
        Err(String::from_str("game directory path exists but is not a directory"))
    } else if assets == DirProbe::NotADirectory {
        Err(String::from_str("assets directory path exists but is not a directory"))
    } else {
        Ok((game == DirProbe::Missing, assets == DirProbe::Missing))
    }
}

} // verus!
