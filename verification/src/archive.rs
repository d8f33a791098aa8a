//! Extracting native libraries out of one bundled archive.
//!
//! An archive is handed in as bytes and opened for random access through the
//! `zip` crate; the entries whose final path component carries a native
//! shared-library suffix are decompressed and returned under their base
//! names, the internal directory structure of the archive discarded.

use vstd::prelude::*;
use crate::platform::{is_native_library_name, is_native_library_name_exec};
use crate::text::{basename, basename_exec};

verus! {

#[verifier::external_type_specification]
#[verifier::external_body]
#[verifier::reject_recursive_types(T)]
pub struct ExCursor<T>(std::io::Cursor<T>);

#[verifier::external_type_specification]
#[verifier::external_body]
#[verifier::reject_recursive_types(R)]
pub struct ExZipArchive<R>(zip::ZipArchive<R>);

/// What an open archive holds: each entry's stored name and decompressed
/// contents, in index order.
pub uninterp spec fn archive_entries(a: zip::ZipArchive<std::io::Cursor<Vec<u8>>>) -> Seq<
    (Seq<char>, Seq<u8>),
>;

/// The entry list that parsing the given bytes as an archive yields, or
/// `None` when the bytes do not parse as one.
pub uninterp spec fn parsed_archive(data: Seq<u8>) -> Option<Seq<(Seq<char>, Seq<u8>)>>;

/// Relies on `zip::ZipArchive::new` over an in-memory reader: whether the
/// bytes parse as an archive, and which entries they hold, depend on the
/// bytes alone.
#[verifier::external_body]
pub(crate) fn open_archive(data: &Vec<u8>) -> (r: Option<
    zip::ZipArchive<std::io::Cursor<Vec<u8>>>,
>)
    ensures
        r is Some <==> parsed_archive(data@) is Some,
        r is Some ==> archive_entries(r.unwrap()) == parsed_archive(data@).unwrap(),
{
    zip::ZipArchive::new(std::io::Cursor::new(data.clone())).ok()
}

/// Relies on `zip::ZipArchive::len`: the number of entries in the archive.
#[verifier::external_body]
pub(crate) fn archive_len(a: &zip::ZipArchive<std::io::Cursor<Vec<u8>>>) -> (n: usize)
    ensures
        n == archive_entries(*a).len(),
{
    a.len()
}

/// Relies on `zip::ZipArchive::name_for_index`: the stored name of the
/// entry, present for every index below the entry count.
#[verifier::external_body]
pub(crate) fn entry_name(a: &zip::ZipArchive<std::io::Cursor<Vec<u8>>>, i: usize) -> (r: String)
    requires
        i < archive_entries(*a).len(),
    ensures
        r@ == archive_entries(*a)[i as int].0,
{
    match a.name_for_index(i) {
        Some(n) => n.to_string(),
        None => String::new(),
    }
}

/// Relies on `zip::ZipArchive::by_index` and `std::io::Read::read_to_end`:
/// the decompressed contents of the entry. Reading can fail on a corrupt or
/// unsupported entry, and never changes the entry list.
#[verifier::external_body]
pub(crate) fn read_entry(a: &mut zip::ZipArchive<std::io::Cursor<Vec<u8>>>, i: usize) -> (r:
    Option<Vec<u8>>)
    requires
        i < archive_entries(*old(a)).len(),
    ensures
        archive_entries(*final(a)) == archive_entries(*old(a)),
        r is Some ==> r.unwrap()@ == archive_entries(*old(a))[i as int].1,
{
    match a.by_index(i) {
        Ok(mut f) => {
            let mut buf = Vec::new();
            match std::io::Read::read_to_end(&mut f, &mut buf) {
                Ok(_) => Some(buf),
                Err(_) => None,
            }
        },
        Err(_) => None,
    }
}

/// A native library pulled out of an archive: the base file name it is
/// written under, and its decompressed contents.
pub struct NativeFile {
    pub name: String,
    pub data: Vec<u8>,
}

impl View for NativeFile {
    type V = (Seq<char>, Seq<u8>);

    open spec fn view(&self) -> (Seq<char>, Seq<u8>) {
        (self.name@, self.data@)
    }
}

impl DeepView for NativeFile {
    type V = (Seq<char>, Seq<u8>);

    open spec fn deep_view(&self) -> (Seq<char>, Seq<u8>) {
        self@
    }
}

/// How an extraction run relates to the entry list it walked: every entry
/// with a native-library base name lands either in `prod`, under its base
/// name and with its exact contents, or in `failed`, under its stored name,
/// when its read failed; order is kept and no other entry contributes.
pub open spec fn valid_extraction(
    es: Seq<(Seq<char>, Seq<u8>)>,
    prod: Seq<(Seq<char>, Seq<u8>)>,
    failed: Seq<Seq<char>>,
) -> bool
    decreases es.len(),
{
    if es.len() == 0 {
        prod.len() == 0 && failed.len() == 0
    } else {
        let e = es.last();
        let rest = es.drop_last();
        if is_native_library_name(basename(e.0)) {
            (prod.len() > 0 && prod.last() == (basename(e.0), e.1) && valid_extraction(
                rest,
                prod.drop_last(),
                failed,
            )) || (failed.len() > 0 && failed.last() == e.0 && valid_extraction(
                rest,
                prod,
                failed.drop_last(),
            ))
        } else {
            valid_extraction(rest, prod, failed)
        }
    }
}

/// The native entries of `es`, each under its base name: what an extraction
/// run produces when every read succeeds.
pub open spec fn native_entry_files(es: Seq<(Seq<char>, Seq<u8>)>) -> Seq<(Seq<char>, Seq<u8>)>
    decreases es.len(),
{
    if es.len() == 0 {
        Seq::<(Seq<char>, Seq<u8>)>::empty()
    } else {
        let e = es.last();
        let rest = native_entry_files(es.drop_last());
        if is_native_library_name(basename(e.0)) {
            rest.push((basename(e.0), e.1))
        } else {
            rest
        }
    }
}

/// An extraction that produced nothing and failed nothing walked an archive
/// with no native entries at all.
pub proof fn lemma_empty_extraction(es: Seq<(Seq<char>, Seq<u8>)>)
    requires
        valid_extraction(es, Seq::<(Seq<char>, Seq<u8>)>::empty(), Seq::<Seq<char>>::empty()),
    ensures
        forall|j: int|
            0 <= j < es.len() ==> !is_native_library_name(basename((#[trigger] es[j]).0)),
    decreases es.len(),
{
    if es.len() > 0 {
        lemma_empty_extraction(es.drop_last());
        assert(forall|j: int|
            0 <= j < es.len() - 1 ==> es.drop_last()[j] == #[trigger] es[j]);
    }
}

/// An extraction with no failed reads produced exactly the native entries.
pub proof fn lemma_complete_extraction(
    es: Seq<(Seq<char>, Seq<u8>)>,
    prod: Seq<(Seq<char>, Seq<u8>)>,
)
    requires
        valid_extraction(es, prod, Seq::<Seq<char>>::empty()),
    ensures
        prod == native_entry_files(es),
    decreases es.len(),
{
    if es.len() == 0 {
        assert(prod =~= native_entry_files(es));
    } else {
        let e = es.last();
        if is_native_library_name(basename(e.0)) {
            lemma_complete_extraction(es.drop_last(), prod.drop_last());
            assert(prod =~= native_entry_files(es.drop_last()).push((basename(e.0), e.1)));
        } else {
            lemma_complete_extraction(es.drop_last(), prod);
        }
    }
}

/// Walks every entry of the archive and decompresses those whose base name
/// is a native library's, discarding internal directory structure. Entries
/// whose read fails are reported by stored name and skipped: a bad entry is
/// non-fatal.
pub fn extract_native_entries(a: &mut zip::ZipArchive<std::io::Cursor<Vec<u8>>>) -> (r: (
    Vec<NativeFile>,
    Vec<String>,
))
    ensures
        archive_entries(*final(a)) == archive_entries(*old(a)),
        valid_extraction(archive_entries(*old(a)), r.0.deep_view(), r.1.deep_view()),
{
    let ghost es = archive_entries(*a);
    let mut prod: Vec<NativeFile> = Vec::new();
    let mut failed: Vec<String> = Vec::new();
    let n = archive_len(a);
    proof {
        assert(prod.deep_view() =~= Seq::<(Seq<char>, Seq<u8>)>::empty());
        assert(failed.deep_view() =~= Seq::<Seq<char>>::empty());
        assert(es.take(0) =~= Seq::<(Seq<char>, Seq<u8>)>::empty());
    }
    let mut i: usize = 0;
    while i < n
        invariant
            n == es.len(),
            archive_entries(*a) == es,
            0 <= i <= n,
            valid_extraction(es.take(i as int), prod.deep_view(), failed.deep_view()),
        decreases n - i,
    {
        let ghost prod0 = prod.deep_view();
        let ghost failed0 = failed.deep_view();
        proof {
            assert(es.take(i + 1).drop_last() =~= es.take(i as int));
            assert(es.take(i + 1).last() == es[i as int]);
        }
        let name = entry_name(a, i);
        let base = basename_exec(name.as_str());
        if is_native_library_name_exec(base.as_str()) {
            match read_entry(a, i) {
                Some(data) => {
                    prod.push(NativeFile { name: base, data });
                    proof {
                        assert(prod.deep_view() =~= prod0.push(
                            (basename(es[i as int].0), es[i as int].1),
                        ));
                        assert(prod.deep_view().drop_last() =~= prod0);
                    }
                },
                None => {
                    failed.push(name);
                    proof {
                        assert(failed.deep_view() =~= failed0.push(es[i as int].0));
                        assert(failed.deep_view().drop_last() =~= failed0);
                    }
                },
            }
        }
        i += 1;
    }
    proof {
        assert(es.take(n as int) =~= es);
    }
    (prod, failed)
}

} // verus!
