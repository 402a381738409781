use vstd::prelude::*;

use crate::archive::{entry_destination, is_contained_name, join_path};
use crate::error::InstallError;

verus! {

#[verifier::external_type_specification]
#[verifier::external_body]
#[verifier::reject_recursive_types(R)]
pub struct ExZipArchive<R>(zip::ZipArchive<R>);

#[verifier::external_type_specification]
#[verifier::external_body]
#[verifier::reject_recursive_types(T)]
pub struct ExCursor<T>(std::io::Cursor<T>);

#[verifier::external_type_specification]
#[verifier::external_body]
pub struct ExZipError(zip::result::ZipError);

/// The entries of an opened archive in stored order. An entry that the
/// crate reads is its name, whether it is a directory, and its uncompressed
/// bytes; one that it cannot read (a name that is not UTF-8, a corrupt
/// stream) is `None`.
pub uninterp spec fn archive_entries(a: zip::ZipArchive<std::io::Cursor<Vec<u8>>>) -> Seq<Option<(Seq<char>, bool, Seq<u8>)>>;

/// The entries that the `zip` crate reads from archive bytes, as above.
pub uninterp spec fn zip_contents(bytes: Seq<u8>) -> Seq<Option<(Seq<char>, bool, Seq<u8>)>>;

/// Whether the `zip` crate opens archive bytes: it finds and reads their central directory.
pub uninterp spec fn zip_opens(bytes: Seq<u8>) -> bool;

/// Relies on `zip::ZipArchive::new`: whether the archive opens, and what it
/// holds, depend on its bytes alone.
#[verifier::external_body]
fn open_archive(bytes: &[u8]) -> (r: Result<zip::ZipArchive<std::io::Cursor<Vec<u8>>>, zip::result::ZipError>)
    ensures
        r is Ok <==> zip_opens(bytes@),
        r matches Ok(a) ==> archive_entries(a) == zip_contents(bytes@),
{
    zip::ZipArchive::new(std::io::Cursor::new(bytes.to_vec()))
}

/// Relies on `zip::ZipArchive::len`: the number of entries.
#[verifier::external_body]
fn entry_count(a: &zip::ZipArchive<std::io::Cursor<Vec<u8>>>) -> (r: usize)
    ensures
        r == archive_entries(*a).len(),
{
    a.len()
}

/// Relies on `zip::ZipArchive::by_index` with `ZipFile::name`, `ZipFile::is_dir`
/// and its `Read` impl: the `i`-th entry, read in full. Reading moves the
/// archive's reader, not what it holds.
#[verifier::external_body]
fn read_entry(a: &mut zip::ZipArchive<std::io::Cursor<Vec<u8>>>, i: usize) -> (r: Result<(String, bool, Vec<u8>), zip::result::ZipError>)
    requires
        i < archive_entries(*old(a)).len(),
    ensures
        archive_entries(*final(a)) == archive_entries(*old(a)),
        r is Ok <==> archive_entries(*old(a))[i as int] is Some,
        r matches Ok(t) ==> archive_entries(*old(a))[i as int] == Some((t.0@, t.1, t.2@)),
{
    let mut entry = a.by_index(i)?;
    let name = entry.name()?.into_owned();
    let is_dir = entry.is_dir();
    let mut data = Vec::new();
    std::io::Read::read_to_end(&mut entry, &mut data)?;
    Ok((name, is_dir, data))
}

/// One entry to write: a directory to create, or a file and its bytes.
pub struct PlannedEntry {
    pub path: String,
    pub is_dir: bool,
    pub data: Vec<u8>,
}

/// Entry `e` of an archive, extracted below `dir`, is planned as `p`.
pub open spec fn plans(dir: Seq<char>, e: (Seq<char>, bool, Seq<u8>), p: PlannedEntry) -> bool {
    &&& p.path@ == join_path(dir, e.0)
    &&& p.is_dir == e.1
    &&& p.data@ == e.2
}

/// Entry `i` of `c` reads, and is planned as `p` below `dir`.
pub open spec fn planned_as(dir: Seq<char>, c: Seq<Option<(Seq<char>, bool, Seq<u8>)>>, i: int, p: PlannedEntry) -> bool {
    c[i] matches Some(e) && plans(dir, e, p)
}

/// Entry `i` of `c` reads, is called `name`, and would leave the extraction directory.
pub open spec fn escapes(c: Seq<Option<(Seq<char>, bool, Seq<u8>)>>, i: int, name: Seq<char>) -> bool {
    c[i] matches Some(e) && e.0 == name && !is_contained_name(name)
}

/// Entry `i` of `c` reads, and its name stays inside the extraction directory.
pub open spec fn extractable(c: Seq<Option<(Seq<char>, bool, Seq<u8>)>>, i: int) -> bool {
    c[i] matches Some(e) && is_contained_name(e.0)
}

/// Reads an archive and says where each of its entries goes below
/// `extract_dir`, in stored order. It succeeds exactly when the archive opens
/// and every entry reads and stays inside that directory; otherwise nothing
/// is planned.
pub fn plan_extraction(bytes: &[u8], extract_dir: &str) -> (r: Result<Vec<PlannedEntry>, InstallError>)
    ensures
        r is Ok <==> zip_opens(bytes@) && forall|i: int|
            0 <= i < zip_contents(bytes@).len() ==> #[trigger] extractable(zip_contents(bytes@), i),
        r matches Ok(p) ==> {
            let c = zip_contents(bytes@);
            &&& p@.len() == c.len()
            &&& forall|i: int| 0 <= i < c.len() ==> #[trigger] planned_as(extract_dir@, c, i, p@[i])
        },
        r matches Err(e) ==> match e {
            InstallError::UnsafeEntry { name } => zip_opens(bytes@) && exists|i: int|
                0 <= i < zip_contents(bytes@).len() && #[trigger] escapes(zip_contents(bytes@), i, name@),
            InstallError::Archive => !zip_opens(bytes@) || exists|i: int|
                0 <= i < zip_contents(bytes@).len() && #[trigger] zip_contents(bytes@)[i] is None,
            _ => false,
        },
{
    let ghost c = zip_contents(bytes@);
    let mut a = match open_archive(bytes) {
        Ok(a) => a,
        Err(_) => return Err(InstallError::Archive),
    };
    let n = entry_count(&a);
    let mut plan: Vec<PlannedEntry> = Vec::new();
    let mut i: usize = 0;
    while i < n
        invariant
            c == zip_contents(bytes@),
            zip_opens(bytes@),
            archive_entries(a) == c,
            n == c.len(),
            i <= n,
            plan@.len() == i,
            forall|j: int| 0 <= j < i ==> #[trigger] extractable(c, j),
            forall|j: int| 0 <= j < i ==> #[trigger] planned_as(extract_dir@, c, j, plan@[j]),
        decreases n - i,
    {
        let (name, is_dir, data) = match read_entry(&mut a, i) {
            Ok(t) => t,
            Err(_) => {
                assert(c[i as int] is None);
                assert(!extractable(c, i as int));
                return Err(InstallError::Archive);
            },
        };
        let path = match entry_destination(extract_dir, name.as_str()) {
            Ok(p) => p,
            Err(e) => {
                assert(escapes(c, i as int, name@));
                assert(!extractable(c, i as int));
                return Err(e);
            },
        };
        plan.push(PlannedEntry { path, is_dir, data });
        i += 1;
    }
    Ok(plan)
}

} // verus!
