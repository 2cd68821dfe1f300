use crate::model::DeckError;
use crate::seek::first_index;
use crate::seek::lemma_first_index_absent;
use crate::seek::lemma_first_index_found;
use crate::text::same_text;
use std::io::Read;
use vstd::prelude::*;
use vstd::slice::slice_to_vec;

verus! {

/// `zip::ZipArchive`, an opened zip container: carried, never read.
#[verifier::external_type_specification]
#[verifier::external_body]
#[verifier::reject_recursive_types(R)]
pub struct ExZipArchive<R>(zip::ZipArchive<R>);

/// `std::io::Cursor`, the reader over bytes in memory that the container is opened on.
#[verifier::external_type_specification]
#[verifier::external_body]
#[verifier::reject_recursive_types(T)]
pub struct ExCursor<T>(std::io::Cursor<T>);

/// `zip::result::ZipError`, what the zip library reports of a failure.
#[verifier::external_type_specification]
#[verifier::external_body]
pub struct ExZipError(zip::result::ZipError);

/// The number of entries in the central directory of the zip container
/// `bytes`; nothing where `bytes` is no zip container.
pub uninterp spec fn zip_entry_count(bytes: Seq<u8>) -> Option<nat>;

/// Name of entry `i` of the zip container `bytes`, whether it is a
/// directory and whether it is a plain file; nothing where the zip library
/// cannot give the entry's name.
pub uninterp spec fn zip_entry_info(bytes: Seq<u8>, i: int) -> Option<(Seq<char>, bool, bool)>;

/// The uncompressed payload of entry `i` of the zip container `bytes`;
/// nothing where the zip library cannot read it.
pub uninterp spec fn zip_entry_data(bytes: Seq<u8>, i: int) -> Option<Seq<u8>>;

/// The bytes that an opened container was opened on.
pub uninterp spec fn container_source(archive: zip::ZipArchive<std::io::Cursor<Vec<u8>>>) -> Seq<u8>;

/// What the zip library tells of one entry without reading its payload.
#[derive(Debug, Clone, PartialEq, Eq)]
pub struct MemberInfo {
    pub name: String,
    pub is_dir: bool,
    pub is_file: bool,
}

/// Calls `zip::ZipArchive::new` on a cursor over `bytes`. Whether that
/// succeeds is a function of the bytes; the opened container remembers them.
#[verifier::external_body]
fn open_container(bytes: Vec<u8>) -> (r: Result<
    zip::ZipArchive<std::io::Cursor<Vec<u8>>>,
    zip::result::ZipError,
>)
    ensures
        match r {
            Ok(archive) => container_source(archive) == bytes@ && zip_entry_count(bytes@) is Some,
            Err(_) => zip_entry_count(bytes@) is None,
        },
{
    zip::ZipArchive::new(std::io::Cursor::new(bytes))
}

/// Calls `zip::ZipArchive::len`: the number of entries of the container.
#[verifier::external_body]
fn container_len(archive: &zip::ZipArchive<std::io::Cursor<Vec<u8>>>) -> (n: usize)
    ensures
        zip_entry_count(container_source(*archive)) == Some(n as nat),
{
    archive.len()
}

/// Calls `zip::ZipArchive::by_index_data` and, on the entry, `name`,
/// `is_dir` and `is_file`. The answer is a function of the container's
/// bytes and the index.
#[verifier::external_body]
fn member_info(archive: &zip::ZipArchive<std::io::Cursor<Vec<u8>>>, i: usize) -> (r: Result<
    MemberInfo,
    zip::result::ZipError,
>)
    ensures
        match r {
            Ok(info) => zip_entry_info(container_source(*archive), i as int) == Some(
                (info.name@, info.is_dir, info.is_file),
            ),
            Err(_) => zip_entry_info(container_source(*archive), i as int) is None,
        },
{
    let entry = archive.by_index_data(i)?;
    let name = entry.name()?.into_owned();
    Ok(MemberInfo { name, is_dir: entry.is_dir(), is_file: entry.is_file() })
}

/// Calls `zip::ZipArchive::by_index` and reads the entry to its end. The
/// payload is a function of the container's bytes and the index; reading
/// does not change what the container was opened on.
#[verifier::external_body]
fn member_data(archive: &mut zip::ZipArchive<std::io::Cursor<Vec<u8>>>, i: usize) -> (r: Result<
    Vec<u8>,
    zip::result::ZipError,
>)
    ensures
        container_source(*final(archive)) == container_source(*old(archive)),
        match r {
            Ok(data) => zip_entry_data(container_source(*old(archive)), i as int) == Some(data@),
            Err(_) => zip_entry_data(container_source(*old(archive)), i as int) is None,
        },
{
    let mut entry = archive.by_index(i)?;
    let mut data = Vec::new();
    entry.read_to_end(&mut data)?;
    Ok(data)
}

/// One member of an archive: its name, what kind of entry it is, and its
/// payload where that could be read.
#[derive(Debug, Clone, PartialEq, Eq)]
pub struct ArchiveMember {
    pub name: String,
    pub is_dir: bool,
    pub is_file: bool,
    pub data: Option<Vec<u8>>,
}

/// A member as plain values.
pub struct MemberView {
    pub name: Seq<char>,
    pub is_dir: bool,
    pub is_file: bool,
    pub data: Option<Seq<u8>>,
}

/// The view of a payload that may be missing.
pub open spec fn data_option(d: Option<Vec<u8>>) -> Option<Seq<u8>> {
    match d {
        Some(v) => Some(v@),
        None => None,
    }
}

impl View for ArchiveMember {
    type V = MemberView;

    open spec fn view(&self) -> MemberView {
        MemberView {
            name: self.name@,
            is_dir: self.is_dir,
            is_file: self.is_file,
            data: data_option(self.data),
        }
    }
}

/// The views of a sequence of members.
pub open spec fn member_views(s: Seq<ArchiveMember>) -> Seq<MemberView> {
    s.map_values(|m: ArchiveMember| m@)
}

/// The members of an archive in the order of its central directory, and
/// the positions of the entries that were left out because their names
/// could not be read.
#[derive(Debug, Clone, PartialEq, Eq)]
pub struct Archive {
    pub members: Vec<ArchiveMember>,
    pub skipped: Vec<usize>,
}

/// An archive as plain values.
pub struct ArchiveView {
    pub members: Seq<MemberView>,
    pub skipped: Seq<usize>,
}

impl View for Archive {
    type V = ArchiveView;

    open spec fn view(&self) -> ArchiveView {
        ArchiveView { members: member_views(self.members@), skipped: self.skipped@ }
    }
}

/// Entry `i` of the zip container `bytes` as a member; nothing where its
/// name cannot be read.
pub open spec fn container_member(bytes: Seq<u8>, i: int) -> Option<MemberView> {
    match zip_entry_info(bytes, i) {
        Some(info) => Some(
            MemberView {
                name: info.0,
                is_dir: info.1,
                is_file: info.2,
                data: zip_entry_data(bytes, i),
            },
        ),
        None => None,
    }
}

/// The members among the first `n` entries of the zip container `bytes`.
pub open spec fn container_members(bytes: Seq<u8>, n: nat) -> Seq<MemberView>
    decreases n,
{
    if n == 0 {
        Seq::<MemberView>::empty()
    } else {
        match container_member(bytes, n - 1) {
            Some(m) => container_members(bytes, (n - 1) as nat).push(m),
            None => container_members(bytes, (n - 1) as nat),
        }
    }
}

/// The positions, among the first `n` entries of the zip container
/// `bytes`, of the entries whose names cannot be read.
pub open spec fn container_skipped(bytes: Seq<u8>, n: nat) -> Seq<usize>
    decreases n,
{
    if n == 0 {
        Seq::<usize>::empty()
    } else {
        match container_member(bytes, n - 1) {
            Some(_) => container_skipped(bytes, (n - 1) as nat),
            None => container_skipped(bytes, (n - 1) as nat).push((n - 1) as usize),
        }
    }
}

/// What reading `bytes` as an archive gives: its members and skipped
/// entries, or `ArchiveFormat` where `bytes` is no zip container.
pub open spec fn archive_of(bytes: Seq<u8>) -> Result<ArchiveView, DeckError> {
    match zip_entry_count(bytes) {
        Some(n) => Ok(
            ArchiveView {
                members: container_members(bytes, n),
                skipped: container_skipped(bytes, n),
            },
        ),
        None => Err(DeckError::ArchiveFormat),
    }
}

/// The view of the outcome of reading an archive.
pub open spec fn archive_result(r: Result<Archive, DeckError>) -> Result<ArchiveView, DeckError> {
    match r {
        Ok(a) => Ok(a@),
        Err(e) => Err(e),
    }
}

/// Reads `bytes` as a zip container and enumerates its members once, with
/// their payloads. An entry whose name cannot be read is left out and its
/// position recorded; a payload that cannot be read is recorded as missing.
pub fn read_archive(bytes: &[u8]) -> (r: Result<Archive, DeckError>)
    ensures
        archive_result(r) == archive_of(bytes@),
{
    let mut archive = match open_container(slice_to_vec(bytes)) {
        Ok(a) => a,
        Err(_) => {
            return Err(DeckError::ArchiveFormat);
        },
    };
    let n = container_len(&archive);
    let mut members: Vec<ArchiveMember> = Vec::new();
    let mut skipped: Vec<usize> = Vec::new();
    let mut i: usize = 0;
    while i < n
        invariant
            i <= n,
            container_source(archive) == bytes@,
            member_views(members@) == container_members(bytes@, i as nat),
            skipped@ == container_skipped(bytes@, i as nat),
        decreases n - i,
    {
        let ghost before = member_views(members@);
        match member_info(&archive, i) {
            Ok(info) => {
                let data = match member_data(&mut archive, i) {
                    Ok(d) => Some(d),
                    Err(_) => None,
                };
                members.push(
                    ArchiveMember {
                        name: info.name,
                        is_dir: info.is_dir,
                        is_file: info.is_file,
                        data,
                    },
                );
                assert(member_views(members@) =~= before.push(
                    container_member(bytes@, i as int).unwrap(),
                ));
            },
            Err(_) => {
                skipped.push(i);
            },
        }
        i += 1;
    }
    Ok(Archive { members, skipped })
}

/// Which generation an archive belongs to.
#[derive(Debug, Clone, Copy, PartialEq, Eq, Structural)]
pub enum ArchiveVariant {
    /// The collection is stored compressed, in the modern layout.
    CompressedModern,
    /// The collection is stored as it is, under the modern name.
    UncompressedModern,
    /// The collection is stored as it is, under the legacy name.
    Legacy,
}

/// The name of the member that holds the collection of an archive of generation `v`.
pub open spec fn collection_name(v: ArchiveVariant) -> Seq<char> {
    match v {
        ArchiveVariant::CompressedModern => "collection.anki21b"@,
        ArchiveVariant::UncompressedModern => "collection.anki21"@,
        ArchiveVariant::Legacy => "collection.anki2"@,
    }
}

/// The label of the generation `v`.
pub open spec fn variant_label(v: ArchiveVariant) -> Seq<char> {
    match v {
        ArchiveVariant::CompressedModern => "anki21b"@,
        ArchiveVariant::UncompressedModern => "anki21"@,
        ArchiveVariant::Legacy => "anki2"@,
    }
}

/// The names of a sequence of members.
pub open spec fn member_names(members: Seq<MemberView>) -> Seq<Seq<char>> {
    members.map_values(|m: MemberView| m.name)
}

/// Whether a member of `members` is named `name`.
pub open spec fn has_member(members: Seq<MemberView>, name: Seq<char>) -> bool {
    first_index(member_names(members), name) is Some
}

/// The generation of an archive with the members `members`: compressed
/// modern where the compressed collection is there; else uncompressed
/// modern where the modern collection is there; else legacy where the
/// legacy collection is there; else none.
pub open spec fn classified(members: Seq<MemberView>) -> Option<ArchiveVariant> {
    if has_member(members, collection_name(ArchiveVariant::CompressedModern)) {
        Some(ArchiveVariant::CompressedModern)
    } else if has_member(members, collection_name(ArchiveVariant::UncompressedModern)) {
        Some(ArchiveVariant::UncompressedModern)
    } else if has_member(members, collection_name(ArchiveVariant::Legacy)) {
        Some(ArchiveVariant::Legacy)
    } else {
        None
    }
}

impl ArchiveVariant {
    /// The name of the member that holds the collection.
    pub fn collection(&self) -> (name: &'static str)
        ensures
            name@ == collection_name(*self),
    {
        match self {
            ArchiveVariant::CompressedModern => "collection.anki21b",
            ArchiveVariant::UncompressedModern => "collection.anki21",
            ArchiveVariant::Legacy => "collection.anki2",
        }
    }

    /// The label of the generation.
    pub fn label(&self) -> (name: &'static str)
        ensures
            name@ == variant_label(*self),
    {
        match self {
            ArchiveVariant::CompressedModern => "anki21b",
            ArchiveVariant::UncompressedModern => "anki21",
            ArchiveVariant::Legacy => "anki2",
        }
    }
}

/// The position of the first member named `name`.
pub fn find_member_named(members: &Vec<ArchiveMember>, name: &str) -> (r: Option<usize>)
    ensures
        match r {
            Some(i) => first_index(member_names(member_views(members@)), name@) == Some(i as int)
                && i < members.len(),
            None => first_index(member_names(member_views(members@)), name@) is None,
        },
{
    let ghost names = member_names(member_views(members@));
    let mut i: usize = 0;
    while i < members.len()
        invariant
            i <= members.len(),
            names == member_names(member_views(members@)),
            forall|j: int| 0 <= j < i ==> names[j] != name@,
        decreases members.len() - i,
    {
        if same_text(members[i].name.as_str(), name) {
            proof {
                lemma_first_index_found(names, name@, i as int);
            }
            return Some(i);
        }
        i += 1;
    }
    proof {
        lemma_first_index_absent(names, name@);
    }
    None
}

/// Classifies an archive by the collection members it holds. It fails
/// with `ArchiveFormat` exactly where it holds none of the three.
pub fn classify_variant(archive: &Archive) -> (r: Result<ArchiveVariant, DeckError>)
    ensures
        match classified(archive@.members) {
            Some(v) => r == Ok::<ArchiveVariant, DeckError>(v),
            None => r == Err::<ArchiveVariant, DeckError>(DeckError::ArchiveFormat),
        },
{
    if find_member_named(&archive.members, ArchiveVariant::CompressedModern.collection()).is_some() {
        Ok(ArchiveVariant::CompressedModern)
    } else if find_member_named(
        &archive.members,
        ArchiveVariant::UncompressedModern.collection(),
    ).is_some() {
        Ok(ArchiveVariant::UncompressedModern)
    } else if find_member_named(&archive.members, ArchiveVariant::Legacy.collection()).is_some() {
        Ok(ArchiveVariant::Legacy)
    } else {
        Err(DeckError::ArchiveFormat)
    }
}

/// The compressed collection decides alone: with it the archive is
/// compressed modern, whatever else it holds. Without it and without the
/// modern collection, the legacy collection makes the archive legacy.
pub proof fn lemma_variant_priority(members: Seq<MemberView>)
    ensures
        has_member(members, collection_name(ArchiveVariant::CompressedModern)) ==> classified(
            members,
        ) == Some(ArchiveVariant::CompressedModern),
        !has_member(members, collection_name(ArchiveVariant::CompressedModern)) && !has_member(
            members,
            collection_name(ArchiveVariant::UncompressedModern),
        ) && has_member(members, collection_name(ArchiveVariant::Legacy)) ==> classified(members)
            == Some(ArchiveVariant::Legacy),
{
}

} // verus!
