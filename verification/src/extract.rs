use crate::archive::archive_of;
use crate::archive::classified;
use crate::archive::classify_variant;
use crate::archive::read_archive;
use crate::archive::variant_label;
use crate::archive::Archive;
use crate::archive::ArchiveView;
use crate::digest::content_hash;
use crate::digest::hex_lower;
use crate::digest::md5_digest;
use crate::media::archive_media_index;
use crate::media::index_status_of;
use crate::media::read_media_index;
use crate::media::IndexStatus;
use crate::media::file_views;
use crate::media::index_of_archive;
use crate::media::media_files_of;
use crate::media::media_rejected_of;
use crate::media::media_unreadable_of;
use crate::media::note_refs;
use crate::media::referenced_names;
use crate::media::select_media;
use crate::media::MediaFile;
use crate::media::MediaIndex;
use crate::media::MediaMode;
use crate::media::MediaSelection;
use crate::media::SelectionView;
use crate::model::DeckError;
use crate::model::Note;
use crate::snapshot::decode_snapshot;
use crate::snapshot::snapshot_of;
use crate::text::chars_of;
use vstd::prelude::*;

verus! {

/// The summary of an extraction: the output directory, the content hash
/// of the archive, its media index and the label of its generation.
#[derive(Debug, Clone, PartialEq, Eq)]
pub struct ExtractResult {
    pub dir: String,
    pub md5: String,
    pub media_map: MediaIndex,
    pub version: String,
}

/// What an archive holds once read into memory: the notes handed in, the
/// media index and the media files chosen.
#[derive(Debug, Clone, PartialEq, Eq)]
pub struct ApkgParseResult {
    pub notes: Vec<Note>,
    pub media_map: MediaIndex,
    pub media_files: Vec<MediaFile>,
}

/// Everything to write for one archive: the summary; the members of the
/// container, to be written as they are below the output directory; the
/// bytes of the normalized store and the path to write them to; every
/// media file under its logical name and the directory to write them
/// below; and how the media index was found.
#[derive(Debug, Clone, PartialEq, Eq)]
pub struct Extraction {
    pub result: ExtractResult,
    pub archive: Archive,
    pub store: Vec<u8>,
    pub store_path: String,
    pub media: MediaSelection,
    pub media_dir: String,
    pub index_status: IndexStatus,
}

/// An extraction as plain values.
pub struct ExtractionView {
    pub dir: Seq<char>,
    pub md5: Seq<char>,
    pub media_map: Seq<(Seq<char>, Seq<char>)>,
    pub version: Seq<char>,
    pub archive: ArchiveView,
    pub store: Seq<u8>,
    pub store_path: Seq<char>,
    pub media: SelectionView,
    pub media_dir: Seq<char>,
    pub index_status: IndexStatus,
}

impl View for Extraction {
    type V = ExtractionView;

    open spec fn view(&self) -> ExtractionView {
        ExtractionView {
            dir: self.result.dir@,
            md5: self.result.md5@,
            media_map: self.result.media_map@,
            version: self.result.version@,
            archive: self.archive@,
            store: self.store@,
            store_path: self.store_path@,
            media: self.media@,
            media_dir: self.media_dir@,
            index_status: self.index_status,
        }
    }
}

/// The path of the entry `name` of the directory `base`.
pub open spec fn joined_path(base: Seq<char>, name: Seq<char>) -> Seq<char> {
    if base.len() == 0 {
        name
    } else if base.last() == '/' {
        base + name
    } else {
        base + seq!['/'] + name
    }
}

/// The path of the entry `name` of the directory `base`.
pub fn join_path(base: &str, name: &str) -> (path: String)
    ensures
        path@ == joined_path(base@, name@),
{
    let cs = chars_of(base);
    let n: usize = cs.len();
    let mut path = String::new();
    path.append(base);
    if n > 0 && cs[n - 1] != '/' {
        proof {
            reveal_strlit("/");
        }
        path.append("/");
        assert("/"@ =~= seq!['/']);
    }
    path.append(name);
    assert(path@ =~= joined_path(base@, name@));
    path
}

/// The name of the normalized store in the output directory.
pub open spec fn store_name() -> Seq<char> {
    "collection.sqlite"@
}

/// The name of the media directory in the output directory.
pub open spec fn media_name() -> Seq<char> {
    "unarchived_media"@
}

/// What extracting the archive `bytes` below `base_dir` gives. The
/// output directory is named by the content hash of the bytes; the
/// generation decides which member is the store and whether it is
/// decompressed; every file of the media index is chosen. It fails with
/// `ArchiveFormat` where the bytes are no zip container or hold no
/// collection, and with `Decompression` where the compressed collection
/// cannot be decompressed.
pub open spec fn extraction_of(bytes: Seq<u8>, base_dir: Seq<char>) -> Result<
    ExtractionView,
    DeckError,
> {
    match archive_of(bytes) {
        Ok(archive) => match classified(archive.members) {
            Some(variant) => match snapshot_of(archive.members, variant) {
                Ok(store) => {
                    let md5 = hex_lower(md5_digest(bytes));
                    let index = index_of_archive(archive.members);
                    let none = Seq::<Seq<char>>::empty();
                    let dir = joined_path(base_dir, md5);
                    Ok(
                        ExtractionView {
                            dir,
                            md5,
                            media_map: index,
                            version: variant_label(variant),
                            archive,
                            store,
                            store_path: joined_path(dir, store_name()),
                            media_dir: joined_path(dir, media_name()),
                            media: SelectionView {
                                files: media_files_of(
                                    archive.members,
                                    index,
                                    MediaMode::Full,
                                    none,
                                ),
                                unreadable: media_unreadable_of(
                                    archive.members,
                                    index,
                                    MediaMode::Full,
                                    none,
                                ),
                                rejected: media_rejected_of(
                                    archive.members,
                                    index,
                                    MediaMode::Full,
                                    none,
                                ),
                            },
                            index_status: index_status_of(archive.members),
                        },
                    )
                },
                Err(e) => Err(e),
            },
            None => Err(DeckError::ArchiveFormat),
        },
        Err(e) => Err(e),
    }
}

/// The view of the outcome of an extraction.
pub open spec fn extraction_result(r: Result<Extraction, DeckError>) -> Result<
    ExtractionView,
    DeckError,
> {
    match r {
        Ok(x) => Ok(x@),
        Err(e) => Err(e),
    }
}

/// Works out everything there is to write for the archive `bytes`
/// below `base_dir`. Nothing is written here: the caller purges the
/// output directory and writes what is handed out.
pub fn extract_apkg(bytes: &[u8], base_dir: &str) -> (r: Result<Extraction, DeckError>)
    ensures
        extraction_result(r) == extraction_of(bytes@, base_dir@),
        r matches Ok(x) ==> x.result.media_map.wf(),
{
    let archive = match read_archive(bytes) {
        Ok(a) => a,
        Err(e) => {
            return Err(e);
        },
    };
    let variant = match classify_variant(&archive) {
        Ok(v) => v,
        Err(e) => {
            return Err(e);
        },
    };
    let store = match decode_snapshot(&archive, variant) {
        Ok(s) => s,
        Err(e) => {
            return Err(e);
        },
    };
    let md5 = content_hash(bytes);
    let dir = join_path(base_dir, md5.as_str());
    let (index, index_status) = read_media_index(&archive);
    let none: Vec<String> = Vec::new();
    assert(crate::text::texts(none@) =~= Seq::<Seq<char>>::empty());
    let media = select_media(&archive, &index, MediaMode::Full, &none);
    let version = variant.label().to_owned();
    let store_path = join_path(dir.as_str(), "collection.sqlite");
    let media_dir = join_path(dir.as_str(), "unarchived_media");
    Ok(
        Extraction {
            result: ExtractResult { dir, md5, media_map: index, version },
            archive,
            store,
            store_path,
            media,
            media_dir,
            index_status,
        },
    )
}

/// Extraction depends on the bytes of the archive and the base
/// directory alone: the same input gives the same output.
pub proof fn lemma_extraction_repeatable(a: Seq<u8>, b: Seq<u8>, base_dir: Seq<char>)
    requires
        a == b,
    ensures
        extraction_of(a, base_dir) == extraction_of(b, base_dir),
{
}

/// Reads the media of an archive into memory for the notes `notes`: the
/// media index, and the media files that `mode` asks for, which in
/// referenced mode are those that a field value of a note refers to.
pub fn parse_apkg(archive: &Archive, notes: Vec<Note>, mode: MediaMode) -> (r: ApkgParseResult)
    ensures
        r.notes == notes,
        r.media_map@ == index_of_archive(archive@.members),
        r.media_map.wf(),
        file_views(r.media_files@) == media_files_of(
            archive@.members,
            index_of_archive(archive@.members),
            mode,
            note_refs(notes@),
        ),
{
    let index = archive_media_index(archive);
    let refs = referenced_names(&notes);
    let media = select_media(archive, &index, mode, &refs);
    ApkgParseResult { notes, media_map: index, media_files: media.files }
}

/// The greeting for `name`.
pub fn greet(name: &str) -> (out: String)
    ensures
        out@ == "Hello, "@ + name@ + "!"@,
{
    let mut out = String::new();
    out.append("Hello, ");
    out.append(name);
    out.append("!");
    assert(out@ =~= "Hello, "@ + name@ + "!"@);
    out
}

/// The number of notes that a count query gave: the number itself where
/// the query gave one that is not negative and fits, else 0.
pub open spec fn counted(queried: Option<i64>) -> usize {
    match queried {
        Some(n) => if 0 <= n <= usize::MAX {
            n as usize
        } else {
            0
        },
        None => 0,
    }
}

/// The number of notes of a store, `queried` being what the count query
/// gave, or nothing where the store could not be asked. Best effort: 0
/// on any failure.
pub fn get_card_count(queried: Option<i64>) -> (n: usize)
    ensures
        n == counted(queried),
{
    match queried {
        Some(v) => {
            if v >= 0 && (v as u64) <= (usize::MAX as u64) {
                v as usize
            } else {
                0
            }
        },
        None => 0,
    }
}

/// What was found at one candidate path of a deck's store.
#[derive(Debug, Clone, Copy, PartialEq, Eq, Structural)]
pub struct StoreProbe {
    pub exists: bool,
    pub queried: Option<i64>,
}

/// The directory below the application's documents that holds the decks.
pub open spec fn decks_directory() -> Seq<char> {
    "/anki_data/"@
}

/// The two candidate paths of the store of deck `md5`: the normalized
/// store first, the legacy collection second.
pub fn deck_store_paths(app_doc_dir: &str, md5: &str) -> (r: (String, String))
    ensures
        r.0@ == app_doc_dir@ + decks_directory() + md5@ + "/collection.sqlite"@,
        r.1@ == app_doc_dir@ + decks_directory() + md5@ + "/collection.anki2"@,
{
    let mut first = String::new();
    first.append(app_doc_dir);
    first.append("/anki_data/");
    first.append(md5);
    let mut second = first.clone();
    first.append("/collection.sqlite");
    second.append("/collection.anki2");
    (first, second)
}

/// The number of notes of a deck, given what was found at its two
/// candidate paths: that of the first path that exists, 0 where neither does.
pub fn get_card_count_from_deck(sqlite: StoreProbe, anki2: StoreProbe) -> (n: usize)
    ensures
        n == if sqlite.exists {
            counted(sqlite.queried)
        } else if anki2.exists {
            counted(anki2.queried)
        } else {
            0
        },
{
    if sqlite.exists {
        get_card_count(sqlite.queried)
    } else if anki2.exists {
        get_card_count(anki2.queried)
    } else {
        0
    }
}

} // verus!
