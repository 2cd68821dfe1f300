use crate::archive::Archive;
use crate::archive::MemberView;
use crate::json::json_document;
use crate::json::parse_json;
use crate::json::Json;
use crate::json::Member;
use crate::search::matches_within;
use crate::search::occurs_at;
use crate::seek::first_index;
use crate::seek::last_index;
use crate::seek::lemma_last_index_absent;
use crate::seek::lemma_last_index_found;
use crate::seek::lemma_first_index;
use crate::seek::lemma_first_index_absent;
use crate::seek::lemma_first_index_found;
use crate::archive::find_member_named;
use crate::archive::member_names;
use crate::model::Note;
use crate::refs::collect_field_refs;
use crate::refs::field_refs;
use crate::schema::contains_text;
use crate::text::chars_of;
use crate::text::same_text;
use crate::text::split_on;
use crate::text::split_text;
use crate::text::texts;
use vstd::prelude::*;
use vstd::slice::slice_to_vec;
use vstd::utf8::decode_utf8;
use vstd::utf8::valid_utf8;

verus! {

/// One line of the media index: the numeric name under which the archive
/// stores a media file, and the file's logical name.
#[derive(Debug, Clone, PartialEq, Eq)]
pub struct MediaEntry {
    pub id: String,
    pub filename: String,
}

/// The media index of an archive. No id occurs twice; a file name may.
#[derive(Debug, PartialEq, Eq)]
pub struct MediaIndex {
    entries: Vec<MediaEntry>,
}

/// The views of a sequence of index lines.
pub open spec fn entry_views(entries: Seq<MediaEntry>) -> Seq<(Seq<char>, Seq<char>)> {
    entries.map_values(|e: MediaEntry| (e.id@, e.filename@))
}

/// The ids of a sequence of index lines.
pub open spec fn entry_ids(entries: Seq<(Seq<char>, Seq<char>)>) -> Seq<Seq<char>> {
    entries.map_values(|e: (Seq<char>, Seq<char>)| e.0)
}

/// `entries` with `filename` recorded for `id`: in place of what was
/// recorded for `id` before, or at the end where nothing was.
pub open spec fn upsert(entries: Seq<(Seq<char>, Seq<char>)>, id: Seq<char>, filename: Seq<char>) -> Seq<
    (Seq<char>, Seq<char>),
> {
    match first_index(entry_ids(entries), id) {
        Some(i) => entries.update(i, (id, filename)),
        None => entries.push((id, filename)),
    }
}

/// No id occurs twice in `entries`.
pub open spec fn unique_ids(entries: Seq<(Seq<char>, Seq<char>)>) -> bool {
    forall|i: int, j: int|
        0 <= i < entries.len() && 0 <= j < entries.len() && i != j ==> entries[i].0 != entries[j].0
}

/// The file name recorded for `id`.
pub open spec fn filename_of(entries: Seq<(Seq<char>, Seq<char>)>, id: Seq<char>) -> Option<
    Seq<char>,
> {
    match first_index(entry_ids(entries), id) {
        Some(i) => Some(entries[i].1),
        None => None,
    }
}

/// The file names of a sequence of index lines.
pub open spec fn entry_filenames(entries: Seq<(Seq<char>, Seq<char>)>) -> Seq<Seq<char>> {
    entries.map_values(|e: (Seq<char>, Seq<char>)| e.1)
}

/// The id recorded for the file name `filename`: that of the last line
/// with that file name.
pub open spec fn id_of(entries: Seq<(Seq<char>, Seq<char>)>, filename: Seq<char>) -> Option<
    Seq<char>,
> {
    match last_index(entry_filenames(entries), filename) {
        Some(i) => Some(entries[i].0),
        None => None,
    }
}

impl MediaIndex {
    /// The lines of the index as pairs of id and file name.
    pub closed spec fn view(self) -> Seq<(Seq<char>, Seq<char>)> {
        entry_views(self.entries@)
    }

    /// No id occurs twice: this holds of every index.
    #[verifier::type_invariant]
    spec fn unique(self) -> bool {
        unique_ids(self@)
    }

    /// No id occurs twice.
    pub open spec fn wf(self) -> bool {
        unique_ids(self@)
    }

    /// An index without lines.
    pub fn new() -> (index: MediaIndex)
        ensures
            index@ == Seq::<(Seq<char>, Seq<char>)>::empty(),
            index.wf(),
    {
        let index = MediaIndex { entries: Vec::new() };
        assert(index@ =~= Seq::<(Seq<char>, Seq<char>)>::empty());
        index
    }

    /// The lines of the index, in the order in which their ids were first recorded.
    pub fn entries(&self) -> (lines: &Vec<MediaEntry>)
        ensures
            entry_views(lines@) == self@,
            self.wf(),
    {
        proof {
            use_type_invariant(self);
        }
        &self.entries
    }

    /// The position of the line for `id`.
    pub fn position(&self, id: &str) -> (r: Option<usize>)
        ensures
            match r {
                Some(i) => first_index(entry_ids(self@), id@) == Some(i as int) && i < self@.len(),
                None => first_index(entry_ids(self@), id@) is None,
            },
    {
        let ghost ids = entry_ids(self@);
        let mut i: usize = 0;
        while i < self.entries.len()
            invariant
                i <= self.entries.len(),
                ids == entry_ids(self@),
                forall|j: int| 0 <= j < i ==> ids[j] != id@,
            decreases self.entries.len() - i,
        {
            if same_text(self.entries[i].id.as_str(), id) {
                proof {
                    lemma_first_index_found(ids, id@, i as int);
                }
                return Some(i);
            }
            i += 1;
        }
        proof {
            lemma_first_index_absent(ids, id@);
        }
        None
    }

    /// The file name recorded for `id`.
    pub fn filename(&self, id: &str) -> (r: Option<&String>)
        ensures
            match r {
                Some(name) => filename_of(self@, id@) == Some(name@),
                None => filename_of(self@, id@) is None,
            },
    {
        match self.position(id) {
            Some(i) => Some(&self.entries[i].filename),
            None => None,
        }
    }

    /// The id recorded for the file name `filename`; of several, the last.
    pub fn id(&self, filename: &str) -> (r: Option<&String>)
        ensures
            match r {
                Some(id) => id_of(self@, filename@) == Some(id@),
                None => id_of(self@, filename@) is None,
            },
    {
        let ghost names = entry_filenames(self@);
        let mut i: usize = self.entries.len();
        while i > 0
            invariant
                i <= self.entries.len(),
                names == entry_filenames(self@),
                forall|j: int| i <= j < self.entries.len() ==> names[j] != filename@,
            decreases i,
        {
            i -= 1;
            if same_text(self.entries[i].filename.as_str(), filename) {
                proof {
                    lemma_last_index_found(names, filename@, i as int);
                }
                return Some(&self.entries[i].id);
            }
        }
        proof {
            lemma_last_index_absent(names, filename@);
        }
        None
    }

    /// Records `filename` for `id`; what was recorded for `id` before is replaced.
    pub fn insert(&mut self, id: String, filename: String)
        ensures
            final(self)@ == upsert(old(self)@, id@, filename@),
            final(self).wf(),
    {
        let ghost before = self@;
        proof {
            use_type_invariant(&*self);
            lemma_upsert_unique(before, id@, filename@);
        }
        let found = self.position(id.as_str());
        let mut lines: Vec<MediaEntry> = Vec::new();
        std::mem::swap(&mut lines, &mut self.entries);
        match found {
            Some(i) => {
                lines.set(i, MediaEntry { id, filename });
                assert(entry_views(lines@) =~= before.update(i as int, (id@, filename@)));
            },
            None => {
                lines.push(MediaEntry { id, filename });
                assert(entry_views(lines@) =~= before.push((id@, filename@)));
            },
        }
        self.entries = lines;
    }
}

impl Clone for MediaIndex {
    /// A copy of the index, line by line.
    fn clone(&self) -> (copy: MediaIndex)
        ensures
            copy@ == self@,
    {
        proof {
            use_type_invariant(self);
        }
        let mut lines: Vec<MediaEntry> = Vec::new();
        let mut i: usize = 0;
        while i < self.entries.len()
            invariant
                i <= self.entries.len(),
                lines@.len() == i,
                forall|j: int|
                    0 <= j < i ==> lines@[j].id@ == self.entries@[j].id@ && lines@[j].filename@
                        == self.entries@[j].filename@,
            decreases self.entries.len() - i,
        {
            lines.push(
                MediaEntry {
                    id: self.entries[i].id.clone(),
                    filename: self.entries[i].filename.clone(),
                },
            );
            i += 1;
        }
        assert(entry_views(lines@) =~= entry_views(self.entries@));
        MediaIndex { entries: lines }
    }
}

/// Recording a file name keeps the ids unique.
pub proof fn lemma_upsert_unique(entries: Seq<(Seq<char>, Seq<char>)>, id: Seq<char>, filename: Seq<char>)
    requires
        unique_ids(entries),
    ensures
        unique_ids(upsert(entries, id, filename)),
{
    lemma_first_index(entry_ids(entries), id);
    let after = upsert(entries, id, filename);
    assert forall|i: int, j: int|
        0 <= i < after.len() && 0 <= j < after.len() && i != j implies after[i].0 != after[j].0 by {
        match first_index(entry_ids(entries), id) {
            Some(k) => {
                assert(entry_ids(entries)[k] == entries[k].0);
            },
            None => {
                if i < entries.len() {
                    assert(entry_ids(entries)[i] == entries[i].0);
                }
                if j < entries.len() {
                    assert(entry_ids(entries)[j] == entries[j].0);
                }
            },
        }
    }
}

/// The lines that the members of an index document give: one for each
/// member whose value is a string, a later member with the same key
/// replacing the earlier one.
pub open spec fn index_entries(members: Seq<Member>) -> Seq<(Seq<char>, Seq<char>)>
    decreases members.len(),
{
    if members.len() == 0 {
        Seq::<(Seq<char>, Seq<char>)>::empty()
    } else {
        let init = index_entries(members.drop_last());
        match members.last().value.text() {
            Some(filename) => upsert(init, members.last().key@, filename),
            None => init,
        }
    }
}

/// The media index that an index document holds; empty where the
/// document is no object.
pub open spec fn index_of_document(doc: Json) -> Seq<(Seq<char>, Seq<char>)> {
    match doc.members() {
        Some(members) => index_entries(members),
        None => Seq::<(Seq<char>, Seq<char>)>::empty(),
    }
}

/// The media index that the text of the index member holds; empty where
/// the text is no JSON document.
pub open spec fn index_of_text(text: Seq<char>) -> Seq<(Seq<char>, Seq<char>)> {
    match json_document(text) {
        Some(doc) => index_of_document(doc),
        None => Seq::<(Seq<char>, Seq<char>)>::empty(),
    }
}

/// Reads the media index out of an index document.
pub fn media_index_of(doc: &Json) -> (index: MediaIndex)
    ensures
        index@ == index_of_document(*doc),
        index.wf(),
{
    let mut index = MediaIndex::new();
    match doc.as_object() {
        Some(members) => {
            let mut i: usize = 0;
            assert(members@.take(0).len() == 0);
            while i < members.len()
                invariant
                    i <= members.len(),
                    index.wf(),
                    index@ == index_entries(members@.take(i as int)),
                decreases members.len() - i,
            {
                assert(members@.take(i + 1).drop_last() == members@.take(i as int));
                assert(members@.take(i + 1).last() == members@[i as int]);
                match members[i].value.as_text() {
                    Some(filename) => {
                        index.insert(members[i].key.clone(), filename.clone());
                    },
                    None => {},
                }
                i += 1;
            }
            assert(members@.take(i as int) == members@);
        },
        None => {},
    }
    index
}

/// Reads the media index out of the text of the index member. A text that
/// is no JSON object gives the empty index.
pub fn parse_media_index(text: &str) -> (index: MediaIndex)
    ensures
        index@ == index_of_text(text@),
        index.wf(),
{
    match parse_json(text) {
        Some(doc) => media_index_of(&doc),
        None => MediaIndex::new(),
    }
}

/// The text that `String::from_utf8_lossy` makes of `bytes`.
pub uninterp spec fn lossy_decoded(bytes: Seq<u8>) -> Seq<char>;

/// Calls `String::from_utf8_lossy`: the text that the bytes encode, with
/// a replacement character for whatever is not UTF-8. The text is a
/// function of the bytes; for bytes that are UTF-8 it is what they encode.
#[verifier::external_body]
fn lossy_text(bytes: &[u8]) -> (r: String)
    ensures
        r@ == lossy_decoded(bytes@),
        valid_utf8(bytes@) ==> r@ == decode_utf8(bytes@),
{
    String::from_utf8_lossy(bytes).into_owned()
}

/// The name of the member that holds the media index.
pub open spec fn index_member() -> Seq<char> {
    "media"@
}

/// The media index of an archive with the members `members`: what the
/// member named `media` holds, where it is a plain file whose payload
/// could be read; else empty.
pub open spec fn index_of_archive(members: Seq<MemberView>) -> Seq<(Seq<char>, Seq<char>)> {
    match first_index(member_names(members), index_member()) {
        Some(i) => match members[i].data {
            Some(data) => if members[i].is_file {
                index_of_text(lossy_decoded(data))
            } else {
                Seq::<(Seq<char>, Seq<char>)>::empty()
            },
            None => Seq::<(Seq<char>, Seq<char>)>::empty(),
        },
        None => Seq::<(Seq<char>, Seq<char>)>::empty(),
    }
}

/// How the media index of an archive was found.
#[derive(Debug, Clone, Copy, PartialEq, Eq, Structural)]
pub enum IndexStatus {
    /// The archive has no index member that is a plain file.
    Absent,
    /// The payload of the index member could not be read.
    Unreadable,
    /// The index member does not hold a JSON object.
    Malformed,
    /// The index was read.
    Read,
}

/// How the media index of an archive with the members `members` is found.
pub open spec fn index_status_of(members: Seq<MemberView>) -> IndexStatus {
    match first_index(member_names(members), index_member()) {
        Some(i) => match members[i].data {
            Some(data) => if !members[i].is_file {
                IndexStatus::Absent
            } else {
                match json_document(lossy_decoded(data)) {
                    Some(doc) => if doc.members() is Some {
                        IndexStatus::Read
                    } else {
                        IndexStatus::Malformed
                    },
                    None => IndexStatus::Malformed,
                }
            },
            None => if members[i].is_file {
                IndexStatus::Unreadable
            } else {
                IndexStatus::Absent
            },
        },
        None => IndexStatus::Absent,
    }
}

/// Reads the media index of an archive and says how it was found. An
/// index that is absent, unreadable or malformed is an empty one.
pub fn read_media_index(archive: &Archive) -> (r: (MediaIndex, IndexStatus))
    ensures
        r.0@ == index_of_archive(archive@.members),
        r.0.wf(),
        r.1 == index_status_of(archive@.members),
        r.1 != IndexStatus::Read ==> r.0@.len() == 0,
{
    match find_member_named(&archive.members, "media") {
        Some(i) => {
            if !archive.members[i].is_file {
                return (MediaIndex::new(), IndexStatus::Absent);
            }
            match &archive.members[i].data {
                Some(data) => {
                    let text = lossy_text(data.as_slice());
                    match parse_json(text.as_str()) {
                        Some(doc) => {
                            let status = if doc.as_object().is_some() {
                                IndexStatus::Read
                            } else {
                                IndexStatus::Malformed
                            };
                            (media_index_of(&doc), status)
                        },
                        None => (MediaIndex::new(), IndexStatus::Malformed),
                    }
                },
                None => (MediaIndex::new(), IndexStatus::Unreadable),
            }
        },
        None => (MediaIndex::new(), IndexStatus::Absent),
    }
}

/// Reads the media index of an archive. A missing index is an empty one.
pub fn archive_media_index(archive: &Archive) -> (index: MediaIndex)
    ensures
        index@ == index_of_archive(archive@.members),
        index.wf(),
{
    read_media_index(archive).0
}

/// Which media files to materialize.
#[derive(Debug, Clone, Copy, PartialEq, Eq, Structural)]
pub enum MediaMode {
    /// Every file of the media index.
    Full,
    /// Only the files that a note refers to.
    Referenced,
}

/// A media file under its logical name.
#[derive(Debug, Clone, PartialEq, Eq)]
pub struct MediaFile {
    pub filename: String,
    pub data: Vec<u8>,
}

/// The media files to write, in the order of the archive; the logical
/// names of the files that were wanted but could not be read; and the
/// logical names that were wanted but are no safe path.
#[derive(Debug, Clone, PartialEq, Eq)]
pub struct MediaSelection {
    pub files: Vec<MediaFile>,
    pub unreadable: Vec<String>,
    pub rejected: Vec<String>,
}

/// A selection as plain values.
pub struct SelectionView {
    pub files: Seq<(Seq<char>, Seq<u8>)>,
    pub unreadable: Seq<Seq<char>>,
    pub rejected: Seq<Seq<char>>,
}

/// The views of a sequence of media files.
pub open spec fn file_views(files: Seq<MediaFile>) -> Seq<(Seq<char>, Seq<u8>)> {
    files.map_values(|f: MediaFile| (f.filename@, f.data@))
}

impl View for MediaSelection {
    type V = SelectionView;

    open spec fn view(&self) -> SelectionView {
        SelectionView {
            files: file_views(self.files@),
            unreadable: texts(self.unreadable@),
            rejected: texts(self.rejected@),
        }
    }
}

/// What starts the name of a collection member.
pub open spec fn collection_prefix() -> Seq<char> {
    "collection."@
}

/// Whether a member name is never that of a media file: a directory, a
/// collection, the metadata member or the media index.
pub open spec fn is_reserved(name: Seq<char>) -> bool {
    ||| (name.len() > 0 && name.last() == '/')
    ||| occurs_at(name, collection_prefix(), 0)
    ||| name == "meta"@
    ||| name == index_member()
}

/// Whether `path` can be written below a directory without leaving it:
/// it is not empty, does not start at the root, holds no NUL character,
/// and none of its components is `..`.
pub open spec fn safe_relative(path: Seq<char>) -> bool {
    &&& path.len() > 0
    &&& path[0] != '/'
    &&& !path.contains('\0')
    &&& !split_on(path, '/').contains(seq!['.', '.'])
}

/// Whether `path` can be written below a directory without leaving it.
pub fn is_safe_relative(path: &str) -> (r: bool)
    ensures
        r == safe_relative(path@),
{
    let cs = chars_of(path);
    if cs.len() == 0 || cs[0] == '/' {
        return false;
    }
    let mut i: usize = 0;
    while i < cs.len()
        invariant
            i <= cs.len(),
            cs@ == path@,
            forall|j: int| 0 <= j < i ==> cs@[j] != '\0',
        decreases cs.len() - i,
    {
        if cs[i] == '\0' {
            return false;
        }
        i += 1;
    }
    let parts = split_text(path, '/');
    proof {
        reveal_strlit("..");
        assert(".."@ =~= seq!['.', '.']);
    }
    let mut k: usize = 0;
    while k < parts.len()
        invariant
            k <= parts.len(),
            texts(parts@) == split_on(path@, '/'),
            ".."@ == seq!['.', '.'],
            forall|j: int| 0 <= j < k ==> texts(parts@)[j] != seq!['.', '.'],
        decreases parts.len() - k,
    {
        if same_text(parts[k].as_str(), "..") {
            assert(texts(parts@)[k as int] == seq!['.', '.']);
            return false;
        }
        k += 1;
    }
    true
}

/// Whether the file named `filename` is to be materialized: always in
/// full mode, and in referenced mode where `refs` holds its name.
pub open spec fn is_wanted(mode: MediaMode, refs: Seq<Seq<char>>, filename: Seq<char>) -> bool {
    mode == MediaMode::Full || refs.contains(filename)
}

/// The logical name under which member `m` is to be materialized, if it is.
pub open spec fn target_of(
    m: MemberView,
    index: Seq<(Seq<char>, Seq<char>)>,
    mode: MediaMode,
    refs: Seq<Seq<char>>,
) -> Option<Seq<char>> {
    if is_reserved(m.name) {
        None
    } else {
        match filename_of(index, m.name) {
            Some(filename) => if is_wanted(mode, refs, filename) {
                Some(filename)
            } else {
                None
            },
            None => None,
        }
    }
}

/// The media files to write for the members `members`, in their order:
/// the payload of every member that is wanted, under its logical name,
/// where that name is a safe path and the payload could be read.
pub open spec fn media_files_of(
    members: Seq<MemberView>,
    index: Seq<(Seq<char>, Seq<char>)>,
    mode: MediaMode,
    refs: Seq<Seq<char>>,
) -> Seq<(Seq<char>, Seq<u8>)>
    decreases members.len(),
{
    if members.len() == 0 {
        Seq::<(Seq<char>, Seq<u8>)>::empty()
    } else {
        let init = media_files_of(members.drop_last(), index, mode, refs);
        match (target_of(members.last(), index, mode, refs), members.last().data) {
            (Some(filename), Some(data)) => if safe_relative(filename) {
                init.push((filename, data))
            } else {
                init
            },
            _ => init,
        }
    }
}

/// The logical names of the wanted files that are safe paths but whose
/// payload is missing, in the order of the members.
pub open spec fn media_unreadable_of(
    members: Seq<MemberView>,
    index: Seq<(Seq<char>, Seq<char>)>,
    mode: MediaMode,
    refs: Seq<Seq<char>>,
) -> Seq<Seq<char>>
    decreases members.len(),
{
    if members.len() == 0 {
        Seq::<Seq<char>>::empty()
    } else {
        let init = media_unreadable_of(members.drop_last(), index, mode, refs);
        match (target_of(members.last(), index, mode, refs), members.last().data) {
            (Some(filename), None) => if safe_relative(filename) {
                init.push(filename)
            } else {
                init
            },
            _ => init,
        }
    }
}

/// The logical names of the wanted files that are no safe paths, in the
/// order of the members.
pub open spec fn media_rejected_of(
    members: Seq<MemberView>,
    index: Seq<(Seq<char>, Seq<char>)>,
    mode: MediaMode,
    refs: Seq<Seq<char>>,
) -> Seq<Seq<char>>
    decreases members.len(),
{
    if members.len() == 0 {
        Seq::<Seq<char>>::empty()
    } else {
        let init = media_rejected_of(members.drop_last(), index, mode, refs);
        match target_of(members.last(), index, mode, refs) {
            Some(filename) => if safe_relative(filename) {
                init
            } else {
                init.push(filename)
            },
            None => init,
        }
    }
}

/// Whether a member name is never that of a media file.
pub fn is_reserved_name(name: &str) -> (r: bool)
    ensures
        r == is_reserved(name@),
{
    let cs = chars_of(name);
    let prefix = chars_of("collection.");
    let n: usize = cs.len();
    assert(cs@.take(n as int) == cs@);
    (n > 0 && cs[n - 1] == '/') || matches_within(&cs, &prefix, 0, n) || same_text(name, "meta")
        || same_text(name, "media")
}

/// Chooses the media files to materialize: for every member of the
/// archive that the index names and that is wanted in `mode`, its payload
/// under its logical name. A wanted file whose name is no safe path, or
/// whose payload could not be read, is left out and its name recorded.
pub fn select_media(archive: &Archive, index: &MediaIndex, mode: MediaMode, refs: &Vec<String>) -> (r:
    MediaSelection)
    ensures
        r@.files == media_files_of(archive@.members, index@, mode, texts(refs@)),
        r@.unreadable == media_unreadable_of(archive@.members, index@, mode, texts(refs@)),
        r@.rejected == media_rejected_of(archive@.members, index@, mode, texts(refs@)),
{
    let ghost members = archive@.members;
    let mut files: Vec<MediaFile> = Vec::new();
    let mut unreadable: Vec<String> = Vec::new();
    let mut rejected: Vec<String> = Vec::new();
    let mut i: usize = 0;
    assert(members.take(0).len() == 0);
    assert(file_views(files@) =~= Seq::<(Seq<char>, Seq<u8>)>::empty());
    assert(texts(unreadable@) =~= Seq::<Seq<char>>::empty());
    assert(texts(rejected@) =~= Seq::<Seq<char>>::empty());
    while i < archive.members.len()
        invariant
            i <= archive.members.len(),
            members == archive@.members,
            file_views(files@) == media_files_of(members.take(i as int), index@, mode, texts(refs@)),
            texts(unreadable@) == media_unreadable_of(
                members.take(i as int),
                index@,
                mode,
                texts(refs@),
            ),
            texts(rejected@) == media_rejected_of(
                members.take(i as int),
                index@,
                mode,
                texts(refs@),
            ),
        decreases archive.members.len() - i,
    {
        let m = &archive.members[i];
        let ghost files_before = file_views(files@);
        let ghost unreadable_before = texts(unreadable@);
        let ghost rejected_before = texts(rejected@);
        proof {
            assert(members.take(i + 1).drop_last() == members.take(i as int));
            assert(members.take(i + 1).last() == m@);
        }
        let target: Option<&String> = if is_reserved_name(m.name.as_str()) {
            None
        } else {
            match index.filename(m.name.as_str()) {
                Some(filename) => if mode == MediaMode::Full || contains_text(
                    refs,
                    filename.as_str(),
                ) {
                    Some(filename)
                } else {
                    None
                },
                None => None,
            }
        };
        match target {
            Some(filename) => {
                if !is_safe_relative(filename.as_str()) {
                    rejected.push(filename.clone());
                    assert(texts(rejected@) =~= rejected_before.push(filename@));
                } else {
                    match &m.data {
                        Some(data) => {
                            files.push(
                                MediaFile {
                                    filename: filename.clone(),
                                    data: slice_to_vec(data.as_slice()),
                                },
                            );
                            assert(file_views(files@) =~= files_before.push((filename@, data@)));
                        },
                        None => {
                            unreadable.push(filename.clone());
                            assert(texts(unreadable@) =~= unreadable_before.push(filename@));
                        },
                    }
                }
            },
            None => {},
        }
        i += 1;
    }
    assert(members.take(i as int) == members);
    MediaSelection { files, unreadable, rejected }
}

/// Whether `name` may be chosen: it is a safe path, the name of a file
/// of the index and, in referenced mode, named by a note.
pub open spec fn may_be_chosen(
    name: Seq<char>,
    index: Seq<(Seq<char>, Seq<char>)>,
    mode: MediaMode,
    refs: Seq<Seq<char>>,
) -> bool {
    &&& safe_relative(name)
    &&& exists|e: int| 0 <= e < index.len() && index[e].1 == name
    &&& mode == MediaMode::Referenced ==> refs.contains(name)
}

/// Every file that is chosen has a safe path for a name, is a file of the
/// index, and, in referenced mode, is named by a note.
pub proof fn lemma_media_files(
    members: Seq<MemberView>,
    index: Seq<(Seq<char>, Seq<char>)>,
    mode: MediaMode,
    refs: Seq<Seq<char>>,
)
    ensures
        forall|k: int|
            0 <= k < media_files_of(members, index, mode, refs).len() ==> may_be_chosen(
                (#[trigger] media_files_of(members, index, mode, refs)[k]).0,
                index,
                mode,
                refs,
            ),
    decreases members.len(),
{
    if members.len() > 0 {
        let init = members.drop_last();
        lemma_media_files(init, index, mode, refs);
        let last = members.last();
        let files = media_files_of(members, index, mode, refs);
        let before = media_files_of(init, index, mode, refs);
        assert forall|k: int| 0 <= k < files.len() implies may_be_chosen(
            (#[trigger] files[k]).0,
            index,
            mode,
            refs,
        ) by {
            if k < before.len() {
                assert(files[k] == before[k]);
            } else {
                let filename = target_of(last, index, mode, refs).unwrap();
                assert(files[k].0 == filename);
                lemma_first_index(entry_ids(index), last.name);
                let e = first_index(entry_ids(index), last.name).unwrap();
                assert(index[e].1 == filename);
            }
        }
    }
}

/// Whatever is chosen in referenced mode is chosen in full mode too, in
/// the same order: the referenced files are the full files that a note names.
pub proof fn lemma_referenced_within_full(
    members: Seq<MemberView>,
    index: Seq<(Seq<char>, Seq<char>)>,
    refs: Seq<Seq<char>>,
)
    ensures
        media_files_of(members, index, MediaMode::Referenced, refs) == media_files_of(
            members,
            index,
            MediaMode::Full,
            refs,
        ).filter(|f: (Seq<char>, Seq<u8>)| refs.contains(f.0)),
    decreases members.len(),
{
    let p = |f: (Seq<char>, Seq<u8>)| refs.contains(f.0);
    let full = media_files_of(members, index, MediaMode::Full, refs);
    reveal(Seq::filter);
    if members.len() == 0 {
        assert(full.filter(p) =~= Seq::<(Seq<char>, Seq<u8>)>::empty());
    } else {
        let init = members.drop_last();
        lemma_referenced_within_full(init, index, refs);
        let full_init = media_files_of(init, index, MediaMode::Full, refs);
        if full.len() > full_init.len() {
            assert(full.drop_last() =~= full_init);
        }
    }
}

/// The media file names that the field values of `notes` refer to, note by note.
pub open spec fn note_refs(notes: Seq<Note>) -> Seq<Seq<char>>
    decreases notes.len(),
{
    if notes.len() == 0 {
        Seq::<Seq<char>>::empty()
    } else {
        note_refs(notes.drop_last()) + field_refs(texts(notes.last().flds@))
    }
}

/// Scans every field value of every note for media references.
pub fn referenced_names(notes: &Vec<Note>) -> (out: Vec<String>)
    ensures
        texts(out@) == note_refs(notes@),
{
    let mut out: Vec<String> = Vec::new();
    let mut i: usize = 0;
    assert(notes@.take(0).len() == 0);
    assert(texts(out@) =~= Seq::<Seq<char>>::empty());
    while i < notes.len()
        invariant
            i <= notes.len(),
            texts(out@) == note_refs(notes@.take(i as int)),
        decreases notes.len() - i,
    {
        assert(notes@.take(i + 1).drop_last() == notes@.take(i as int));
        assert(notes@.take(i + 1).last() == notes@[i as int]);
        collect_field_refs(&notes[i].flds, &mut out);
        i += 1;
    }
    assert(notes@.take(i as int) == notes@);
    out
}

} // verus!
