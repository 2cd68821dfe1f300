use crate::text::texts;
use vstd::prelude::*;

verus! {

/// A note as an archive stores it, with the name of its note type where known.
#[derive(Debug, Clone, PartialEq, Eq)]
pub struct Note {
    pub id: i64,
    pub guid: String,
    pub mid: i64,
    pub flds: Vec<String>,
    pub notetype_name: Option<String>,
}

/// A note joined with its note type: the name of the type and the names of
/// its fields in the order of their ordinals. Both are empty where the note
/// type is unknown.
#[derive(Debug, Clone, PartialEq, Eq)]
pub struct NoteExt {
    pub id: i64,
    pub guid: String,
    pub mid: i64,
    pub flds: Vec<String>,
    pub notetype_name: String,
    pub field_names: Vec<String>,
}

/// A note type: its id, its name and its raw configuration.
#[derive(Debug, Clone, PartialEq, Eq)]
pub struct NotetypeExt {
    pub id: i64,
    pub name: String,
    pub config: Option<String>,
}

/// A field definition of a note type.
#[derive(Debug, Clone, PartialEq, Eq)]
pub struct FieldExt {
    pub id: i64,
    pub notetype_id: i64,
    pub name: String,
    pub ord: i64,
}

/// A card: one per note and template ordinal.
#[derive(Debug, Clone, Copy, PartialEq, Eq, Structural)]
pub struct CardExt {
    pub id: i64,
    pub nid: i64,
    pub ord: i64,
    pub type_: i64,
    pub queue: i64,
    pub due: i64,
}

/// Everything a deck holds, in the version-agnostic form.
#[derive(Debug, Clone, PartialEq, Eq)]
pub struct DeckNotesResult {
    pub notes: Vec<NoteExt>,
    pub notetypes: Vec<NotetypeExt>,
    pub fields: Vec<FieldExt>,
    pub cards: Vec<CardExt>,
}

/// One note resolved for display: the note, its type and fields, the ordinal
/// of its card, the two template formats and the stylesheet.
#[derive(Debug, Clone, PartialEq, Eq)]
pub struct SingleNoteResult {
    pub note: NoteExt,
    pub notetype: Option<NotetypeExt>,
    pub fields: Vec<FieldExt>,
    pub ord: i64,
    pub front: String,
    pub back: String,
    pub css: String,
}

/// Why the library could not do what was asked.
#[derive(Debug, Clone, Copy, PartialEq, Eq, Structural)]
pub enum DeckError {
    /// The bytes are no zip container, or hold no readable collection.
    ArchiveFormat,
    /// The compressed collection could not be decompressed.
    Decompression,
    /// No note or card answers to the id.
    NotFound,
}

/// A row of the notes relation: the field values still joined.
#[derive(Debug, Clone, PartialEq, Eq)]
pub struct NoteRow {
    pub id: i64,
    pub guid: String,
    pub mid: i64,
    pub flds: String,
}

/// A row of the modern notetypes relation.
#[derive(Debug, Clone, PartialEq, Eq)]
pub struct NotetypeRow {
    pub id: i64,
    pub name: String,
    pub config: Option<String>,
}

/// A row of the modern fields relation.
#[derive(Debug, Clone, PartialEq, Eq)]
pub struct FieldRow {
    pub id: i64,
    pub ntid: i64,
    pub ord: i64,
    pub name: String,
}

/// A row of the modern templates relation.
#[derive(Debug, Clone, PartialEq, Eq)]
pub struct TemplateRow {
    pub ntid: i64,
    pub ord: i64,
    pub config: String,
}

/// What was read from a collection store, as plain rows.
///
/// `notetype_columns` holds the column names of the notetypes relation, and
/// is empty where the store has no such relation. `models` holds the legacy
/// metadata document, where the store has one.
#[derive(Debug, Clone, PartialEq, Eq)]
pub struct StoreRows {
    pub notes: Vec<NoteRow>,
    pub cards: Vec<CardExt>,
    pub notetype_columns: Vec<String>,
    pub notetypes: Vec<NotetypeRow>,
    pub fields: Vec<FieldRow>,
    pub templates: Vec<TemplateRow>,
    pub models: Option<String>,
}

/// The view of an optional text.
pub open spec fn text_option(t: Option<String>) -> Option<Seq<char>> {
    match t {
        Some(s) => Some(s@),
        None => None,
    }
}

/// A joined note as plain values.
pub struct NoteView {
    pub id: i64,
    pub guid: Seq<char>,
    pub mid: i64,
    pub flds: Seq<Seq<char>>,
    pub notetype_name: Seq<char>,
    pub field_names: Seq<Seq<char>>,
}

/// A note type as plain values.
pub struct NotetypeView {
    pub id: i64,
    pub name: Seq<char>,
    pub config: Option<Seq<char>>,
}

/// A field definition as plain values.
pub struct FieldView {
    pub id: i64,
    pub notetype_id: i64,
    pub name: Seq<char>,
    pub ord: i64,
}

/// A resolved note as plain values.
pub struct ResolvedView {
    pub note: NoteView,
    pub notetype: Option<NotetypeView>,
    pub fields: Seq<FieldView>,
    pub ord: i64,
    pub front: Seq<char>,
    pub back: Seq<char>,
    pub css: Seq<char>,
}

/// A deck as plain values.
pub struct DeckView {
    pub notes: Seq<NoteView>,
    pub notetypes: Seq<NotetypeView>,
    pub fields: Seq<FieldView>,
    pub cards: Seq<CardExt>,
}

impl View for NoteExt {
    type V = NoteView;

    open spec fn view(&self) -> NoteView {
        NoteView {
            id: self.id,
            guid: self.guid@,
            mid: self.mid,
            flds: texts(self.flds@),
            notetype_name: self.notetype_name@,
            field_names: texts(self.field_names@),
        }
    }
}

impl View for NotetypeExt {
    type V = NotetypeView;

    open spec fn view(&self) -> NotetypeView {
        NotetypeView { id: self.id, name: self.name@, config: text_option(self.config) }
    }
}

impl View for FieldExt {
    type V = FieldView;

    open spec fn view(&self) -> FieldView {
        FieldView { id: self.id, notetype_id: self.notetype_id, name: self.name@, ord: self.ord }
    }
}

/// The views of a sequence of joined notes.
pub open spec fn note_views(s: Seq<NoteExt>) -> Seq<NoteView> {
    s.map_values(|n: NoteExt| n@)
}

/// The views of a sequence of note types.
pub open spec fn notetype_views(s: Seq<NotetypeExt>) -> Seq<NotetypeView> {
    s.map_values(|n: NotetypeExt| n@)
}

/// The views of a sequence of field definitions.
pub open spec fn field_views(s: Seq<FieldExt>) -> Seq<FieldView> {
    s.map_values(|f: FieldExt| f@)
}

/// The view of an optional note type.
pub open spec fn notetype_option(n: Option<NotetypeExt>) -> Option<NotetypeView> {
    match n {
        Some(t) => Some(t@),
        None => None,
    }
}

impl View for SingleNoteResult {
    type V = ResolvedView;

    open spec fn view(&self) -> ResolvedView {
        ResolvedView {
            note: self.note@,
            notetype: notetype_option(self.notetype),
            fields: field_views(self.fields@),
            ord: self.ord,
            front: self.front@,
            back: self.back@,
            css: self.css@,
        }
    }
}

impl View for DeckNotesResult {
    type V = DeckView;

    open spec fn view(&self) -> DeckView {
        DeckView {
            notes: note_views(self.notes@),
            notetypes: notetype_views(self.notetypes@),
            fields: field_views(self.fields@),
            cards: self.cards@,
        }
    }
}

} // verus!
