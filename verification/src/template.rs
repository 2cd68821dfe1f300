use crate::json::json_document;
use crate::json::parse_json;
use crate::json::Json;
use crate::model::CardExt;
use crate::model::DeckError;
use crate::model::NoteRow;
use crate::model::NotetypeExt;
use crate::model::NotetypeView;
use crate::model::ResolvedView;
use crate::model::SingleNoteResult;
use crate::model::StoreRows;
use crate::notes::assemble_note;
use crate::notes::assembled_note;
use crate::notes::fields_for;
use crate::notes::find_notetype;
use crate::notes::notetype_for;
use crate::notes::select_fields;
use crate::schema::adapt_schema;
use crate::schema::array_under;
use crate::schema::copy_text_option;
use crate::schema::schema_of;
use crate::schema::template_views;
use crate::schema::text_or_empty;
use crate::schema::Schema;
use crate::schema::SchemaView;
use crate::schema::TemplateDef;
use crate::schema::TemplateView;
use crate::seek::first_index;
use crate::seek::lemma_first_index_absent;
use crate::seek::lemma_first_index_found;
use crate::search::find_first;
use crate::search::find_in;
use crate::text::same_text;
use crate::text::chars_of;
use crate::text::slice_text;
use crate::text::trim_bounds;
use crate::text::trimmed;
use vstd::prelude::*;

verus! {

/// Two line feeds in a row: where a combined template text is cut.
pub open spec fn blank_line() -> Seq<char> {
    seq!['\n', '\n']
}

/// The question part and the answer part of a combined template text: what
/// stands before the first blank line, and what stands after it. A text
/// without a blank line is all question.
pub open spec fn template_parts(text: Seq<char>) -> (Seq<char>, Seq<char>) {
    match find_first(text, blank_line()) {
        Some(at) => (text.take(at), text.skip(at + 2)),
        None => (text, Seq::<char>::empty()),
    }
}

/// Cuts a combined template text into its question and answer parts.
pub fn split_template(text: &str) -> (r: (String, String))
    ensures
        (r.0@, r.1@) == template_parts(text@),
{
    let cs = chars_of(text);
    let needle = chars_of("\n\n");
    proof {
        reveal_strlit("\n\n");
        assert(needle@ =~= blank_line());
        assert(blank_line().len() == 2);
    }
    match find_in(&cs, &needle) {
        Some(at) => {
            let end: usize = cs.len();
            let front = slice_text(text, 0, at);
            let back = slice_text(text, at + 2, end);
            (front, back)
        },
        None => {
            let front = slice_text(text, 0, cs.len());
            assert(front@ == text@);
            (front, String::new())
        },
    }
}

/// The text that ends a legacy stylesheet: what follows it is no style.
pub open spec fn trailing_marker() -> Seq<char> {
    "\\documentclass"@
}

/// The text under `css` of a structured configuration; empty where there is none.
pub open spec fn document_css(doc: Json) -> Seq<char> {
    match doc.member_text("css"@) {
        Some(css) => css,
        None => Seq::<char>::empty(),
    }
}

/// The stylesheet in a raw configuration text: the text up to the trailing
/// marker, or all of it, without the white space at its ends.
pub open spec fn raw_css(config: Seq<char>) -> Seq<char> {
    match find_first(config, trailing_marker()) {
        Some(at) => trimmed(config.take(at)),
        None => trimmed(config),
    }
}

/// The stylesheet of a note type's configuration, `doc` being what the
/// configuration holds as a JSON document, if it is one.
pub open spec fn stylesheet_of(config: Seq<char>, doc: Option<Json>) -> Seq<char> {
    match doc {
        Some(d) => document_css(d),
        None => raw_css(config),
    }
}

/// The stylesheet in a raw configuration text.
pub fn raw_stylesheet(config: &str) -> (css: String)
    ensures
        css@ == raw_css(config@),
{
    let cs = chars_of(config);
    let marker = chars_of("\\documentclass");
    let limit: usize = match find_in(&cs, &marker) {
        Some(at) => at,
        None => cs.len(),
    };
    assert(cs@.take(cs.len() as int) == cs@);
    let (a, b) = trim_bounds(&cs, limit);
    slice_text(config, a, b)
}

/// The stylesheet of a configuration whose JSON reading is `doc`.
pub fn stylesheet_from(config: &str, doc: &Option<Json>) -> (css: String)
    ensures
        css@ == stylesheet_of(config@, *doc),
{
    match doc {
        Some(d) => match d.get_text("css") {
            Some(css) => css.clone(),
            None => String::new(),
        },
        None => raw_stylesheet(config),
    }
}

/// The stylesheet of a note type's configuration: the `css` property where
/// the configuration is a JSON document, else the raw text up to the
/// trailing marker.
pub fn stylesheet(config: &str) -> (css: String)
    ensures
        css@ == stylesheet_of(config@, json_document(config@)),
{
    let doc = parse_json(config);
    stylesheet_from(config, &doc)
}

/// The ids of a sequence of note rows.
pub open spec fn note_ids(notes: Seq<NoteRow>) -> Seq<i64> {
    notes.map_values(|n: NoteRow| n.id)
}

/// The note ids of a sequence of cards.
pub open spec fn card_notes(cards: Seq<CardExt>) -> Seq<i64> {
    cards.map_values(|c: CardExt| c.nid)
}

/// Note type and ordinal of each template of a sequence.
pub open spec fn template_keys(templates: Seq<TemplateView>) -> Seq<(i64, i64)> {
    templates.map_values(|t: TemplateView| (t.notetype_id, t.ord))
}

/// The first template of note type `ntid` with ordinal `ord`; where there
/// is none, the first template of that note type with ordinal 0.
pub open spec fn template_for(templates: Seq<TemplateView>, ntid: i64, ord: i64) -> Option<
    TemplateView,
> {
    match first_index(template_keys(templates), (ntid, ord)) {
        Some(i) => Some(templates[i]),
        None => match first_index(template_keys(templates), (ntid, 0i64)) {
            Some(i) => Some(templates[i]),
            None => None,
        },
    }
}

/// The question and answer formats that the schema holds for note type
/// `ntid` and ordinal `ord`; both empty where it holds no template.
pub open spec fn base_formats(templates: Seq<TemplateView>, ntid: i64, ord: i64) -> (
    Seq<char>,
    Seq<char>,
) {
    match template_for(templates, ntid, ord) {
        Some(t) => (t.front, t.back),
        None => (Seq::<char>::empty(), Seq::<char>::empty()),
    }
}

/// A template with the ordinal asked for is taken: the first of them.
pub proof fn lemma_template_exact(templates: Seq<TemplateView>, ntid: i64, ord: i64, i: int)
    requires
        0 <= i < templates.len(),
        templates[i].notetype_id == ntid && templates[i].ord == ord,
        forall|j: int|
            0 <= j < i ==> !(templates[j].notetype_id == ntid && templates[j].ord == ord),
    ensures
        base_formats(templates, ntid, ord) == (templates[i].front, templates[i].back),
{
    lemma_first_index_found(template_keys(templates), (ntid, ord), i);
}

/// Where no template of the note type has the ordinal asked for, the
/// formats are those of its first template with ordinal 0.
pub proof fn lemma_template_fallback(templates: Seq<TemplateView>, ntid: i64, ord: i64, i: int)
    requires
        forall|j: int|
            0 <= j < templates.len() ==> !(templates[j].notetype_id == ntid && templates[j].ord
                == ord),
        0 <= i < templates.len(),
        templates[i].notetype_id == ntid && templates[i].ord == 0,
        forall|j: int| 0 <= j < i ==> !(templates[j].notetype_id == ntid && templates[j].ord == 0),
    ensures
        base_formats(templates, ntid, ord) == (templates[i].front, templates[i].back),
{
    lemma_first_index_absent(template_keys(templates), (ntid, ord));
    lemma_first_index_found(template_keys(templates), (ntid, 0i64), i);
}

/// The element of `items` at position `ord`; where there is none, the first element.
pub open spec fn picked_item(items: Seq<Json>, ord: i64) -> Option<Json> {
    if 0 <= ord < items.len() {
        Some(items[ord as int])
    } else if items.len() > 0 {
        Some(items[0])
    } else {
        None
    }
}

/// The formats that a structured configuration holds for ordinal `ord`
/// under `tpls`, and `base` where it holds none.
pub open spec fn config_formats(doc: Json, ord: i64, base: (Seq<char>, Seq<char>)) -> (
    Seq<char>,
    Seq<char>,
) {
    match picked_item(array_under(doc, "tpls"@), ord) {
        Some(t) => (text_or_empty(t.member_text("qfmt"@)), text_or_empty(t.member_text("afmt"@))),
        None => base,
    }
}

/// Question format, answer format and stylesheet for a note type with
/// configuration `config`, whose JSON reading is `doc`: the formats of the
/// configuration where it holds any, else `base`; the stylesheet of the
/// configuration.
pub open spec fn formats_of(
    config: Seq<char>,
    doc: Option<Json>,
    ord: i64,
    base: (Seq<char>, Seq<char>),
) -> (Seq<char>, Seq<char>, Seq<char>) {
    let formats = match doc {
        Some(d) => config_formats(d, ord, base),
        None => base,
    };
    (formats.0, formats.1, stylesheet_of(config, doc))
}

/// Question format, answer format and stylesheet for a note whose note
/// type has the configuration `config`, if it has one.
pub open spec fn resolved_formats(
    config: Option<Seq<char>>,
    ord: i64,
    base: (Seq<char>, Seq<char>),
) -> (Seq<char>, Seq<char>, Seq<char>) {
    match config {
        Some(c) => formats_of(c, json_document(c), ord, base),
        None => (base.0, base.1, Seq::<char>::empty()),
    }
}

/// The configuration of a note type that may be missing.
pub open spec fn config_of(notetype: Option<NotetypeView>) -> Option<Seq<char>> {
    match notetype {
        Some(t) => t.config,
        None => None,
    }
}

/// The note `note_id` resolved against `schema`. The ordinal is that of
/// the first card of the note, 0 where it has none. There is no result
/// where no note has that id, nor, unless `modern`, where no card has it.
pub open spec fn resolved_in(rows: StoreRows, schema: SchemaView, note_id: i64, modern: bool) -> Option<
    ResolvedView,
> {
    let card = first_index(card_notes(rows.cards@), note_id);
    match first_index(note_ids(rows.notes@), note_id) {
        None => None,
        Some(n) => if !modern && card is None {
            None
        } else {
            let row = rows.notes@[n];
            let ord = match card {
                Some(c) => rows.cards@[c].ord,
                None => 0i64,
            };
            let notetype = notetype_for(schema.notetypes, row.mid);
            let formats = resolved_formats(
                config_of(notetype),
                ord,
                base_formats(schema.templates, row.mid, ord),
            );
            Some(
                ResolvedView {
                    note: assembled_note(row, schema),
                    notetype,
                    fields: fields_for(schema.fields, row.mid),
                    ord,
                    front: formats.0,
                    back: formats.1,
                    css: formats.2,
                },
            )
        },
    }
}

/// The label of the archive generation whose stores have the modern layout.
pub open spec fn modern_label() -> Seq<char> {
    "anki21b"@
}

/// The note `note_id` of a store resolved for display.
pub open spec fn resolved_note(rows: StoreRows, note_id: i64, version: Seq<char>) -> Option<
    ResolvedView,
> {
    resolved_in(rows, schema_of(rows), note_id, version == modern_label())
}

/// The position of the first note with id `id`.
pub fn find_note(notes: &Vec<NoteRow>, id: i64) -> (r: Option<usize>)
    ensures
        match r {
            Some(i) => first_index(note_ids(notes@), id) == Some(i as int) && i < notes.len(),
            None => first_index(note_ids(notes@), id) is None,
        },
{
    let mut i: usize = 0;
    while i < notes.len()
        invariant
            i <= notes.len(),
            forall|j: int| 0 <= j < i ==> note_ids(notes@)[j] != id,
        decreases notes.len() - i,
    {
        if notes[i].id == id {
            proof {
                lemma_first_index_found(note_ids(notes@), id, i as int);
            }
            return Some(i);
        }
        i += 1;
    }
    proof {
        lemma_first_index_absent(note_ids(notes@), id);
    }
    None
}

/// The position of the first card of note `nid`.
pub fn find_card(cards: &Vec<CardExt>, nid: i64) -> (r: Option<usize>)
    ensures
        match r {
            Some(i) => first_index(card_notes(cards@), nid) == Some(i as int) && i < cards.len(),
            None => first_index(card_notes(cards@), nid) is None,
        },
{
    let mut i: usize = 0;
    while i < cards.len()
        invariant
            i <= cards.len(),
            forall|j: int| 0 <= j < i ==> card_notes(cards@)[j] != nid,
        decreases cards.len() - i,
    {
        if cards[i].nid == nid {
            proof {
                lemma_first_index_found(card_notes(cards@), nid, i as int);
            }
            return Some(i);
        }
        i += 1;
    }
    proof {
        lemma_first_index_absent(card_notes(cards@), nid);
    }
    None
}

/// The position of the first template of note type `ntid` with ordinal `ord`.
pub fn find_template(templates: &Vec<TemplateDef>, ntid: i64, ord: i64) -> (r: Option<usize>)
    ensures
        match r {
            Some(i) => first_index(template_keys(template_views(templates@)), (ntid, ord)) == Some(
                i as int,
            ) && i < templates.len(),
            None => first_index(template_keys(template_views(templates@)), (ntid, ord)) is None,
        },
{
    let ghost keys = template_keys(template_views(templates@));
    let mut i: usize = 0;
    while i < templates.len()
        invariant
            i <= templates.len(),
            keys == template_keys(template_views(templates@)),
            forall|j: int| 0 <= j < i ==> keys[j] != (ntid, ord),
        decreases templates.len() - i,
    {
        if templates[i].notetype_id == ntid && templates[i].ord == ord {
            proof {
                lemma_first_index_found(keys, (ntid, ord), i as int);
            }
            return Some(i);
        }
        i += 1;
    }
    proof {
        lemma_first_index_absent(keys, (ntid, ord));
    }
    None
}

/// The formats that the schema holds for note type `ntid` and ordinal
/// `ord`, falling back to ordinal 0.
pub fn template_formats(templates: &Vec<TemplateDef>, ntid: i64, ord: i64) -> (r: (String, String))
    ensures
        (r.0@, r.1@) == base_formats(template_views(templates@), ntid, ord),
{
    let found = match find_template(templates, ntid, ord) {
        Some(i) => Some(i),
        None => find_template(templates, ntid, 0),
    };
    match found {
        Some(i) => (templates[i].front.clone(), templates[i].back.clone()),
        None => (String::new(), String::new()),
    }
}

/// The element of `items` at position `ord`, falling back to the first.
pub fn pick_item(items: &Vec<Json>, ord: i64) -> (r: Option<&Json>)
    ensures
        match r {
            Some(item) => picked_item(items@, ord) == Some(*item),
            None => picked_item(items@, ord) is None,
        },
{
    if ord >= 0 && (ord as u64) < (items.len() as u64) {
        Some(&items[ord as usize])
    } else if items.len() > 0 {
        Some(&items[0])
    } else {
        None
    }
}

/// An owned copy of the text under `key` of `item`; empty where there is none.
fn text_under(item: &Json, key: &str) -> (r: String)
    ensures
        r@ == text_or_empty(item.member_text(key@)),
{
    match item.get_text(key) {
        Some(s) => s.clone(),
        None => String::new(),
    }
}

/// Question format, answer format and stylesheet for a note type with
/// configuration `config`, whose JSON reading is `doc`.
pub fn formats_from(config: &str, doc: &Option<Json>, ord: i64, base: (String, String)) -> (r: (
    String,
    String,
    String,
))
    ensures
        (r.0@, r.1@, r.2@) == formats_of(config@, *doc, ord, (base.0@, base.1@)),
{
    let css = stylesheet_from(config, doc);
    let picked = match doc {
        Some(d) => match d.get("tpls") {
            Some(v) => match v.as_array() {
                Some(items) => pick_item(items, ord),
                None => None,
            },
            None => None,
        },
        None => None,
    };
    match picked {
        Some(t) => (text_under(t, "qfmt"), text_under(t, "afmt"), css),
        None => (base.0, base.1, css),
    }
}

/// An owned copy of a note type.
pub fn copy_notetype(t: &NotetypeExt) -> (r: NotetypeExt)
    ensures
        r@ == t@,
{
    NotetypeExt { id: t.id, name: t.name.clone(), config: copy_text_option(&t.config) }
}

/// Resolves the note `note_id` against a schema that was read before.
pub fn resolve_in(rows: &StoreRows, schema: &Schema, note_id: i64, modern: bool) -> (r: Result<
    SingleNoteResult,
    DeckError,
>)
    ensures
        match resolved_in(*rows, schema@, note_id, modern) {
            Some(v) => r is Ok && r.unwrap()@ == v,
            None => r == Err::<SingleNoteResult, DeckError>(DeckError::NotFound),
        },
{
    let card = find_card(&rows.cards, note_id);
    let n = match find_note(&rows.notes, note_id) {
        Some(n) => n,
        None => {
            return Err(DeckError::NotFound);
        },
    };
    if !modern && card.is_none() {
        return Err(DeckError::NotFound);
    }
    let row = &rows.notes[n];
    let ord: i64 = match card {
        Some(c) => rows.cards[c].ord,
        None => 0,
    };
    let notetype = match find_notetype(&schema.notetypes, row.mid) {
        Some(i) => Some(copy_notetype(&schema.notetypes[i])),
        None => None,
    };
    let base = template_formats(&schema.templates, row.mid, ord);
    let formats = match &notetype {
        Some(t) => match &t.config {
            Some(c) => {
                let doc = parse_json(c.as_str());
                formats_from(c.as_str(), &doc, ord, base)
            },
            None => (base.0, base.1, String::new()),
        },
        None => (base.0, base.1, String::new()),
    };
    Ok(
        SingleNoteResult {
            note: assemble_note(row, schema),
            notetype,
            fields: select_fields(&schema.fields, row.mid),
            ord,
            front: formats.0,
            back: formats.1,
            css: formats.2,
        },
    )
}

/// Resolves the note `note_id` of a store for display: the note joined
/// with its note type, the ordinal of its first card, the question and
/// answer formats for that ordinal and the stylesheet. `version` is the
/// label of the archive generation. The one failure is `NotFound`.
pub fn get_deck_note(rows: &StoreRows, note_id: i64, version: &str) -> (r: Result<
    SingleNoteResult,
    DeckError,
>)
    ensures
        match resolved_note(*rows, note_id, version@) {
            Some(v) => r is Ok && r.unwrap()@ == v,
            None => r == Err::<SingleNoteResult, DeckError>(DeckError::NotFound),
        },
{
    let schema = adapt_schema(rows);
    let modern = same_text(version, "anki21b");
    resolve_in(rows, &schema, note_id, modern)
}

} // verus!
