use crate::model::field_views;
use crate::model::note_views;
use crate::model::notetype_views;
use crate::model::CardExt;
use crate::model::DeckNotesResult;
use crate::model::DeckView;
use crate::model::FieldExt;
use crate::model::FieldView;
use crate::model::Note;
use crate::model::text_option;
use crate::model::NoteExt;
use crate::model::NoteRow;
use crate::model::NoteView;
use crate::model::NotetypeExt;
use crate::model::NotetypeView;
use crate::model::StoreRows;
use crate::schema::adapt_schema;
use crate::schema::schema_of;
use crate::schema::Schema;
use crate::schema::SchemaView;
use crate::seek::first_index;
use crate::seek::lemma_first_index_absent;
use crate::seek::lemma_first_index_found;
use crate::text::split_on;
use crate::text::split_text;
use crate::text::texts;
use crate::text::FIELD_SEPARATOR;
use vstd::prelude::*;

verus! {

/// The ids of a sequence of note types.
pub open spec fn notetype_ids(notetypes: Seq<NotetypeView>) -> Seq<i64> {
    notetypes.map_values(|n: NotetypeView| n.id)
}

/// The first note type with id `id`.
pub open spec fn notetype_for(notetypes: Seq<NotetypeView>, id: i64) -> Option<NotetypeView> {
    match first_index(notetype_ids(notetypes), id) {
        Some(i) => Some(notetypes[i]),
        None => None,
    }
}

/// The name of the first note type with id `id`; empty where there is none.
pub open spec fn notetype_name(notetypes: Seq<NotetypeView>, id: i64) -> Seq<char> {
    match notetype_for(notetypes, id) {
        Some(n) => n.name,
        None => Seq::<char>::empty(),
    }
}

/// `sorted` with `f` put behind the last field whose ordinal is not above its own.
pub open spec fn insert_by_ord(sorted: Seq<FieldView>, f: FieldView) -> Seq<FieldView>
    decreases sorted.len(),
{
    if sorted.len() == 0 {
        seq![f]
    } else if sorted.last().ord <= f.ord {
        sorted.push(f)
    } else {
        insert_by_ord(sorted.drop_last(), f).push(sorted.last())
    }
}

/// The fields of note type `id` among `fields`, ordered by ordinal; fields
/// with the same ordinal keep the order in which they stand in `fields`.
pub open spec fn fields_for(fields: Seq<FieldView>, id: i64) -> Seq<FieldView>
    decreases fields.len(),
{
    if fields.len() == 0 {
        Seq::<FieldView>::empty()
    } else {
        let init = fields_for(fields.drop_last(), id);
        if fields.last().notetype_id == id {
            insert_by_ord(init, fields.last())
        } else {
            init
        }
    }
}

/// The names of a sequence of fields.
pub open spec fn field_names(fields: Seq<FieldView>) -> Seq<Seq<char>> {
    fields.map_values(|f: FieldView| f.name)
}

/// The ordinals of `s` never decrease.
pub open spec fn ordered(s: Seq<FieldView>) -> bool {
    forall|i: int, j: int| 0 <= i <= j < s.len() ==> s[i].ord <= s[j].ord
}

/// Inserting at the position that the ordinals call for.
proof fn lemma_insert_at(s: Seq<FieldView>, f: FieldView, k: int)
    requires
        0 <= k <= s.len(),
        forall|j: int| k <= j < s.len() ==> s[j].ord > f.ord,
        k > 0 ==> s[k - 1].ord <= f.ord,
    ensures
        insert_by_ord(s, f) == s.insert(k, f),
    decreases s.len() - k,
{
    if s.len() == 0 {
        assert(s.insert(k, f) =~= seq![f]);
    } else if k == s.len() {
        assert(s.insert(k, f) =~= s.push(f));
    } else {
        lemma_insert_at(s.drop_last(), f, k);
        assert(s.drop_last().insert(k, f).push(s.last()) =~= s.insert(k, f));
    }
}

/// Insertion keeps the ordinals in order, keeps what was there and adds
/// the one field.
pub proof fn lemma_insert_by_ord(s: Seq<FieldView>, f: FieldView)
    requires
        ordered(s),
    ensures
        ordered(insert_by_ord(s, f)),
        insert_by_ord(s, f).len() == s.len() + 1,
        insert_by_ord(s, f).to_multiset() == s.to_multiset().insert(f),
    decreases s.len(),
{
    broadcast use vstd::seq_lib::group_to_multiset_ensures;

    if s.len() == 0 {
        assert(s =~= Seq::<FieldView>::empty());
        assert(seq![f] =~= Seq::<FieldView>::empty().push(f));
    } else if s.last().ord <= f.ord {
    } else {
        let init = s.drop_last();
        lemma_insert_by_ord(init, f);
        let r = insert_by_ord(init, f);
        assert(s == init.push(s.last()));
        assert forall|i: int, j: int| 0 <= i <= j < r.push(s.last()).len() implies r.push(
            s.last(),
        )[i].ord <= r.push(s.last())[j].ord by {
            if j == r.len() {
                if i < r.len() {
                    assert(r.to_multiset().contains(r[i]));
                    if r[i] != f {
                        assert(init.to_multiset().contains(r[i]));
                        let w = choose|w: int| 0 <= w < init.len() && init[w] == r[i];
                        assert(s[w].ord <= s[s.len() - 1].ord);
                    }
                }
            }
        }
    }
}

/// The selected fields are in the order of their ordinals, all belong to
/// the note type asked for, and are exactly the fields of that note type.
pub proof fn lemma_fields_for(fields: Seq<FieldView>, id: i64)
    ensures
        ordered(fields_for(fields, id)),
        fields_for(fields, id).to_multiset() == fields.filter(
            |f: FieldView| f.notetype_id == id,
        ).to_multiset(),
    decreases fields.len(),
{
    broadcast use vstd::seq_lib::group_to_multiset_ensures;

    let p = |f: FieldView| f.notetype_id == id;
    if fields.len() == 0 {
        assert(fields.filter(p) =~= Seq::<FieldView>::empty());
    } else {
        let init = fields.drop_last();
        lemma_fields_for(init, id);
        assert(fields == init.push(fields.last()));
        Seq::filter_distributes_over_add(init, seq![fields.last()], p);
        assert(init + seq![fields.last()] =~= fields);
        reveal(Seq::filter);
        assert(seq![fields.last()].drop_last() =~= Seq::<FieldView>::empty());
        if fields.last().notetype_id == id {
            lemma_insert_by_ord(fields_for(init, id), fields.last());
            assert(seq![fields.last()].filter(p) =~= seq![fields.last()]);
            assert(init.filter(p) + seq![fields.last()] =~= init.filter(p).push(fields.last()));
        } else {
            assert(seq![fields.last()].filter(p) =~= Seq::<FieldView>::empty());
            assert(init.filter(p) + Seq::<FieldView>::empty() =~= init.filter(p));
        }
    }
}

/// The position of the first note type with id `id`.
pub fn find_notetype(notetypes: &Vec<NotetypeExt>, id: i64) -> (r: Option<usize>)
    ensures
        match r {
            Some(i) => first_index(notetype_ids(notetype_views(notetypes@)), id) == Some(i as int)
                && i < notetypes.len(),
            None => first_index(notetype_ids(notetype_views(notetypes@)), id) is None,
        },
{
    let ghost ids = notetype_ids(notetype_views(notetypes@));
    let mut i: usize = 0;
    while i < notetypes.len()
        invariant
            i <= notetypes.len(),
            ids == notetype_ids(notetype_views(notetypes@)),
            forall|j: int| 0 <= j < i ==> ids[j] != id,
        decreases notetypes.len() - i,
    {
        if notetypes[i].id == id {
            proof {
                lemma_first_index_found(ids, id, i as int);
            }
            return Some(i);
        }
        i += 1;
    }
    proof {
        lemma_first_index_absent(ids, id);
    }
    None
}

/// An owned copy of a field definition.
pub fn copy_field(f: &FieldExt) -> (r: FieldExt)
    ensures
        r@ == f@,
{
    FieldExt { id: f.id, notetype_id: f.notetype_id, name: f.name.clone(), ord: f.ord }
}

/// The fields of note type `id` among `fields`, ordered by ordinal.
pub fn select_fields(fields: &Vec<FieldExt>, id: i64) -> (out: Vec<FieldExt>)
    ensures
        field_views(out@) == fields_for(field_views(fields@), id),
{
    let ghost all = field_views(fields@);
    let mut out: Vec<FieldExt> = Vec::new();
    let mut i: usize = 0;
    assert(all.take(0).len() == 0);
    while i < fields.len()
        invariant
            i <= fields.len(),
            all == field_views(fields@),
            field_views(out@) == fields_for(all.take(i as int), id),
        decreases fields.len() - i,
    {
        assert(all.take(i + 1).drop_last() == all.take(i as int));
        assert(all.take(i + 1).last() == fields@[i as int]@);
        if fields[i].notetype_id == id {
            let f = copy_field(&fields[i]);
            let ghost before = field_views(out@);
            let mut k: usize = out.len();
            while k > 0 && out[k - 1].ord > f.ord
                invariant
                    k <= out.len(),
                    before == field_views(out@),
                    forall|j: int| k <= j < out.len() ==> before[j].ord > f.ord,
                decreases k,
            {
                k -= 1;
            }
            proof {
                lemma_insert_at(before, f@, k as int);
            }
            out.insert(k, f);
            assert(field_views(out@) =~= before.insert(k as int, f@));
        }
        i += 1;
    }
    assert(all.take(i as int) == all);
    out
}

/// The names of `fields`, in their order.
pub fn names_of_fields(fields: &Vec<FieldExt>) -> (out: Vec<String>)
    ensures
        texts(out@) == field_names(field_views(fields@)),
{
    let mut out: Vec<String> = Vec::new();
    let mut i: usize = 0;
    while i < fields.len()
        invariant
            i <= fields.len(),
            out@.len() == i,
            forall|j: int| 0 <= j < i ==> out@[j]@ == fields@[j].name@,
        decreases fields.len() - i,
    {
        out.push(fields[i].name.clone());
        i += 1;
    }
    assert(texts(out@) =~= field_names(field_views(fields@)));
    out
}

/// A note joined with its note type: its field values cut at the unit
/// separator, the name of its note type and the names of that type's
/// fields in the order of their ordinals. Name and field names are empty
/// where the schema does not know the note type.
pub open spec fn assembled_note(row: NoteRow, schema: SchemaView) -> NoteView {
    NoteView {
        id: row.id,
        guid: row.guid@,
        mid: row.mid,
        flds: split_on(row.flds@, FIELD_SEPARATOR),
        notetype_name: notetype_name(schema.notetypes, row.mid),
        field_names: field_names(fields_for(schema.fields, row.mid)),
    }
}

/// No field of a note type that has none.
pub proof fn lemma_no_fields(fields: Seq<FieldView>, id: i64)
    requires
        forall|i: int| 0 <= i < fields.len() ==> fields[i].notetype_id != id,
    ensures
        fields_for(fields, id) == Seq::<FieldView>::empty(),
    decreases fields.len(),
{
    if fields.len() > 0 {
        lemma_no_fields(fields.drop_last(), id);
    }
}

/// A note whose note type the schema does not know is still assembled:
/// with its own values, an empty name and no field names.
pub proof fn lemma_orphaned_note(row: NoteRow, schema: SchemaView)
    requires
        forall|i: int| 0 <= i < schema.notetypes.len() ==> schema.notetypes[i].id != row.mid,
        forall|i: int| 0 <= i < schema.fields.len() ==> schema.fields[i].notetype_id != row.mid,
    ensures
        assembled_note(row, schema).notetype_name == Seq::<char>::empty(),
        assembled_note(row, schema).field_names == Seq::<Seq<char>>::empty(),
        assembled_note(row, schema).flds == split_on(row.flds@, FIELD_SEPARATOR),
{
    lemma_first_index_absent(notetype_ids(schema.notetypes), row.mid);
    lemma_no_fields(schema.fields, row.mid);
    assert(field_names(Seq::<FieldView>::empty()) =~= Seq::<Seq<char>>::empty());
}

/// Joins one note with its note type.
pub fn assemble_note(row: &NoteRow, schema: &Schema) -> (note: NoteExt)
    ensures
        note@ == assembled_note(*row, schema@),
{
    let name = match find_notetype(&schema.notetypes, row.mid) {
        Some(i) => schema.notetypes[i].name.clone(),
        None => String::new(),
    };
    let fields = select_fields(&schema.fields, row.mid);
    NoteExt {
        id: row.id,
        guid: row.guid.clone(),
        mid: row.mid,
        flds: split_text(row.flds.as_str(), FIELD_SEPARATOR),
        notetype_name: name,
        field_names: names_of_fields(&fields),
    }
}

/// Whether `note` is the row `row` with its field values cut at the unit
/// separator and the name of its note type, where `schema` knows it.
pub open spec fn is_plain_note(note: Note, row: NoteRow, schema: SchemaView) -> bool {
    &&& note.id == row.id
    &&& note.guid@ == row.guid@
    &&& note.mid == row.mid
    &&& texts(note.flds@) == split_on(row.flds@, FIELD_SEPARATOR)
    &&& text_option(note.notetype_name) == match notetype_for(schema.notetypes, row.mid) {
        Some(n) => Some(n.name),
        None => None,
    }
}

/// The note of a row, with the name of its note type where the schema knows it.
pub fn plain_note(row: &NoteRow, schema: &Schema) -> (note: Note)
    ensures
        is_plain_note(note, *row, schema@),
{
    let name = match find_notetype(&schema.notetypes, row.mid) {
        Some(i) => Some(schema.notetypes[i].name.clone()),
        None => None,
    };
    Note {
        id: row.id,
        guid: row.guid.clone(),
        mid: row.mid,
        flds: split_text(row.flds.as_str(), FIELD_SEPARATOR),
        notetype_name: name,
    }
}

/// The notes of `rows`, in the order of the rows.
pub fn plain_notes(rows: &Vec<NoteRow>, schema: &Schema) -> (notes: Vec<Note>)
    ensures
        notes@.len() == rows@.len(),
        forall|i: int| 0 <= i < rows@.len() ==> is_plain_note(notes@[i], rows@[i], schema@),
{
    let mut notes: Vec<Note> = Vec::new();
    let mut i: usize = 0;
    while i < rows.len()
        invariant
            i <= rows.len(),
            notes@.len() == i,
            forall|j: int| 0 <= j < i ==> is_plain_note(notes@[j], rows@[j], schema@),
        decreases rows.len() - i,
    {
        notes.push(plain_note(&rows[i], schema));
        i += 1;
    }
    notes
}

/// Every note of `rows` joined with its note type, in the order of the rows.
pub open spec fn assembled_notes(rows: Seq<NoteRow>, schema: SchemaView) -> Seq<NoteView> {
    rows.map_values(|row: NoteRow| assembled_note(row, schema))
}

/// Joins every note with its note type. A note whose note type is unknown
/// is kept, with empty name and field names.
pub fn assemble_notes(rows: &Vec<NoteRow>, schema: &Schema) -> (notes: Vec<NoteExt>)
    ensures
        note_views(notes@) == assembled_notes(rows@, schema@),
{
    let mut notes: Vec<NoteExt> = Vec::new();
    let mut i: usize = 0;
    while i < rows.len()
        invariant
            i <= rows.len(),
            notes@.len() == i,
            forall|j: int| 0 <= j < i ==> notes@[j]@ == assembled_note(rows@[j], schema@),
        decreases rows.len() - i,
    {
        notes.push(assemble_note(&rows[i], schema));
        i += 1;
    }
    assert(note_views(notes@) =~= assembled_notes(rows@, schema@));
    notes
}

/// A copy of `cards`.
pub fn copy_cards(cards: &Vec<CardExt>) -> (out: Vec<CardExt>)
    ensures
        out@ == cards@,
{
    let mut out: Vec<CardExt> = Vec::new();
    let mut i: usize = 0;
    while i < cards.len()
        invariant
            i <= cards.len(),
            out@ == cards@.take(i as int),
        decreases cards.len() - i,
    {
        out.push(cards[i]);
        assert(out@ =~= cards@.take(i + 1));
        i += 1;
    }
    assert(cards@.take(i as int) == cards@);
    out
}

/// What a store holds, in the version-agnostic form: its notes joined with
/// their note types, the note types and fields of its schema, and its cards.
pub open spec fn deck_of(rows: StoreRows) -> DeckView {
    DeckView {
        notes: assembled_notes(rows.notes@, schema_of(rows)),
        notetypes: schema_of(rows).notetypes,
        fields: schema_of(rows).fields,
        cards: rows.cards@,
    }
}

/// Lists the notes, note types, fields and cards of a store.
pub fn get_deck_notes(rows: &StoreRows) -> (deck: DeckNotesResult)
    ensures
        deck@ == deck_of(*rows),
{
    let schema = adapt_schema(rows);
    let notes = assemble_notes(&rows.notes, &schema);
    let cards = copy_cards(&rows.cards);
    DeckNotesResult { notes, notetypes: schema.notetypes, fields: schema.fields, cards }
}

} // verus!
