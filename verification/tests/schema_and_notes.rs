use apkg_deck::json::parse_json;
use apkg_deck::model::{
    CardExt, FieldExt, FieldRow, NoteRow, NotetypeExt, NotetypeRow, StoreRows, TemplateRow,
};
use apkg_deck::notes::{
    assemble_note, assemble_notes, find_notetype, get_deck_notes, names_of_fields, plain_note,
    plain_notes, select_fields,
};
use apkg_deck::schema::{
    adapt_schema, detect_modern, legacy_fields, legacy_schema, legacy_schema_of, legacy_templates,
    modern_field_id, table_has_columns, Schema, SchemaTier, TemplateDef,
};

fn empty_rows() -> StoreRows {
    StoreRows {
        notes: vec![],
        cards: vec![],
        notetype_columns: vec![],
        notetypes: vec![],
        fields: vec![],
        templates: vec![],
        models: None,
    }
}

fn names(list: &[&str]) -> Vec<String> {
    list.iter().map(|s| s.to_string()).collect()
}

fn note_row(id: i64, mid: i64, flds: &str) -> NoteRow {
    NoteRow { id, guid: format!("g{}", id), mid, flds: flds.to_string() }
}

fn field(id: i64, ntid: i64, name: &str, ord: i64) -> FieldExt {
    FieldExt { id, notetype_id: ntid, name: name.to_string(), ord }
}

const BASIC_MODELS: &str = "{\"1342697561419\": {\"name\": \"Basic\", \"css\": \".card { color: black; }\", \"flds\": [{\"name\": \"Front\", \"ord\": 0}, {\"name\": \"Back\", \"ord\": 1}], \"tmpls\": [{\"name\": \"Card 1\", \"qfmt\": \"{{Front}}\", \"afmt\": \"{{FrontSide}}<hr id=answer>{{Back}}\"}]}}";

#[test]
fn table_has_columns_wants_every_column() {
    let found = names(&["id", "name", "mtime_secs", "usn", "config"]);
    assert!(table_has_columns(&found, &["id", "name", "config"]));
    assert!(!table_has_columns(&found, &["id", "name", "config", "ord"]));
    assert!(table_has_columns(&found, &[]));
    assert!(!table_has_columns(&vec![], &["id"]));
    assert!(table_has_columns(&vec![], &[]));
}

#[test]
fn modern_layout_is_detected_by_columns() {
    let mut rows = empty_rows();
    assert!(!detect_modern(&rows));
    rows.notetype_columns = names(&["id", "name"]);
    assert!(!detect_modern(&rows));
    rows.notetype_columns = names(&["config", "name", "id"]);
    assert!(detect_modern(&rows));
}

#[test]
fn modern_schema_copies_rows_and_cuts_templates() {
    let mut rows = empty_rows();
    rows.notetype_columns = names(&["id", "name", "config"]);
    rows.notetypes = vec![
        NotetypeRow { id: 10, name: "Basic".to_string(), config: Some("x".to_string()) },
        NotetypeRow { id: 11, name: "Cloze".to_string(), config: None },
    ];
    rows.fields = vec![
        FieldRow { id: 10001, ntid: 10, ord: 1, name: "Back".to_string() },
        FieldRow { id: 10000, ntid: 10, ord: 0, name: "Front".to_string() },
    ];
    rows.templates = vec![TemplateRow { ntid: 10, ord: 0, config: "Q\n\nA\n\nmore".to_string() }];
    rows.models = Some(BASIC_MODELS.to_string());
    let schema = adapt_schema(&rows);
    assert_eq!(schema.tier, SchemaTier::Modern);
    assert_eq!(
        schema.notetypes,
        vec![
            NotetypeExt { id: 10, name: "Basic".to_string(), config: Some("x".to_string()) },
            NotetypeExt { id: 11, name: "Cloze".to_string(), config: None },
        ]
    );
    assert_eq!(schema.fields, vec![field(10001, 10, "Back", 1), field(10000, 10, "Front", 0)]);
    assert_eq!(
        schema.templates,
        vec![TemplateDef {
            notetype_id: 10,
            ord: 0,
            front: "Q".to_string(),
            back: "A\n\nmore".to_string()
        }]
    );
}

#[test]
fn modern_field_id_is_thousand_times_notetype_plus_ordinal() {
    assert_eq!(modern_field_id(1580121962837, 2), 1580121962837002);
    assert_eq!(modern_field_id(0, 0), 0);
    assert_eq!(modern_field_id(i64::MAX, 5), i64::MAX.wrapping_mul(1000).wrapping_add(5));
}

#[test]
fn legacy_store_yields_one_notetype_and_two_fields() {
    let mut rows = empty_rows();
    rows.models = Some(BASIC_MODELS.to_string());
    let schema = adapt_schema(&rows);
    assert_eq!(schema.tier, SchemaTier::Legacy);
    assert_eq!(schema.notetypes.len(), 1);
    assert_eq!(schema.notetypes[0].id, 1342697561419);
    assert_eq!(schema.notetypes[0].name, "Basic");
    assert_eq!(
        schema.fields,
        vec![field(0, 1342697561419, "Front", 0), field(1, 1342697561419, "Back", 1)]
    );
    assert_eq!(
        schema.templates,
        vec![TemplateDef {
            notetype_id: 1342697561419,
            ord: 0,
            front: "{{Front}}".to_string(),
            back: "{{FrontSide}}<hr id=answer>{{Back}}".to_string()
        }]
    );
}

#[test]
fn legacy_notetype_config_is_the_text_of_its_model() {
    let schema = legacy_schema("{\"5\": {\"name\": \"N\", \"css\": \"b{}\"}}").unwrap();
    let config = schema.notetypes[0].config.clone().unwrap();
    let doc = parse_json(&config).unwrap();
    assert_eq!(doc.get_text("name").map(|s| s.as_str()), Some("N"));
    assert_eq!(doc.get_text("css").map(|s| s.as_str()), Some("b{}"));
    assert_eq!(config, "{\"css\":\"b{}\",\"name\":\"N\"}");
}

#[test]
fn legacy_document_with_several_notetypes_keeps_document_order() {
    let text = "{\"20\": {\"name\": \"B\", \"flds\": [{\"name\": \"x\"}]}, \"10\": {\"name\": \"A\", \"flds\": [{\"name\": \"y\"}, {\"name\": \"z\"}]}}";
    let schema = legacy_schema(text).unwrap();
    let ids: Vec<i64> = schema.notetypes.iter().map(|n| n.id).collect();
    assert_eq!(ids, vec![10, 20]);
    assert_eq!(schema.fields, vec![field(0, 10, "y", 0), field(1, 10, "z", 1), field(0, 20, "x", 0)]);
}

#[test]
fn legacy_key_that_is_no_number_gives_id_zero() {
    let schema = legacy_schema("{\"abc\": {\"name\": \"Odd\"}}").unwrap();
    assert_eq!(schema.notetypes[0].id, 0);
    assert_eq!(schema.notetypes[0].name, "Odd");
}

#[test]
fn legacy_model_without_names_degrades_to_empty_texts() {
    let doc = parse_json("{\"flds\": [{\"ord\": 0}, \"plain\", {\"name\": 7}], \"tmpls\": [{\"qfmt\": \"Q\"}, {\"afmt\": \"A\"}]}").unwrap();
    assert_eq!(legacy_fields(3, &doc), vec![field(0, 3, "", 0), field(1, 3, "", 1), field(2, 3, "", 2)]);
    assert_eq!(
        legacy_templates(3, &doc),
        vec![
            TemplateDef { notetype_id: 3, ord: 0, front: "Q".to_string(), back: String::new() },
            TemplateDef { notetype_id: 3, ord: 1, front: String::new(), back: "A".to_string() },
        ]
    );
    let bare = parse_json("{\"flds\": 5}").unwrap();
    assert!(legacy_fields(3, &bare).is_empty());
    assert!(legacy_templates(3, &bare).is_empty());
}

#[test]
fn legacy_schema_of_takes_configs_by_position() {
    let doc = parse_json("{\"1\": {\"name\": \"A\"}, \"2\": {\"name\": \"B\"}}").unwrap();
    let members = doc.as_object().unwrap();
    let schema = legacy_schema_of(members, &vec![Some("first".to_string())]);
    assert_eq!(schema.tier, SchemaTier::Legacy);
    assert_eq!(
        schema.notetypes,
        vec![
            NotetypeExt { id: 1, name: "A".to_string(), config: Some("first".to_string()) },
            NotetypeExt { id: 2, name: "B".to_string(), config: None },
        ]
    );
}

#[test]
fn unusable_legacy_document_falls_back_to_minimal() {
    for models in [None, Some("not json"), Some("{}"), Some("[1, 2]"), Some("\"x\""), Some("")] {
        let mut rows = empty_rows();
        rows.models = models.map(|s| s.to_string());
        rows.notes = vec![note_row(1, 7, "a\u{1f}b")];
        let schema = adapt_schema(&rows);
        assert_eq!(schema.tier, SchemaTier::Minimal);
        assert!(schema.notetypes.is_empty() && schema.fields.is_empty());
        let deck = get_deck_notes(&rows);
        assert_eq!(deck.notes.len(), 1);
        assert_eq!(deck.notes[0].flds, names(&["a", "b"]));
        assert_eq!(deck.notes[0].notetype_name, "");
        assert!(deck.notes[0].field_names.is_empty());
    }
    assert!(legacy_schema("{}").is_none());
}

#[test]
fn select_fields_orders_by_ordinal() {
    let fields = vec![
        field(1, 10, "c", 2),
        field(2, 11, "other", 0),
        field(3, 10, "a", 0),
        field(4, 10, "b", 1),
        field(5, 10, "b2", 1),
    ];
    let picked = select_fields(&fields, 10);
    assert_eq!(names_of_fields(&picked), names(&["a", "b", "b2", "c"]));
    assert!(select_fields(&fields, 12).is_empty());
}

#[test]
fn find_notetype_gives_first_with_id() {
    let list = vec![
        NotetypeExt { id: 1, name: "a".to_string(), config: None },
        NotetypeExt { id: 2, name: "b".to_string(), config: None },
        NotetypeExt { id: 2, name: "c".to_string(), config: None },
    ];
    assert_eq!(find_notetype(&list, 2), Some(1));
    assert_eq!(find_notetype(&list, 3), None);
}

#[test]
fn assemble_joins_note_with_its_notetype() {
    let schema = Schema {
        tier: SchemaTier::Modern,
        notetypes: vec![NotetypeExt { id: 10, name: "Basic".to_string(), config: None }],
        fields: vec![field(2, 10, "Back", 1), field(1, 10, "Front", 0)],
        templates: vec![],
    };
    let note = assemble_note(&note_row(5, 10, "q\u{1f}a"), &schema);
    assert_eq!(note.id, 5);
    assert_eq!(note.guid, "g5");
    assert_eq!(note.mid, 10);
    assert_eq!(note.flds, names(&["q", "a"]));
    assert_eq!(note.notetype_name, "Basic");
    assert_eq!(note.field_names, names(&["Front", "Back"]));
}

#[test]
fn assemble_keeps_orphaned_notes() {
    let schema = Schema {
        tier: SchemaTier::Modern,
        notetypes: vec![NotetypeExt { id: 10, name: "Basic".to_string(), config: None }],
        fields: vec![field(1, 10, "Front", 0)],
        templates: vec![],
    };
    let notes = assemble_notes(&vec![note_row(1, 99, "x"), note_row(2, 10, "y")], &schema);
    assert_eq!(notes.len(), 2);
    assert_eq!(notes[0].notetype_name, "");
    assert!(notes[0].field_names.is_empty());
    assert_eq!(notes[0].flds, names(&["x"]));
    assert_eq!(notes[1].notetype_name, "Basic");
}

#[test]
fn deck_listing_holds_notes_schema_and_cards() {
    let mut rows = empty_rows();
    rows.models = Some(BASIC_MODELS.to_string());
    rows.notes = vec![note_row(1, 1342697561419, "Q\u{1f}A")];
    rows.cards = vec![CardExt { id: 100, nid: 1, ord: 0, type_: 0, queue: 0, due: 3 }];
    let deck = get_deck_notes(&rows);
    assert_eq!(deck.notes.len(), 1);
    assert_eq!(deck.notes[0].notetype_name, "Basic");
    assert_eq!(deck.notes[0].field_names, names(&["Front", "Back"]));
    assert_eq!(deck.notetypes.len(), 1);
    assert_eq!(deck.fields.len(), 2);
    assert_eq!(deck.cards, rows.cards);
}

#[test]
fn plain_notes_carry_the_notetype_name_where_known() {
    let schema = Schema {
        tier: SchemaTier::Modern,
        notetypes: vec![NotetypeExt { id: 10, name: "Basic".to_string(), config: None }],
        fields: vec![],
        templates: vec![],
    };
    let known = plain_note(&note_row(1, 10, "a\u{1f}b"), &schema);
    assert_eq!(known.notetype_name.as_deref(), Some("Basic"));
    assert_eq!(known.flds, names(&["a", "b"]));
    assert_eq!((known.id, known.mid, known.guid.as_str()), (1, 10, "g1"));
    let notes = plain_notes(&vec![note_row(1, 10, "x"), note_row(2, 11, "y")], &schema);
    assert_eq!(notes.len(), 2);
    assert_eq!(notes[1].notetype_name, None);
    assert_eq!(notes[1].flds, names(&["y"]));
}
