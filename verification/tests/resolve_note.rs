use apkg_deck::json::parse_json;
use apkg_deck::model::{
    CardExt, DeckError, FieldExt, FieldRow, NoteRow, NotetypeRow, StoreRows, TemplateRow,
};
use apkg_deck::schema::{adapt_schema, TemplateDef};
use apkg_deck::template::{
    find_card, find_note, find_template, formats_from, get_deck_note, pick_item, raw_stylesheet,
    resolve_in, split_template, stylesheet, stylesheet_from, template_formats,
};

fn card(id: i64, nid: i64, ord: i64) -> CardExt {
    CardExt { id, nid, ord, type_: 0, queue: 0, due: 0 }
}

fn modern_rows() -> StoreRows {
    StoreRows {
        notes: vec![
            NoteRow { id: 1, guid: "ga".to_string(), mid: 10, flds: "Q1\u{1f}A1".to_string() },
            NoteRow { id: 2, guid: "gb".to_string(), mid: 99, flds: "lonely".to_string() },
        ],
        cards: vec![card(100, 1, 1), card(101, 1, 0), card(102, 2, 3)],
        notetype_columns: vec!["id".to_string(), "name".to_string(), "config".to_string()],
        notetypes: vec![NotetypeRow {
            id: 10,
            name: "Basic".to_string(),
            config: Some(".card { color: red; }\n\\documentclass{article}".to_string()),
        }],
        fields: vec![
            FieldRow { id: 10001, ntid: 10, ord: 1, name: "Back".to_string() },
            FieldRow { id: 10000, ntid: 10, ord: 0, name: "Front".to_string() },
        ],
        templates: vec![
            TemplateRow { ntid: 10, ord: 0, config: "front0\n\nback0".to_string() },
            TemplateRow { ntid: 10, ord: 1, config: "front1\n\nback1".to_string() },
        ],
        models: None,
    }
}

const LEGACY_MODELS: &str = "{\"77\": {\"name\": \"Old\", \"css\": \".old {}\", \"flds\": [{\"name\": \"Expression\"}, {\"name\": \"Meaning\"}], \"tmpls\": [{\"qfmt\": \"{{Expression}}\", \"afmt\": \"{{Meaning}}\"}, {\"qfmt\": \"{{Meaning}}\", \"afmt\": \"{{Expression}}\"}]}}";

fn legacy_rows() -> StoreRows {
    StoreRows {
        notes: vec![NoteRow { id: 5, guid: "gl".to_string(), mid: 77, flds: "a\u{1f}b".to_string() }],
        cards: vec![card(500, 5, 1)],
        notetype_columns: vec![],
        notetypes: vec![],
        fields: vec![],
        templates: vec![],
        models: Some(LEGACY_MODELS.to_string()),
    }
}

#[test]
fn split_template_cuts_at_first_blank_line() {
    assert_eq!(split_template("Q\n\nA"), ("Q".to_string(), "A".to_string()));
    assert_eq!(split_template("Q\n\nA\n\nB"), ("Q".to_string(), "A\n\nB".to_string()));
    assert_eq!(split_template("\n\nA"), (String::new(), "A".to_string()));
    assert_eq!(split_template("Q\n\n"), ("Q".to_string(), String::new()));
    assert_eq!(split_template("Q\n\n\nA"), ("Q".to_string(), "\nA".to_string()));
}

#[test]
fn split_template_without_blank_line_is_all_question() {
    assert_eq!(split_template("only\nquestion"), ("only\nquestion".to_string(), String::new()));
    assert_eq!(split_template(""), (String::new(), String::new()));
}

#[test]
fn stylesheet_of_structured_config_is_its_css_property() {
    assert_eq!(stylesheet("{\"css\": \" .a { } \", \"x\": 1}"), " .a { } ");
    assert_eq!(stylesheet("{\"x\": 1}"), "");
    assert_eq!(stylesheet("{\"css\": 5}"), "");
    assert_eq!(stylesheet("[1]"), "");
}

#[test]
fn stylesheet_of_raw_config_stops_at_trailing_marker() {
    assert_eq!(stylesheet("  .card { }\n \\documentclass[12pt]{article} rest"), ".card { }");
    assert_eq!(raw_stylesheet("a \\documentclass b \\documentclass c"), "a");
    assert_eq!(stylesheet("\\documentclass"), "");
}

#[test]
fn stylesheet_of_raw_config_without_marker_is_trimmed() {
    assert_eq!(stylesheet("\n\t .card { color: blue; } \n"), ".card { color: blue; }");
    assert_eq!(stylesheet("   "), "");
    assert_eq!(stylesheet(""), "");
}

#[test]
fn stylesheet_from_goes_by_the_document_handed_in() {
    let doc = parse_json("{\"css\": \"x\"}");
    assert_eq!(stylesheet_from("ignored \\documentclass", &doc), "x");
    assert_eq!(stylesheet_from(" raw ", &None), "raw");
}

#[test]
fn finders_give_first_position() {
    let rows = modern_rows();
    assert_eq!(find_note(&rows.notes, 2), Some(1));
    assert_eq!(find_note(&rows.notes, 3), None);
    assert_eq!(find_card(&rows.cards, 1), Some(0));
    assert_eq!(find_card(&rows.cards, 9), None);
    let schema = adapt_schema(&rows);
    assert_eq!(find_template(&schema.templates, 10, 1), Some(1));
    assert_eq!(find_template(&schema.templates, 10, 2), None);
    assert_eq!(find_template(&schema.templates, 11, 0), None);
}

#[test]
fn template_falls_back_to_ordinal_zero() {
    let only_zero = vec![TemplateDef {
        notetype_id: 10,
        ord: 0,
        front: "f0".to_string(),
        back: "b0".to_string(),
    }];
    assert_eq!(template_formats(&only_zero, 10, 4), ("f0".to_string(), "b0".to_string()));
    assert_eq!(template_formats(&only_zero, 10, 0), ("f0".to_string(), "b0".to_string()));
    assert_eq!(template_formats(&only_zero, 11, 0), (String::new(), String::new()));
    assert_eq!(template_formats(&vec![], 10, 0), (String::new(), String::new()));
}

#[test]
fn resolution_falls_back_to_ordinal_zero_template() {
    let mut rows = modern_rows();
    rows.templates.truncate(1);
    rows.cards = vec![card(100, 1, 3)];
    let r = get_deck_note(&rows, 1, "anki21b").unwrap();
    assert_eq!(r.ord, 3);
    assert_eq!(r.front, "front0");
    assert_eq!(r.back, "back0");
}

#[test]
fn pick_item_falls_back_to_first() {
    let doc = parse_json("[\"a\", \"b\"]").unwrap();
    let items = doc.as_array().unwrap();
    assert_eq!(pick_item(items, 1), Some(&items[1]));
    assert_eq!(pick_item(items, 2), Some(&items[0]));
    assert_eq!(pick_item(items, -1), Some(&items[0]));
    assert_eq!(pick_item(items, i64::MAX), Some(&items[0]));
    assert_eq!(pick_item(&vec![], 0), None);
}

#[test]
fn formats_from_prefers_templates_of_the_config() {
    let config = "{\"css\": \"c\", \"tpls\": [{\"qfmt\": \"q0\", \"afmt\": \"a0\"}, {\"qfmt\": \"q1\"}]}";
    let doc = parse_json(config);
    let base = || ("bf".to_string(), "bb".to_string());
    assert_eq!(
        formats_from(config, &doc, 1, base()),
        ("q1".to_string(), String::new(), "c".to_string())
    );
    assert_eq!(
        formats_from(config, &doc, 5, base()),
        ("q0".to_string(), "a0".to_string(), "c".to_string())
    );
    let plain = parse_json("{\"tpls\": []}");
    assert_eq!(
        formats_from("{\"tpls\": []}", &plain, 0, base()),
        ("bf".to_string(), "bb".to_string(), String::new())
    );
    assert_eq!(
        formats_from(" raw css ", &None, 0, base()),
        ("bf".to_string(), "bb".to_string(), "raw css".to_string())
    );
}

#[test]
fn modern_note_is_resolved_with_first_card_ordinal() {
    let rows = modern_rows();
    let r = get_deck_note(&rows, 1, "anki21b").unwrap();
    assert_eq!(r.note.id, 1);
    assert_eq!(r.note.guid, "ga");
    assert_eq!(r.note.flds, vec!["Q1".to_string(), "A1".to_string()]);
    assert_eq!(r.note.notetype_name, "Basic");
    assert_eq!(r.note.field_names, vec!["Front".to_string(), "Back".to_string()]);
    assert_eq!(r.notetype.as_ref().map(|n| n.id), Some(10));
    assert_eq!(
        r.fields,
        vec![
            FieldExt { id: 10000, notetype_id: 10, name: "Front".to_string(), ord: 0 },
            FieldExt { id: 10001, notetype_id: 10, name: "Back".to_string(), ord: 1 },
        ]
    );
    assert_eq!(r.ord, 1);
    assert_eq!(r.front, "front1");
    assert_eq!(r.back, "back1");
    assert_eq!(r.css, ".card { color: red; }");
}

#[test]
fn modern_note_without_card_gets_ordinal_zero() {
    let mut rows = modern_rows();
    rows.cards.clear();
    let r = get_deck_note(&rows, 1, "anki21b").unwrap();
    assert_eq!(r.ord, 0);
    assert_eq!(r.front, "front0");
    assert_eq!(r.back, "back0");
}

#[test]
fn note_with_unknown_notetype_degrades_to_empty() {
    let rows = modern_rows();
    let r = get_deck_note(&rows, 2, "anki21b").unwrap();
    assert_eq!(r.note.notetype_name, "");
    assert!(r.note.field_names.is_empty());
    assert!(r.notetype.is_none());
    assert!(r.fields.is_empty());
    assert_eq!(r.ord, 3);
    assert_eq!((r.front.as_str(), r.back.as_str(), r.css.as_str()), ("", "", ""));
}

#[test]
fn unknown_note_is_not_found() {
    assert_eq!(get_deck_note(&modern_rows(), 404, "anki21b"), Err(DeckError::NotFound));
    assert_eq!(get_deck_note(&legacy_rows(), 404, "anki2"), Err(DeckError::NotFound));
}

#[test]
fn legacy_note_without_card_is_not_found() {
    let mut rows = legacy_rows();
    rows.cards.clear();
    assert_eq!(get_deck_note(&rows, 5, "anki2"), Err(DeckError::NotFound));
    assert_eq!(get_deck_note(&rows, 5, "anki21"), Err(DeckError::NotFound));
    assert!(get_deck_note(&rows, 5, "anki21b").is_ok());
}

#[test]
fn legacy_note_is_resolved_from_the_models_document() {
    let rows = legacy_rows();
    let r = get_deck_note(&rows, 5, "anki2").unwrap();
    assert_eq!(r.note.notetype_name, "Old");
    assert_eq!(r.note.field_names, vec!["Expression".to_string(), "Meaning".to_string()]);
    assert_eq!(r.note.flds, vec!["a".to_string(), "b".to_string()]);
    assert_eq!(r.ord, 1);
    assert_eq!(r.front, "{{Meaning}}");
    assert_eq!(r.back, "{{Expression}}");
    assert_eq!(r.css, ".old {}");
    let nt = r.notetype.unwrap();
    assert_eq!(nt.id, 77);
    assert_eq!(nt.name, "Old");
    assert!(nt.config.unwrap().contains("\"tmpls\""));
    assert_eq!(
        r.fields,
        vec![
            FieldExt { id: 0, notetype_id: 77, name: "Expression".to_string(), ord: 0 },
            FieldExt { id: 1, notetype_id: 77, name: "Meaning".to_string(), ord: 1 },
        ]
    );
}

#[test]
fn legacy_ordinal_without_template_falls_back_to_first() {
    let mut rows = legacy_rows();
    rows.cards = vec![card(500, 5, 9)];
    let r = get_deck_note(&rows, 5, "anki2").unwrap();
    assert_eq!(r.ord, 9);
    assert_eq!(r.front, "{{Expression}}");
    assert_eq!(r.back, "{{Meaning}}");
}

#[test]
fn legacy_note_with_unusable_models_degrades() {
    let mut rows = legacy_rows();
    rows.models = Some("{broken".to_string());
    let r = get_deck_note(&rows, 5, "anki2").unwrap();
    assert_eq!(r.note.notetype_name, "");
    assert!(r.notetype.is_none());
    assert_eq!((r.front.as_str(), r.back.as_str(), r.css.as_str()), ("", "", ""));
}

#[test]
fn resolve_in_uses_the_schema_handed_in() {
    let rows = modern_rows();
    let mut schema = adapt_schema(&rows);
    schema.notetypes[0].name = "Renamed".to_string();
    let r = resolve_in(&rows, &schema, 1, true).unwrap();
    assert_eq!(r.note.notetype_name, "Renamed");
    assert_eq!(resolve_in(&rows, &schema, 7, true), Err(DeckError::NotFound));
}
