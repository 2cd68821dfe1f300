use crate::json::json_document;
use crate::json::parse_value;
use crate::json::tree_of_value;
use crate::json::tree_text;
use crate::json::value_tree;
use crate::json::value_member;
use crate::json::value_text;
use crate::json::Json;
use crate::json::Member;
use crate::model::field_views;
use crate::model::notetype_views;
use crate::model::text_option;
use crate::model::FieldExt;
use crate::model::FieldRow;
use crate::model::FieldView;
use crate::model::NotetypeExt;
use crate::model::NotetypeRow;
use crate::model::NotetypeView;
use crate::model::StoreRows;
use crate::model::TemplateRow;
use crate::template::split_template;
use crate::template::template_parts;
use crate::text::decimal_i64;
use crate::text::parse_i64;
use crate::text::same_text;
use crate::text::texts;
use vstd::prelude::*;

verus! {

/// Which layout a store was found to have.
#[derive(Debug, Clone, Copy, PartialEq, Eq, Structural)]
pub enum SchemaTier {
    /// A notetypes relation with the expected columns.
    Modern,
    /// One metadata document that describes every note type.
    Legacy,
    /// Neither: only the raw notes can be read.
    Minimal,
}

/// The two formats of one card template of a note type.
#[derive(Debug, Clone, PartialEq, Eq)]
pub struct TemplateDef {
    pub notetype_id: i64,
    pub ord: i64,
    pub front: String,
    pub back: String,
}

/// A template as plain values.
pub struct TemplateView {
    pub notetype_id: i64,
    pub ord: i64,
    pub front: Seq<char>,
    pub back: Seq<char>,
}

impl View for TemplateDef {
    type V = TemplateView;

    open spec fn view(&self) -> TemplateView {
        TemplateView {
            notetype_id: self.notetype_id,
            ord: self.ord,
            front: self.front@,
            back: self.back@,
        }
    }
}

/// The views of a sequence of templates.
pub open spec fn template_views(s: Seq<TemplateDef>) -> Seq<TemplateView> {
    s.map_values(|t: TemplateDef| t@)
}

/// The note types, fields and templates of a store, whatever its layout.
#[derive(Debug, Clone, PartialEq, Eq)]
pub struct Schema {
    pub tier: SchemaTier,
    pub notetypes: Vec<NotetypeExt>,
    pub fields: Vec<FieldExt>,
    pub templates: Vec<TemplateDef>,
}

/// A schema as plain values.
pub struct SchemaView {
    pub tier: SchemaTier,
    pub notetypes: Seq<NotetypeView>,
    pub fields: Seq<FieldView>,
    pub templates: Seq<TemplateView>,
}

impl View for Schema {
    type V = SchemaView;

    open spec fn view(&self) -> SchemaView {
        SchemaView {
            tier: self.tier,
            notetypes: notetype_views(self.notetypes@),
            fields: field_views(self.fields@),
            templates: template_views(self.templates@),
        }
    }
}

/// The views of a sequence of string slices.
pub open spec fn names_of(columns: Seq<&str>) -> Seq<Seq<char>> {
    columns.map_values(|c: &str| c@)
}

/// Every name of `wanted` is among `found`.
pub open spec fn has_all(found: Seq<Seq<char>>, wanted: Seq<Seq<char>>) -> bool {
    forall|i: int| 0 <= i < wanted.len() ==> found.contains(#[trigger] wanted[i])
}

/// Whether `name` is among `found`.
pub fn contains_text(found: &Vec<String>, name: &str) -> (r: bool)
    ensures
        r == texts(found@).contains(name@),
{
    let mut i: usize = 0;
    while i < found.len()
        invariant
            i <= found.len(),
            forall|j: int| 0 <= j < i ==> texts(found@)[j] != name@,
        decreases found.len() - i,
    {
        if same_text(found[i].as_str(), name) {
            assert(texts(found@)[i as int] == name@);
            return true;
        }
        i += 1;
    }
    false
}

/// Whether a relation whose column names are `found` has every column of
/// `columns`. A relation that is absent has no columns.
pub fn table_has_columns(found: &Vec<String>, columns: &[&str]) -> (r: bool)
    ensures
        r == has_all(texts(found@), names_of(columns@)),
{
    let mut i: usize = 0;
    while i < columns.len()
        invariant
            i <= columns.len(),
            forall|j: int| 0 <= j < i ==> texts(found@).contains(#[trigger] names_of(columns@)[j]),
        decreases columns.len() - i,
    {
        if !contains_text(found, columns[i]) {
            assert(names_of(columns@)[i as int] == columns@[i as int]@);
            return false;
        }
        assert(names_of(columns@)[i as int] == columns@[i as int]@);
        i += 1;
    }
    true
}

/// The columns that mark the modern layout of the notetypes relation.
pub open spec fn modern_columns() -> Seq<Seq<char>> {
    seq!["id"@, "name"@, "config"@]
}

/// Whether the store has the modern layout: a notetypes relation with the
/// expected columns.
pub open spec fn is_modern(rows: StoreRows) -> bool {
    has_all(texts(rows.notetype_columns@), modern_columns())
}

/// Whether the store has the modern layout.
pub fn detect_modern(rows: &StoreRows) -> (r: bool)
    ensures
        r == is_modern(*rows),
{
    let columns: [&str; 3] = ["id", "name", "config"];
    assert(names_of(columns@) =~= modern_columns());
    table_has_columns(&rows.notetype_columns, columns.as_slice())
}

/// An owned copy of an optional text.
pub fn copy_text_option(t: &Option<String>) -> (r: Option<String>)
    ensures
        text_option(r) == text_option(*t),
{
    match t {
        Some(s) => Some(s.clone()),
        None => None,
    }
}

/// The note type that a row of the notetypes relation describes.
pub open spec fn notetype_of_row(row: NotetypeRow) -> NotetypeView {
    NotetypeView { id: row.id, name: row.name@, config: text_option(row.config) }
}

/// The field that a row of the fields relation describes.
pub open spec fn field_of_row(row: FieldRow) -> FieldView {
    FieldView { id: row.id, notetype_id: row.ntid, name: row.name@, ord: row.ord }
}

/// The template that a row of the templates relation describes: its
/// configuration text cut into question and answer.
pub open spec fn template_of_row(row: TemplateRow) -> TemplateView {
    TemplateView {
        notetype_id: row.ntid,
        ord: row.ord,
        front: template_parts(row.config@).0,
        back: template_parts(row.config@).1,
    }
}

/// The schema of a store with the modern layout: one record per row, in
/// the order of the rows.
pub open spec fn modern_view(rows: StoreRows) -> SchemaView {
    SchemaView {
        tier: SchemaTier::Modern,
        notetypes: rows.notetypes@.map_values(|r: NotetypeRow| notetype_of_row(r)),
        fields: rows.fields@.map_values(|r: FieldRow| field_of_row(r)),
        templates: rows.templates@.map_values(|r: TemplateRow| template_of_row(r)),
    }
}

/// The id that a modern store without field ids gives a field: a thousand
/// times the id of the note type plus the ordinal, wrapping round.
pub fn modern_field_id(ntid: i64, ord: i64) -> (id: i64)
    ensures
        id == vstd::wrapping::i64_specs::wrapping_add(
            vstd::wrapping::i64_specs::wrapping_mul(ntid, 1000),
            ord,
        ),
{
    ntid.wrapping_mul(1000).wrapping_add(ord)
}

/// Reads the schema of a store with the modern layout.
pub fn modern_schema(rows: &StoreRows) -> (schema: Schema)
    ensures
        schema@ == modern_view(*rows),
{
    let mut notetypes: Vec<NotetypeExt> = Vec::new();
    let mut i: usize = 0;
    while i < rows.notetypes.len()
        invariant
            i <= rows.notetypes.len(),
            notetypes@.len() == i,
            forall|j: int| 0 <= j < i ==> notetypes@[j]@ == notetype_of_row(rows.notetypes@[j]),
        decreases rows.notetypes.len() - i,
    {
        let row = &rows.notetypes[i];
        notetypes.push(
            NotetypeExt {
                id: row.id,
                name: row.name.clone(),
                config: copy_text_option(&row.config),
            },
        );
        i += 1;
    }
    let mut fields: Vec<FieldExt> = Vec::new();
    let mut i: usize = 0;
    while i < rows.fields.len()
        invariant
            i <= rows.fields.len(),
            fields@.len() == i,
            forall|j: int| 0 <= j < i ==> fields@[j]@ == field_of_row(rows.fields@[j]),
        decreases rows.fields.len() - i,
    {
        let row = &rows.fields[i];
        fields.push(
            FieldExt { id: row.id, notetype_id: row.ntid, name: row.name.clone(), ord: row.ord },
        );
        i += 1;
    }
    let mut templates: Vec<TemplateDef> = Vec::new();
    let mut i: usize = 0;
    while i < rows.templates.len()
        invariant
            i <= rows.templates.len(),
            templates@.len() == i,
            forall|j: int| 0 <= j < i ==> templates@[j]@ == template_of_row(rows.templates@[j]),
        decreases rows.templates.len() - i,
    {
        let row = &rows.templates[i];
        let (front, back) = split_template(row.config.as_str());
        templates.push(TemplateDef { notetype_id: row.ntid, ord: row.ord, front, back });
        i += 1;
    }
    let schema = Schema { tier: SchemaTier::Modern, notetypes, fields, templates };
    assert(schema@.notetypes =~= modern_view(*rows).notetypes);
    assert(schema@.fields =~= modern_view(*rows).fields);
    assert(schema@.templates =~= modern_view(*rows).templates);
    schema
}

/// A text, or the empty text where there is none.
pub open spec fn text_or_empty(t: Option<Seq<char>>) -> Seq<char> {
    match t {
        Some(s) => s,
        None => Seq::<char>::empty(),
    }
}

/// The id of a legacy note type: the number that its key in the metadata
/// document writes, and 0 where the key writes none.
pub open spec fn legacy_id(key: Seq<char>) -> i64 {
    match decimal_i64(key) {
        Some(id) => id,
        None => 0,
    }
}

/// The note type that a member of the legacy metadata document describes,
/// `config` being the text of that member.
pub open spec fn legacy_notetype(member: Member, config: Option<Seq<char>>) -> NotetypeView {
    NotetypeView {
        id: legacy_id(member.key@),
        name: text_or_empty(member.value.member_text("name"@)),
        config,
    }
}

/// The field at position `pos` of a legacy note type: the position is both
/// its ordinal and its id.
pub open spec fn legacy_field(id: i64, item: Json, pos: int) -> FieldView {
    FieldView {
        id: pos as i64,
        notetype_id: id,
        name: text_or_empty(item.member_text("name"@)),
        ord: pos as i64,
    }
}

/// The template at position `pos` of a legacy note type.
pub open spec fn legacy_template(id: i64, item: Json, pos: int) -> TemplateView {
    TemplateView {
        notetype_id: id,
        ord: pos as i64,
        front: text_or_empty(item.member_text("qfmt"@)),
        back: text_or_empty(item.member_text("afmt"@)),
    }
}

/// The elements of the array under `key` of `model`; none where there is no
/// such member or it is no array.
pub open spec fn array_under(model: Json, key: Seq<char>) -> Seq<Json> {
    match model.member(key) {
        Some(v) => match v.items() {
            Some(items) => items,
            None => Seq::<Json>::empty(),
        },
        None => Seq::<Json>::empty(),
    }
}

/// The fields of one legacy note type, in the order of its field list.
pub open spec fn legacy_fields_of(id: i64, model: Json) -> Seq<FieldView> {
    let items = array_under(model, "flds"@);
    Seq::new(items.len(), |p: int| legacy_field(id, items[p], p))
}

/// The templates of one legacy note type, in the order of its template list.
pub open spec fn legacy_templates_of(id: i64, model: Json) -> Seq<TemplateView> {
    let items = array_under(model, "tmpls"@);
    Seq::new(items.len(), |p: int| legacy_template(id, items[p], p))
}

/// The fields of all the note types of a legacy document: note type by
/// note type in the order of the members, each in the order of its field list.
pub open spec fn legacy_fields_all(members: Seq<Member>) -> Seq<FieldView>
    decreases members.len(),
{
    if members.len() == 0 {
        Seq::<FieldView>::empty()
    } else {
        legacy_fields_all(members.drop_last()) + legacy_fields_of(
            legacy_id(members.last().key@),
            members.last().value,
        )
    }
}

/// The templates of all the note types of a legacy document: note type by
/// note type in the order of the members, each in the order of its template list.
pub open spec fn legacy_templates_all(members: Seq<Member>) -> Seq<TemplateView>
    decreases members.len(),
{
    if members.len() == 0 {
        Seq::<TemplateView>::empty()
    } else {
        legacy_templates_all(members.drop_last()) + legacy_templates_of(
            legacy_id(members.last().key@),
            members.last().value,
        )
    }
}

/// The views of a sequence of optional texts.
pub open spec fn option_texts(s: Seq<Option<String>>) -> Seq<Option<Seq<char>>> {
    s.map_values(|t: Option<String>| text_option(t))
}

/// The configuration text at position `i`, where there is one.
pub open spec fn config_at(configs: Seq<Option<Seq<char>>>, i: int) -> Option<Seq<char>> {
    if 0 <= i < configs.len() {
        configs[i]
    } else {
        None
    }
}

/// The schema that the members of a legacy metadata document describe:
/// one note type per member, with the configuration text at its position.
pub open spec fn legacy_view(members: Seq<Member>, configs: Seq<Option<Seq<char>>>) -> SchemaView {
    SchemaView {
        tier: SchemaTier::Legacy,
        notetypes: Seq::new(
            members.len(),
            |i: int| legacy_notetype(members[i], config_at(configs, i)),
        ),
        fields: legacy_fields_all(members),
        templates: legacy_templates_all(members),
    }
}

/// A legacy document with one member describes one note type. Its fields
/// are those of the member's field list, in the order of the list, and
/// each has its position in the list as its ordinal and as its id.
pub proof fn lemma_legacy_single(member: Member, config: Option<Seq<char>>)
    ensures
        legacy_view(seq![member], seq![config]).notetypes == seq![legacy_notetype(member, config)],
        legacy_view(seq![member], seq![config]).fields == legacy_fields_of(
            legacy_id(member.key@),
            member.value,
        ),
        legacy_fields_of(legacy_id(member.key@), member.value).len() == array_under(
            member.value,
            "flds"@,
        ).len(),
        forall|p: int|
            0 <= p < legacy_fields_of(legacy_id(member.key@), member.value).len() ==> {
                let f = #[trigger] legacy_fields_of(legacy_id(member.key@), member.value)[p];
                f.ord == p as i64 && f.id == p as i64 && f.notetype_id == legacy_id(member.key@)
            },
{
    let members = seq![member];
    let view = legacy_view(members, seq![config]);
    assert(view.notetypes =~= seq![legacy_notetype(member, config)]);
    assert(members.drop_last() =~= Seq::<Member>::empty());
    assert(legacy_fields_all(members.drop_last()) =~= Seq::<FieldView>::empty());
    assert(view.fields =~= legacy_fields_of(legacy_id(member.key@), member.value));
}

/// No two fields of a legacy note type have the same ordinal, as long as
/// the positions of its field list fit the ordinal's type.
pub proof fn lemma_legacy_ordinals_unique(id: i64, model: Json)
    requires
        array_under(model, "flds"@).len() <= i64::MAX,
    ensures
        forall|p: int, q: int|
            0 <= p < q < legacy_fields_of(id, model).len() ==> legacy_fields_of(id, model)[p].ord
                != legacy_fields_of(id, model)[q].ord,
{
}

/// An owned copy of a text that may be missing: empty where it is.
fn text_or_default(t: Option<&String>) -> (r: String)
    ensures
        r@ == match t {
            Some(s) => s@,
            None => Seq::<char>::empty(),
        },
{
    match t {
        Some(s) => s.clone(),
        None => String::new(),
    }
}

/// The elements of the array under `key` of `model`.
fn array_of<'a>(model: &'a Json, key: &str) -> (r: Option<&'a Vec<Json>>)
    ensures
        match r {
            Some(items) => items@ == array_under(*model, key@),
            None => array_under(*model, key@).len() == 0,
        },
{
    match model.get(key) {
        Some(v) => v.as_array(),
        None => None,
    }
}

/// The fields of one legacy note type.
pub fn legacy_fields(id: i64, model: &Json) -> (out: Vec<FieldExt>)
    ensures
        field_views(out@) == legacy_fields_of(id, *model),
{
    let mut out: Vec<FieldExt> = Vec::new();
    match array_of(model, "flds") {
        Some(items) => {
            let mut p: usize = 0;
            while p < items.len()
                invariant
                    p <= items.len(),
                    out@.len() == p,
                    forall|j: int| 0 <= j < p ==> out@[j]@ == legacy_field(id, items@[j], j),
                decreases items.len() - p,
            {
                let pos: i64 = #[verifier::truncate] (p as i64);
                out.push(
                    FieldExt {
                        id: pos,
                        notetype_id: id,
                        name: text_or_default(items[p].get_text("name")),
                        ord: pos,
                    },
                );
                p += 1;
            }
            assert(field_views(out@) =~= legacy_fields_of(id, *model));
        },
        None => {
            assert(field_views(out@) =~= legacy_fields_of(id, *model));
        },
    }
    out
}

/// The templates of one legacy note type.
pub fn legacy_templates(id: i64, model: &Json) -> (out: Vec<TemplateDef>)
    ensures
        template_views(out@) == legacy_templates_of(id, *model),
{
    let mut out: Vec<TemplateDef> = Vec::new();
    match array_of(model, "tmpls") {
        Some(items) => {
            let mut p: usize = 0;
            while p < items.len()
                invariant
                    p <= items.len(),
                    out@.len() == p,
                    forall|j: int| 0 <= j < p ==> out@[j]@ == legacy_template(id, items@[j], j),
                decreases items.len() - p,
            {
                let pos: i64 = #[verifier::truncate] (p as i64);
                out.push(
                    TemplateDef {
                        notetype_id: id,
                        ord: pos,
                        front: text_or_default(items[p].get_text("qfmt")),
                        back: text_or_default(items[p].get_text("afmt")),
                    },
                );
                p += 1;
            }
            assert(template_views(out@) =~= legacy_templates_of(id, *model));
        },
        None => {
            assert(template_views(out@) =~= legacy_templates_of(id, *model));
        },
    }
    out
}

/// Synthesizes the schema that the members of a legacy metadata document
/// describe. `configs` holds the text of each member, position by position.
pub fn legacy_schema_of(members: &Vec<Member>, configs: &Vec<Option<String>>) -> (schema: Schema)
    ensures
        schema@ == legacy_view(members@, option_texts(configs@)),
{
    let mut notetypes: Vec<NotetypeExt> = Vec::new();
    let mut fields: Vec<FieldExt> = Vec::new();
    let mut templates: Vec<TemplateDef> = Vec::new();
    let mut i: usize = 0;
    assert(members@.take(0).len() == 0);
    while i < members.len()
        invariant
            i <= members.len(),
            notetypes@.len() == i,
            forall|j: int|
                0 <= j < i ==> notetypes@[j]@ == legacy_notetype(
                    members@[j],
                    config_at(option_texts(configs@), j),
                ),
            field_views(fields@) == legacy_fields_all(members@.take(i as int)),
            template_views(templates@) == legacy_templates_all(members@.take(i as int)),
        decreases members.len() - i,
    {
        let member = &members[i];
        let id: i64 = match parse_i64(member.key.as_str()) {
            Some(v) => v,
            None => 0,
        };
        let config = if i < configs.len() {
            copy_text_option(&configs[i])
        } else {
            None
        };
        notetypes.push(
            NotetypeExt { id, name: text_or_default(member.value.get_text("name")), config },
        );
        let ghost fields_before = field_views(fields@);
        let ghost templates_before = template_views(templates@);
        let mut more_fields = legacy_fields(id, &member.value);
        let mut more_templates = legacy_templates(id, &member.value);
        let ghost more_field_views = field_views(more_fields@);
        let ghost more_template_views = template_views(more_templates@);
        fields.append(&mut more_fields);
        templates.append(&mut more_templates);
        proof {
            assert(members@.take(i + 1).drop_last() == members@.take(i as int));
            assert(members@.take(i + 1).last() == members@[i as int]);
            assert(field_views(fields@) =~= fields_before + more_field_views);
            assert(template_views(templates@) =~= templates_before + more_template_views);
        }
        i += 1;
    }
    assert(members@.take(i as int) == members@);
    let schema = Schema { tier: SchemaTier::Legacy, notetypes, fields, templates };
    assert(schema@.notetypes =~= legacy_view(members@, option_texts(configs@)).notetypes);
    schema
}

/// The text of the member under `key` of a metadata document, as the JSON
/// library writes it.
pub open spec fn legacy_config(doc: Json, key: Seq<char>) -> Option<Seq<char>> {
    match doc.member(key) {
        Some(v) => Some(tree_text(v)),
        None => None,
    }
}

/// The texts of the members of a metadata document, position by position.
pub open spec fn legacy_configs(doc: Json, members: Seq<Member>) -> Seq<Option<Seq<char>>> {
    Seq::new(members.len(), |i: int| legacy_config(doc, members[i].key@))
}

/// The schema that a legacy metadata document describes: one note type per
/// member, each with the text of its member as its configuration, and
/// their fields and templates in the order of the members.
pub open spec fn legacy_document_view(doc: Json) -> SchemaView {
    let members = doc.members().unwrap();
    legacy_view(members, legacy_configs(doc, members))
}

/// Whether `text` is a legacy metadata document that describes at least one
/// note type: a JSON object with at least one member.
pub open spec fn is_legacy_document(text: Seq<char>) -> bool {
    match json_document(text) {
        Some(doc) => match doc.members() {
            Some(members) => members.len() > 0,
            None => false,
        },
        None => false,
    }
}

/// Reads the legacy metadata document `text`. There is a schema exactly
/// where `text` is a JSON object with at least one member.
pub fn legacy_schema(text: &str) -> (r: Option<Schema>)
    ensures
        r is Some == is_legacy_document(text@),
        match r {
            Some(schema) => schema@ == legacy_document_view(json_document(text@).unwrap()),
            None => true,
        },
{
    let root = match parse_value(text) {
        Ok(v) => v,
        Err(_) => {
            return None;
        },
    };
    let doc = tree_of_value(&root);
    match doc.as_object() {
        Some(members) => {
            if members.len() == 0 {
                return None;
            }
            let mut configs: Vec<Option<String>> = Vec::new();
            let mut i: usize = 0;
            while i < members.len()
                invariant
                    i <= members.len(),
                    configs@.len() == i,
                    doc == value_tree(root),
                    forall|j: int|
                        0 <= j < i ==> text_option(#[trigger] configs@[j]) == legacy_config(
                            doc,
                            members@[j].key@,
                        ),
                decreases members.len() - i,
            {
                let config = match value_member(&root, members[i].key.as_str()) {
                    Some(m) => Some(value_text(m)),
                    None => None,
                };
                configs.push(config);
                i += 1;
            }
            let schema = legacy_schema_of(members, &configs);
            assert(option_texts(configs@) =~= legacy_configs(doc, members@));
            Some(schema)
        },
        None => None,
    }
}

/// The schema of a store of which nothing but the raw notes can be read.
pub open spec fn minimal_view() -> SchemaView {
    SchemaView {
        tier: SchemaTier::Minimal,
        notetypes: Seq::<NotetypeView>::empty(),
        fields: Seq::<FieldView>::empty(),
        templates: Seq::<TemplateView>::empty(),
    }
}

/// The schema of a store, by the first of three readings that its
/// structure allows: the modern relations; else the legacy metadata
/// document; else nothing but the raw notes.
pub open spec fn schema_of(rows: StoreRows) -> SchemaView {
    if is_modern(rows) {
        modern_view(rows)
    } else {
        match rows.models {
            Some(text) => if is_legacy_document(text@) {
                legacy_document_view(json_document(text@).unwrap())
            } else {
                minimal_view()
            },
            None => minimal_view(),
        }
    }
}

/// The three readings are tried in turn, and each only where the one
/// before it is structurally absent: the schema is modern exactly where
/// the modern relations are there; legacy exactly where they are not and
/// the metadata document is usable; minimal in every other case.
pub proof fn lemma_tiers(rows: StoreRows)
    ensures
        schema_of(rows).tier == SchemaTier::Modern <==> is_modern(rows),
        schema_of(rows).tier == SchemaTier::Legacy <==> !is_modern(rows) && rows.models is Some
            && is_legacy_document(rows.models.unwrap()@),
        schema_of(rows).tier == SchemaTier::Minimal ==> schema_of(rows) == minimal_view(),
{
}

/// A schema without note types, fields or templates.
pub fn minimal_schema() -> (schema: Schema)
    ensures
        schema@ == minimal_view(),
{
    let schema = Schema {
        tier: SchemaTier::Minimal,
        notetypes: Vec::new(),
        fields: Vec::new(),
        templates: Vec::new(),
    };
    assert(schema@.notetypes =~= minimal_view().notetypes);
    assert(schema@.fields =~= minimal_view().fields);
    assert(schema@.templates =~= minimal_view().templates);
    schema
}

/// Reads the schema of a store, whatever its layout. This never fails: a
/// store that has neither the modern relations nor a usable legacy
/// document gets the minimal schema.
pub fn adapt_schema(rows: &StoreRows) -> (schema: Schema)
    ensures
        schema@ == schema_of(*rows),
{
    if detect_modern(rows) {
        return modern_schema(rows);
    }
    match &rows.models {
        Some(text) => match legacy_schema(text.as_str()) {
            Some(schema) => schema,
            None => minimal_schema(),
        },
        None => minimal_schema(),
    }
}

} // verus!
