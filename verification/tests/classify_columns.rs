use mngr::classify::{classify, form_fields, InputType};
use mngr::column::{Column, Generated, Identity};
use mngr::error::ErrorKind;
use mngr::project::RowData;
use mngr::table::{Meta, Table};

fn column(name: &str, data_type: &str, nullable: bool, position: i16) -> Column {
    Column {
        data_type: data_type.to_string(),
        description: None,
        expression: None,
        generated: None,
        identity: None,
        name: name.to_string(),
        nullable,
        position,
    }
}

fn table(columns: Vec<Column>) -> Table {
    let meta = Meta {
        oid: 1,
        name: "users".to_string(),
        schema: "public".to_string(),
        description: None,
    };
    Table::from_parts(meta, columns, Vec::new()).unwrap()
}

#[test]
fn text_not_nullable_is_required_long_text() {
    let status = column("status", "text", false, 1);
    let c = classify(&status);
    assert!(matches!(c.input_type, InputType::TextArea(_)));
    assert!(c.required);
}

#[test]
fn known_types_map_to_their_kinds() {
    assert!(matches!(classify(&column("a", "bool", false, 1)).input_type, InputType::Boolean));
    assert!(matches!(classify(&column("a", "date", false, 1)).input_type, InputType::Date(_)));
    assert!(matches!(classify(&column("a", "int4", false, 1)).input_type, InputType::Number(_)));
    assert!(matches!(classify(&column("a", "int8", false, 1)).input_type, InputType::Number(_)));
    assert!(matches!(classify(&column("a", "text", false, 1)).input_type, InputType::TextArea(_)));
    assert!(matches!(
        classify(&column("a", "timestamptz", false, 1)).input_type,
        InputType::DateTime(_)
    ));
}

#[test]
fn unknown_types_always_classify_as_short_text() {
    for exotic in ["ltree", "uuid", "jsonb", "integer", "tsvector", ""] {
        let c = classify(&column("a", exotic, true, 1));
        assert!(matches!(c.input_type, InputType::Text(_)));
    }
}

#[test]
fn classification_is_deterministic_for_equal_types() {
    let first = classify(&column("a", "jsonb", true, 1));
    let second = classify(&column("b", "jsonb", true, 9));
    assert_eq!(first.input_type, second.input_type);
}

#[test]
fn booleans_are_never_required() {
    let flag = column("active", "bool", false, 1);
    let c = classify(&flag);
    assert!(!c.required);
}

#[test]
fn nullable_or_defaulted_columns_are_optional() {
    let nullable = column("note", "text", true, 1);
    assert!(!classify(&nullable).required);
    let mut defaulted = column("stamp", "text", false, 1);
    defaulted.expression = Some("now()".to_string());
    assert!(!classify(&defaulted).required);
}

#[test]
fn generation_predicates_follow_identity_and_storage() {
    let mut id = column("id", "int8", false, 1);
    id.identity = Some(Identity::AlwaysGenerated);
    assert!(id.always_generated());

    let mut by_default = column("id", "int8", false, 1);
    by_default.identity = Some(Identity::GeneratedByDefault);
    assert!(!by_default.always_generated());

    let mut stored = column("total", "int8", false, 1);
    stored.generated = Some(Generated::Stored);
    assert!(stored.always_generated());

    let plain = column("name", "text", false, 1);
    assert!(!plain.always_generated());
    assert!(plain.required());
    assert!(!column("note", "text", true, 1).required());
}

#[test]
fn form_fields_skip_generated_columns_and_prefill() {
    let mut id = column("id", "int8", false, 1);
    id.identity = Some(Identity::AlwaysGenerated);
    let t = table(vec![id, column("name", "text", false, 2)]);

    let blank = form_fields(&t, None).unwrap();
    assert_eq!(blank.len(), 1);
    assert_eq!(blank[0].column.name, "name");
    assert_eq!(blank[0].value, None);

    let row = RowData {
        values: vec![
            ("id".to_string(), "7".to_string()),
            ("name".to_string(), "Ann".to_string()),
        ],
    };
    let filled = form_fields(&t, Some(&row)).unwrap();
    assert_eq!(filled.len(), 1);
    assert_eq!(filled[0].value, Some("Ann".to_string()));
}

#[test]
fn form_fields_refuse_a_row_missing_a_column() {
    let t = table(vec![column("name", "text", false, 1)]);
    let row = RowData { values: vec![("other".to_string(), "x".to_string())] };
    assert_eq!(form_fields(&t, Some(&row)).unwrap_err(), ErrorKind::NotFound);
}
