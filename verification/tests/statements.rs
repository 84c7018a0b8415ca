use mngr::column::{Column, Identity};
use mngr::error::ErrorKind;
use mngr::statement::{
    build_insert, build_select, build_select_by_key, build_update, BindValue,
};
use mngr::table::{Meta, Table};
use mngr::text::quote_ident;

fn column(name: &str, data_type: &str, position: i16) -> Column {
    Column {
        data_type: data_type.to_string(),
        description: None,
        expression: None,
        generated: None,
        identity: None,
        name: name.to_string(),
        nullable: false,
        position,
    }
}

fn table(schema: &str, name: &str, columns: Vec<Column>) -> Table {
    let meta = Meta {
        oid: 1,
        name: name.to_string(),
        schema: schema.to_string(),
        description: None,
    };
    Table::from_parts(meta, columns, Vec::new()).unwrap()
}

fn users() -> Table {
    table(
        "public",
        "users",
        vec![column("id", "integer", 1), column("name", "text", 2)],
    )
}

fn pairs(items: &[(&str, &str)]) -> Vec<(String, String)> {
    items.iter().map(|(k, v)| (k.to_string(), v.to_string())).collect()
}

#[test]
fn quoting_wraps_and_doubles_quotes() {
    assert_eq!(quote_ident("users"), "\"users\"");
    assert_eq!(quote_ident("select"), "\"select\"");
    assert_eq!(quote_ident("we\"ird"), "\"we\"\"ird\"");
    assert_eq!(quote_ident(""), "\"\"");
}

#[test]
fn select_orders_by_first_column_by_default() {
    let stmt = build_select(&users(), None, None, 50).unwrap();
    assert_eq!(
        stmt.text,
        "SELECT \"id\"::text, \"name\"::text FROM \"public\".\"users\" \
         ORDER BY \"id\"::integer asc LIMIT 50"
    );
    assert!(stmt.params.is_empty());
}

#[test]
fn select_honors_requested_column_and_direction() {
    let sort = "name".to_string();
    let dir = "desc".to_string();
    let stmt = build_select(&users(), Some(&sort), Some(&dir), 10).unwrap();
    assert_eq!(
        stmt.text,
        "SELECT \"id\"::text, \"name\"::text FROM \"public\".\"users\" \
         ORDER BY \"name\"::text desc LIMIT 10"
    );
}

#[test]
fn select_rejects_unknown_sort_column() {
    let sort = "missing".to_string();
    assert_eq!(
        build_select(&users(), Some(&sort), None, 50).unwrap_err(),
        ErrorKind::NotFound
    );
}

#[test]
fn hostile_sort_direction_is_validation_not_text() {
    let dir = "; DROP TABLE x".to_string();
    assert_eq!(
        build_select(&users(), None, Some(&dir), 50).unwrap_err(),
        ErrorKind::Validation
    );
    for bad in ["ASC", "Desc", "ascending", ""] {
        let d = bad.to_string();
        assert_eq!(
            build_select(&users(), None, Some(&d), 50).unwrap_err(),
            ErrorKind::Validation
        );
    }
}

#[test]
fn reserved_word_table_names_stay_quoted() {
    let t = table("public", "select", vec![column("id", "integer", 1)]);
    let stmt = build_select(&t, None, None, 50).unwrap();
    assert_eq!(
        stmt.text,
        "SELECT \"id\"::text FROM \"public\".\"select\" ORDER BY \"id\"::integer asc LIMIT 50"
    );
}

#[test]
fn quoted_identifiers_contain_no_lone_quote_from_names() {
    let t = table("public", "a\"b", vec![column("c\"d", "text", 1)]);
    let stmt = build_select(&t, None, None, 1).unwrap();
    assert_eq!(
        stmt.text,
        "SELECT \"c\"\"d\"::text FROM \"public\".\"a\"\"b\" ORDER BY \"c\"\"d\"::text asc LIMIT 1"
    );
}

#[test]
fn select_by_key_binds_the_key_with_the_id_cast() {
    let stmt = build_select_by_key(&users(), 42).unwrap();
    assert_eq!(
        stmt.text,
        "SELECT \"id\"::text, \"name\"::text FROM \"public\".\"users\" WHERE \"id\" = $1::integer"
    );
    assert_eq!(stmt.params, vec![BindValue::Int(42)]);
}

#[test]
fn select_by_key_needs_an_id_column() {
    let t = table("public", "logs", vec![column("stamp", "timestamptz", 1)]);
    assert_eq!(build_select_by_key(&t, 1).unwrap_err(), ErrorKind::NotFound);
}

#[test]
fn insert_binds_submitted_columns_in_ordinal_order() {
    let stmt = build_insert(
        &users(),
        &pairs(&[("name", "Ann"), ("id", "7")]),
    )
    .unwrap();
    assert_eq!(
        stmt.text,
        "INSERT INTO \"public\".\"users\" (\"id\", \"name\") VALUES ($1::integer, $2::text)"
    );
    assert_eq!(
        stmt.params,
        vec![
            BindValue::Text("7".to_string()),
            BindValue::Text("Ann".to_string()),
        ]
    );
}

#[test]
fn insert_excludes_always_generated_columns() {
    let mut id = column("id", "integer", 1);
    id.identity = Some(Identity::AlwaysGenerated);
    let t = table("public", "users", vec![id, column("name", "text", 2)]);
    let stmt = build_insert(&t, &pairs(&[("id", "7"), ("name", "Ann")])).unwrap();
    assert_eq!(
        stmt.text,
        "INSERT INTO \"public\".\"users\" (\"name\") VALUES ($1::text)"
    );
    assert_eq!(stmt.params, vec![BindValue::Text("Ann".to_string())]);
}

#[test]
fn insert_omits_empty_strings_for_defaults() {
    let t = table(
        "public",
        "users",
        vec![
            column("id", "integer", 1),
            column("name", "text", 2),
            column("note", "text", 3),
        ],
    );
    let stmt = build_insert(&t, &pairs(&[("name", "Ann"), ("note", "")])).unwrap();
    assert_eq!(
        stmt.text,
        "INSERT INTO \"public\".\"users\" (\"name\") VALUES ($1::text)"
    );
    assert_eq!(stmt.params, vec![BindValue::Text("Ann".to_string())]);
}

#[test]
fn insert_rejects_unknown_columns_and_empty_submissions() {
    assert_eq!(
        build_insert(&users(), &pairs(&[("bogus", "1")])).unwrap_err(),
        ErrorKind::Validation
    );
    assert_eq!(
        build_insert(&users(), &pairs(&[])).unwrap_err(),
        ErrorKind::Validation
    );
    assert_eq!(
        build_insert(&users(), &pairs(&[("name", "")])).unwrap_err(),
        ErrorKind::Validation
    );
}

#[test]
fn update_binds_values_then_key() {
    let stmt = build_update(&users(), 42, &pairs(&[("name", "Ann")])).unwrap();
    assert_eq!(
        stmt.text,
        "UPDATE \"public\".\"users\" SET \"name\" = $1::text WHERE \"id\" = $2::integer"
    );
    assert_eq!(
        stmt.params,
        vec![BindValue::Text("Ann".to_string()), BindValue::Int(42)]
    );
}

#[test]
fn update_keeps_empty_strings_as_values() {
    let stmt = build_update(&users(), 1, &pairs(&[("name", "")])).unwrap();
    assert_eq!(
        stmt.text,
        "UPDATE \"public\".\"users\" SET \"name\" = $1::text WHERE \"id\" = $2::integer"
    );
    assert_eq!(
        stmt.params,
        vec![BindValue::Text("".to_string()), BindValue::Int(1)]
    );
}

#[test]
fn update_excludes_always_generated_columns() {
    let mut stamp = column("stamp", "timestamptz", 3);
    stamp.identity = Some(Identity::AlwaysGenerated);
    let t = table(
        "public",
        "users",
        vec![column("id", "integer", 1), column("name", "text", 2), stamp],
    );
    let stmt = build_update(&t, 5, &pairs(&[("name", "Bo"), ("stamp", "now")])).unwrap();
    assert_eq!(
        stmt.text,
        "UPDATE \"public\".\"users\" SET \"name\" = $1::text WHERE \"id\" = $2::integer"
    );
    assert_eq!(
        stmt.params,
        vec![BindValue::Text("Bo".to_string()), BindValue::Int(5)]
    );
}

#[test]
fn limits_render_in_full_decimal() {
    let stmt = build_select(&users(), None, None, 12345).unwrap();
    assert!(stmt.text.ends_with(" LIMIT 12345"));
    let none = build_select(&users(), None, None, 0).unwrap();
    assert!(none.text.ends_with(" LIMIT 0"));
}

#[test]
fn the_first_submitted_value_wins_for_a_column() {
    let stmt = build_update(
        &users(),
        1,
        &pairs(&[("name", "first"), ("name", "second")]),
    )
    .unwrap();
    assert_eq!(
        stmt.text,
        "UPDATE \"public\".\"users\" SET \"name\" = $1::text WHERE \"id\" = $2::integer"
    );
    assert_eq!(
        stmt.params,
        vec![BindValue::Text("first".to_string()), BindValue::Int(1)]
    );
}

#[test]
fn update_errors_are_precise() {
    assert_eq!(
        build_update(&users(), 1, &pairs(&[("bogus", "1")])).unwrap_err(),
        ErrorKind::Validation
    );
    assert_eq!(
        build_update(&users(), 1, &pairs(&[])).unwrap_err(),
        ErrorKind::Validation
    );
    let no_id = table("public", "logs", vec![column("stamp", "timestamptz", 1)]);
    assert_eq!(
        build_update(&no_id, 1, &pairs(&[("stamp", "x")])).unwrap_err(),
        ErrorKind::NotFound
    );
}
