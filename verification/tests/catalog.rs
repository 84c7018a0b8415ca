use mngr::column::Column;
use mngr::config::{Config, ScopeConfig, TableConfig};
use mngr::constraint::{CheckConstraint, ConstraintMap, ConstraintSet, PrimaryKeyConstraint};
use mngr::error::ErrorKind;
use mngr::schema::{Schemas, TableRow};
use mngr::sort::resolve;
use mngr::table::{Meta, Table};

fn strings(items: &[&str]) -> Vec<String> {
    items.iter().map(|s| s.to_string()).collect()
}

fn config(includes: &[&str], exclude: &[&str]) -> Config {
    Config {
        scope: ScopeConfig { includes: strings(includes), exclude: strings(exclude) },
        tables: None,
    }
}

fn row(schema: &str, table: &str, oid: u32) -> TableRow {
    TableRow { schema: schema.to_string(), table: table.to_string(), oid }
}

fn column(name: &str, data_type: &str, position: i16) -> Column {
    Column {
        data_type: data_type.to_string(),
        description: None,
        expression: None,
        generated: None,
        identity: None,
        name: name.to_string(),
        nullable: false,
        position,
    }
}

fn meta(name: &str) -> Meta {
    Meta { oid: 1, name: name.to_string(), schema: "public".to_string(), description: None }
}

fn empty_map() -> ConstraintMap {
    ConstraintMap {
        check: None,
        exclusion: None,
        foreign_key: None,
        primary_key: None,
        uniqueness: None,
    }
}

#[test]
fn scope_keeps_exactly_the_visible_tables() {
    let rows = vec![
        row("public", "users", 1),
        row("public", "orders", 2),
        row("public", "audit_log", 3),
    ];
    let cfg = config(&["public.%"], &["public.audit_log"]);
    let catalog = Schemas::build(&rows, &cfg).unwrap();
    assert_eq!(catalog.len(), 1);
    let schema = catalog.get(0);
    assert_eq!(schema.name, "public");
    let names: Vec<&str> = schema.tables.iter().map(|t| t.name.as_str()).collect();
    assert_eq!(names, vec!["users", "orders"]);
    assert_eq!(schema.tables[0].oid, 1);
    assert_eq!(schema.tables[1].oid, 2);
}

#[test]
fn tables_group_under_their_schemas_in_discovery_order() {
    let rows = vec![
        row("app", "users", 1),
        row("audit", "events", 2),
        row("app", "orders", 3),
    ];
    let catalog = Schemas::build(&rows, &config(&["%"], &[])).unwrap();
    assert_eq!(catalog.len(), 2);
    assert_eq!(catalog.get(0).name, "app");
    let app_names: Vec<&str> = catalog.get(0).tables.iter().map(|t| t.name.as_str()).collect();
    assert_eq!(app_names, vec!["users", "orders"]);
    assert_eq!(catalog.get(1).name, "audit");
}

#[test]
fn a_scope_admitting_nothing_halts_the_load() {
    let rows = vec![row("public", "users", 1)];
    assert_eq!(
        Schemas::build(&rows, &config(&["other.%"], &[])).unwrap_err(),
        ErrorKind::Configuration
    );
    assert_eq!(
        Schemas::build(&rows, &config(&[], &[])).unwrap_err(),
        ErrorKind::Configuration
    );
}

#[test]
fn ambiguous_unqualified_names_halt_the_load() {
    let rows = vec![row("app", "users", 1), row("audit", "users", 2)];
    assert_eq!(
        Schemas::build(&rows, &config(&["%"], &[])).unwrap_err(),
        ErrorKind::Configuration
    );
}

#[test]
fn a_configured_schema_disambiguates_a_duplicate_name() {
    let rows = vec![row("app", "users", 1), row("audit", "users", 2)];
    let cfg = Config {
        scope: ScopeConfig { includes: strings(&["%"]), exclude: strings(&[]) },
        tables: Some(vec![TableConfig {
            schema: Some("app".to_string()),
            table: "users".to_string(),
            description: None,
            lookup: None,
        }]),
    };
    let catalog = Schemas::build(&rows, &cfg).unwrap();
    assert_eq!(catalog.len(), 2);
}

#[test]
fn catalog_lookup_resolves_names() {
    let rows = vec![row("app", "users", 1), row("audit", "events", 2)];
    let catalog = Schemas::build(&rows, &config(&["%"], &[])).unwrap();
    assert_eq!(catalog.find_schema("app").unwrap().name, "app");
    assert!(catalog.find_schema("missing").is_none());
    assert_eq!(catalog.find_table("app", "users").unwrap().oid, 1);
    assert_eq!(catalog.find_table("audit", "events").unwrap().oid, 2);
    assert!(catalog.find_table("app", "events").is_none());
    assert!(catalog.find_table("missing", "users").is_none());
}

#[test]
fn assembly_accepts_well_formed_parts() {
    let set = ConstraintSet {
        columns: vec![1],
        constraint_map: ConstraintMap {
            check: None,
            exclusion: None,
            foreign_key: None,
            primary_key: Some(vec![PrimaryKeyConstraint { name: "pk".to_string() }]),
            uniqueness: None,
        },
    };
    let t = Table::from_parts(
        meta("users"),
        vec![column("id", "integer", 1), column("name", "text", 2)],
        vec![set],
    )
    .unwrap();
    assert_eq!(t.columns.len(), 2);
    assert_eq!(t.constraints.len(), 1);
    assert!(t.constraints[0].constraint_map.requires_unique());
    assert!(t.requires_unique());

    let plain = Table::from_parts(
        meta("logs"),
        vec![column("stamp", "timestamptz", 1)],
        Vec::new(),
    )
    .unwrap();
    assert!(!plain.requires_unique());
}

#[test]
fn assembly_refuses_unordered_or_duplicate_positions() {
    assert_eq!(
        Table::from_parts(
            meta("users"),
            vec![column("name", "text", 2), column("id", "integer", 1)],
            Vec::new(),
        )
        .unwrap_err(),
        ErrorKind::Configuration
    );
    assert_eq!(
        Table::from_parts(
            meta("users"),
            vec![column("id", "integer", 1), column("name", "text", 1)],
            Vec::new(),
        )
        .unwrap_err(),
        ErrorKind::Configuration
    );
}

#[test]
fn assembly_refuses_duplicate_column_names() {
    assert_eq!(
        Table::from_parts(
            meta("users"),
            vec![column("id", "integer", 1), column("id", "text", 2)],
            Vec::new(),
        )
        .unwrap_err(),
        ErrorKind::Configuration
    );
}

#[test]
fn assembly_refuses_constraints_off_the_columns() {
    let dangling = ConstraintSet { columns: vec![9], constraint_map: empty_map() };
    assert_eq!(
        Table::from_parts(meta("users"), vec![column("id", "integer", 1)], vec![dangling])
            .unwrap_err(),
        ErrorKind::Configuration
    );
    let empty = ConstraintSet { columns: vec![], constraint_map: empty_map() };
    assert_eq!(
        Table::from_parts(meta("users"), vec![column("id", "integer", 1)], vec![empty])
            .unwrap_err(),
        ErrorKind::Configuration
    );
}

#[test]
fn requires_unique_sees_primary_keys_and_uniqueness() {
    let mut map = empty_map();
    assert!(!map.requires_unique());
    map.primary_key = Some(Vec::new());
    assert!(!map.requires_unique());
    map.primary_key = Some(vec![PrimaryKeyConstraint { name: "pk".to_string() }]);
    assert!(map.requires_unique());
    let mut checked = empty_map();
    checked.check = Some(vec![CheckConstraint {
        name: "c".to_string(),
        expression: "x > 0".to_string(),
    }]);
    assert!(!checked.requires_unique());
}

#[test]
fn sort_resolves_by_name_or_first_ordinal() {
    let t = Table::from_parts(
        meta("users"),
        vec![column("id", "integer", 1), column("name", "text", 2)],
        Vec::new(),
    )
    .unwrap();
    assert_eq!(resolve(&t, None).unwrap().name, "id");
    let name = "name".to_string();
    assert_eq!(resolve(&t, Some(&name)).unwrap().name, "name");
    let missing = "missing".to_string();
    assert_eq!(resolve(&t, Some(&missing)).unwrap_err(), ErrorKind::NotFound);
    let bare = Table::from_parts(meta("empty"), Vec::new(), Vec::new()).unwrap();
    assert_eq!(resolve(&bare, None).unwrap_err(), ErrorKind::NotFound);
}
