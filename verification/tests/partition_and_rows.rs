use mngr::constraint::{CheckConstraint, ConstraintMap, ConstraintSet, UniqueConstraint};
use mngr::column::Column;
use mngr::error::ErrorKind;
use mngr::partition::{partition_constraints, sort_positions};
use mngr::project::{project, table_columns, RowData};
use mngr::table::{Meta, Table};

fn check(name: &str) -> CheckConstraint {
    CheckConstraint { name: name.to_string(), expression: "x > 0".to_string() }
}

fn map_with_check(name: &str) -> ConstraintMap {
    ConstraintMap {
        check: Some(vec![check(name)]),
        exclusion: None,
        foreign_key: None,
        primary_key: None,
        uniqueness: None,
    }
}

fn column(name: &str, data_type: &str, position: i16) -> Column {
    Column {
        data_type: data_type.to_string(),
        description: None,
        expression: None,
        generated: None,
        identity: None,
        name: name.to_string(),
        nullable: true,
        position,
    }
}

#[test]
fn single_column_sets_go_by_column_only() {
    let sets = vec![
        ConstraintSet { columns: vec![2], constraint_map: map_with_check("c1") },
        ConstraintSet { columns: vec![1, 3], constraint_map: map_with_check("c2") },
    ];
    let partitioned = partition_constraints(&sets);
    assert_eq!(partitioned.by_column.len(), 1);
    assert_eq!(partitioned.by_column[0].0, 2);
    assert_eq!(partitioned.by_columns.len(), 1);
    assert_eq!(partitioned.by_columns[0].0, vec![1, 3]);
    assert!(partitioned.column_constraints(2).is_some());
    assert!(partitioned.column_constraints(1).is_none());
    assert!(partitioned.column_constraints(3).is_none());
    assert!(partitioned.table_constraints(&vec![1, 3]).is_some());
    assert!(partitioned.table_constraints(&vec![2]).is_none());
}

#[test]
fn shared_positions_merge_their_constraints_in_order() {
    let mut second = map_with_check("c2");
    second.uniqueness = Some(vec![UniqueConstraint { name: "u1".to_string() }]);
    let sets = vec![
        ConstraintSet { columns: vec![5], constraint_map: map_with_check("c1") },
        ConstraintSet { columns: vec![5], constraint_map: second },
    ];
    let partitioned = partition_constraints(&sets);
    assert_eq!(partitioned.by_column.len(), 1);
    let merged = partitioned.column_constraints(5).unwrap();
    assert_eq!(merged.check, Some(vec![check("c1"), check("c2")]));
    assert_eq!(merged.uniqueness, Some(vec![UniqueConstraint { name: "u1".to_string() }]));
}

#[test]
fn table_constraint_keys_are_sorted_position_lists() {
    let sets = vec![ConstraintSet { columns: vec![3, 1], constraint_map: map_with_check("c") }];
    let partitioned = partition_constraints(&sets);
    assert_eq!(partitioned.by_columns[0].0, vec![1, 3]);
}

#[test]
fn sorting_positions_is_ascending_and_keeps_duplicates() {
    assert_eq!(sort_positions(&vec![3, 1, 2]), vec![1, 2, 3]);
    assert_eq!(sort_positions(&vec![2, 1, 2]), vec![1, 2, 2]);
    assert_eq!(sort_positions(&vec![]), Vec::<i16>::new());
}

#[test]
fn projection_reads_values_in_ordinal_order() {
    let meta = Meta {
        oid: 1,
        name: "users".to_string(),
        schema: "public".to_string(),
        description: None,
    };
    let t = Table::from_parts(
        meta,
        vec![column("id", "integer", 1), column("name", "text", 2)],
        Vec::new(),
    )
    .unwrap();
    let row = RowData {
        values: vec![
            ("name".to_string(), "Ann".to_string()),
            ("id".to_string(), "7".to_string()),
        ],
    };
    let projected = project(&t, &row).unwrap();
    assert_eq!(
        projected,
        vec![
            ("id".to_string(), "7".to_string()),
            ("name".to_string(), "Ann".to_string()),
        ]
    );
    let short = RowData { values: vec![("id".to_string(), "7".to_string())] };
    assert_eq!(project(&t, &short).unwrap_err(), ErrorKind::NotFound);

    let headers = table_columns(&t);
    assert_eq!(headers.len(), 2);
    assert_eq!(headers[0].name, "id");
    assert_eq!(headers[0].data_type, "integer");
    assert_eq!(headers[1].name, "name");
}

#[test]
fn row_lookup_takes_the_first_match() {
    let row = RowData {
        values: vec![
            ("k".to_string(), "first".to_string()),
            ("k".to_string(), "second".to_string()),
        ],
    };
    assert_eq!(row.get("k"), Some(&"first".to_string()));
    assert_eq!(row.get("missing"), None);
}
