use qb::query_builder::{Arg, ColumnExt, QueryBuilder, Row, RowBuilder, SelectQuery, UpdateQuery, ValueExt};

fn compare_columns(qb: &SelectQuery, expected_columns: &[&str]) {
    let columns = qb
        .columns
        .as_ref()
        .map(|columns| {
            columns
                .iter()
                .map(|column| match &column.arg {
                    Arg::Relation(r) => &r.0,
                    _ => panic!("not relation"),
                })
                .collect::<Vec<_>>()
        })
        .unwrap();

    assert_eq!(columns, expected_columns);
}

#[test]
fn columns() {
    let mut qb = QueryBuilder::select();
    qb.columns(vec!["column0"]);

    compare_columns(&qb, &["column0"]);

    qb.columns(vec!["column1"]);

    compare_columns(&qb, &["column1"]);

    qb.extend_columns(vec!["column2", "column3"]);

    compare_columns(&qb, &["column1", "column2", "column3"]);

    qb.push_column("column4");

    compare_columns(&qb, &["column1", "column2", "column3", "column4"]);

    let dynamic_column = format!("column{}", 5);

    qb.push_column(&dynamic_column);

    compare_columns(
        &qb,
        &["column1", "column2", "column3", "column4", "column5"],
    );
}

#[test]
fn alias() {
    let mut qb = QueryBuilder::select();
    qb.push_column("column".alias("another_name"));

    let column = &qb.columns.as_ref().unwrap()[0];

    match &column.arg {
        Arg::Relation(r) => assert_eq!(r.0, "column"),
        _ => {
            assert!(false)
        }
    };

    assert_eq!(column.alias, Some("another_name".to_owned()));
}

#[test]
fn select_query() {
    let mut qb = QueryBuilder::select();
    qb.from("table");

    matches!(qb, SelectQuery { .. });
}

#[test]
fn update_query() {
    struct TestRow {
        s: String,
    }

    impl Row for TestRow {
        fn columns() -> Vec<String> {
            vec!["s".to_owned()]
        }

        fn into_row(self, builder: &mut RowBuilder) {
            builder.append_binding(self.s.value());
        }
    }

    let qb = QueryBuilder::update(TestRow { s: "test".to_owned() });

    matches!(qb, UpdateQuery { .. });
}
