use qb::query_builder::{Conditions, QueryBuilder, RawExt, Row, RowBuilder, ValueExt};
use qb::sql_dialect::postgres::PostgresSqlDialect;

struct TestRow {
    abc: i32,
    my_string: String,
}

impl Row for TestRow {
    fn columns() -> Vec<String> {
        vec!["abc".to_owned(), "my_string".to_owned()]
    }

    fn into_row(self, builder: &mut RowBuilder) {
        builder.append_binding(self.abc.value());
        builder.append_binding(self.my_string.value());
    }
}

struct TestR {
    option_column: Option<String>,
}

impl Row for TestR {
    fn columns() -> Vec<String> {
        vec!["option_column".to_owned()]
    }

    fn into_row(self, builder: &mut RowBuilder) {
        builder.append_binding(self.option_column.value());
    }
}

#[test]
fn lib_update() {
    let row = TestRow {
        abc: 1,
        my_string: "lalala".to_owned(),
    };

    let mut qb = QueryBuilder::update(row);

    qb.table("my_tbl")
        .and_where(("my_table.col1", "=", "my text".value()))
        .or_where(("my_table.col1", "=", "my 2".value()));

    qb.sql::<PostgresSqlDialect>().unwrap();
}

#[test]
fn select() {
    let mut qb = QueryBuilder::select();

    qb.columns(vec!["column"]).from("my_tbl").or_where((
        "my_table.col1",
        "in",
        vec![false.value(), "array".value(), "value".value()],
    ));

    qb.sql::<PostgresSqlDialect>().unwrap();
}

#[test]
fn select2() {
    let mut qb = QueryBuilder::select();

    qb.columns(vec!["column", "column2", "column3"])
        .from("my_tbl")
        .and_where(("ok", "ilike", "pattern*".value()))
        .and_where_grouped(|mut and_where| {
            and_where.and_where(("column", "=", "column2"));
            and_where.and_where_grouped(|mut nested| {
                nested.or_where(("nested", "=", "column2"));
                nested.or_where(("nested", "=", "column2"));
                nested
            });
            and_where
        });

    qb.sql::<PostgresSqlDialect>().unwrap();
}

#[test]
fn select_and_where_null() {
    let mut qb = QueryBuilder::select();

    qb.from("my_tbl")
        .and_where_null("my_column")
        .or_where_null("another_column");

    let sql = qb.sql::<PostgresSqlDialect>().unwrap();
    assert_eq!(
        sql.sql,
        r#"select * from "my_tbl" where "my_column" is null or "another_column" is null"#
    );
}

#[test]
fn raw_arg() {
    let mut qb = QueryBuilder::select();

    qb.from("my_tbl").and_where((
        "column",
        "eq",
        "'{?, ?}'::int[]"
            .raw()
            .bindings(vec![10.value(), 20.value()]),
    ));

    qb.sql::<PostgresSqlDialect>().unwrap();
}

#[test]
fn option_handling() {
    let mut qb = QueryBuilder::insert();

    qb.into_("my_tbl")
        .values(vec![
            TestR {
                option_column: Some("test_str".to_owned()),
            },
            TestR {
                option_column: None,
            },
        ])
        .unwrap();

    qb.sql::<PostgresSqlDialect>().unwrap();
}

#[test]
fn sub_query() {
    let mut sub_qb = QueryBuilder::select();

    sub_qb
        .columns(vec!["id"])
        .from("another_table")
        .and_where(("left", "=", 25.value()));

    let mut qb = QueryBuilder::select();
    qb.from("table")
        .and_where(("v", "=", 10.value()))
        .and_where(("left", "in", sub_qb.clone()));

    let mut qb = QueryBuilder::select();
    qb.from("table")
        .and_where(("v", "=", 10.value()))
        .and_where(("left", "in", sub_qb));

    qb.sql::<PostgresSqlDialect>().unwrap();
}

#[test]
fn sub_query_2() {
    let mut sub_qb = QueryBuilder::select();

    sub_qb
        .columns(vec!["id"])
        .from("another_table")
        .and_where(("left", "=", 25.value()));

    let mut qb = QueryBuilder::select();
    qb.from("table")
        .and_where(("v", "=", 10.value()))
        .and_where(("left", "in", sub_qb.clone()));

    let mut qb = QueryBuilder::select();
    qb.from("table")
        .and_where(("v", "=", 10.value()))
        .and_where(("left", "in", sub_qb));

    let sql = qb.sql::<PostgresSqlDialect>().unwrap();
    assert_eq!(
        sql.sql,
        r#"select * from "table" where "v" = $1 and "left" in (select "id" from "another_table" where "left" = $2)"#
    );
}

#[test]
fn builder() {
    let mut sub_qb = QueryBuilder::select();

    sub_qb
        .columns(vec!["id"])
        .from("another_table")
        .and_where(("left", "=", 25.value()));

    let mut qb = QueryBuilder::select();
    let s = qb
        .from("table")
        .and_where(("v", "=", 10.value()))
        .and_where(("left", "in", sub_qb))
        .sqlx_qb::<PostgresSqlDialect>()
        .unwrap()
        .into_sql();

    println!("{}", s);
}

#[test]
fn mod_select_all() {
    let mut qb = QueryBuilder::select();
    let sql = qb.from("table").sql::<PostgresSqlDialect>().unwrap();

    assert_eq!(sql.sql, r#"select * from "table""#);
    assert!(sql.bindings.is_empty());
}

#[test]
fn mod_select_columns() {
    let mut qb = QueryBuilder::select();
    let sql = qb
        .columns(vec!["column1", "column2", "namespace.column"])
        .from("table")
        .sql::<PostgresSqlDialect>()
        .unwrap();

    assert_eq!(
        sql.sql,
        r#"select "column1", "column2", "namespace"."column" from "table""#
    );
    assert!(sql.bindings.is_empty());
}

#[test]
fn regular_join() {
    let mut qb = QueryBuilder::select();
    let sql = qb
        .from("table")
        .left_join("another_table", "table.id", "=", "another_table.t_id")
        .sql::<PostgresSqlDialect>()
        .unwrap();

    assert_eq!(
        sql.sql,
        r#"select * from "table" left join "another_table" on "table"."id" = "another_table"."t_id""#
    );
    assert!(sql.bindings.is_empty());
}

#[test]
fn mod_sub_query_alias() {
    let mut sub_qb = QueryBuilder::select();
    sub_qb.from("super_table").alias("my_alias");

    let mut qb = QueryBuilder::select();
    let sql = qb.from(sub_qb).sql::<PostgresSqlDialect>().unwrap();

    assert_eq!(
        sql.sql,
        r#"select * from (select * from "super_table") as "my_alias""#
    );
    assert!(sql.bindings.is_empty());
}

#[test]
fn mod_select_column_asterisk() {
    let mut qb = QueryBuilder::select();
    let sql = qb
        .columns(vec!["my_tbl.*"])
        .from("my_tbl")
        .sql::<PostgresSqlDialect>()
        .unwrap();

    assert_eq!(sql.sql, r#"select "my_tbl".* from "my_tbl""#);
    assert!(sql.bindings.is_empty());
}
