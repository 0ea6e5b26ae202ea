use qb::query_builder::{
    ColumnExt, Conditions, QueryBuilder, RawExt, Row, RowBuilder, SqlKeyword, ValueExt,
};
use qb::sql_dialect::postgres::PostgresSqlDialect;

struct TestRow {
    a: String,
    b: i32,
    c: i64,
    f: bool,
    d: Option<i32>,
}

impl Row for TestRow {
    fn columns() -> Vec<String> {
        vec![
            "a".to_owned(),
            "b".to_owned(),
            "c".to_owned(),
            "f".to_owned(),
            "d".to_owned(),
        ]
    }

    fn into_row(self, builder: &mut RowBuilder) {
        builder.append_binding(self.a.value());
        builder.append_binding(self.b.value());
        builder.append_binding(self.c.value());
        builder.append_binding(self.f.value());
        builder.append_binding(self.d.value());
    }
}

#[test]
fn select_all() {
    let mut select = QueryBuilder::select();
    let sql = select.from("table").sql::<PostgresSqlDialect>().unwrap();

    assert_eq!(sql.sql, r#"select * from "table""#);
    assert!(sql.bindings.is_empty());
}

#[test]
fn select_columns_aliasing() {
    let mut select = QueryBuilder::select();
    let sql = select
        .push_column("column1")
        .push_column("column2".alias("another_name"))
        .from("table")
        .sql::<PostgresSqlDialect>()
        .unwrap();

    assert_eq!(
        sql.sql,
        r#"select "column1", "column2" as "another_name" from "table""#
    );
    assert!(sql.bindings.is_empty());
}

#[test]
fn select_where() {
    let mut select = QueryBuilder::select();
    let sql = select
        .from("table")
        .and_where(("my_column", "=", 100.value()))
        .sql::<PostgresSqlDialect>()
        .unwrap();

    assert_eq!(sql.sql, r#"select * from "table" where "my_column" = $1"#);
    assert_eq!(sql.bindings.len(), 1);
}

#[test]
fn select_where_short_cond() {
    let mut select = QueryBuilder::select();
    let sql = select
        .from("table")
        .and_where(("my_column", 100.value()))
        .sql::<PostgresSqlDialect>()
        .unwrap();

    assert_eq!(sql.sql, r#"select * from "table" where "my_column" = $1"#);
    assert_eq!(sql.bindings.len(), 1);
}

#[test]
fn select_groped_where() {
    let mut select = QueryBuilder::select();
    let sql = select
        .from("table")
        .and_where_grouped(|mut where_qb| {
            where_qb
                .and_where(("a", "=", "b"))
                .and_where(("b", "<>", "c"));
            where_qb
        })
        .sql::<PostgresSqlDialect>()
        .unwrap();

    assert_eq!(
        sql.sql,
        r#"select * from "table" where ("a" = "b" and "b" <> "c")"#
    );
    assert_eq!(sql.bindings.len(), 0);
}

#[test]
fn select_groped_where_when_single_cond() {
    let mut select = QueryBuilder::select();
    let sql = select
        .from("table")
        .and_where_grouped(|mut where_qb| {
            where_qb.and_where(("a", "=", "b"));
            where_qb
        })
        .sql::<PostgresSqlDialect>()
        .unwrap();

    assert_eq!(sql.sql, r#"select * from "table" where "a" = "b""#);
    assert_eq!(sql.bindings.len(), 0);
}

#[test]
fn select_columns() {
    let mut qb = QueryBuilder::select();
    let sql = qb
        .columns(vec!["column1", "column2", "namespace.column"])
        .from("table")
        .sql::<PostgresSqlDialect>()
        .unwrap();

    assert_eq!(
        sql.sql,
        r#"select "column1", "column2", "namespace"."column" from "table""#
    );
    assert!(sql.bindings.is_empty());
}

#[test]
fn left_join() {
    let mut qb = QueryBuilder::select();
    let sql = qb
        .from("table")
        .left_join("another_table", "table.id", "=", "another_table.t_id")
        .sql::<PostgresSqlDialect>()
        .unwrap();

    assert_eq!(
        sql.sql,
        r#"select * from "table" left join "another_table" on "table"."id" = "another_table"."t_id""#
    );
    assert!(sql.bindings.is_empty());
}

#[test]
fn sub_query_alias() {
    let mut sub_qb = QueryBuilder::select();
    sub_qb.from("super_table").alias("my_alias");

    let mut qb = QueryBuilder::select();
    let sql = qb.from(sub_qb).sql::<PostgresSqlDialect>().unwrap();

    assert_eq!(
        sql.sql,
        r#"select * from (select * from "super_table") as "my_alias""#
    );
    assert!(sql.bindings.is_empty());
}

#[test]
fn select_column_asterisk() {
    let mut qb = QueryBuilder::select();
    let sql = qb
        .columns(vec!["my_tbl.*"])
        .from("my_tbl")
        .sql::<PostgresSqlDialect>()
        .unwrap();

    assert_eq!(sql.sql, r#"select "my_tbl".* from "my_tbl""#);
    assert!(sql.bindings.is_empty());
}

#[test]
fn select_column_sub_query() {
    let mut sub_query = QueryBuilder::select();
    sub_query.columns(vec!["column"]).from("tbl").alias("alias");

    let mut qb = QueryBuilder::select();
    let sql = qb
        .columns(vec!["column"])
        .push_column(sub_query)
        .from("my_tbl")
        .sql::<PostgresSqlDialect>()
        .unwrap();

    assert_eq!(
        sql.sql,
        r#"select "column", (select "column" from "tbl") as "alias" from "my_tbl""#
    );
    assert!(sql.bindings.is_empty());
}

#[test]
fn update() {
    let r = TestRow {
        a: "a_val".to_owned(),
        b: 10,
        c: 20,
        f: false,
        d: None,
    };

    let mut qb = QueryBuilder::update(r);
    let sql = qb.table("my_tbl").sql::<PostgresSqlDialect>().unwrap();

    assert_eq!(
        sql.sql,
        r#"update "my_tbl" set "a" = $1, "b" = $2, "c" = $3, "f" = $4, "d" = $5"#
    );
    assert_eq!(sql.bindings.len(), 5);
}

#[test]
fn insert() {
    let r = TestRow {
        a: "a_val".to_owned(),
        b: 10,
        c: 20,
        f: false,
        d: None,
    };

    let rs = vec![
        TestRow {
            a: "a_val".to_owned(),
            b: 10,
            c: 20,
            f: false,
            d: None,
        },
        TestRow {
            a: "a_val".to_owned(),
            b: 10,
            c: 20,
            f: false,
            d: None,
        },
        TestRow {
            a: "a_val".to_owned(),
            b: 10,
            c: 20,
            f: false,
            d: None,
        },
    ];

    let mut qb = QueryBuilder::insert();
    let insert_qb = qb.into_("my_tbl");

    insert_qb.value(r).unwrap();

    insert_qb.values(rs).unwrap();

    let sql = insert_qb.sql::<PostgresSqlDialect>().unwrap();

    assert_eq!(
        sql.sql,
        r#"insert into "my_tbl" ("a", "b", "c", "f", "d") values ($1, $2, $3, $4, $5), ($6, $7, $8, $9, $10), ($11, $12, $13, $14, $15), ($16, $17, $18, $19, $20)"#
    );
    assert_eq!(sql.bindings.len(), 20);
}

#[test]
fn delete() {
    let mut qb = QueryBuilder::delete();
    let sql = qb.from("my_table").sql::<PostgresSqlDialect>().unwrap();

    assert_eq!(sql.sql, r#"delete from "my_table""#);
    assert!(sql.bindings.is_empty());
}

#[test]
fn raw() {
    let mut qb = QueryBuilder::select();
    let sql = qb
        .from(
            "unnest_array({?, ?, ?})"
                .raw()
                .bindings(vec![1.value(), 2.value(), 3.value()]),
        )
        .sql::<PostgresSqlDialect>()
        .unwrap();

    assert_eq!(sql.sql, r#"select * from unnest_array({$1, $2, $3})"#);
    assert_eq!(sql.bindings.len(), 3);
}

#[test]
fn order_by() {
    let mut qb = QueryBuilder::select();
    let sql = qb
        .from("table")
        .order_by(("column", SqlKeyword::Asc))
        .sql::<PostgresSqlDialect>()
        .unwrap();

    assert_eq!(sql.sql, r#"select * from "table" order by "column" asc"#);
}

#[test]
fn order_by_nulls() {
    let mut qb = QueryBuilder::select();
    let sql = qb
        .from("table")
        .order_by(("column", SqlKeyword::Asc, SqlKeyword::NullsFirst))
        .sql::<PostgresSqlDialect>()
        .unwrap();

    assert_eq!(
        sql.sql,
        r#"select * from "table" order by "column" asc nulls first"#
    );
}
