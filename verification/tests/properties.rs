use qb::query_builder::{Conditions, Query, QueryBuilder, RawExt, SqlKeyword, Value, ValueExt};
use qb::sql_dialect::postgres::PostgresSqlDialect;
use qb::{Error, ErrorKind};

#[test]
fn bindings_empty_without_values() {
    let mut qb = QueryBuilder::select();
    qb.columns(vec!["a", "b"])
        .from("t")
        .and_where(("a", "=", "b"))
        .and_where_grouped(|mut g| {
            g.or_where(("b", "<>", "c"));
            g.and_where_grouped(|mut inner| {
                inner.and_where(("c", "=", "d"));
                inner
            });
            g
        })
        .order_by(("a", SqlKeyword::Desc));

    let sql = qb.sql::<PostgresSqlDialect>().unwrap();
    assert!(sql.bindings.is_empty());
}

#[test]
fn rendering_twice_is_identical() {
    let mut qb = QueryBuilder::select();
    qb.columns(vec!["a"])
        .from("t")
        .and_where(("a", "=", 1.value()))
        .limit(7)
        .offset(3);

    let first = qb.sql::<PostgresSqlDialect>().unwrap();
    let second = qb.sql::<PostgresSqlDialect>().unwrap();
    assert_eq!(first.sql, second.sql);
    assert_eq!(first.bindings, second.bindings);
}

#[test]
fn numbering_runs_through_raw_and_sub_query() {
    let mut sub_qb = QueryBuilder::select();
    sub_qb.from("inner_tbl").and_where(("x", "=", 3.value()));

    let mut qb = QueryBuilder::select();
    qb.from("t")
        .and_where(("a", "=", 1.value()))
        .and_where(("b", "@>", "{?, ?}".raw().bindings(vec![2.value(), 4.value()])))
        .and_where(("c", "in", sub_qb));

    let sql = qb.sql::<PostgresSqlDialect>().unwrap();
    assert_eq!(
        sql.sql,
        r#"select * from "t" where "a" = $1 and "b" @> {$2, $3} and "c" in (select * from "inner_tbl" where "x" = $4)"#
    );
    assert_eq!(
        sql.bindings,
        vec![
            Value::Integer(1),
            Value::Integer(2),
            Value::Integer(4),
            Value::Integer(3),
        ]
    );
}

#[test]
fn value_list_renders_numbered_tuple() {
    let mut qb = QueryBuilder::select();
    qb.from("t")
        .and_where(("a", "in", vec![1.value(), 2.value(), 3.value()]));

    let sql = qb.sql::<PostgresSqlDialect>().unwrap();
    assert_eq!(sql.sql, r#"select * from "t" where "a" in ($1, $2, $3)"#);
    assert_eq!(
        sql.bindings,
        vec![Value::Integer(1), Value::Integer(2), Value::Integer(3)]
    );
}

#[test]
fn group_of_three_gets_one_parenthesis_pair() {
    let mut qb = QueryBuilder::select();
    qb.from("t").and_where_grouped(|mut g| {
        g.and_where(("a", "=", "b"));
        g.or_where(("b", "=", "c"));
        g.and_where(("c", "=", "d"));
        g
    });

    let sql = qb.sql::<PostgresSqlDialect>().unwrap();
    assert_eq!(
        sql.sql,
        r#"select * from "t" where ("a" = "b" or "b" = "c" and "c" = "d")"#
    );
}

#[test]
fn null_literal_renders_inline() {
    let mut qb = QueryBuilder::select();
    qb.from("t").and_where(("a", "=", Value::Null));

    let sql = qb.sql::<PostgresSqlDialect>().unwrap();
    assert_eq!(sql.sql, r#"select * from "t" where "a" = null"#);
    assert!(sql.bindings.is_empty());
}

#[test]
fn empty_column_list_renders_star() {
    let mut qb = QueryBuilder::select();
    let empty: Vec<&str> = vec![];
    qb.columns(empty).from("t");

    let sql = qb.sql::<PostgresSqlDialect>().unwrap();
    assert_eq!(sql.sql, r#"select * from "t""#);
}

#[test]
fn limit_and_offset_render_in_decimal() {
    let mut qb = QueryBuilder::select();
    qb.from("t").limit(205).offset(1024);

    let sql = qb.sql::<PostgresSqlDialect>().unwrap();
    assert_eq!(sql.sql, r#"select * from "t" limit 205 offset 1024"#);
}

#[test]
fn order_by_nulls_last() {
    let mut qb = QueryBuilder::select();
    qb.from("t")
        .order_by(("column", SqlKeyword::Desc, SqlKeyword::NullsLast));

    let sql = qb.sql::<PostgresSqlDialect>().unwrap();
    assert_eq!(
        sql.sql,
        r#"select * from "t" order by "column" desc nulls last"#
    );
}

#[test]
fn not_null_conditions() {
    let mut qb = QueryBuilder::select();
    qb.from("t")
        .and_where_not_null("a")
        .or_where_not_null("b");

    let sql = qb.sql::<PostgresSqlDialect>().unwrap();
    assert_eq!(
        sql.sql,
        r#"select * from "t" where "a" is not null or "b" is not null"#
    );
}

#[test]
fn raw_marker_mismatch_is_rejected() {
    let mut qb = QueryBuilder::select();
    qb.from("t")
        .and_where(("a", "=", "{?, ?}".raw().bindings(vec![1.value()])));

    let err = qb.sql::<PostgresSqlDialect>().unwrap_err();
    assert_eq!(err, Error::new(ErrorKind::RawBindingsMismatch));
}

#[test]
fn raw_without_values_needs_no_markers() {
    let mut qb = QueryBuilder::select();
    qb.from("t").and_where(("a", "=", "now()".raw()));

    let sql = qb.sql::<PostgresSqlDialect>().unwrap();
    assert_eq!(sql.sql, r#"select * from "t" where "a" = now()"#);
    assert!(sql.bindings.is_empty());
}

#[test]
fn insert_value_count_must_match_columns() {
    let mut qb = QueryBuilder::insert();
    qb.into_("t")
        .columns(vec!["a".to_owned(), "b".to_owned()]);
    match &mut qb.inner {
        qb::query_builder::InsertType::WithValues(w) => {
            w.bindings.push(1.value());
            w.bindings.push(2.value());
            w.bindings.push(3.value());
        }
        _ => panic!("insert starts with literal rows"),
    }

    let err = qb.sql::<PostgresSqlDialect>().unwrap_err();
    assert_eq!(err.kind(), ErrorKind::InsertShapeMismatch);
}

#[test]
fn rows_cannot_be_added_to_a_sub_query_insert() {
    struct OneCol {
        a: i32,
    }

    impl qb::query_builder::Row for OneCol {
        fn columns() -> Vec<String> {
            vec!["a".to_owned()]
        }

        fn into_row(self, builder: &mut qb::query_builder::RowBuilder) {
            builder.append_binding(self.a.value());
        }
    }

    let mut sub = QueryBuilder::select();
    sub.from("src");

    let mut qb = QueryBuilder::insert();
    qb.into_("t").from_sub_query(sub);

    let err = qb.value(OneCol { a: 1 }).unwrap_err();
    assert_eq!(err.kind(), ErrorKind::InsertFromSubQueryUnsupported);
    let err = qb.values(vec![OneCol { a: 2 }]).unwrap_err();
    assert_eq!(err.kind(), ErrorKind::InsertFromSubQueryUnsupported);
}

#[test]
fn driver_builder_carries_the_rendered_text() {
    let mut qb = QueryBuilder::select();
    qb.from("t").and_where(("a", "=", 1.value())).limit(3);

    let rendered = qb.sql::<PostgresSqlDialect>().unwrap();
    let driver_sql = qb.sqlx_qb::<PostgresSqlDialect>().unwrap().into_sql();
    assert_eq!(driver_sql, rendered.sql);
}

#[test]
fn insert_from_sub_query_is_unsupported() {
    let mut sub = QueryBuilder::select();
    sub.from("src");

    let mut qb = QueryBuilder::insert();
    qb.into_("t").from_sub_query(sub);

    let err = qb.sql::<PostgresSqlDialect>().unwrap_err();
    assert_eq!(err.kind(), ErrorKind::InsertFromSubQueryUnsupported);
}

#[test]
fn group_by_is_stored_but_not_rendered() {
    let mut qb = QueryBuilder::select();
    qb.from("t").group_by("a");

    let sql = qb.sql::<PostgresSqlDialect>().unwrap();
    assert_eq!(sql.sql, r#"select * from "t""#);
}

#[test]
fn delete_with_conditions() {
    let mut qb = QueryBuilder::delete();
    qb.from("t").and_where(("a", "=", 1.value())).or_where((
        "b",
        "=",
        2.value(),
    ));

    let sql = qb.sql::<PostgresSqlDialect>().unwrap();
    assert_eq!(
        sql.sql,
        r#"delete from "t" where "a" = $1 or "b" = $2"#
    );
    assert_eq!(sql.bindings, vec![Value::Integer(1), Value::Integer(2)]);
}

#[test]
fn value_conversions() {
    assert_eq!(100.value(), Value::Integer(100));
    assert_eq!(7i64.value(), Value::BigInt(7));
    assert_eq!(true.value(), Value::Boolean(true));
    assert_eq!("x".value(), Value::String("x".to_owned()));
    assert_eq!("x".to_owned().value(), Value::String("x".to_owned()));
    assert_eq!(Some(5).value(), Value::Integer(5));
    assert_eq!(None::<i32>.value(), Value::Null);
}

#[test]
fn update_pairs_columns_and_values_in_declared_order() {
    struct Pair {
        first: i32,
        second: String,
    }

    impl qb::query_builder::Row for Pair {
        fn columns() -> Vec<String> {
            vec!["first".to_owned(), "second".to_owned()]
        }

        fn into_row(self, builder: &mut qb::query_builder::RowBuilder) {
            builder.append_binding(self.first.value());
            builder.append_binding(self.second.value());
        }
    }

    let mut qb = QueryBuilder::update(Pair {
        first: 9,
        second: "nine".to_owned(),
    });
    let sql = qb.table("t").sql::<PostgresSqlDialect>().unwrap();

    assert_eq!(sql.sql, r#"update "t" set "first" = $1, "second" = $2"#);
    assert_eq!(
        sql.bindings,
        vec![Value::Integer(9), Value::String("nine".to_owned())]
    );
}

#[test]
fn query_kind_dispatch() {
    let mut select = QueryBuilder::select();
    select.from("t");
    let q = Query::Select(select);
    let sql = q.sql::<PostgresSqlDialect>().unwrap();
    assert_eq!(sql.sql, r#"select * from "t""#);

    let mut delete = QueryBuilder::delete();
    delete.from("t");
    let q = Query::Delete(delete);
    let sql = q.sql::<PostgresSqlDialect>().unwrap();
    assert_eq!(sql.sql, r#"delete from "t""#);
}

#[test]
fn dotted_update_column_is_quoted_per_segment() {
    let mut qb = QueryBuilder::select();
    qb.columns(vec!["s.t.c"]).from("s.t");

    let sql = qb.sql::<PostgresSqlDialect>().unwrap();
    assert_eq!(sql.sql, r#"select "s"."t"."c" from "s"."t""#);
}
