use vstd::prelude::*;
use vstd::string::StringSliceAdditionalSpecFns;
use vstd::utf8::encode_utf8;

use crate::query_builder::value::{Value, ValueView};
use crate::sql_dialect::{Dialect, Sql, SqlDialect};

verus! {

/// The largest value the PostgreSQL binary protocol can carry: its value
/// lengths are signed 32-bit prefixes.
pub const PG_MAX_VALUE_SIZE: usize = 0x7FFF_FFFF;

/// Whether the PostgreSQL driver can encode every one of these values: a
/// text value's UTF-8 size must fit the protocol's signed 32-bit length
/// prefix; every other kind always fits.
pub open spec fn pg_accepts(vals: Seq<ValueView>) -> bool {
    forall|i: int|
        0 <= i < vals.len() ==> (#[trigger] vals[i] matches ValueView::String(s)
            ==> encode_utf8(s).len() <= PG_MAX_VALUE_SIZE)
}

/// The PostgreSQL argument pack rendered statements are bound into.
#[verifier::external_type_specification]
#[verifier::external_body]
pub struct ExPgArguments(sqlx::postgres::PgArguments);

/// The PostgreSQL database marker type of the driver.
#[verifier::external_type_specification]
#[verifier::external_body]
pub struct ExPostgres(sqlx::postgres::Postgres);

/// What a PostgreSQL argument pack holds: the values encoded into it, in
/// encoding order.
pub uninterp spec fn pg_arguments_view(args: sqlx::postgres::PgArguments) -> Seq<ValueView>;

/// The driver's runtime query builder for PostgreSQL, which carries the
/// finished SQL text and the bound arguments. The driver's builder type
/// shares its name with this crate's own entry point, so it cannot be
/// declared to the verifier directly and is held opaquely instead.
#[verifier::external_body]
pub struct PgQueryBuilder {
    inner: sqlx::QueryBuilder<sqlx::postgres::Postgres>,
}

/// The SQL text a driver builder was built over.
pub uninterp spec fn pg_query_builder_sql(b: PgQueryBuilder) -> Seq<char>;

/// The values of the argument pack a driver builder was built over.
pub uninterp spec fn pg_query_builder_args(b: PgQueryBuilder) -> Seq<ValueView>;

impl PgQueryBuilder {
    /// Relies on `QueryBuilder::into_sql` and `SqlStr::as_str`: the SQL
    /// text this builder was built over.
    #[verifier::external_body]
    pub fn into_sql(self) -> (s: String)
        ensures
            s@ == pg_query_builder_sql(self),
    {
        self.inner.into_sql().as_str().to_owned()
    }
}

/// Relies on `PgArguments::default`: a fresh, empty argument pack.
#[verifier::external_body]
fn pg_arguments_new() -> (args: sqlx::postgres::PgArguments)
    ensures
        pg_arguments_view(args) == Seq::<ValueView>::empty(),
{
    Default::default()
}

/// Relies on sqlx's `Arguments::add` for `i32`: it appends exactly one
/// encoded argument to the pack. Encoding a plain scalar does not fail; on
/// failure the pack would be left unchanged, so the result is dropped.
#[verifier::external_body]
fn pg_add_i32(args: &mut sqlx::postgres::PgArguments, v: i32)
    ensures
        pg_arguments_view(*final(args)) == pg_arguments_view(*old(args)).push(
            ValueView::Integer(v),
        ),
{
    let _ = sqlx::Arguments::add(args, v);
}

/// Relies on sqlx's `Arguments::add` for `i64`, as for `i32`.
#[verifier::external_body]
fn pg_add_i64(args: &mut sqlx::postgres::PgArguments, v: i64)
    ensures
        pg_arguments_view(*final(args)) == pg_arguments_view(*old(args)).push(
            ValueView::BigInt(v),
        ),
{
    let _ = sqlx::Arguments::add(args, v);
}

/// Relies on sqlx's `Arguments::add` for `bool`, as for `i32`.
#[verifier::external_body]
fn pg_add_bool(args: &mut sqlx::postgres::PgArguments, v: bool)
    ensures
        pg_arguments_view(*final(args)) == pg_arguments_view(*old(args)).push(
            ValueView::Boolean(v),
        ),
{
    let _ = sqlx::Arguments::add(args, v);
}

/// Relies on sqlx's `Arguments::add` for `String`: it appends exactly one
/// encoded argument when the text's UTF-8 size fits the protocol's signed
/// 32-bit value-length prefix. An oversized text fails the driver's size
/// check and leaves the pack unchanged; the `requires` rules that out.
#[verifier::external_body]
fn pg_add_string(args: &mut sqlx::postgres::PgArguments, v: String)
    requires
        encode_utf8(v@).len() <= PG_MAX_VALUE_SIZE,
    ensures
        pg_arguments_view(*final(args)) == pg_arguments_view(*old(args)).push(
            ValueView::String(v@),
        ),
{
    let _ = sqlx::Arguments::add(args, v);
}

/// Relies on sqlx's `Arguments::add` for an absent `Option<i32>`: it
/// appends exactly one encoded SQL null to the pack.
#[verifier::external_body]
fn pg_add_null(args: &mut sqlx::postgres::PgArguments)
    ensures
        pg_arguments_view(*final(args)) == pg_arguments_view(*old(args)).push(ValueView::Null),
{
    let _ = sqlx::Arguments::add(args, Option::<i32>::None);
}

/// Relies on `QueryBuilder::with_arguments`: a builder over exactly the
/// given SQL text and argument pack.
#[verifier::external_body]
fn pg_with_arguments(text: String, args: sqlx::postgres::PgArguments) -> (b: PgQueryBuilder)
    ensures
        pg_query_builder_sql(b) == text@,
        pg_query_builder_args(b) == pg_arguments_view(args),
{
    PgQueryBuilder { inner: sqlx::QueryBuilder::with_arguments(text, args) }
}

/// The PostgreSQL dialect: double-quoted identifiers, `$n` placeholders,
/// and conversion into the driver's query builder.
#[derive(Debug, Clone, Copy, PartialEq, Eq, Structural)]
pub struct PostgresSqlDialect;

impl SqlDialect for PostgresSqlDialect {
    type SqlxQb = PgQueryBuilder;

    open spec fn quote_spec() -> char {
        '"'
    }

    open spec fn dialect_spec() -> Dialect {
        Dialect::Postgres
    }

    open spec fn qb_sql(b: PgQueryBuilder) -> Seq<char> {
        pg_query_builder_sql(b)
    }

    open spec fn qb_args(b: PgQueryBuilder) -> Seq<ValueView> {
        pg_query_builder_args(b)
    }

    open spec fn accepts(vals: Seq<ValueView>) -> bool {
        pg_accepts(vals)
    }

    fn relation_quote() -> (c: char) {
        '"'
    }

    fn dialect() -> (d: Dialect) {
        Dialect::Postgres
    }

    fn into_sqlx_qb(sql: Sql) -> (b: Self::SqlxQb) {
        let mut args = pg_arguments_new();
        let n = sql.bindings.len();
        let mut i: usize = 0;
        proof {
            assert(pg_arguments_view(args) =~= sql.bindings.deep_view().take(0));
        }
        while i < n
            invariant
                0 <= i <= n,
                n == sql.bindings@.len(),
                pg_accepts(sql.bindings.deep_view()) ==> pg_arguments_view(args)
                    =~= sql.bindings.deep_view().take(i as int),
            decreases n - i,
        {
            proof {
                assert(sql.bindings.deep_view()[i as int] == sql.bindings@[i as int]@);
            }
            match &sql.bindings[i] {
                Value::Integer(v) => pg_add_i32(&mut args, *v),
                Value::BigInt(v) => pg_add_i64(&mut args, *v),
                Value::Boolean(b) => pg_add_bool(&mut args, *b),
                Value::String(s) => {
                    // An oversized text would fail the driver's size check
                    // and leave the pack unchanged; leave it unchanged
                    // without the call.
                    let encoded = s.as_str().as_bytes();
                    if encoded.len() <= PG_MAX_VALUE_SIZE {
                        proof {
                            assert(encoded@ == encode_utf8(s@));
                        }
                        pg_add_string(&mut args, s.clone());
                    }
                },
                Value::Null => pg_add_null(&mut args),
            }
            proof {
                if pg_accepts(sql.bindings.deep_view()) {
                    assert(pg_arguments_view(args) =~= sql.bindings.deep_view().take(
                        i as int + 1,
                    ));
                }
            }
            i += 1;
        }
        proof {
            assert(sql.bindings.deep_view().take(n as int) =~= sql.bindings.deep_view());
        }
        pg_with_arguments(sql.sql, args)
    }
}

} // verus!
