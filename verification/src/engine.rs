//! The calls into the SQLite engine (`rusqlite`).  Every result that comes
//! back from the engine depends on what the database holds, so nothing is
//! stated of it beyond what the engine documents for every outcome.  A
//! cursor over result rows is modelled as the sequence of rows it has still
//! to yield, and a row as the sequence of its column values.

use vstd::prelude::*;

use rusqlite::types::Value as EngineValue;
use rusqlite::Connection as EngineConnection;
use rusqlite::Error as EngineError;
use rusqlite::Row as EngineRow;
use rusqlite::Rows as EngineRows;
use rusqlite::Statement as EngineStatement;

use crate::value::{Value, ValueView};

verus! {

/// `rusqlite::Connection`: an open database connection (opaque).
#[verifier::external_type_specification]
#[verifier::external_body]
pub struct ExConnection(EngineConnection);

/// `rusqlite::Statement`: a compiled statement (opaque).
#[verifier::external_type_specification]
#[verifier::external_body]
pub struct ExStatement<'conn>(EngineStatement<'conn>);

/// `rusqlite::Rows`: the cursor over a statement's result rows (opaque).
#[verifier::external_type_specification]
#[verifier::external_body]
pub struct ExRows<'stmt>(EngineRows<'stmt>);

/// `rusqlite::Row`: the row the cursor stands on (opaque).
#[verifier::external_type_specification]
#[verifier::external_body]
pub struct ExRow<'stmt>(EngineRow<'stmt>);

/// `rusqlite::Error`: an error the engine reports (opaque).
#[verifier::external_type_specification]
#[verifier::external_body]
pub struct ExEngineError(EngineError);

/// `rusqlite::types::Value`: an owned value to bind (opaque).
#[verifier::external_type_specification]
#[verifier::external_body]
pub struct ExEngineValue(EngineValue);

/// A column value as the engine reports it: text still as the raw bytes
/// the engine stored, reals as the bit pattern of their double.
pub enum ColumnValue {
    Null,
    Integer(i64),
    Real(u64),
    Text(Vec<u8>),
    Blob(Vec<u8>),
}

/// The model of a [`ColumnValue`].
pub enum ColumnView {
    Null,
    Integer(i64),
    Real(u64),
    Text(Seq<u8>),
    Blob(Seq<u8>),
}

impl View for ColumnValue {
    type V = ColumnView;

    open spec fn view(&self) -> ColumnView {
        match self {
            ColumnValue::Null => ColumnView::Null,
            ColumnValue::Integer(i) => ColumnView::Integer(*i),
            ColumnValue::Real(bits) => ColumnView::Real(*bits),
            ColumnValue::Text(t) => ColumnView::Text(t@),
            ColumnValue::Blob(b) => ColumnView::Blob(b@),
        }
    }
}

/// The rows that the cursor `rows` has still to yield, each as its column
/// values in column order.
pub uninterp spec fn pending_rows(rows: EngineRows) -> Seq<Seq<ColumnView>>;

/// The column values of the result row `row`, in column order.
pub uninterp spec fn row_values(row: EngineRow) -> Seq<ColumnView>;

/// The engine value that binds as `v`.
pub uninterp spec fn engine_value_of(v: ValueView) -> EngineValue;

/// `rusqlite::types::Value` built variant for variant from `v` (a real from
/// its bit pattern, through `bytemuck::cast`).  The result is a function of
/// `v` alone.
#[verifier::external_body]
pub(crate) fn engine_value(v: &Value) -> (r: EngineValue)
    ensures
        r == engine_value_of(v@),
{
    match v {
        Value::Null => EngineValue::Null,
        Value::Integer(i) => EngineValue::Integer(*i),
        Value::Real(bits) => EngineValue::Real(bytemuck::cast(*bits)),
        Value::Text(s) => EngineValue::Text(s.clone()),
        Value::Blob(b) => EngineValue::Blob(b.clone()),
    }
}

/// `rusqlite::Connection::open`: opens (or creates) the database that
/// `path` names, URIs with `file:` included.  Whether it succeeds depends
/// on the file system, so nothing is stated of the result.
#[verifier::external_body]
pub(crate) fn open_connection(path: &str) -> (r: Result<EngineConnection, EngineError>) {
    EngineConnection::open(path)
}

/// `rusqlite::Connection::open_with_flags_and_vfs` with the default flags:
/// opens `path` through the VFS named `vfs` (a `vfs=` parameter of a
/// `file:` URI takes precedence).  Nothing is stated of the result.
#[verifier::external_body]
pub(crate) fn open_connection_with_vfs(path: &str, vfs: &str) -> (r: Result<EngineConnection, EngineError>) {
    EngineConnection::open_with_flags_and_vfs(path, rusqlite::OpenFlags::default(), vfs)
}

/// `rusqlite::Connection::prepare`: compiles one SQL statement against the
/// connection's schema; nothing is stated of the outcome.
#[verifier::external_body]
pub(crate) fn prepare_statement<'c>(conn: &'c EngineConnection, sql: &str) -> (r: Result<
    EngineStatement<'c>,
    EngineError,
>) {
    conn.prepare(sql)
}

/// `rusqlite::Statement::column_count` of the statement that `row` belongs
/// to (`Row::as_ref`): the number of columns of the row.
#[verifier::external_body]
pub(crate) fn row_width(row: &EngineRow<'_>) -> (n: usize)
    ensures
        n == row_values(*row).len(),
{
    row.as_ref().column_count()
}

/// `rusqlite::Statement::query` with the given values bound in order.
#[verifier::external_body]
pub(crate) fn query_rows<'s>(
    stmt: &'s mut EngineStatement<'_>,
    params: Vec<EngineValue>,
) -> (r: Result<EngineRows<'s>, EngineError>) {
    stmt.query(rusqlite::params_from_iter(params))
}

/// `rusqlite::Statement::execute` with the given values bound in order: the
/// number of rows changed, or an error (one for a statement that returns
/// rows among them).
#[verifier::external_body]
pub(crate) fn execute_statement(
    stmt: &mut EngineStatement<'_>,
    params: Vec<EngineValue>,
) -> (r: Result<usize, EngineError>) {
    stmt.execute(rusqlite::params_from_iter(params))
}

/// `rusqlite::Rows::next`: steps the cursor.  `Some` with the first of the
/// rows still to come, which the cursor then no longer holds; `None` when
/// no row is left; an error when stepping failed, after which nothing is
/// stated of the cursor.
#[verifier::external_body]
pub(crate) fn next_row<'r, 's>(rows: &'r mut EngineRows<'s>) -> (r: Result<
    Option<&'r EngineRow<'s>>,
    EngineError,
>)
    ensures
        r matches Ok(None) ==> pending_rows(*old(rows)).len() == 0,
        r matches Ok(Some(row)) ==> pending_rows(*old(rows)).len() > 0 && row_values(*row)
            == pending_rows(*old(rows))[0] && pending_rows(*final(rows)) == pending_rows(
            *old(rows),
        ).drop_first(),
{
    rows.next()
}

/// `rusqlite::Row::get_ref`, with the borrowed value copied out variant for
/// variant: the value of column `col` of the row, and an error exactly when
/// the row has no such column.
#[verifier::external_body]
pub(crate) fn column_value(row: &EngineRow<'_>, col: usize) -> (r: Result<
    ColumnValue,
    EngineError,
>)
    ensures
        r is Ok <==> col < row_values(*row).len(),
        r matches Ok(v) ==> v@ == row_values(*row)[col as int],
{
    match row.get_ref(col) {
        Ok(rusqlite::types::ValueRef::Null) => Ok(ColumnValue::Null),
        Ok(rusqlite::types::ValueRef::Integer(i)) => Ok(ColumnValue::Integer(i)),
        Ok(rusqlite::types::ValueRef::Real(r)) => Ok(ColumnValue::Real(r.to_bits())),
        Ok(rusqlite::types::ValueRef::Text(t)) => Ok(ColumnValue::Text(t.to_vec())),
        Ok(rusqlite::types::ValueRef::Blob(b)) => Ok(ColumnValue::Blob(b.to_vec())),
        Err(e) => Err(e),
    }
}

/// `rusqlite::Connection::last_insert_rowid`: the rowid of the most recent
/// successful INSERT on the connection.
#[verifier::external_body]
pub(crate) fn last_insert_rowid(conn: &EngineConnection) -> (id: i64) {
    conn.last_insert_rowid()
}

/// The text of an engine error (`rusqlite::Error`'s `Display`).
#[verifier::external_body]
pub(crate) fn error_message(e: &EngineError) -> (s: String) {
    e.to_string()
}

} // verus!
