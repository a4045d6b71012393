//! The table of live handles: every open database and every prepared
//! statement is known by a number, handed out from one counter, so that a
//! closed database or a released statement can be told from a live one.

use std::collections::HashMap;

use vstd::prelude::*;

use rusqlite::Connection as EngineConnection;
use rusqlite::types::Value as EngineValue;

use rusqlite::Row as EngineRow;
use rusqlite::Rows as EngineRows;

use crate::engine::{
    column_value, pending_rows, row_values, row_width, ColumnValue, ColumnView, engine_value, engine_value_of,
    execute_statement, last_insert_rowid, next_row, open_connection, open_connection_with_vfs,
    prepare_statement, query_rows,
};
use crate::error::{invalid_handle, is_handle_error, map_error, Error, ENGINE_ERROR};
use crate::value::{column_view, value_views, values_from_refs, values_of_row, Value, ValueView};

verus! {

broadcast use vstd::std_specs::hash::group_hash_axioms;

/// A prepared statement: the database it belongs to and its SQL text.  The
/// engine compiles the text again each time the statement runs.
#[derive(Debug, Clone)]
pub struct PreparedStatement {
    pub db: u32,
    pub sql: String,
}

/// The model of a prepared statement.
pub struct StatementRecord {
    pub db: u32,
    pub sql: Seq<char>,
}

/// How a database was opened: its path or URI, and the VFS asked for (when
/// one was).
pub struct DbRecord {
    pub path: Seq<char>,
    pub vfs: Option<Seq<char>>,
}

/// One command that [`Manager::exec`] was asked to run on a live database:
/// the database, the SQL text, the values to bind in order, and what the
/// run answered.
pub struct ExecCall {
    pub db: u32,
    pub sql: Seq<char>,
    pub params: Seq<ValueView>,
    pub outcome: Result<u64, Error>,
}

/// The model of a [`Manager`]: the last number handed out, the live
/// databases (with how each was opened), the live statements, and the
/// commands that `exec` has run on live databases so far, oldest first.
pub struct ManagerView {
    pub next_id: nat,
    pub dbs: Map<u32, DbRecord>,
    pub statements: Map<u32, StatementRecord>,
    pub executed: Seq<ExecCall>,
}

impl ManagerView {
    /// The handle table is consistent: every live handle was handed out
    /// already, no number names both a database and a statement, and every
    /// live statement belongs to a live database.
    pub open spec fn wf(self) -> bool {
        &&& forall|id: u32| #[trigger] self.dbs.contains_key(id) ==> 1 <= id <= self.next_id
        &&& forall|id: u32| #[trigger] self.statements.contains_key(id) ==> 1 <= id <= self.next_id
        &&& forall|id: u32| #[trigger] self.dbs.contains_key(id) ==> !self.statements.contains_key(id)
        &&& forall|id: u32| #[trigger]
            self.statements.contains_key(id) ==> self.dbs.contains_key(self.statements[id].db)
    }

    /// Another number can still be handed out.
    pub open spec fn can_allocate(self) -> bool {
        self.next_id < u32::MAX
    }

    /// The number that the next database or statement gets.
    pub open spec fn fresh_id(self) -> u32 {
        (self.next_id + 1) as u32
    }

    /// The table after the database at `path` was opened through `vfs`.
    pub open spec fn add_db(self, path: Seq<char>, vfs: Option<Seq<char>>) -> ManagerView {
        ManagerView {
            next_id: self.next_id + 1,
            dbs: self.dbs.insert(self.fresh_id(), DbRecord { path, vfs }),
            statements: self.statements,
            executed: self.executed,
        }
    }

    /// The table after a statement of `db` was prepared.
    pub open spec fn add_statement(self, db: u32, sql: Seq<char>) -> ManagerView {
        ManagerView {
            next_id: self.next_id + 1,
            dbs: self.dbs,
            statements: self.statements.insert(self.fresh_id(), StatementRecord { db, sql }),
            executed: self.executed,
        }
    }

    /// The table after statement `id` was released.
    pub open spec fn remove_statement(self, id: u32) -> ManagerView {
        ManagerView {
            next_id: self.next_id,
            dbs: self.dbs,
            statements: self.statements.remove(id),
            executed: self.executed,
        }
    }

    /// The statements that outlive closing database `db`.
    pub open spec fn statements_without_db(self, db: u32) -> Map<u32, StatementRecord> {
        self.statements.restrict(self.statements.dom().filter(|s: u32| self.statements[s].db != db))
    }

    /// The table after database `db` was closed: the database and all its
    /// statements are gone.
    pub open spec fn remove_db(self, db: u32) -> ManagerView {
        ManagerView {
            next_id: self.next_id,
            dbs: self.dbs.remove(db),
            statements: self.statements_without_db(db),
            executed: self.executed,
        }
    }

    /// The table after `exec` was asked to run `sql` on database `db`: the
    /// command, and what it answered (`outcome`), are recorded when the
    /// database is live; otherwise nothing changes.
    pub open spec fn after_exec(
        self,
        db: u32,
        sql: Seq<char>,
        params: Seq<ValueView>,
        outcome: Result<u64, Error>,
    ) -> ManagerView {
        if self.dbs.contains_key(db) {
            self.record_exec(db, sql, params, outcome)
        } else {
            self
        }
    }

    /// The table after `exec` ran `sql`, with `params` to bind, on database
    /// `db`, and it answered `outcome`: the same handles, one more command.
    pub open spec fn record_exec(
        self,
        db: u32,
        sql: Seq<char>,
        params: Seq<ValueView>,
        outcome: Result<u64, Error>,
    ) -> ManagerView {
        ManagerView { executed: self.executed.push(ExecCall { db, sql, params, outcome }), ..self }
    }

    /// What a failed lookup of statement `id` (and of its database) reports.
    pub open spec fn statement_lookup_error(self, id: u32, e: Error) -> bool {
        if !self.statements.contains_key(id) {
            is_handle_error(e, "statement"@, id)
        } else if !self.dbs.contains_key(self.statements[id].db) {
            is_handle_error(e, "db"@, self.statements[id].db)
        } else {
            e.code == ENGINE_ERROR
        }
    }

    /// What a failed use of database `db` reports.
    pub open spec fn db_lookup_error(self, db: u32, e: Error) -> bool {
        if !self.dbs.contains_key(db) {
            is_handle_error(e, "db"@, db)
        } else {
            e.code == ENGINE_ERROR
        }
    }
}

/// A handle that is about to be handed out names nothing live.
pub proof fn fresh_handle_is_unused(v: ManagerView)
    requires
        v.wf(),
        v.can_allocate(),
    ensures
        !v.dbs.contains_key(v.fresh_id()),
        !v.statements.contains_key(v.fresh_id()),
{
}

/// Opening a database, preparing a statement of a live database,
/// releasing a statement and closing a database all keep the handle table
/// consistent.
pub proof fn operations_keep_table_consistent(
    v: ManagerView,
    path: Seq<char>,
    vfs: Option<Seq<char>>,
    db: u32,
    sql: Seq<char>,
    id: u32,
)
    requires
        v.wf(),
    ensures
        v.can_allocate() ==> v.add_db(path, vfs).wf(),
        v.can_allocate() && v.dbs.contains_key(db) ==> v.add_statement(db, sql).wf(),
        v.remove_statement(id).wf(),
        v.remove_db(db).wf(),
{
}

/// Releasing a statement twice: the first release finds it live (when it
/// was), the second finds it gone and changes nothing.
pub proof fn release_twice(v: ManagerView, id: u32)
    ensures
        !v.remove_statement(id).statements.contains_key(id),
        v.remove_statement(id).remove_statement(id) == v.remove_statement(id),
{
    assert(v.remove_statement(id).remove_statement(id).statements =~= v.remove_statement(id).statements);
}

/// Releasing a statement leaves every other handle as it was.
pub proof fn release_touches_nothing_else(v: ManagerView, id: u32, other: u32)
    requires
        other != id,
    ensures
        v.remove_statement(id).dbs == v.dbs,
        v.remove_statement(id).statements.contains_key(other) == v.statements.contains_key(other),
        v.statements.contains_key(other) ==> v.remove_statement(id).statements[other]
            == v.statements[other],
{
}

/// After a database is closed, neither it nor any of its statements is
/// live, so using any of them fails; a second close fails too.  Statements
/// of other databases stay as they were.
pub proof fn close_removes_database_and_its_statements(v: ManagerView, db: u32, s: u32)
    ensures
        !v.remove_db(db).dbs.contains_key(db),
        v.remove_db(db).statements.contains_key(s) ==> v.remove_db(db).statements[s].db != db,
        v.statements.contains_key(s) && v.statements[s].db != db ==> v.remove_db(db).statements.contains_key(s)
            && v.remove_db(db).statements[s] == v.statements[s],
{
}

/// One change to the table, as the operations that change it make it:
/// opening a database, preparing a statement, releasing a statement,
/// closing a database, running a command with `exec`.  Queries and runs of
/// prepared statements change nothing.
pub enum TableOp {
    Open { path: Seq<char>, vfs: Option<Seq<char>> },
    Prepare { db: u32, sql: Seq<char> },
    Release { statement: u32 },
    Close { db: u32 },
    Exec { db: u32, sql: Seq<char>, params: Seq<ValueView>, outcome: Result<u64, Error> },
}

/// The empty table that `Manager::new` and `Manager::default` make.
pub open spec fn empty_table() -> ManagerView {
    ManagerView { next_id: 0, dbs: Map::empty(), statements: Map::empty(), executed: Seq::empty() }
}

/// The table after `op` succeeded on `v`, or `v` itself where `op` fails
/// (no number left, unknown database).  An open that the engine refuses
/// also leaves `v` as it was.
pub open spec fn apply_op(v: ManagerView, op: TableOp) -> ManagerView {
    match op {
        TableOp::Open { path, vfs } => if v.can_allocate() {
            v.add_db(path, vfs)
        } else {
            v
        },
        TableOp::Prepare { db, sql } => if v.can_allocate() && v.dbs.contains_key(db) {
            v.add_statement(db, sql)
        } else {
            v
        },
        TableOp::Release { statement } => v.remove_statement(statement),
        TableOp::Close { db } => if v.dbs.contains_key(db) {
            v.remove_db(db)
        } else {
            v
        },
        TableOp::Exec { db, sql, params, outcome } => v.after_exec(db, sql, params, outcome),
    }
}

/// The table after the operations `ops`, in order, starting from `v`.
pub open spec fn apply_ops(v: ManagerView, ops: Seq<TableOp>) -> ManagerView
    decreases ops.len(),
{
    if ops.len() == 0 {
        v
    } else {
        apply_op(apply_ops(v, ops.drop_last()), ops.last())
    }
}

/// Every table that the operations make from the empty table is
/// consistent: each live statement belongs to a live database, and no
/// number names both a database and a statement.
pub proof fn reachable_tables_are_consistent(ops: Seq<TableOp>)
    ensures
        apply_ops(empty_table(), ops).wf(),
    decreases ops.len(),
{
    if ops.len() > 0 {
        reachable_tables_are_consistent(ops.drop_last());
        let v = apply_ops(empty_table(), ops.drop_last());
        match ops.last() {
            TableOp::Open { path, vfs } => operations_keep_table_consistent(v, path, vfs, 0, Seq::empty(), 0),
            TableOp::Prepare { db, sql } => operations_keep_table_consistent(v, Seq::empty(), None, db, sql, 0),
            TableOp::Release { statement } => operations_keep_table_consistent(v, Seq::empty(), None, 0, Seq::empty(), statement),
            TableOp::Close { db } => operations_keep_table_consistent(v, Seq::empty(), None, db, Seq::empty(), 0),
            TableOp::Exec { .. } => {},
        }
    }
}

/// Handles are handed out in order: an operation either hands out no
/// number, or hands out exactly the next one, `next_id + 1`, which is
/// never 0 and names nothing that was live before.  From the empty table
/// the handles therefore run 1, 2, 3, ... and are never handed out twice.
pub proof fn handles_are_handed_out_in_order(v: ManagerView, op: TableOp, id: u32)
    requires
        v.wf(),
        !(v.dbs.contains_key(id) || v.statements.contains_key(id)),
        apply_op(v, op).dbs.contains_key(id) || apply_op(v, op).statements.contains_key(id),
    ensures
        id == v.next_id + 1,
        id >= 1,
        apply_op(v, op).next_id == v.next_id + 1,
{
}

/// The counter never goes down, so a number handed out once is never
/// handed out again.
pub proof fn counter_never_decreases(v: ManagerView, ops: Seq<TableOp>)
    ensures
        apply_ops(v, ops).next_id >= v.next_id,
    decreases ops.len(),
{
    if ops.len() > 0 {
        counter_never_decreases(v, ops.drop_last());
    }
}

/// What running a statement that changes rows reports.
#[derive(Debug, Clone, Copy, PartialEq, Eq)]
pub struct RunInfo {
    pub changes: u64,
    pub last_insert_rowid: i64,
}

/// The table of live databases and prepared statements.
pub struct Manager {
    next_id: u32,
    dbs: HashMap<u32, EngineConnection>,
    statements: HashMap<u32, PreparedStatement>,
    opened: Ghost<Map<u32, DbRecord>>,
    executed: Ghost<Seq<ExecCall>>,
}

/// The model of a prepared statement.
pub open spec fn record_of(p: PreparedStatement) -> StatementRecord {
    StatementRecord { db: p.db, sql: p.sql@ }
}

/// The models of the engine values that `values` bind as.
pub open spec fn engine_values_of(values: Seq<Value>) -> Seq<EngineValue> {
    Seq::new(values.len(), |i: int| engine_value_of(values[i]@))
}

/// The engine values that `values` bind as, in order.
fn engine_values(values: &[Value]) -> (r: Vec<EngineValue>)
    ensures
        r@ == engine_values_of(values@),
{
    let mut r: Vec<EngineValue> = Vec::new();
    let mut i: usize = 0;
    while i < values.len()
        invariant
            i <= values@.len(),
            r@.len() == i,
            forall|j: int| 0 <= j < i ==> r@[j] == engine_value_of(#[trigger] values@[j]@),
        decreases values@.len() - i,
    {
        r.push(engine_value(&values[i]));
        i = i + 1;
    }
    assert(r@ =~= engine_values_of(values@));
    r
}

impl Manager {
    /// The model of the table.
    pub closed spec fn view(&self) -> ManagerView {
        ManagerView {
            next_id: self.next_id as nat,
            dbs: Map::new(|id: u32| self.dbs@.contains_key(id), |id: u32| self.opened@[id]),
            statements: self.statements@.map_values(|p: PreparedStatement| record_of(p)),
            executed: self.executed@,
        }
    }

    /// The connection of live database `db`.
    pub closed spec fn connection(&self, db: u32) -> EngineConnection {
        self.dbs@[db]
    }

    /// Whether another number can still be handed out, as `open` and
    /// `prepare` require.
    pub fn can_allocate(&self) -> (b: bool)
        ensures
            b == self.view().can_allocate(),
    {
        self.next_id < u32::MAX
    }

    /// An empty table.
    pub fn new() -> (m: Manager)
        ensures
            m.view() == empty_table(),
            m.view().wf(),
    {
        let m = Manager {
            next_id: 0,
            dbs: HashMap::new(),
            statements: HashMap::new(),
            opened: Ghost(Map::empty()),
            executed: Ghost(Seq::empty()),
        };
        assert(m.view().dbs =~= Map::empty());
        assert(m.view().statements =~= Map::empty());
        m
    }

    /// Hands out the next number.
    fn alloc_id(&mut self) -> (id: u32)
        requires
            old(self).view().can_allocate(),
        ensures
            id == old(self).view().fresh_id(),
            final(self).next_id == id,
            final(self).dbs == old(self).dbs,
            final(self).statements == old(self).statements,
            final(self).opened == old(self).opened,
            final(self).executed == old(self).executed,
    {
        self.next_id = self.next_id + 1;
        self.next_id
    }

    /// Registers a newly opened connection under a fresh handle.
    fn register(&mut self, conn: EngineConnection, record: Ghost<DbRecord>) -> (id: u32)
        requires
            old(self).view().can_allocate(),
        ensures
            id == old(self).view().fresh_id(),
            final(self).view() == old(self).view().add_db(record@.path, record@.vfs),
            old(self).view().wf() ==> final(self).view().wf(),
    {
        let id = self.alloc_id();
        self.dbs.insert(id, conn);
        proof {
            self.opened@ = self.opened@.insert(id, record@);
            assert(self.view().dbs =~= old(self).view().add_db(record@.path, record@.vfs).dbs);
        }
        id
    }

    /// Opens the database at `path` and returns its handle.
    pub fn open(&mut self, path: &str) -> (r: Result<u32, Error>)
        requires
            old(self).view().can_allocate(),
        ensures
            old(self).view().wf() ==> final(self).view().wf(),
            match r {
                Ok(id) => id == old(self).view().fresh_id() && final(self).view()
                    == old(self).view().add_db(path@, None),
                Err(e) => e.code == ENGINE_ERROR && final(self).view() == old(self).view(),
            },
    {
        match open_connection(path) {
            Err(e) => Err(map_error(e)),
            Ok(conn) => Ok(self.register(conn, Ghost(DbRecord { path: path@, vfs: None }))),
        }
    }

    /// Opens the database at `path` through the VFS named `vfs` (unless a
    /// `file:` URI names another) and returns its handle.
    pub fn open_with_vfs(&mut self, path: &str, vfs: &str) -> (r: Result<u32, Error>)
        requires
            old(self).view().can_allocate(),
        ensures
            old(self).view().wf() ==> final(self).view().wf(),
            match r {
                Ok(id) => id == old(self).view().fresh_id() && final(self).view()
                    == old(self).view().add_db(path@, Some(vfs@)),
                Err(e) => e.code == ENGINE_ERROR && final(self).view() == old(self).view(),
            },
    {
        match open_connection_with_vfs(path, vfs) {
            Err(e) => Err(map_error(e)),
            Ok(conn) => Ok(self.register(conn, Ghost(DbRecord { path: path@, vfs: Some(vfs@) }))),
        }
    }

    /// Prepares `sql` against database `db` and returns the statement's
    /// handle.  The engine checks the SQL now; it compiles it again on
    /// every run.
    pub fn prepare(&mut self, db: u32, sql: &str) -> (r: Result<u32, Error>)
        requires
            old(self).view().can_allocate(),
        ensures
            old(self).view().wf() ==> final(self).view().wf(),
            !old(self).view().dbs.contains_key(db) ==> r is Err,
            match r {
                Ok(id) => old(self).view().dbs.contains_key(db) && id == old(self).view().fresh_id()
                    && final(self).view() == old(self).view().add_statement(db, sql@),
                Err(e) => old(self).view().db_lookup_error(db, e) && final(self).view()
                    == old(self).view(),
            },
    {
        {
            let conn = match self.dbs.get(&db) {
                Some(c) => c,
                None => {
                    return Err(invalid_handle("db", db));
                },
            };
            match prepare_statement(conn, sql) {
                Ok(_) => {},
                Err(e) => {
                    return Err(map_error(e));
                },
            }
        }
        let id = self.alloc_id();
        self.statements.insert(id, PreparedStatement { db, sql: sql.to_owned() });
        proof {
            assert(self.view().statements =~= old(self).view().add_statement(db, sql@).statements);
        }
        Ok(id)
    }

    /// Releases statement `statement`; fails if it is not live.
    pub fn close_statement(&mut self, statement: u32) -> (r: Result<(), Error>)
        ensures
            old(self).view().wf() ==> final(self).view().wf(),
            r is Ok <==> old(self).view().statements.contains_key(statement),
            final(self).view() == old(self).view().remove_statement(statement),
            match r {
                Ok(_) => true,
                Err(e) => is_handle_error(e, "statement"@, statement),
            },
    {
        let removed = self.statements.remove(&statement);
        proof {
            assert(self.view().statements =~= old(self).view().remove_statement(statement).statements);
        }
        match removed {
            Some(_) => Ok(()),
            None => Err(invalid_handle("statement", statement)),
        }
    }

    /// Closes database `db` and releases all of its statements; fails if
    /// the database is not live.
    pub fn close_db(&mut self, db: u32) -> (r: Result<(), Error>)
        ensures
            old(self).view().wf() ==> final(self).view().wf(),
            r is Ok <==> old(self).view().dbs.contains_key(db),
            match r {
                Ok(_) => final(self).view() == old(self).view().remove_db(db),
                Err(e) => is_handle_error(e, "db"@, db) && final(self).view() == old(self).view(),
            },
    {
        match self.dbs.remove(&db) {
            None => {
                proof {
                    assert(self.view().dbs =~= old(self).view().dbs);
                }
                return Err(invalid_handle("db", db));
            },
            Some(_) => {},
        }
        let ghost stmts = self.statements@;
        let mut doomed: Vec<u32> = Vec::new();
        for id in it: self.statements.keys()
            invariant
                self.statements@ == stmts,
                forall|j: int|
                    0 <= j < doomed@.len() ==> stmts.contains_key(#[trigger] doomed@[j])
                        && stmts[doomed@[j]].db == db,
                forall|k: u32|
                    #[trigger] stmts.contains_key(k) && stmts[k].db == db ==> (doomed@.contains(k)
                        || exists|j: int| it.index() <= j < it.seq().len() && *it.seq()[j] == k),
        {
            let ghost d0 = doomed@;
            match self.statements.get(id) {
                Some(p) => {
                    if p.db == db {
                        doomed.push(*id);
                    }
                },
                None => {},
            }
            proof {
                assert forall|k: u32| #[trigger]
                    stmts.contains_key(k) && stmts[k].db == db implies (doomed@.contains(k) || exists|j: int|
                        it.index() + 1 <= j < it.seq().len() && *it.seq()[j] == k) by {
                    if !doomed@.contains(k) {
                        if d0.contains(k) {
                            let w = choose|w: int| 0 <= w < d0.len() && d0[w] == k;
                            assert(doomed@[w] == k);
                        }
                        let j = choose|j: int| it.index() <= j < it.seq().len() && *it.seq()[j] == k;
                        if j == it.index() {
                            assert(*id == k);
                            assert(doomed@.last() == k);
                        }
                    }
                }
            }
        }
        let mut i: usize = 0;
        while i < doomed.len()
            invariant
                i <= doomed@.len(),
                forall|j: int|
                    0 <= j < doomed@.len() ==> stmts.contains_key(#[trigger] doomed@[j])
                        && stmts[doomed@[j]].db == db,
                forall|k: u32| #[trigger]
                    stmts.contains_key(k) && stmts[k].db == db ==> doomed@.contains(k),
                forall|k: u32| #[trigger]
                    self.statements@.contains_key(k) <==> (stmts.contains_key(k) && !(exists|w: int|
                        0 <= w < i && #[trigger] doomed@[w] == k)),
                forall|k: u32| #[trigger]
                    self.statements@.contains_key(k) ==> self.statements@[k] == stmts[k],
                self.dbs@ == old(self).dbs@.remove(db),
                self.next_id == old(self).next_id,
                self.opened == old(self).opened,
                self.executed == old(self).executed,
                stmts == old(self).statements@,
            decreases doomed@.len() - i,
        {
            self.statements.remove(&doomed[i]);
            i = i + 1;
        }
        proof {
            let target = old(self).view().remove_db(db);
            assert forall|k: u32| #[trigger] self.view().statements.contains_key(k) <==> target.statements.contains_key(k) by {
                if doomed@.contains(k) {
                    let w = choose|w: int| 0 <= w < doomed@.len() && doomed@[w] == k;
                    assert(doomed@[w] == k);
                }
                if exists|w: int| 0 <= w < doomed@.len() && #[trigger] doomed@[w] == k {
                    let w = choose|w: int| 0 <= w < doomed@.len() && #[trigger] doomed@[w] == k;
                    assert(doomed@.contains(k));
                }
            }
            assert(self.view().statements =~= target.statements);
            assert(self.view().dbs =~= target.dbs);
        }
        Ok(())
    }

    /// Runs statement `statement` with `params` bound in order and returns
    /// the values of every row it yields, column by column; every row has
    /// one value for each of the statement's columns.
    pub fn query_with(&self, statement: u32, params: &[Value]) -> (r: Result<Vec<Vec<Value>>, Error>)
        ensures
            !self.view().statements.contains_key(statement) ==> r is Err,
            match r {
                Ok(_) => self.view().statements.contains_key(statement) && self.view().dbs.contains_key(
                    self.view().statements[statement].db,
                ),
                Err(e) => self.view().statement_lookup_error(statement, e),
            },
            r matches Ok(rows) ==> is_query_result(result_rows(rows@)),
    {
        let prepared = match self.statements.get(&statement) {
            Some(p) => p,
            None => {
                return Err(invalid_handle("statement", statement));
            },
        };
        let conn = match self.dbs.get(&prepared.db) {
            Some(c) => c,
            None => {
                return Err(invalid_handle("db", prepared.db));
            },
        };
        let mut stmt = match prepare_statement(conn, prepared.sql.as_str()) {
            Ok(s) => s,
            Err(e) => {
                return Err(map_error(e));
            },
        };
        let bound = engine_values(params);
        let mut rows = match query_rows(&mut stmt, bound) {
            Ok(rows) => rows,
            Err(e) => {
                return Err(map_error(e));
            },
        };
        let ghost start = rows;
        let r = collect_rows(&mut rows);
        proof {
            if r is Ok {
                assert(cursor_result(start) == result_rows(r->Ok_0@));
            }
        }
        r
    }

    /// Runs statement `statement` with no parameters and returns the values
    /// of every row it yields.
    pub fn query(&self, statement: u32) -> (r: Result<Vec<Vec<Value>>, Error>)
        ensures
            !self.view().statements.contains_key(statement) ==> r is Err,
            match r {
                Ok(_) => self.view().statements.contains_key(statement) && self.view().dbs.contains_key(
                    self.view().statements[statement].db,
                ),
                Err(e) => self.view().statement_lookup_error(statement, e),
            },
            r matches Ok(rows) ==> is_query_result(result_rows(rows@)),
    {
        let no_params: Vec<Value> = Vec::new();
        self.query_with(statement, no_params.as_slice())
    }

    /// The connection that statement `statement` runs on and its SQL text,
    /// when the statement is live.
    pub fn statement_source(&self, statement: u32) -> (r: Option<(&EngineConnection, &str)>)
        ensures
            r is Some <==> self.view().statements.contains_key(statement) && self.view().dbs.contains_key(
                self.view().statements[statement].db,
            ),
            r matches Some((conn, sql)) ==> sql@ == self.view().statements[statement].sql && *conn
                == self.connection(self.view().statements[statement].db),
    {
        let prepared = match self.statements.get(&statement) {
            Some(p) => p,
            None => {
                return None;
            },
        };
        match self.dbs.get(&prepared.db) {
            Some(c) => Some((c, prepared.sql.as_str())),
            None => None,
        }
    }

    /// Runs statement `statement` with `params` bound in order, for its
    /// effect: how many rows it changed and the rowid of the last insert.
    pub fn run(&self, statement: u32, params: &[Value]) -> (r: Result<RunInfo, Error>)
        ensures
            !self.view().statements.contains_key(statement) ==> r is Err,
            match r {
                Ok(_) => self.view().statements.contains_key(statement) && self.view().dbs.contains_key(
                    self.view().statements[statement].db,
                ),
                Err(e) => self.view().statement_lookup_error(statement, e),
            },
    {
        let prepared = match self.statements.get(&statement) {
            Some(p) => p,
            None => {
                return Err(invalid_handle("statement", statement));
            },
        };
        let conn = match self.dbs.get(&prepared.db) {
            Some(c) => c,
            None => {
                return Err(invalid_handle("db", prepared.db));
            },
        };
        let mut stmt = match prepare_statement(conn, prepared.sql.as_str()) {
            Ok(s) => s,
            Err(e) => {
                return Err(map_error(e));
            },
        };
        let bound = engine_values(params);
        let changes = match execute_statement(&mut stmt, bound) {
            Ok(n) => n,
            Err(e) => {
                return Err(map_error(e));
            },
        };
        let rowid = last_insert_rowid(conn);
        Ok(RunInfo { changes: changes as u64, last_insert_rowid: rowid })
    }

    /// Runs `sql` once against database `db` with `params` bound in order
    /// and returns how many rows it changed.  A command for a live database
    /// is recorded, with what it answered.
    pub fn exec(&mut self, db: u32, sql: &str, params: &[Value]) -> (r: Result<u64, Error>)
        ensures
            !old(self).view().dbs.contains_key(db) ==> r is Err,
            final(self).view() == old(self).view().after_exec(db, sql@, value_views(params@), r),
            old(self).view().wf() ==> final(self).view().wf(),
            match r {
                Ok(_) => old(self).view().dbs.contains_key(db),
                Err(e) => old(self).view().db_lookup_error(db, e),
            },
    {
        let r = match self.dbs.get(&db) {
            None => {
                return Err(invalid_handle("db", db));
            },
            Some(conn) => run_once(conn, sql, params),
        };
        proof {
            self.executed@ = self.executed@.push(
                ExecCall { db, sql: sql@, params: value_views(params@), outcome: r },
            );
        }
        r
    }
}

/// The rows that running the cursor `c` to its end yields, each as the
/// values of its columns in column order.
pub open spec fn cursor_result(c: EngineRows) -> Seq<Seq<ValueView>> {
    pending_rows(c).map_values(|row: Seq<ColumnView>| values_of_row(row))
}

/// `q` is the whole result of a query: exactly the rows, in order, that a
/// cursor over the statement yields from start to end.
pub open spec fn is_query_result(q: Seq<Seq<ValueView>>) -> bool {
    exists|c: EngineRows| #[trigger] cursor_result(c) == q
}

/// The models of result rows given as values column by column.
pub open spec fn result_rows(rows: Seq<Vec<Value>>) -> Seq<Seq<ValueView>> {
    rows.map_values(|row: Vec<Value>| value_views(row@))
}

/// The values of the result row `row`, column by column.
fn read_row(row: &EngineRow<'_>) -> (r: Vec<Value>)
    ensures
        value_views(r@) == values_of_row(row_values(*row)),
{
    let n = row_width(row);
    let mut raw: Vec<ColumnValue> = Vec::new();
    let mut c: usize = 0;
    while c < n
        invariant
            n == row_values(*row).len(),
            c <= n,
            raw@.len() == c,
            forall|j: int| 0 <= j < c ==> (#[trigger] raw@[j])@ == row_values(*row)[j],
        decreases n - c,
    {
        match column_value(row, c) {
            Ok(v) => raw.push(v),
            Err(_) => {},
        }
        c = c + 1;
    }
    let ghost cells = raw@;
    let r = values_from_refs(raw);
    assert(value_views(r@) =~= values_of_row(row_values(*row))) by {
        assert forall|j: int| 0 <= j < r@.len() implies value_views(r@)[j] == values_of_row(
            row_values(*row),
        )[j] by {
            assert(r@[j]@ == column_view(cells[j]));
        }
    }
    r
}

/// Steps the cursor `rows` to its end and returns the values of every row
/// it yields, in order; an engine error when stepping fails.
pub fn collect_rows(rows: &mut EngineRows<'_>) -> (r: Result<Vec<Vec<Value>>, Error>)
    ensures
        r matches Ok(out) ==> out@.len() == pending_rows(*old(rows)).len() && forall|i: int|
            0 <= i < out@.len() ==> value_views((#[trigger] out@[i])@) == values_of_row(
                pending_rows(*old(rows))[i],
            ),
        r matches Ok(out) ==> result_rows(out@) == cursor_result(*old(rows)),
        r matches Err(e) ==> e.code == ENGINE_ERROR,
{
    let ghost all = pending_rows(*rows);
    let mut out: Vec<Vec<Value>> = Vec::new();
    loop
        invariant
            all == pending_rows(*old(rows)),
            out@.len() + pending_rows(*rows).len() == all.len(),
            pending_rows(*rows) == all.skip(out@.len() as int),
            forall|i: int|
                0 <= i < out@.len() ==> value_views((#[trigger] out@[i])@) == values_of_row(all[i]),
        decreases pending_rows(*rows).len(),
    {
        let ghost before = pending_rows(*rows);
        match next_row(rows) {
            Ok(Some(row)) => {
                let values = read_row(row);
                proof {
                    assert(before[0] == all[out@.len() as int]);
                }
                out.push(values);
                proof {
                    assert(pending_rows(*rows) =~= all.skip(out@.len() as int));
                }
            },
            Ok(None) => {
                assert(out@.len() == all.len());
                assert(result_rows(out@) =~= cursor_result(*old(rows)));
                return Ok(out);
            },
            Err(e) => {
                return Err(map_error(e));
            },
        }
    }
}

/// Compiles `sql` on `conn` and runs it once with `params` bound in order;
/// returns how many rows it changed, or the engine's error.
fn run_once(conn: &EngineConnection, sql: &str, params: &[Value]) -> (r: Result<u64, Error>)
    ensures
        r matches Err(e) ==> e.code == ENGINE_ERROR,
{
    let mut stmt = match prepare_statement(conn, sql) {
        Ok(s) => s,
        Err(e) => {
            return Err(map_error(e));
        },
    };
    let bound = engine_values(params);
    match execute_statement(&mut stmt, bound) {
        Ok(n) => Ok(n as u64),
        Err(e) => Err(map_error(e)),
    }
}

impl Default for Manager {
    /// An empty table.
    fn default() -> (m: Manager)
        ensures
            m.view() == empty_table(),
            m.view().wf(),
    {
        Manager::new()
    }
}

} // verus!
