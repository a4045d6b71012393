//! The database and statement handles that callers work with, in the
//! manner of better-sqlite3: `open` a database, `exec` SQL on it,
//! `prepare` statements and `run` them, fetch `one` row or `all` rows,
//! `release` statements, group work in a `transaction`, and `close`.

use vstd::prelude::*;

use crate::error::{is_handle_error, Error, ENGINE_ERROR};
use crate::manager::{is_query_result, result_rows, ExecCall, Manager, ManagerView, RunInfo};
use crate::row::{row_map_of, row_map_of_values, row_to_object, sqlite_row_map, Row, SqliteRow};
use crate::value::{param_views, params_to_values, value_views, Value, ValueView, ToParam};

verus! {

/// No parameters at all.
pub const NO_PARAMS: [Value; 0] = [];

/// The URI scheme that SQLite reads URIs by.
pub open spec fn file_scheme() -> Seq<char> {
    seq!['f', 'i', 'l', 'e', ':']
}

/// Whether `u` starts with `file:`.
pub open spec fn has_file_scheme(u: Seq<char>) -> bool {
    u.len() >= 5 && u.subrange(0, 5) == file_scheme()
}

/// The URI a database is opened by: `u` itself when it already starts with
/// `file:`, else `u` behind `file:`.
pub open spec fn normalized_uri(u: Seq<char>) -> Seq<char> {
    if has_file_scheme(u) {
        u
    } else {
        file_scheme() + u
    }
}

/// The URI a database is opened by starts with `file:`, and a URI that
/// starts with `file:` is kept as it is, so normalizing twice changes
/// nothing; `u` and `file:` followed by `u` open the same URI.
pub proof fn normalized_uri_laws(u: Seq<char>)
    ensures
        has_file_scheme(normalized_uri(u)),
        has_file_scheme(u) ==> normalized_uri(u) == u,
        normalized_uri(normalized_uri(u)) == normalized_uri(u),
        !has_file_scheme(u) ==> normalized_uri(file_scheme() + u) == normalized_uri(u),
{
    if !has_file_scheme(u) {
        assert((file_scheme() + u).subrange(0, 5) =~= file_scheme());
    }
}

/// The URI that `open` hands to the engine for `uri`.
pub fn normalize_uri(uri: &str) -> (r: String)
    ensures
        r@ == normalized_uri(uri@),
{
    let scheme = "file:";
    proof {
        reveal_strlit("file:");
    }
    assert(scheme@ =~= file_scheme());
    let n = uri.unicode_len();
    let mut matches: bool = n >= 5;
    let mut i: usize = 0;
    while matches && i < 5
        invariant
            n == uri@.len(),
            scheme@ == file_scheme(),
            i <= 5,
            matches ==> n >= 5,
            matches ==> forall|j: int| 0 <= j < i ==> uri@[j] == file_scheme()[j],
            !matches ==> !has_file_scheme(uri@),
        decreases 5 - i + (if matches { 1int } else { 0int }),
    {
        if uri.get_char(i) != scheme.get_char(i) {
            proof {
                if has_file_scheme(uri@) {
                    assert(uri@.subrange(0, 5)[i as int] == uri@[i as int]);
                }
            }
            matches = false;
        } else {
            i = i + 1;
        }
    }
    if matches {
        assert(uri@.subrange(0, 5) =~= file_scheme());
        String::from_str(uri)
    } else {
        let mut r = String::from_str(scheme);
        r.append(uri);
        r
    }
}

/// A handle on an open database.
#[derive(Debug, Clone, Copy)]
pub struct Database {
    handle: u32,
}

/// A handle on a prepared statement.
#[derive(Debug, Clone, Copy)]
pub struct Statement {
    stmt: u32,
}

/// The VFS that `open` asks for: like the default unix VFS, but locking
/// with dot-files in place of POSIX `flock()`.
pub open spec fn default_vfs() -> Seq<char> {
    seq!['u', 'n', 'i', 'x', '-', 'd', 'o', 't', 'f', 'i', 'l', 'e']
}

/// Opening `u` and opening `file:` followed by `u` (for a `u` without the
/// scheme) ask the engine for the same URI through the same VFS, so both
/// make the same table from the same table.
pub proof fn open_with_or_without_scheme(v: ManagerView, u: Seq<char>)
    requires
        !has_file_scheme(u),
    ensures
        v.add_db(normalized_uri(file_scheme() + u), Some(default_vfs())) == v.add_db(
            normalized_uri(u),
            Some(default_vfs()),
        ),
{
    normalized_uri_laws(u);
}

/// Opens the database that `uri` names (a path, or a `file:` URI such as
/// `file:/app/db?vfs=unix-dotfile`), through the `unix-dotfile` VFS unless
/// the URI names another.
pub fn open(mgr: &mut Manager, uri: &str) -> (r: Result<Database, Error>)
    requires
        old(mgr).view().can_allocate(),
    ensures
        old(mgr).view().wf() ==> final(mgr).view().wf(),
        match r {
            Ok(db) => db.id() == old(mgr).view().fresh_id() && final(mgr).view() == old(
                mgr,
            ).view().add_db(normalized_uri(uri@), Some(default_vfs())),
            Err(e) => e.code == ENGINE_ERROR && final(mgr).view() == old(mgr).view(),
        },
{
    let path = normalize_uri(uri);
    let vfs = "unix-dotfile";
    proof {
        reveal_strlit("unix-dotfile");
    }
    assert(vfs@ =~= default_vfs());
    match mgr.open_with_vfs(path.as_str(), vfs) {
        Ok(handle) => Ok(Database { handle }),
        Err(e) => Err(e),
    }
}

/// A copy of a list of column names.
fn copy_names(columns: &[String]) -> (r: Vec<String>)
    ensures
        r@ == columns@,
{
    let mut r: Vec<String> = Vec::new();
    let mut i: usize = 0;
    while i < columns.len()
        invariant
            i <= columns@.len(),
            r@ == columns@.subrange(0, i as int),
        decreases columns@.len() - i,
    {
        r.push(columns[i].clone());
        i = i + 1;
    }
    assert(r@ =~= columns@);
    r
}

/// The rows of a result set, given as values column by column, turned into
/// maps from column name (`columns`, in column order) to value.
pub fn rows_to_objects(columns: &[String], rows: Vec<Vec<Value>>) -> (r: Vec<Row>)
    ensures
        r@.len() == rows@.len(),
        forall|i: int|
            0 <= i < rows@.len() ==> (#[trigger] r@[i]).view() == sqlite_row_map(
                columns@,
                rows@[i]@,
            ),
        are_objects(r@, columns@, result_rows(rows@)),
{
    let mut rows = rows;
    let ghost all = rows@;
    let mut backwards: Vec<Row> = Vec::new();
    while rows.len() > 0
        invariant
            rows@ == all.subrange(0, rows@.len() as int),
            rows@.len() + backwards@.len() == all.len(),
            forall|j: int|
                0 <= j < backwards@.len() ==> (#[trigger] backwards@[j]).view() == sqlite_row_map(
                    columns@,
                    all[all.len() - 1 - j]@,
                ),
        decreases rows@.len(),
    {
        let values = rows.pop().unwrap();
        backwards.push(row_to_object(SqliteRow { columns: copy_names(columns), values }));
    }
    let mut r: Vec<Row> = Vec::new();
    while backwards.len() > 0
        invariant
            r@.len() + backwards@.len() == all.len(),
            forall|j: int|
                0 <= j < backwards@.len() ==> (#[trigger] backwards@[j]).view() == sqlite_row_map(
                    columns@,
                    all[all.len() - 1 - j]@,
                ),
            forall|j: int|
                0 <= j < r@.len() ==> (#[trigger] r@[j]).view() == sqlite_row_map(columns@, all[j]@),
        decreases backwards@.len(),
    {
        let row = backwards.pop().unwrap();
        r.push(row);
    }
    assert forall|i: int| 0 <= i < result_rows(all).len() implies (#[trigger] r@[i]).view()
        == row_map_of(columns@, result_rows(all)[i]) by {
        row_map_of_values(columns@, all[i]@);
    }
    r
}

/// The first row of a result set as a map from column name to value, if
/// there is one.
pub fn first_object(columns: &[String], rows: Vec<Vec<Value>>) -> (r: Option<Row>)
    ensures
        match r {
            Some(row) => rows@.len() > 0 && row.view() == sqlite_row_map(columns@, rows@[0]@),
            None => rows@.len() == 0,
        },
        is_first_object(r, columns@, result_rows(rows@)),
{
    let mut rows = rows;
    if rows.len() == 0 {
        None
    } else {
        proof {
            row_map_of_values(columns@, rows@[0]@);
        }
        let values = rows.remove(0);
        Some(row_to_object(SqliteRow { columns: copy_names(columns), values }))
    }
}

/// `row` maps the names in `columns` to some values of one result row.
pub open spec fn is_row_over(columns: Seq<String>, row: Map<Seq<char>, ValueView>) -> bool {
    exists|values: Seq<Value>| #[trigger] sqlite_row_map(columns, values) == row
}

/// The map made of `columns` and `values` is a row over `columns`.
pub proof fn row_over_columns(columns: Seq<String>, values: Seq<Value>)
    ensures
        is_row_over(columns, sqlite_row_map(columns, values)),
{
}

/// `o` is what `one` answers for the query result `q`: nothing when `q`
/// has no rows, otherwise the first row of `q` as a map from the names in
/// `columns` to its values.
pub open spec fn is_first_object(o: Option<Row>, columns: Seq<String>, q: Seq<Seq<ValueView>>) -> bool {
    match o {
        None => q.len() == 0,
        Some(row) => q.len() > 0 && row.view() == row_map_of(columns, q[0]),
    }
}

/// `rows` is what `all` answers for the query result `q`: one map per row of
/// `q`, in order, each from the names in `columns` to that row's values.
pub open spec fn are_objects(rows: Seq<Row>, columns: Seq<String>, q: Seq<Seq<ValueView>>) -> bool {
    &&& rows.len() == q.len()
    &&& forall|i: int| 0 <= i < q.len() ==> (#[trigger] rows[i]).view() == row_map_of(columns, q[i])
}

/// On the same query result, `one` answers the first row that `all`
/// answers: nothing exactly when `all` answers no rows.
pub proof fn one_is_the_first_of_all(
    o: Option<Row>,
    rows: Seq<Row>,
    columns: Seq<String>,
    q: Seq<Seq<ValueView>>,
)
    requires
        is_first_object(o, columns, q),
        are_objects(rows, columns, q),
    ensures
        o is None <==> rows.len() == 0,
        o matches Some(row) ==> row.view() == rows[0].view(),
{
}

/// `all` keeps every row of the result, duplicates included, in order: it
/// answers as many rows as the query yields, and rows that are equal in
/// the result are equal in the answer, in the same places.
pub proof fn all_keeps_every_row_in_order(
    rows: Seq<Row>,
    columns: Seq<String>,
    q: Seq<Seq<ValueView>>,
    i: int,
    j: int,
)
    requires
        are_objects(rows, columns, q),
        0 <= i < q.len(),
        0 <= j < q.len(),
        q[i] == q[j],
    ensures
        rows.len() == q.len(),
        rows[i].view() == rows[j].view(),
        rows[i].view() == row_map_of(columns, q[i]),
{
}

/// The SQL text that starts a transaction.
pub open spec fn begin_sql() -> Seq<char> {
    seq!['B', 'E', 'G', 'I', 'N']
}

/// The SQL text that ends a transaction whose body succeeded (`COMMIT`) or
/// failed (`ROLLBACK`).
pub open spec fn finishing_sql(ok: bool) -> Seq<char> {
    if ok {
        seq!['C', 'O', 'M', 'M', 'I', 'T']
    } else {
        seq!['R', 'O', 'L', 'L', 'B', 'A', 'C', 'K']
    }
}

/// The table after `exec` ran BEGIN on live database `db` of table `v`,
/// and it answered `outcome`.
pub open spec fn after_begin(v: ManagerView, db: u32, outcome: Result<u64, Error>) -> ManagerView {
    v.record_exec(db, begin_sql(), Seq::empty(), outcome)
}

/// What the last command recorded in `v` answered.
pub open spec fn last_answer(v: ManagerView) -> Result<u64, Error> {
    v.executed.last().outcome
}

/// How a transaction on database `db` ends, from table `v` and the body's
/// `outcome` to the answer `r` and the table `after`.  On a live database
/// the finishing command for `outcome` is run (COMMIT after a success,
/// ROLLBACK after an error); the body's error comes back unchanged whatever
/// the rollback answers; a success comes back when the COMMIT succeeds, and
/// the COMMIT's own error when it fails.  On a database that is not live
/// nothing is run: the body's error comes back, or the handle error in
/// place of a success.
pub open spec fn finished<T>(
    v: ManagerView,
    db: u32,
    outcome: Result<T, Error>,
    r: Result<T, Error>,
    after: ManagerView,
) -> bool {
    if v.dbs.contains_key(db) {
        &&& after == v.record_exec(db, finishing_sql(outcome is Ok), Seq::empty(), last_answer(after))
        &&& match outcome {
            Err(_) => r == outcome,
            Ok(_) => match last_answer(after) {
                Ok(_) => r == outcome,
                Err(e) => r == Err::<T, Error>(e),
            },
        }
    } else {
        &&& after == v
        &&& match outcome {
            Err(_) => r == outcome,
            Ok(_) => r matches Err(e) && is_handle_error(e, "db"@, db),
        }
    }
}

/// A transaction whose BEGIN succeeded runs exactly two commands, BEGIN and
/// then COMMIT (after a successful body) or ROLLBACK (after a failed one),
/// with no parameters; it opens, prepares, releases and closes nothing; a
/// failed body's error is what comes back, and a success only comes back
/// when the COMMIT succeeded.
pub proof fn transaction_sends_begin_then_finish<T>(
    v: ManagerView,
    db: u32,
    begun: u64,
    outcome: Result<T, Error>,
    r: Result<T, Error>,
    after: ManagerView,
)
    requires
        v.dbs.contains_key(db),
        finished(after_begin(v, db, Ok(begun)), db, outcome, r, after),
    ensures
        after.next_id == v.next_id,
        after.dbs == v.dbs,
        after.statements == v.statements,
        after.executed.len() == v.executed.len() + 2,
        after.executed.subrange(0, v.executed.len() as int) == v.executed,
        after.executed[v.executed.len() as int] == (ExecCall {
            db,
            sql: begin_sql(),
            params: Seq::empty(),
            outcome: Ok(begun),
        }),
        after.executed.last().db == db,
        after.executed.last().sql == finishing_sql(outcome is Ok),
        after.executed.last().sql != begin_sql(),
        outcome is Err ==> r == outcome,
        r is Ok ==> outcome is Ok && last_answer(after) is Ok,
{
    assert(after.executed.subrange(0, v.executed.len() as int) =~= v.executed);
}

/// The command that starts a transaction.
pub fn beginning_command() -> (s: &'static str)
    ensures
        s@ == begin_sql(),
{
    let s = "BEGIN";
    proof {
        reveal_strlit("BEGIN");
    }
    assert(s@ =~= begin_sql());
    s
}

/// The command that ends a transaction: `COMMIT` when its body succeeded,
/// `ROLLBACK` when it failed.
pub fn finishing_command(ok: bool) -> (s: &'static str)
    ensures
        s@ == finishing_sql(ok),
{
    if ok {
        let s = "COMMIT";
        proof {
            reveal_strlit("COMMIT");
        }
        assert(s@ =~= finishing_sql(true));
        s
    } else {
        let s = "ROLLBACK";
        proof {
            reveal_strlit("ROLLBACK");
        }
        assert(s@ =~= finishing_sql(false));
        s
    }
}

impl Database {
    /// The handle number.
    pub closed spec fn id(&self) -> u32 {
        self.handle
    }

    /// The handle number.
    pub fn handle(&self) -> (h: u32)
        ensures
            h == self.id(),
    {
        self.handle
    }

    /// Runs `sql` with `params` bound in order and returns how many rows it
    /// changed.
    pub fn exec<P: ToParam>(&self, mgr: &mut Manager, sql: &str, params: &[P]) -> (r: Result<
        u64,
        Error,
    >)
        ensures
            !old(mgr).view().dbs.contains_key(self.id()) ==> r is Err,
            final(mgr).view() == old(mgr).view().after_exec(self.id(), sql@, param_views(params@), r),
            old(mgr).view().wf() ==> final(mgr).view().wf(),
            match r {
                Ok(_) => old(mgr).view().dbs.contains_key(self.id()),
                Err(e) => old(mgr).view().db_lookup_error(self.id(), e),
            },
    {
        let values = params_to_values(params);
        mgr.exec(self.handle, sql, values.as_slice())
    }

    /// Prepares `sql` as a statement of this database.
    pub fn prepare(&self, mgr: &mut Manager, sql: &str) -> (r: Result<Statement, Error>)
        requires
            old(mgr).view().can_allocate(),
        ensures
            old(mgr).view().wf() ==> final(mgr).view().wf(),
            !old(mgr).view().dbs.contains_key(self.id()) ==> r is Err,
            match r {
                Ok(st) => st.id() == old(mgr).view().fresh_id() && final(mgr).view() == old(
                    mgr,
                ).view().add_statement(self.id(), sql@),
                Err(e) => old(mgr).view().db_lookup_error(self.id(), e) && final(mgr).view() == old(
                    mgr,
                ).view(),
            },
    {
        match mgr.prepare(self.handle, sql) {
            Ok(stmt) => Ok(Statement { stmt }),
            Err(e) => Err(e),
        }
    }

    /// Closes the database and releases all its statements.
    pub fn close(&self, mgr: &mut Manager) -> (r: Result<(), Error>)
        ensures
            old(mgr).view().wf() ==> final(mgr).view().wf(),
            r is Ok <==> old(mgr).view().dbs.contains_key(self.id()),
            match r {
                Ok(_) => final(mgr).view() == old(mgr).view().remove_db(self.id()),
                Err(e) => is_handle_error(e, "db"@, self.id()) && final(mgr).view() == old(
                    mgr,
                ).view(),
            },
    {
        mgr.close_db(self.handle)
    }

    /// Ends the transaction that `outcome` was computed in, by running
    /// `finishing_command(outcome is Ok)`: COMMIT after a success, ROLLBACK
    /// after an error.  The body's error comes back unchanged whatever the
    /// rollback does; a success comes back when the commit succeeds, and the
    /// commit's error otherwise.
    pub fn finish_transaction<T>(&self, mgr: &mut Manager, outcome: Result<T, Error>) -> (r: Result<
        T,
        Error,
    >)
        ensures
            old(mgr).view().wf() ==> final(mgr).view().wf(),
            finished(old(mgr).view(), self.id(), outcome, r, final(mgr).view()),
    {
        let no_params: Vec<Value> = Vec::new();
        assert(value_views(no_params@) =~= Seq::<ValueView>::empty());
        let command = finishing_command(outcome.is_ok());
        match outcome {
            Ok(v) => match mgr.exec(self.handle, command, no_params.as_slice()) {
                Ok(_) => Ok(v),
                Err(e) => Err(e),
            },
            Err(e) => {
                let _ = mgr.exec(self.handle, command, no_params.as_slice());
                Err(e)
            },
        }
    }

    /// Runs `f(mgr, arg)` inside a transaction: `beginning_command()`
    /// (BEGIN), then `f` once, then `finish_transaction` (COMMIT when `f`
    /// succeeds, ROLLBACK when it fails).  When BEGIN fails its error comes
    /// back and `f` is not called.  The body sees the table as BEGIN left
    /// it and may run statements on it.
    pub fn transaction<A, T, F: FnOnce(&Manager, A) -> Result<T, Error>>(
        &self,
        mgr: &mut Manager,
        f: F,
        arg: A,
    ) -> (r: Result<T, Error>)
        requires
            forall|m: Manager| #[trigger] f.requires((&m, arg)),
        ensures
            old(mgr).view().wf() ==> final(mgr).view().wf(),
            !old(mgr).view().dbs.contains_key(self.id()) ==> final(mgr).view() == old(mgr).view() && (
            r matches Err(e) && is_handle_error(e, "db"@, self.id())),
            old(mgr).view().dbs.contains_key(self.id()) ==> ({
                ||| final(mgr).view() == after_begin(old(mgr).view(), self.id(), last_answer(final(mgr).view()))
                    && (last_answer(final(mgr).view()) matches Err(e) && r == Err::<T, Error>(e))
                ||| exists|m: Manager, outcome: Result<T, Error>|
                    m.view() == after_begin(old(mgr).view(), self.id(), last_answer(m.view()))
                        && last_answer(m.view()) is Ok && #[trigger] f.ensures((&m, arg), outcome)
                        && finished(m.view(), self.id(), outcome, r, final(mgr).view())
            }),
    {
        let no_params: Vec<Value> = Vec::new();
        assert(value_views(no_params@) =~= Seq::<ValueView>::empty());
        match mgr.exec(self.handle, beginning_command(), no_params.as_slice()) {
            Ok(_) => {},
            Err(e) => {
                return Err(e);
            },
        }
        let ghost mid = *mgr;
        let outcome = f(&*mgr, arg);
        let ghost o = outcome;
        let r = self.finish_transaction(mgr, outcome);
        assert(f.ensures((&mid, arg), o));
        r
    }
}

impl Statement {
    /// The handle number.
    pub closed spec fn id(&self) -> u32 {
        self.stmt
    }

    /// The handle number.
    pub fn handle(&self) -> (h: u32)
        ensures
            h == self.id(),
    {
        self.stmt
    }

    /// Runs the statement with `params` bound in order, for its effect.
    pub fn run<P: ToParam>(&self, mgr: &Manager, params: &[P]) -> (r: Result<RunInfo, Error>)
        ensures
            !mgr.view().statements.contains_key(self.id()) ==> r is Err,
            match r {
                Ok(_) => mgr.view().statements.contains_key(self.id()),
                Err(e) => mgr.view().statement_lookup_error(self.id(), e),
            },
    {
        let values = params_to_values(params);
        mgr.run(self.stmt, values.as_slice())
    }

    /// Runs the statement with `params` bound in order and returns its
    /// first row, if it yields any, as a map from the names in `columns`
    /// (the statement's column names, in column order) to the row's values.
    pub fn one<P: ToParam>(&self, mgr: &Manager, columns: &[String], params: &[P]) -> (r: Result<
        Option<Row>,
        Error,
    >)
        ensures
            !mgr.view().statements.contains_key(self.id()) ==> r is Err,
            match r {
                Ok(row) => mgr.view().statements.contains_key(self.id()) && (row matches Some(row)
                    ==> is_row_over(columns@, row.view())),
                Err(e) => mgr.view().statement_lookup_error(self.id(), e),
            },
            r matches Ok(o) ==> exists|q: Seq<Seq<ValueView>>|
                is_query_result(q) && #[trigger] is_first_object(o, columns@, q),
    {
        let values = params_to_values(params);
        match mgr.query_with(self.stmt, values.as_slice()) {
            Ok(rows) => {
                let ghost raw = rows@;
                let row = first_object(columns, rows);
                proof {
                    if row is Some {
                        row_over_columns(columns@, raw[0]@);
                    }
                    assert(is_query_result(result_rows(raw)));
                }
                Ok(row)
            },
            Err(e) => Err(e),
        }
    }

    /// Runs the statement with `params` bound in order and returns all its
    /// rows, each as a map from the names in `columns` (the statement's
    /// column names, in column order) to the row's values.
    pub fn all<P: ToParam>(&self, mgr: &Manager, columns: &[String], params: &[P]) -> (r: Result<
        Vec<Row>,
        Error,
    >)
        ensures
            !mgr.view().statements.contains_key(self.id()) ==> r is Err,
            match r {
                Ok(_) => mgr.view().statements.contains_key(self.id()),
                Err(e) => mgr.view().statement_lookup_error(self.id(), e),
            },
            r matches Ok(rows) ==> forall|i: int|
                0 <= i < rows@.len() ==> is_row_over(columns@, #[trigger] rows@[i].view()),
            r matches Ok(rows) ==> exists|q: Seq<Seq<ValueView>>|
                is_query_result(q) && #[trigger] are_objects(rows@, columns@, q),
    {
        let values = params_to_values(params);
        match mgr.query_with(self.stmt, values.as_slice()) {
            Ok(rows) => {
                let ghost raw = rows@;
                let objs = rows_to_objects(columns, rows);
                proof {
                    assert forall|i: int| 0 <= i < objs@.len() implies is_row_over(
                        columns@,
                        #[trigger] objs@[i].view(),
                    ) by {
                        row_over_columns(columns@, raw[i]@);
                    }
                    assert(is_query_result(result_rows(raw)));
                }
                let answer: Result<Vec<Row>, Error> = Ok(objs);
                proof {
                    let q = result_rows(raw);
                    assert(answer matches Ok(found) && are_objects(found@, columns@, q));
                }
                answer
            },
            Err(e) => Err(e),
        }
    }

    /// Releases the statement: `true` when it was live, `false` when it had
    /// been released (or its database closed) already.
    pub fn release(&self, mgr: &mut Manager) -> (r: Result<bool, Error>)
        ensures
            old(mgr).view().wf() ==> final(mgr).view().wf(),
            r == Ok::<bool, Error>(old(mgr).view().statements.contains_key(self.id())),
            final(mgr).view() == old(mgr).view().remove_statement(self.id()),
    {
        match mgr.close_statement(self.stmt) {
            Ok(_) => Ok(true),
            Err(_) => Ok(false),
        }
    }
}

} // verus!
