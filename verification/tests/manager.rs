use sqlite_wasm_wasi::error::{ENGINE_ERROR, HANDLE_ERROR};
use sqlite_wasm_wasi::manager::collect_rows;
use sqlite_wasm_wasi::{Manager, Value};

#[test]
fn end_to_end_query_works() {
    let mut manager = Manager::default();
    let db = manager.open(":memory:").expect("open should work");

    let create = manager
        .prepare(db, "create table items (id integer, name text)")
        .expect("prepare create should work");
    manager.query(create).expect("create should run");
    manager.close_statement(create).expect("close should work");

    let insert = manager
        .prepare(db, "insert into items values (1, 'apple'), (2, 'pear')")
        .expect("prepare insert should work");
    manager.query(insert).expect("insert should run");

    let select = manager
        .prepare(db, "select id, name from items order by id")
        .expect("prepare select should work");
    let rows = manager.query(select).expect("query should run");

    assert_eq!(rows.len(), 2);
    manager.close_db(db).expect("close db should work");
}

#[test]
fn handles_are_numbered_from_one_and_never_reused() {
    let mut manager = Manager::new();
    let db = manager.open(":memory:").unwrap();
    assert_eq!(db, 1);
    let s1 = manager.prepare(db, "select 1").unwrap();
    assert_eq!(s1, 2);
    manager.close_statement(s1).unwrap();
    let s2 = manager.prepare(db, "select 2").unwrap();
    assert_eq!(s2, 3);
    let db2 = manager.open(":memory:").unwrap();
    assert_eq!(db2, 4);
}

#[test]
fn query_returns_values_by_column() {
    let mut manager = Manager::new();
    let db = manager.open(":memory:").unwrap();
    let s = manager.prepare(db, "select 7 as n, 'x' as t, null as z, x'0102' as b").unwrap();
    let rows = manager.query(s).unwrap();
    assert_eq!(rows.len(), 1);
    assert_eq!(
        rows[0],
        vec![Value::Integer(7), Value::Text("x".to_string()), Value::Null, Value::Blob(vec![1, 2])]
    );
}

#[test]
fn query_with_binds_parameters_in_order() {
    let mut manager = Manager::new();
    let db = manager.open(":memory:").unwrap();
    let s = manager.prepare(db, "select ? + ?, ?").unwrap();
    let rows = manager
        .query_with(s, &[Value::Integer(40), Value::Integer(2), Value::Real(2.5f64.to_bits())])
        .unwrap();
    assert_eq!(rows[0], vec![Value::Integer(42), Value::Real(2.5f64.to_bits())]);
}

#[test]
fn released_statement_is_unknown() {
    let mut manager = Manager::new();
    let db = manager.open(":memory:").unwrap();
    let s = manager.prepare(db, "select 1").unwrap();
    assert!(manager.close_statement(s).is_ok());
    let err = manager.close_statement(s).unwrap_err();
    assert_eq!(err.code, HANDLE_ERROR);
    assert_eq!(err.message, "unknown statement handle: 2");
    let err = manager.query(s).unwrap_err();
    assert_eq!(err.code, -2);
    assert_eq!(err.message, "unknown statement handle: 2");
    let err = manager.run(s, &[]).unwrap_err();
    assert_eq!(err.message, "unknown statement handle: 2");
}

#[test]
fn closing_a_database_releases_its_statements_only() {
    let mut manager = Manager::new();
    let a = manager.open(":memory:").unwrap();
    let b = manager.open(":memory:").unwrap();
    let sa = manager.prepare(a, "select 1").unwrap();
    let sb = manager.prepare(b, "select 2").unwrap();
    manager.close_db(a).unwrap();
    assert_eq!(manager.query(sa).unwrap_err().message, "unknown statement handle: 3");
    assert_eq!(manager.query(sb).unwrap().len(), 1);
    let err = manager.close_db(a).unwrap_err();
    assert_eq!(err.code, -2);
    assert_eq!(err.message, "unknown db handle: 1");
    let err = manager.prepare(a, "select 1").unwrap_err();
    assert_eq!(err.message, "unknown db handle: 1");
    let err = manager.exec(a, "select 1", &[]).unwrap_err();
    assert_eq!(err.message, "unknown db handle: 1");
}

#[test]
fn engine_errors_have_code_minus_one() {
    let mut manager = Manager::new();
    let db = manager.open(":memory:").unwrap();
    let err = manager.prepare(db, "select * from missing").unwrap_err();
    assert_eq!(err.code, ENGINE_ERROR);
    assert!(err.message.contains("missing"));
    let err = manager.open("file::memory:?vfs=notfound").unwrap_err();
    assert_eq!(err.code, -1);
    // a failed prepare hands out no number
    let s = manager.prepare(db, "select 1").unwrap();
    assert_eq!(s, 2);
}

#[test]
fn exec_and_run_report_changes() {
    let mut manager = Manager::new();
    let db = manager.open(":memory:").unwrap();
    assert_eq!(manager.exec(db, "create table t (id integer)", &[]).unwrap(), 0);
    let ins = manager.prepare(db, "insert into t (id) values (?)").unwrap();
    let info = manager.run(ins, &[Value::Integer(5)]).unwrap();
    assert_eq!(info.changes, 1);
    assert_eq!(info.last_insert_rowid, 1);
    let info = manager.run(ins, &[Value::Integer(6)]).unwrap();
    assert_eq!(info.last_insert_rowid, 2);
    assert_eq!(manager.exec(db, "delete from t where id > ?", &[Value::Integer(0)]).unwrap(), 2);
}

#[test]
fn wrong_parameter_count_is_an_engine_error() {
    let mut manager = Manager::new();
    let db = manager.open(":memory:").unwrap();
    let s = manager.prepare(db, "select ?").unwrap();
    let err = manager.query_with(s, &[Value::Integer(1), Value::Integer(2)]).unwrap_err();
    assert_eq!(err.code, -1);
}

#[test]
fn open_with_vfs_takes_the_named_vfs() {
    let mut manager = Manager::new();
    let db = manager.open_with_vfs(":memory:", "unix-dotfile").unwrap();
    assert_eq!(db, 1);
    let err = manager.open_with_vfs(":memory:", "no-such-vfs").unwrap_err();
    assert_eq!(err.code, -1);
    // a vfs named in a file: URI takes precedence
    let err = manager.open_with_vfs("file:x?mode=memory&vfs=no-such-vfs", "unix-dotfile").unwrap_err();
    assert_eq!(err.code, -1);
    let db = manager.open_with_vfs("file:x?mode=memory&vfs=unix", "no-such-vfs").unwrap();
    assert_eq!(db, 2);
}

#[test]
fn statement_source_gives_connection_and_sql() {
    let mut manager = Manager::new();
    let db = manager.open(":memory:").unwrap();
    let s = manager.prepare(db, "select 1 as one").unwrap();
    {
        let (conn, sql) = manager.statement_source(s).unwrap();
        assert_eq!(sql, "select 1 as one");
        let stmt = conn.prepare(sql).unwrap();
        let names: Vec<String> = stmt.column_names().map(|n| n.to_string()).collect();
        assert_eq!(names, vec!["one".to_string()]);
    }
    manager.close_statement(s).unwrap();
    assert!(manager.statement_source(s).is_none());
}

#[test]
fn many_rows_come_back_in_order() {
    let mut manager = Manager::new();
    let db = manager.open(":memory:").unwrap();
    manager.exec(db, "create table t (id integer)", &[]).unwrap();
    let ins = manager.prepare(db, "insert into t values (?)").unwrap();
    for i in 0..5 {
        manager.run(ins, &[Value::Integer(i)]).unwrap();
    }
    let sel = manager.prepare(db, "select id from t order by id").unwrap();
    let rows = manager.query(sel).unwrap();
    assert_eq!(rows.len(), 5);
    for i in 0..5 {
        assert_eq!(rows[i], vec![Value::Integer(i as i64)]);
    }
}

#[test]
fn collecting_rows_returns_every_remaining_row_in_order() {
    let conn = rusqlite::Connection::open_in_memory().unwrap();
    let mut stmt = conn
        .prepare("select 1, 'a', null union all select 2, 'b', x'ff' union all select 3, 'c', 2.5")
        .unwrap();
    let mut rows = stmt.query([]).unwrap();
    let all = collect_rows(&mut rows).unwrap();
    assert_eq!(
        all,
        vec![
            vec![Value::Integer(1), Value::Text("a".to_string()), Value::Null],
            vec![Value::Integer(2), Value::Text("b".to_string()), Value::Blob(vec![0xff])],
            vec![Value::Integer(3), Value::Text("c".to_string()), Value::Real(2.5f64.to_bits())],
        ]
    );
    // the cursor is at its end now
    assert_eq!(collect_rows(&mut rows).unwrap(), Vec::<Vec<Value>>::new());
    drop(rows);

    let mut rows = stmt.query([]).unwrap();
    rows.next().unwrap();
    let rest = collect_rows(&mut rows).unwrap();
    assert_eq!(rest.len(), 2);
    assert_eq!(rest[0][0], Value::Integer(2));
}

#[test]
fn allocation_is_possible_on_a_fresh_table() {
    let mut manager = Manager::new();
    assert!(manager.can_allocate());
    manager.open(":memory:").unwrap();
    assert!(manager.can_allocate());
}
