use sqlite_wasm_wasi::error::Error;
use sqlite_wasm_wasi::{open, row_value, Manager, Row, Value, NO_PARAMS};

fn real_value(x: f64) -> Value {
    Value::Real(x.to_bits())
}

fn text(s: &str) -> Value {
    Value::Text(s.to_string())
}

fn names(v: &[&str]) -> Vec<String> {
    v.iter().map(|s| s.to_string()).collect()
}

fn row_from_values(id: i64, name: &str, ratio: f64, big_int: i64) -> Row {
    let mut row = Row::new();
    row.insert("id".to_string(), Value::Integer(id));
    row.insert("name".to_string(), text(name));
    row.insert("note".to_string(), Value::Null);
    row.insert("ratio".to_string(), real_value(ratio));
    row.insert("big_int".to_string(), Value::Integer(big_int));
    row
}

fn row_num(id: i64, ratio: Value) -> Row {
    let mut row = Row::new();
    row.insert("id".to_string(), Value::Integer(id));
    row.insert("ratio".to_string(), ratio);
    row
}

fn row_id(id: i64) -> Row {
    let mut row = Row::new();
    row.insert("id".to_string(), Value::Integer(id));
    row
}

#[test]
fn basic() {
    let mut mgr = Manager::new();
    let db = open(&mut mgr, ":memory:").unwrap();
    db.exec(&mut mgr, "drop table if exists basic", &NO_PARAMS).unwrap();
    let num = db
        .exec(&mut mgr, "create table basic (id integer, name text, note text, ratio real, big_int integer)", &NO_PARAMS)
        .unwrap();
    assert_eq!(num, 0, "create table no rows");

    let statement = db
        .prepare(&mut mgr, "insert into basic (id, name, note, ratio, big_int) values (?, ?, ?, ?, ?)")
        .unwrap();
    let info = statement
        .run::<Value>(&mgr, &[Value::Integer(1), text("hello from js"), Value::Null, real_value(3.25), Value::Integer(9_007_199_254_740_993)])
        .unwrap();
    assert_eq!(info.changes, 1, "insert 1 row");
    assert_eq!(info.last_insert_rowid, 1, "row id 1");
    assert_eq!(statement.release(&mut mgr).unwrap(), true, "release true");
    assert_eq!(statement.release(&mut mgr).unwrap(), false, "release false");

    let statement = db
        .prepare(&mut mgr, "insert into basic (id, name, note, ratio, big_int) values (?, ?, ?, ?, ?)")
        .unwrap();
    let info = statement
        .run::<Value>(&mgr, &[Value::Integer(2), text("hello from js"), Value::Null, real_value(3.25), Value::Integer(9_007_199_254_740_993)])
        .unwrap();
    assert_eq!(info.changes, 1, "insert 1 row");
    assert_eq!(info.last_insert_rowid, 2, "row id 2");
    assert_eq!(statement.release(&mut mgr).unwrap(), true, "release true");
    assert_eq!(statement.release(&mut mgr).unwrap(), false, "release false");

    let obj1 = row_from_values(1, "hello from js", 3.25, 9_007_199_254_740_993);
    let obj2 = row_from_values(2, "hello from js", 3.25, 9_007_199_254_740_993);

    let cols = names(&["id", "name", "note", "ratio", "big_int"]);
    let statement = db.prepare(&mut mgr, "select id, name, note, ratio, big_int from basic where id = 1").unwrap();
    let row = statement.one(&mgr, &cols, &NO_PARAMS).unwrap().unwrap();
    assert_eq!(row, obj1, "select 1 row A");

    let statement = db.prepare(&mut mgr, "select id, name, note, ratio, big_int from basic where id = ?").unwrap();
    let row = statement.one(&mgr, &cols, &[1_i64]).unwrap().unwrap();
    assert_eq!(row, obj1, "select 1 row B");

    let statement = db.prepare(&mut mgr, "select id, name, note, ratio, big_int from basic where id = ?").unwrap();
    let row = statement.one(&mgr, &cols, &[2_i64]).unwrap().unwrap();
    assert_eq!(row, obj2, "select 1 row C");

    let statement = db.prepare(&mut mgr, "select id, name, note, ratio, big_int from basic where id = 3").unwrap();
    assert!(statement.one(&mgr, &cols, &NO_PARAMS).unwrap().is_none(), "select 1 row NULL");

    let statement = db.prepare(&mut mgr, "select id, name, note, ratio, big_int from basic order by id").unwrap();
    let rows = statement.all(&mgr, &cols, &NO_PARAMS).unwrap();
    assert_eq!(rows.len(), 2, "select 2 rows");
    assert_eq!(rows[0], obj1, "select row id 1");
    assert_eq!(rows[1], obj2, "select row id 2");

    let statement = db.prepare(&mut mgr, "select id, name, note, ratio, big_int from basic where id = ?").unwrap();
    let rows = statement.all(&mgr, &cols, &[1_i64]).unwrap();
    assert_eq!(rows.len(), 1, "select 1 rows");
    assert_eq!(rows[0], obj1, "select row id 1");

    let statement = db.prepare(&mut mgr, "select id, name, note, ratio, big_int from basic where id = ?").unwrap();
    let rows = statement.all(&mgr, &cols, &[3_i64]).unwrap();
    assert_eq!(rows.len(), 0, "select 0 rows");

    assert_eq!(db.exec(&mut mgr, "update basic set id = 3 where id = ?", &[1_i64]).unwrap(), 1, "update 1 rows");
    assert_eq!(db.exec(&mut mgr, "update basic set id = 3 where id = ?", &[1_i64]).unwrap(), 0, "update 0 rows");
    assert_eq!(db.exec(&mut mgr, "delete from basic where 1 = ?", &[1_i64]).unwrap(), 2, "delete 2 rows");

    let statement = db.prepare(&mut mgr, "select 3 where 1 = 1").unwrap();
    let cols = names(&["3"]);
    let row = statement.one(&mgr, &cols, &NO_PARAMS).unwrap().unwrap();
    let mut expected = Row::new();
    expected.insert("3".to_string(), Value::Integer(3));
    assert_eq!(row, expected, "select 3 col name");

    db.close(&mut mgr).unwrap();
}

#[test]
fn strict() {
    let mut mgr = Manager::new();
    let db = open(&mut mgr, ":memory:").unwrap();
    db.exec(&mut mgr, "drop table if exists nums", &NO_PARAMS).unwrap();
    db.exec(&mut mgr, "create table nums (id integer, ratio real) strict", &NO_PARAMS).unwrap();
    let statement = db.prepare(&mut mgr, "insert into nums (id, ratio) values (?, ?)").unwrap();
    let info = statement.run::<Value>(&mgr, &[Value::Integer(1), real_value(3.25)]).unwrap();
    assert_eq!(info.changes, 1, "insert 1 real");
    let info = statement.run::<Value>(&mgr, &[Value::Integer(2), Value::Integer(2)]).unwrap();
    assert_eq!(info.changes, 1, "insert 1 int as real");
    assert!(statement.run::<Value>(&mgr, &[Value::Integer(4), text("abc")]).is_err(), "insert text as real throws");

    let statement = db.prepare(&mut mgr, "select * from nums order by id").unwrap();
    let cols = names(&["id", "ratio"]);
    let rows = statement.all(&mgr, &cols, &NO_PARAMS).unwrap();
    assert_eq!(rows.len(), 2, "select 3 rows");
    assert_eq!(rows[0], row_num(1, real_value(3.25)), "select row id 1");
    assert_eq!(rows[1], row_num(2, real_value(2.0)), "select row id 2");

    db.exec(&mut mgr, "drop table if exists nums", &NO_PARAMS).unwrap();
    db.exec(&mut mgr, "create table nums (id integer, ratio real)", &NO_PARAMS).unwrap();
    let statement = db.prepare(&mut mgr, "insert into nums (id, ratio) values (?, ?)").unwrap();
    let info = statement.run::<Value>(&mgr, &[Value::Integer(1), text("abc")]).unwrap();
    assert_eq!(info.changes, 1, "insert 1 text");

    let statement = db.prepare(&mut mgr, "select * from nums order by id").unwrap();
    let cols = names(&["id", "ratio"]);
    let rows = statement.all(&mgr, &cols, &NO_PARAMS).unwrap();
    assert_eq!(rows.len(), 1, "select 1 rows");
    assert_eq!(rows[0], row_num(1, text("abc")), "select row id 1");
    db.close(&mut mgr).unwrap();
}

#[test]
fn txn() {
    let mut mgr = Manager::new();
    let db = open(&mut mgr, ":memory:").unwrap();
    db.exec(&mut mgr, "drop table if exists txn", &NO_PARAMS).unwrap();
    db.exec(&mut mgr, "create table txn (id integer)", &NO_PARAMS).unwrap();
    let insert = db.prepare(&mut mgr, "insert into txn (id) values (?)").unwrap();
    let info = insert.run(&mgr, &[1_i64]).unwrap();
    assert_eq!(info.changes, 1, "insert 1 row");
    assert_eq!(info.last_insert_rowid, 1, "row id 1");

    let objs: Vec<Row> = vec![1, 4, 5, 6].into_iter().map(row_id).collect();
    let select = db.prepare(&mut mgr, "select * from txn order by id").unwrap();
    let cols = names(&["id"]);
    let rows = select.all(&mgr, &cols, &NO_PARAMS).unwrap();
    assert_eq!(rows.len(), 1, "select 1 rows");
    assert_eq!(rows[0], objs[0], "select obj0");

    let nums: Vec<i64> = objs
        .iter()
        .skip(1)
        .map(|obj| match row_value(obj, "id") {
            Some(Value::Integer(v)) => *v,
            _ => 0,
        })
        .collect();
    let result = db.transaction(
        &mut mgr,
        |m: &Manager, nums: Vec<i64>| {
            for num in nums {
                let info = insert.run(m, &[num])?;
                assert_eq!(info.changes, 1, "insert 1 row");
            }
            Ok(())
        },
        nums.clone(),
    );
    assert!(result.is_ok());

    let rows = select.all(&mgr, &cols, &NO_PARAMS).unwrap();
    assert_eq!(rows.len(), objs.len(), "select 4 rows");
    for i in 0..objs.len() {
        assert_eq!(rows[i], objs[i], "select obj{i}");
    }

    let result: Result<(), Error> = db.transaction(
        &mut mgr,
        |m: &Manager, nums: Vec<i64>| {
            for num in nums {
                insert.run(m, &[num])?;
            }
            Err(Error { code: -1, message: "test".to_string() })
        },
        nums,
    );
    match result {
        Ok(_) => panic!("txn throws"),
        Err(err) => assert_eq!(err.message, "test", "txn throws msg"),
    }

    let rows = select.all(&mgr, &cols, &NO_PARAMS).unwrap();
    assert_eq!(rows.len(), objs.len(), "select 4 rows");
    for i in 0..objs.len() {
        assert_eq!(rows[i], objs[i], "select obj{i}");
    }
    db.close(&mut mgr).unwrap();
}

#[test]
fn misc() {
    let mut mgr = Manager::new();
    let db = open(&mut mgr, ":memory:").unwrap();
    db.exec(&mut mgr, "drop table if exists misc", &NO_PARAMS).unwrap();
    db.exec(&mut mgr, "create table misc (id integer, buf blob)", &NO_PARAMS).unwrap();

    let blob: Vec<u8> = vec![1, 2, 3];
    let statement = db.prepare(&mut mgr, "insert into misc (id, buf) values (?, ?)").unwrap();
    let info = statement.run::<Value>(&mgr, &[Value::Integer(1), Value::Blob(blob.clone())]).unwrap();
    assert_eq!(info.changes, 1, "insert 1 row");

    let statement = db.prepare(&mut mgr, "select * from misc").unwrap();
    let cols = names(&["id", "buf"]);
    let row = statement.one(&mgr, &cols, &NO_PARAMS).unwrap().unwrap();
    assert_eq!(row_value(&row, "id"), Some(&Value::Integer(1)), "row id 1");
    assert_eq!(row_value(&row, "buf"), Some(&Value::Blob(blob)), "row buf ok");

    assert_eq!(statement.release(&mut mgr).unwrap(), true, "release true");
    assert!(statement.run(&mgr, &NO_PARAMS).is_err(), "released statement run throws");
    assert!(statement.one(&mgr, &cols, &NO_PARAMS).is_err(), "released statement one throws");
    assert!(statement.all(&mgr, &cols, &NO_PARAMS).is_err(), "released statement all throws");

    db.close(&mut mgr).unwrap();
    assert!(db.exec(&mut mgr, "drop table if exists misc", &NO_PARAMS).is_err(), "closed db throws");

    let db2 = open(&mut mgr, "file:misc_vfs?mode=memory&vfs=unix-dotfile").unwrap();
    db2.close(&mut mgr).unwrap();

    assert!(open(&mut mgr, "file:misc_vfs?mode=memory&vfs=notfound").is_err(), "vfs open throws");
}

#[test]
fn finishing_a_transaction_returns_the_body_error_unchanged() {
    let mut mgr = Manager::new();
    let db = open(&mut mgr, ":memory:").unwrap();
    db.exec(&mut mgr, "create table t (id integer)", &NO_PARAMS).unwrap();
    db.exec(&mut mgr, "begin", &NO_PARAMS).unwrap();
    db.exec(&mut mgr, "insert into t values (1)", &NO_PARAMS).unwrap();
    let body_error = Error { code: 7, message: "body".to_string() };
    let r: Result<i64, Error> = db.finish_transaction(&mut mgr, Err(body_error.clone()));
    assert_eq!(r, Err(body_error));
    let count = db.prepare(&mut mgr, "select count(*) as n from t").unwrap();
    let cols = names(&["n"]);
    let row = count.one(&mgr, &cols, &NO_PARAMS).unwrap().unwrap();
    assert_eq!(row_value(&row, "n"), Some(&Value::Integer(0)));

    db.exec(&mut mgr, "begin", &NO_PARAMS).unwrap();
    db.exec(&mut mgr, "insert into t values (2)", &NO_PARAMS).unwrap();
    assert_eq!(db.finish_transaction(&mut mgr, Ok::<i64, Error>(5)), Ok(5));
    let row = count.one(&mgr, &cols, &NO_PARAMS).unwrap().unwrap();
    assert_eq!(row_value(&row, "n"), Some(&Value::Integer(1)));
}

#[test]
fn finishing_without_a_transaction_reports_the_commit_error() {
    let mut mgr = Manager::new();
    let db = open(&mut mgr, ":memory:").unwrap();
    let r = db.finish_transaction(&mut mgr, Ok::<i64, Error>(5));
    assert_eq!(r.unwrap_err().code, -1);
    db.close(&mut mgr).unwrap();
    let r = db.finish_transaction(&mut mgr, Ok::<i64, Error>(5));
    assert_eq!(r.unwrap_err().message, "unknown db handle: 1");
    let e = Error { code: 3, message: "kept".to_string() };
    assert_eq!(db.finish_transaction::<i64>(&mut mgr, Err(e.clone())), Err(e));
}

#[test]
fn transaction_on_closed_database_does_not_run_the_body() {
    let mut mgr = Manager::new();
    let db = open(&mut mgr, ":memory:").unwrap();
    db.close(&mut mgr).unwrap();
    let r: Result<(), Error> = db.transaction(&mut mgr, |_: &Manager, _: ()| -> Result<(), Error> { panic!("body must not run") }, ());
    assert_eq!(r.unwrap_err().message, "unknown db handle: 1");
}

#[test]
fn transaction_returns_the_body_value() {
    let mut mgr = Manager::new();
    let db = open(&mut mgr, ":memory:").unwrap();
    let r = db.transaction(&mut mgr, |_: &Manager, x: i64| -> Result<i64, Error> { Ok(x * 2) }, 21);
    assert_eq!(r, Ok(42));
}

#[test]
fn open_normalizes_the_uri_and_hands_out_fresh_handles() {
    let mut mgr = Manager::new();
    let a = open(&mut mgr, ":memory:").unwrap();
    let b = open(&mut mgr, "file::memory:").unwrap();
    assert_eq!(a.handle(), 1);
    assert_eq!(b.handle(), 2);
    let s = a.prepare(&mut mgr, "select 1").unwrap();
    assert_eq!(s.handle(), 3);
    assert!(open(&mut mgr, "file:x?mode=memory&vfs=notfound").is_err());
    let c = open(&mut mgr, ":memory:").unwrap();
    assert_eq!(c.handle(), 4);
}

#[test]
fn values_convert_from_plain_types() {
    assert_eq!(Value::from(5_i64), Value::Integer(5));
    assert_eq!(Value::from(-5_i32), Value::Integer(-5));
    assert_eq!(Value::from("t".to_string()), Value::Text("t".to_string()));
    assert_eq!(Value::from(vec![1u8]), Value::Blob(vec![1]));
}

#[test]
fn transaction_commands() {
    assert_eq!(sqlite_wasm_wasi::client::beginning_command(), "BEGIN");
    assert_eq!(sqlite_wasm_wasi::client::finishing_command(true), "COMMIT");
    assert_eq!(sqlite_wasm_wasi::client::finishing_command(false), "ROLLBACK");
}

#[test]
fn rollback_failure_keeps_the_body_error() {
    let mut mgr = Manager::new();
    let db = open(&mut mgr, ":memory:").unwrap();
    // no transaction is open, so ROLLBACK fails; the body's error still comes back
    let e = Error { code: 9, message: "body".to_string() };
    assert_eq!(db.finish_transaction::<i64>(&mut mgr, Err(e.clone())), Err(e));
}

#[test]
fn values_convert_from_borrowed_text_and_bytes() {
    assert_eq!(Value::from("abc"), Value::Text("abc".to_string()));
    let b: &[u8] = &[1, 2];
    assert_eq!(Value::from(b), Value::Blob(vec![1, 2]));
}

#[test]
fn failed_begin_skips_the_body() {
    let mut mgr = Manager::new();
    let db = open(&mut mgr, ":memory:").unwrap();
    db.exec(&mut mgr, "begin", &NO_PARAMS).unwrap();
    // a transaction is already open, so BEGIN fails and the body never runs
    let r: Result<(), Error> =
        db.transaction(&mut mgr, |_: &Manager, _: ()| -> Result<(), Error> { panic!("body must not run") }, ());
    let e = r.unwrap_err();
    assert_eq!(e.code, -1);
    assert!(e.message.contains("within a transaction"));
}

#[test]
fn failed_commit_gives_the_engine_error() {
    let mut mgr = Manager::new();
    let db = open(&mut mgr, ":memory:").unwrap();
    db.exec(&mut mgr, "pragma foreign_keys = on", &NO_PARAMS).unwrap();
    db.exec(&mut mgr, "create table parent (id integer primary key)", &NO_PARAMS).unwrap();
    db.exec(
        &mut mgr,
        "create table child (p integer references parent(id) deferrable initially deferred)",
        &NO_PARAMS,
    )
    .unwrap();
    let insert = db.prepare(&mut mgr, "insert into child (p) values (?)").unwrap();
    // the dangling reference is only checked at COMMIT, which then fails
    let r = db.transaction(
        &mut mgr,
        |m: &Manager, p: i64| -> Result<i64, Error> {
            insert.run(m, &[p])?;
            Ok(p)
        },
        7,
    );
    let e = r.unwrap_err();
    assert_eq!(e.code, -1);
    assert!(e.message.contains("FOREIGN KEY"));
}

#[test]
fn failing_body_rolls_back_its_rows() {
    let mut mgr = Manager::new();
    let db = open(&mut mgr, ":memory:").unwrap();
    db.exec(&mut mgr, "create table t (id integer)", &NO_PARAMS).unwrap();
    let insert = db.prepare(&mut mgr, "insert into t (id) values (?)").unwrap();
    let r: Result<(), Error> = db.transaction(
        &mut mgr,
        |m: &Manager, ids: Vec<i64>| -> Result<(), Error> {
            for id in ids {
                insert.run(m, &[id])?;
            }
            Err(Error { code: 2, message: "stop".to_string() })
        },
        vec![1, 2, 3],
    );
    assert_eq!(r, Err(Error { code: 2, message: "stop".to_string() }));
    let count = db.prepare(&mut mgr, "select count(*) as n from t").unwrap();
    let cols = names(&["n"]);
    let row = count.one(&mgr, &cols, &NO_PARAMS).unwrap().unwrap();
    assert_eq!(row_value(&row, "n"), Some(&Value::Integer(0)));
}
