//! A SQLite access library in the style of better-sqlite3: databases are
//! opened by URI, statements are prepared once and run many times with
//! positional parameters, and result rows come back as maps from column
//! name to value.  A `Manager` keeps the table of live database and
//! statement handles; `Database` and `Statement` are handles into it.

pub mod client;
pub mod engine;
pub mod error;
pub mod manager;
pub mod row;
pub mod text;
pub mod value;

pub use client::{open, Database, Statement, NO_PARAMS};
pub use error::Error;
pub use manager::{Manager, RunInfo};
pub use row::{row_to_object, row_value, Row, SqliteRow};
pub use value::{params_to_values, ToParam, Value};
