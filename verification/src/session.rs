use vstd::prelude::*;

use crate::error::SqlError;
use crate::query::{count_query, spec_count_query};
use crate::text::{digit_run_end, parse_digits};

verus! {

// ---------------------------------------------------------------------------
// Trusted declarations for the database engine
// ---------------------------------------------------------------------------
/// The engine's connection handle; opaque to the library's proofs.
#[verifier::external_type_specification]
#[verifier::external_body]
pub struct ExConnection(rusqlite::Connection);

/// The engine's error type; opaque, mapped to `SqlError` before it leaves
/// this module.
#[verifier::external_type_specification]
#[verifier::external_body]
pub struct ExRusqliteError(rusqlite::Error);

/// The engine's borrowed dynamic value; opaque.
#[verifier::external_type_specification]
#[verifier::external_body]
pub struct ExValueRef<'a>(rusqlite::types::ValueRef<'a>);

/// Relies on `rusqlite::Connection::open`: opens (or creates) the database
/// file at `path`. What comes back depends on the file system, so nothing
/// is assumed of the result.
#[verifier::external_body]
fn open_connection(path: &str) -> (r: Result<rusqlite::Connection, rusqlite::Error>) {
    rusqlite::Connection::open(path)
}

/// Relies on `rusqlite::Connection::is_readonly` on the `main` database:
/// reports whether the file itself forbids writes. The answer depends on
/// the file system, so nothing is assumed of it.
#[verifier::external_body]
fn connection_is_readonly(conn: &rusqlite::Connection) -> (r: Result<bool, rusqlite::Error>) {
    conn.is_readonly("main")
}

/// Relies on `rusqlite::Connection::execute` with no parameters: runs one
/// statement and reports how many rows it changed. The outcome depends on
/// the database state, so nothing is assumed of it.
#[verifier::external_body]
fn run_statement(conn: &rusqlite::Connection, sql: &str) -> (r: Result<usize, rusqlite::Error>) {
    conn.execute(sql, [])
}

/// Relies on `rusqlite::types::ValueRef`'s variants: renders one dynamic
/// value with the library's fixed textual encoding — `NULL` for nulls,
/// decimal text for numbers, and lossy UTF-8 decoding for text and blobs.
#[verifier::external_body]
fn value_display(v: rusqlite::types::ValueRef<'_>) -> (r: String) {
    match v {
        rusqlite::types::ValueRef::Null => String::from("NULL"),
        rusqlite::types::ValueRef::Integer(x) => x.to_string(),
        rusqlite::types::ValueRef::Real(x) => x.to_string(),
        rusqlite::types::ValueRef::Text(t) => String::from_utf8_lossy(t).into_owned(),
        rusqlite::types::ValueRef::Blob(b) => String::from_utf8_lossy(b).into_owned(),
    }
}

/// Relies on `rusqlite::Statement::{query, column_count}`, `Rows::next`
/// and `Row::get_ref`: prepares one read statement, walks its cursor and
/// renders every cell. The rows depend on the database state, so nothing
/// is assumed of them.
#[verifier::external_body]
fn fetch_rows(conn: &rusqlite::Connection, sql: &str) -> (r: Result<
    Vec<Vec<String>>,
    rusqlite::Error,
>) {
    let mut stmt = conn.prepare(sql)?;
    let ncols = stmt.column_count();
    let mut rows = stmt.query([])?;
    let mut table: Vec<Vec<String>> = Vec::new();
    while let Some(row) = rows.next()? {
        let mut rec: Vec<String> = Vec::new();
        for i in 0..ncols {
            rec.push(value_display(row.get_ref(i)?));
        }
        table.push(rec);
    }
    Ok(table)
}

/// Relies on `rusqlite::Connection::prepare` and
/// `rusqlite::Statement::column_names`: compiles the statement without
/// running it and reports the engine's column names.
#[verifier::external_body]
fn column_names_of(conn: &rusqlite::Connection, sql: &str) -> (r: Result<
    Vec<String>,
    rusqlite::Error,
>) {
    let stmt = conn.prepare(sql)?;
    Ok(stmt.column_names().iter().map(|name| name.to_string()).collect())
}

/// Relies on the `Display` impl of `rusqlite::Error`: the engine's
/// diagnostic message, verbatim.
#[verifier::external_body]
fn error_text(e: &rusqlite::Error) -> (r: String) {
    e.to_string()
}

// ---------------------------------------------------------------------------
// The session
// ---------------------------------------------------------------------------
/// The single live connection to the target database, together with its
/// read-only and transaction state.
///
/// All mutating statements of a session accumulate into one deferred
/// transaction: the first successful `execute` after a `commit` or
/// `rollback` (or after construction) opens it, and it stays open until
/// the user explicitly commits or rolls back.
pub struct SqlSession {
    pub connection: rusqlite::Connection,
    pub transaction_active: bool,
    pub read_only: bool,
}

impl SqlSession {
    /// Assemble a session from an open connection and the engine's answer
    /// on whether the file is physically read-only: asking for write mode
    /// on a read-only file is a startup failure.
    pub fn from_parts(connection: rusqlite::Connection, db_read_only: bool, read_only: bool) -> (r:
        Result<SqlSession, SqlError>)
        ensures
            db_read_only && !read_only <==> (r matches Err(SqlError::StartupFailure(_))),
            (match r {
                Ok(s) => s.read_only == read_only && !s.transaction_active,
                Err(e) => e matches SqlError::StartupFailure(_),
            }),
    {
        if db_read_only && !read_only {
            return Err(
                SqlError::StartupFailure(
                    String::from_str("Unable to open the database in write mode: it is read only"),
                ),
            );
        }
        Ok(SqlSession { connection, transaction_active: false, read_only })
    }

    /// Open the database file at `sql_path`. The caller decides whether a
    /// `StartupFailure` is fatal; no further operation is meaningful on a
    /// session that failed to construct.
    pub fn new(sql_path: &str, read_only: bool) -> (r: Result<SqlSession, SqlError>)
        ensures
            (match r {
                Ok(s) => s.read_only == read_only && !s.transaction_active,
                Err(e) => e matches SqlError::StartupFailure(_),
            }),
    {
        let connection = match open_connection(sql_path) {
            Ok(c) => c,
            Err(e) => {
                return Err(SqlError::StartupFailure(error_text(&e)));
            },
        };
        let db_read_only = match connection_is_readonly(&connection) {
            Ok(b) => b,
            Err(e) => {
                return Err(SqlError::StartupFailure(error_text(&e)));
            },
        };
        SqlSession::from_parts(connection, db_read_only, read_only)
    }

    /// The engine-reported column names of a statement, without running
    /// it. An empty statement, or one the engine cannot prepare, is a
    /// `QueryError`.
    pub fn extract_column_names(&self, query: &str) -> (r: Result<Vec<String>, SqlError>)
        ensures
            query@.len() == 0 ==> (r matches Err(SqlError::QueryError(_))),
            r is Ok ==> query@.len() > 0,
            r is Err ==> (r matches Err(SqlError::QueryError(_))),
    {
        if query.is_empty() {
            return Err(
                SqlError::QueryError(
                    String::from_str("Empty Query provided to extract_column_names"),
                ),
            );
        }
        match column_names_of(&self.connection, query) {
            Ok(names) => Ok(names),
            Err(e) => Err(SqlError::QueryError(error_text(&e))),
        }
    }

    /// Run a read statement and materialize every returned row as text,
    /// with the library's fixed encoding per cell. An empty statement, or
    /// one the engine rejects, is a `QueryError`.
    pub fn select(&self, query: &str) -> (r: Result<Vec<Vec<String>>, SqlError>)
        ensures
            query@.len() == 0 ==> (r matches Err(SqlError::QueryError(_))),
            r is Ok ==> query@.len() > 0,
            r is Err ==> (r matches Err(SqlError::QueryError(_))),
    {
        if query.is_empty() {
            return Err(SqlError::QueryError(String::from_str("Empty Query")));
        }
        match fetch_rows(&self.connection, query) {
            Ok(rows) => Ok(rows),
            Err(e) => {
                let mut msg = String::from_str("SELECT query could not be executed\n");
                let detail = error_text(&e);
                msg.append(detail.as_str());
                Err(SqlError::QueryError(msg))
            },
        }
    }

    /// Total number of rows the query would match, computed by running its
    /// counting form rather than materializing the rows. A statement with
    /// no `FROM` clause is rejected: nothing bounds its size.
    pub fn get_selection_size(&self, query: String) -> (r: Result<u32, SqlError>)
        ensures
            query@.len() == 0 ==> (r matches Err(SqlError::QueryError(_))),
            spec_count_query(query@) is None ==> (r matches Err(SqlError::QueryError(_))),
            r is Ok ==> query@.len() > 0 && spec_count_query(query@) is Some,
            r is Err ==> (r matches Err(SqlError::QueryError(_))),
    {
        if query.as_str().is_empty() {
            return Err(SqlError::QueryError(String::from_str("Query string is empty")));
        }
        let counting = match count_query(query.as_str()) {
            Some(q) => q,
            None => {
                return Err(
                    SqlError::QueryError(
                        String::from_str(
                            "Failed to find information limiting the query size (e.g Tables, WHERE)",
                        ),
                    ),
                );
            },
        };
        let rows = match fetch_rows(&self.connection, counting.as_str()) {
            Ok(rows) => rows,
            Err(e) => {
                return Err(SqlError::QueryError(error_text(&e)));
            },
        };
        if rows.len() == 0 || rows[0].len() == 0 {
            return Err(SqlError::QueryError(String::from_str("The count query returned no value")));
        }
        let cell = &rows[0][0];
        let n = cell.as_str().unicode_len();
        let en = digit_run_end(cell.as_str(), 0);
        if en == 0 || en != n {
            return Err(
                SqlError::QueryError(String::from_str("The count query did not return a number")),
            );
        }
        match parse_digits(cell.as_str(), 0, en) {
            Some(v) => Ok(v),
            None => Err(
                SqlError::QueryError(String::from_str("The selection size does not fit in 32 bits")),
            ),
        }
    }

    /// Run a mutating statement inside the session's single deferred
    /// transaction, opening it in immediate mode first if none is active.
    /// A read-only session rejects the statement before it can reach the
    /// engine.
    pub fn execute(&mut self, query: &str) -> (r: Result<usize, SqlError>)
        ensures
            final(self).read_only == old(self).read_only,
            old(self).read_only ==> r == Err::<usize, SqlError>(SqlError::ReadOnlyViolation)
                && final(self).transaction_active == old(self).transaction_active,
            !old(self).read_only && query@.len() == 0 ==> (r matches Err(SqlError::QueryError(_)))
                && final(self).transaction_active == old(self).transaction_active,
            old(self).transaction_active ==> final(self).transaction_active,
            r is Ok ==> final(self).transaction_active && !old(self).read_only && query@.len() > 0,
    {
        if self.read_only {
            return Err(SqlError::ReadOnlyViolation);
        }
        if query.is_empty() {
            return Err(SqlError::QueryError(String::from_str("Empty Query")));
        }
        if !self.transaction_active {
            match run_statement(&self.connection, "BEGIN IMMEDIATE") {
                Ok(_) => {
                    self.transaction_active = true;
                },
                Err(e) => {
                    return Err(SqlError::QueryError(error_text(&e)));
                },
            }
        }
        match run_statement(&self.connection, query) {
            Ok(changes) => Ok(changes),
            Err(e) => Err(SqlError::QueryError(error_text(&e))),
        }
    }

    /// Commit the active transaction, if any, and clear the flag. A failed
    /// commit is swallowed here: by this point the user has already asked
    /// to save, and no corrective action is available.
    pub fn commit(&mut self)
        ensures
            !final(self).transaction_active,
            final(self).read_only == old(self).read_only,
    {
        if self.transaction_active {
            let _ = run_statement(&self.connection, "COMMIT");
            self.transaction_active = false;
        }
    }

    /// Discard every statement executed since the last commit, if a
    /// transaction is active, and clear the flag. A failed rollback is
    /// swallowed, symmetric to `commit`.
    pub fn rollback(&mut self)
        ensures
            !final(self).transaction_active,
            final(self).read_only == old(self).read_only,
    {
        if self.transaction_active {
            let _ = run_statement(&self.connection, "ROLLBACK");
            self.transaction_active = false;
        }
    }
}

} // verus!
