use rivet::pipeline::{execute_command, execute_outcome, select_outcome, CommandOutcome};
use rivet::selection::Selection;
use rivet::session::SqlSession;
use rivet::terminal::SqlTerminal;
use rivet::SqlError;

fn writable_session() -> SqlSession {
    SqlSession::new(":memory:", false).expect("an in-memory database always opens")
}

#[test]
fn execute_rejects_a_read_only_session() {
    let mut s = SqlSession::new(":memory:", true).expect("open read-only");
    assert!(s.read_only);
    let r = s.execute("CREATE TABLE t (id INTEGER)");
    assert!(matches!(r, Err(SqlError::ReadOnlyViolation)));
    assert!(!s.transaction_active);
}

#[test]
fn write_mode_on_a_read_only_file_fails_at_startup() {
    let conn = rusqlite::Connection::open_in_memory().unwrap();
    let r = SqlSession::from_parts(conn, true, false);
    assert!(matches!(r, Err(SqlError::StartupFailure(_))));
    let conn = rusqlite::Connection::open_in_memory().unwrap();
    let s = SqlSession::from_parts(conn, true, true).unwrap();
    assert!(s.read_only);
}

#[test]
fn transaction_flag_follows_execute_commit_rollback() {
    let mut s = writable_session();
    assert!(!s.transaction_active);
    s.execute("CREATE TABLE t (id INTEGER)").unwrap();
    assert!(s.transaction_active);
    assert_eq!(s.execute("INSERT INTO t VALUES (1)").unwrap(), 1);
    assert!(s.transaction_active);
    s.commit();
    assert!(!s.transaction_active);
    s.execute("INSERT INTO t VALUES (2)").unwrap();
    assert!(s.transaction_active);
    s.rollback();
    assert!(!s.transaction_active);
    // the rolled-back insert is gone, the committed one stays
    let rows = s.select("SELECT id FROM t").unwrap();
    assert_eq!(rows, vec![vec!["1".to_string()]]);
}

#[test]
fn select_materializes_rows_as_text() {
    let mut s = writable_session();
    s.execute("CREATE TABLE t (id INTEGER, name TEXT, blob BLOB)").unwrap();
    s.execute("INSERT INTO t VALUES (7, 'alpha', NULL)").unwrap();
    s.commit();
    let rows = s.select("SELECT id, name, blob FROM t").unwrap();
    assert_eq!(
        rows,
        vec![vec!["7".to_string(), "alpha".to_string(), "NULL".to_string()]]
    );
    assert!(matches!(s.select(""), Err(SqlError::QueryError(_))));
    assert!(matches!(s.select("SELECT nonsense FROM"), Err(SqlError::QueryError(_))));
}

#[test]
fn column_names_come_from_the_engine() {
    let mut s = writable_session();
    s.execute("CREATE TABLE t (id INTEGER, name TEXT)").unwrap();
    s.commit();
    let names = s.extract_column_names("SELECT id AS x, name FROM t").unwrap();
    assert_eq!(names, vec!["x".to_string(), "name".to_string()]);
    assert!(matches!(s.extract_column_names(""), Err(SqlError::QueryError(_))));
    assert!(matches!(
        s.extract_column_names("SELEC bogus"),
        Err(SqlError::QueryError(_))
    ));
}

#[test]
fn selection_size_counts_without_materializing() {
    let mut s = writable_session();
    s.execute("CREATE TABLE t (id INTEGER)").unwrap();
    for i in 0..7 {
        s.execute(&format!("INSERT INTO t VALUES ({})", i)).unwrap();
    }
    s.commit();
    assert_eq!(s.get_selection_size("SELECT id FROM t".to_string()).unwrap(), 7);
    assert_eq!(
        s.get_selection_size("SELECT id FROM t WHERE id < 3".to_string()).unwrap(),
        3
    );
    // a statement with no FROM clause has nothing bounding its size
    assert!(matches!(
        s.get_selection_size("SELECT 1".to_string()),
        Err(SqlError::QueryError(_))
    ));
    assert!(matches!(
        s.get_selection_size("".to_string()),
        Err(SqlError::QueryError(_))
    ));
}

#[test]
fn pages_concatenate_to_the_full_result() {
    let mut s = writable_session();
    s.execute("CREATE TABLE t (id INTEGER)").unwrap();
    for i in 0..1203 {
        s.execute(&format!("INSERT INTO t VALUES ({})", i)).unwrap();
    }
    s.commit();
    let full = s.select("SELECT id FROM t ORDER BY id").unwrap();
    assert_eq!(full.len(), 1203);
    let mut sel = Selection::new(&s, "SELECT id FROM t ORDER BY id".to_string()).unwrap();
    assert_eq!(sel.page_count, 3);
    let mut paged: Vec<Vec<String>> = Vec::new();
    for p in 0..3u32 {
        let page = sel.get_page(p).unwrap();
        assert_eq!(page.len(), if p == 2 { 203 } else { 500 });
        paged.extend(page);
    }
    assert_eq!(paged, full);
    assert!(matches!(sel.get_page(4), Err(SqlError::PageOutOfRange)));
}

#[test]
fn page_count_is_exact_on_multiples_of_the_page_size() {
    let mut s = writable_session();
    s.execute("CREATE TABLE t (id INTEGER)").unwrap();
    for i in 0..1000 {
        s.execute(&format!("INSERT INTO t VALUES ({})", i)).unwrap();
    }
    s.commit();
    let mut sel = Selection::new(&s, "SELECT id FROM t ORDER BY id".to_string()).unwrap();
    assert_eq!(sel.selection_size, 1000);
    assert_eq!(sel.page_count, 2);
    assert_eq!(sel.get_page(0).unwrap().len(), 500);
    assert_eq!(sel.get_page(1).unwrap().len(), 500);
    assert_eq!(sel.page_index, 1);
}

#[test]
fn empty_selection_has_no_pages() {
    let mut s = writable_session();
    s.execute("CREATE TABLE t (id INTEGER)").unwrap();
    s.commit();
    let sel = Selection::new(&s, "SELECT id FROM t".to_string()).unwrap();
    assert_eq!(sel.selection_size, 0);
    assert_eq!(sel.page_count, 0);
    assert_eq!(sel.page_index, 0);
}

#[test]
fn empty_select_yields_an_info_outcome() {
    let mut s = writable_session();
    s.execute("CREATE TABLE t (id INTEGER)").unwrap();
    s.commit();
    let mut term = SqlTerminal::new();
    for c in "SELECT * FROM t".chars() {
        term.enter_char(c);
    }
    let out = execute_command(&mut s, &mut term);
    match out {
        Some(CommandOutcome::Info { message }) => {
            assert_eq!(message, "Query returned 0 rows");
        },
        _ => panic!("expected an informational outcome, not an error"),
    }
    assert_eq!(term.history.len(), 1);
    assert_eq!(term.input, "");
}

#[test]
fn pipeline_returns_rows_with_their_columns() {
    let mut s = writable_session();
    s.execute("CREATE TABLE t (id INTEGER)").unwrap();
    s.execute("INSERT INTO t VALUES (1)").unwrap();
    s.execute("INSERT INTO t VALUES (2)").unwrap();
    s.commit();
    let mut term = SqlTerminal::new();
    for c in "SELECT id FROM t ORDER BY id".chars() {
        term.enter_char(c);
    }
    match execute_command(&mut s, &mut term) {
        Some(CommandOutcome::Rows { columns, rows }) => {
            assert_eq!(columns, vec!["id".to_string()]);
            assert_eq!(rows, vec![vec!["1".to_string()], vec!["2".to_string()]]);
        },
        _ => panic!("expected a table of rows"),
    }
}

#[test]
fn pipeline_reports_change_counts_and_read_only_errors() {
    let mut s = writable_session();
    s.execute("CREATE TABLE t (id INTEGER)").unwrap();
    s.commit();
    let mut term = SqlTerminal::new();
    for c in "INSERT INTO t VALUES (1)".chars() {
        term.enter_char(c);
    }
    match execute_command(&mut s, &mut term) {
        Some(CommandOutcome::RowsChanged { count }) => assert_eq!(count, 1),
        _ => panic!("expected a change count"),
    }
    assert!(s.transaction_active);

    let mut ro = SqlSession::new(":memory:", true).unwrap();
    let mut term = SqlTerminal::new();
    for c in "DROP TABLE t".chars() {
        term.enter_char(c);
    }
    match execute_command(&mut ro, &mut term) {
        Some(CommandOutcome::Error { message }) => {
            assert_eq!(message, "Attempted a write operation on a read only database");
        },
        _ => panic!("a read-only session must reject the write"),
    }
}

#[test]
fn pipeline_ignores_an_empty_line_but_resets_the_buffer() {
    let mut s = writable_session();
    let mut term = SqlTerminal::new();
    let out = execute_command(&mut s, &mut term);
    assert!(out.is_none());
    assert!(term.history.is_empty());
    assert_eq!(term.input, "");
}

#[test]
fn select_outcome_maps_each_engine_answer() {
    let columns = vec!["id".to_string()];
    match select_outcome(columns.clone(), Ok(Vec::new())) {
        CommandOutcome::Info { message } => assert_eq!(message, "Query returned 0 rows"),
        _ => panic!("zero rows must be informational"),
    }
    let rows = vec![vec!["1".to_string()], vec!["2".to_string()]];
    match select_outcome(columns.clone(), Ok(rows.clone())) {
        CommandOutcome::Rows { columns: c, rows: r } => {
            assert_eq!(c, columns);
            assert_eq!(r, rows);
        },
        _ => panic!("rows must be surfaced as a table"),
    }
    match select_outcome(columns, Err(SqlError::QueryError("no such table".to_string()))) {
        CommandOutcome::Error { message } => assert_eq!(message, "no such table"),
        _ => panic!("a failure must be surfaced as an error"),
    }
}

#[test]
fn execute_outcome_maps_each_engine_answer() {
    match execute_outcome(Ok(3)) {
        CommandOutcome::RowsChanged { count } => assert_eq!(count, 3),
        _ => panic!("a success must carry its change count"),
    }
    match execute_outcome(Err(SqlError::ReadOnlyViolation)) {
        CommandOutcome::Error { message } => {
            assert_eq!(message, "Attempted a write operation on a read only database");
        },
        _ => panic!("a failure must be surfaced as an error"),
    }
}
