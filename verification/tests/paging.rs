use rivet::query::{
    build_page_query, compose_offset, count_query, extract_user_offset, is_select, page_count_for,
    page_limit,
};
use rivet::selection::page_query_for;
use rivet::SqlError;

#[test]
fn classifier_detects_select_statements() {
    assert!(is_select("SELECT * FROM t"));
    assert!(is_select("\u{00A0}select\u{3000}1"));
    assert!(is_select("  select 1 "));
    assert!(is_select("Select\tid FROM t"));
    assert!(is_select("   SELECT"));
    assert!(!is_select("SELECTX"));
    assert!(!is_select("INSERT INTO t VALUES (1)"));
    assert!(!is_select(""));
    assert!(!is_select("   "));
    assert!(!is_select("selec t"));
}

#[test]
fn count_query_replaces_the_column_list() {
    assert_eq!(
        count_query("SELECT a, b FROM t WHERE x > 1").unwrap(),
        "SELECT COUNT(*) FROM t WHERE x > 1"
    );
    assert_eq!(count_query("select * from t;").unwrap(), "SELECT COUNT(*) from t;");
    assert!(count_query("PRAGMA table_info(t)").is_none());
    assert!(count_query("").is_none());
}

#[test]
fn page_count_is_the_ceiling_of_size_over_page() {
    assert_eq!(page_count_for(0), 0);
    assert_eq!(page_count_for(1), 1);
    assert_eq!(page_count_for(499), 1);
    assert_eq!(page_count_for(500), 1);
    assert_eq!(page_count_for(501), 2);
    assert_eq!(page_count_for(1000), 2);
    assert_eq!(page_count_for(1203), 3);
    assert_eq!(page_count_for(u32::MAX), 8589935);
}

#[test]
fn page_limit_is_full_except_on_the_last_page() {
    assert_eq!(page_limit(1203, 3, 0), 500);
    assert_eq!(page_limit(1203, 3, 1), 500);
    assert_eq!(page_limit(1203, 3, 2), 203);
    assert_eq!(page_limit(1000, 2, 1), 500);
    assert_eq!(page_limit(1, 1, 0), 1);
}

#[test]
fn rewrite_appends_a_bounded_clause() {
    assert_eq!(
        build_page_query("SELECT * FROM t", 500, 0),
        "SELECT * FROM t LIMIT 500 OFFSET 0"
    );
    assert_eq!(
        build_page_query("SELECT * FROM t;  ", 500, 1000),
        "SELECT * FROM t LIMIT 500 OFFSET 1000"
    );
    assert_eq!(
        build_page_query("SELECT * FROM t LIMIT 10", 7, 0),
        "SELECT * FROM t  LIMIT 7 OFFSET 0"
    );
    assert_eq!(
        build_page_query("SELECT * FROM t limit 10 offset 3", 7, 3),
        "SELECT * FROM t  LIMIT 7 OFFSET 3"
    );
    assert_eq!(
        build_page_query("SELECT * FROM t", 4294967295, 4294967295000),
        "SELECT * FROM t LIMIT 4294967295 OFFSET 4294967295000"
    );
}

#[test]
fn user_offset_is_read_from_the_query() {
    assert_eq!(extract_user_offset("SELECT * FROM t").unwrap(), 0);
    assert_eq!(extract_user_offset("SELECT * FROM t LIMIT 10 OFFSET 5").unwrap(), 5);
    assert_eq!(extract_user_offset("SELECT * FROM t offset   42").unwrap(), 42);
    assert!(matches!(
        extract_user_offset("SELECT * FROM t OFFSET"),
        Err(SqlError::QueryError(_))
    ));
    assert!(matches!(
        extract_user_offset("SELECT * FROM t OFFSET 99999999999"),
        Err(SqlError::QueryError(_))
    ));
}

#[test]
fn pagination_offset_composes_additively_with_the_users() {
    assert_eq!(compose_offset("SELECT * FROM t LIMIT 10 OFFSET 5", 0).unwrap(), 5);
    assert_eq!(compose_offset("SELECT * FROM t LIMIT 10 OFFSET 5", 2).unwrap(), 1005);
    assert_eq!(compose_offset("SELECT * FROM t", 2).unwrap(), 1000);
}

#[test]
fn page_fetch_rejects_unreadable_offset_digits() {
    let r = page_query_for("SELECT * FROM t OFFSET", 3, 1, 0);
    assert!(matches!(r, Err(SqlError::QueryError(_))));
    let r = page_query_for("SELECT * FROM t OFFSET 99999999999", 3, 1, 0);
    assert!(matches!(r, Err(SqlError::QueryError(_))));
}

#[test]
fn page_zero_keeps_the_users_limit_and_offset() {
    // ten rows match under the user's own LIMIT: page zero asks for
    // exactly rows five through fifteen of the table
    let q = page_query_for("SELECT * FROM t LIMIT 10 OFFSET 5", 10, 1, 0).unwrap();
    assert_eq!(q, "SELECT * FROM t  LIMIT 10 OFFSET 5");
}

#[test]
fn error_messages_are_stable() {
    assert_eq!(
        SqlError::ReadOnlyViolation.message(),
        "Attempted a write operation on a read only database"
    );
    assert_eq!(SqlError::PageOutOfRange.message(), "Requested page exceeds page count.");
    assert_eq!(SqlError::QueryError("boom".to_string()).message(), "boom");
}
