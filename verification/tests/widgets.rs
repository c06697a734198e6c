use rivet::actions::Actions;
use rivet::notify::NotificationList;
use rivet::screens::{ResultsScreen, Screen};
use rivet::table::TableData;

#[test]
fn table_widths_cover_names_and_cells() {
    let columns = vec!["id".to_string(), "name".to_string()];
    let rows = vec![
        vec!["1".to_string(), "alpha".to_string()],
        vec!["22".to_string(), "x".to_string()],
    ];
    let data = TableData::new(columns, rows);
    assert_eq!(data.max_lengths, vec![2, 5]);
    assert_eq!(data.columns, vec!["id".to_string(), "name".to_string()]);
    assert_eq!(data.rows.len(), 2);
}

#[test]
fn table_widths_tolerate_ragged_rows() {
    let columns = vec!["a".to_string(), "bcde".to_string()];
    let rows = vec![
        vec!["1".to_string()],
        vec!["22".to_string(), "longervalue".to_string()],
    ];
    let data = TableData::new(columns, rows);
    assert_eq!(data.max_lengths, vec![2, 11]);
}

#[test]
fn table_widths_saturate_at_the_cap() {
    let columns = vec!["c".to_string()];
    let rows = vec![vec!["y".repeat(300)]];
    let data = TableData::new(columns, rows);
    assert_eq!(data.max_lengths, vec![255]);
}

#[test]
fn table_of_no_rows_uses_the_column_names() {
    let data = TableData::new(vec!["name".to_string()], Vec::new());
    assert_eq!(data.max_lengths, vec![4]);
}

#[test]
fn notification_heights_follow_the_wrap_formula() {
    let mut n = NotificationList::new();
    assert!(n.list.is_empty());
    n.notify("Save", &"m".repeat(20));
    n.notify("Save", "");
    let heights = n.get_notification_heights(10);
    // an inner width of eight: twenty characters wrap to two full lines
    // and a remainder, plus the frame
    assert_eq!(heights, vec![7, 5]);
}

#[test]
fn fresh_notifications_do_not_expire_immediately() {
    let mut n = NotificationList::new();
    n.notify("Save", "Changes to database saved successfully.");
    assert_eq!(n.list.len(), 1);
    assert_eq!(n.list[0].title, "Save");
    n.remove_expired();
    assert_eq!(n.list.len(), 1);
}

#[test]
fn default_screen_is_an_empty_terminal() {
    match Screen::default() {
        Screen::Terminal(t) => {
            assert_eq!(t.input, "");
            assert!(t.history.is_empty());
        },
        _ => panic!("a fresh application starts on the terminal screen"),
    }
}

#[test]
fn results_screen_starts_without_a_table() {
    assert!(ResultsScreen::new().table_view.is_none());
}

#[test]
fn default_action_is_no_action() {
    assert!(matches!(Actions::default(), Actions::NoAction));
}
