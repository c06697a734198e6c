use rivet::terminal::SqlTerminal;

#[test]
fn cursor_stays_in_bounds_through_edits() {
    let mut t = SqlTerminal::new();
    t.delete_char();
    t.move_cursor_left();
    assert_eq!(t.cursor_index, 0);
    for c in "héllo wörld".chars() {
        t.enter_char(c);
    }
    assert_eq!(t.input, "héllo wörld");
    assert_eq!(t.cursor_index, 11);
    t.move_cursor_right();
    assert_eq!(t.cursor_index, 11);
    for _ in 0..3 {
        t.move_cursor_left();
    }
    t.delete_char();
    assert_eq!(t.input, "héllo wrld");
    assert_eq!(t.cursor_index, 7);
    t.enter_char('o');
    assert_eq!(t.input, "héllo world");
    for _ in 0..100 {
        t.move_cursor_left();
    }
    assert_eq!(t.cursor_index, 0);
    t.delete_char();
    assert_eq!(t.input, "héllo world");
    assert!(t.cursor_index <= t.input.chars().count());
}

#[test]
fn input_capacity_is_a_silent_no_op() {
    let mut t = SqlTerminal::new();
    for _ in 0..2060 {
        t.enter_char('x');
    }
    assert_eq!(t.input.chars().count(), 2048);
    assert_eq!(t.cursor_index, 2048);
}

#[test]
fn insertion_is_by_character_not_byte() {
    let mut t = SqlTerminal::new();
    for c in "日本語".chars() {
        t.enter_char(c);
    }
    t.move_cursor_left();
    t.move_cursor_left();
    t.enter_char('x');
    assert_eq!(t.input, "日x本語");
    assert_eq!(t.cursor_index, 2);
}

#[test]
fn whitespace_only_submission_leaves_history_empty() {
    let mut t = SqlTerminal::new();
    for c in "  \t ".chars() {
        t.enter_char(c);
    }
    t.add_command();
    assert!(t.history.is_empty());
    assert_eq!(t.input, "");
    assert_eq!(t.cursor_index, 0);
}

#[test]
fn duplicate_of_most_recent_entry_is_not_added() {
    let mut t = SqlTerminal::new();
    for c in "SELECT 1".chars() {
        t.enter_char(c);
    }
    t.add_command();
    assert_eq!(t.history.len(), 1);
    // the same line again, with trailing whitespace: rejected after trimming
    for c in "SELECT 1   ".chars() {
        t.enter_char(c);
    }
    t.add_command();
    assert_eq!(t.history.len(), 1);
    assert_eq!(t.input, "");
    // a different line is accepted
    for c in "SELECT 2".chars() {
        t.enter_char(c);
    }
    t.add_command();
    assert_eq!(t.history.len(), 2);
    // the first line again: not a back-to-back duplicate, so accepted
    for c in "SELECT 1".chars() {
        t.enter_char(c);
    }
    t.add_command();
    assert_eq!(t.history.len(), 3);
    assert_eq!(t.history, vec!["SELECT 1", "SELECT 2", "SELECT 1"]);
}

#[test]
fn history_length_is_bounded() {
    let mut t = SqlTerminal::new();
    for i in 0..150 {
        for c in format!("cmd {}", i).chars() {
            t.enter_char(c);
        }
        t.add_command();
    }
    assert_eq!(t.history.len(), 100);
    assert_eq!(t.history[0], "cmd 50");
    assert_eq!(t.history[99], "cmd 149");
}

#[test]
fn navigate_back_then_forward_restores_draft() {
    let mut t = SqlTerminal::new();
    for line in ["first", "second", "third"] {
        for c in line.chars() {
            t.enter_char(c);
        }
        t.add_command();
    }
    for c in "draft in progress".chars() {
        t.enter_char(c);
    }
    // step onto the draft position; the buffer is preserved
    t.increment_history();
    assert_eq!(t.input, "draft in progress");
    t.decrement_history();
    assert_eq!(t.input, "third");
    assert_eq!(t.cursor_index, 5);
    t.decrement_history();
    assert_eq!(t.input, "second");
    t.increment_history();
    assert_eq!(t.input, "third");
    t.increment_history();
    assert_eq!(t.input, "draft in progress");
    assert_eq!(t.cursor_index, "draft in progress".chars().count());
}

#[test]
fn edits_made_mid_browse_are_kept() {
    let mut t = SqlTerminal::new();
    for line in ["first", "second", "third"] {
        for c in line.chars() {
            t.enter_char(c);
        }
        t.add_command();
    }
    for c in "draft".chars() {
        t.enter_char(c);
    }
    t.increment_history(); // onto the draft position
    t.decrement_history(); // shows "third", cursor at its end
    t.enter_char('X'); // edit it mid-browse
    t.decrement_history(); // the edit is snapshotted back
    assert_eq!(t.input, "second");
    assert_eq!(t.history[2], "thirdX");
    t.increment_history();
    assert_eq!(t.input, "thirdX");
    t.increment_history();
    assert_eq!(t.input, "draft");
}

#[test]
fn navigation_clamps_at_both_ends() {
    let mut t = SqlTerminal::new();
    t.decrement_history();
    t.increment_history();
    assert_eq!(t.input, "");
    for line in ["one", "two"] {
        for c in line.chars() {
            t.enter_char(c);
        }
        t.add_command();
    }
    // submission leaves the index at the newest entry; going back recalls
    // the entry before it and clamps there
    t.decrement_history();
    assert_eq!(t.input, "one");
    t.decrement_history();
    assert_eq!(t.input, "one");
    // forward past the newest entry lands on the (empty) draft and clamps
    t.increment_history();
    assert_eq!(t.input, "two");
    t.increment_history();
    assert_eq!(t.input, "");
    t.increment_history();
    assert_eq!(t.input, "");
}

#[test]
fn log_keeps_at_most_the_newest_thousand_lines() {
    let mut t = SqlTerminal::new();
    for i in 0..1005 {
        t.add_log_line(format!("line {}", i));
    }
    assert_eq!(t.displayed_lines.len(), 1000);
    assert_eq!(t.displayed_lines[0], "line 5");
    assert_eq!(t.displayed_lines[999], "line 1004");
}

#[test]
fn unicode_whitespace_counts_as_whitespace_on_submit() {
    let mut t = SqlTerminal::new();
    // vertical tab, NBSP, ideographic space: whitespace-only, rejected
    for c in "\u{000B}\u{00A0}\u{3000}".chars() {
        t.enter_char(c);
    }
    t.add_command();
    assert!(t.history.is_empty());
    assert_eq!(t.input, "");
}

#[test]
fn duplicate_under_unicode_trailing_whitespace_is_rejected() {
    let mut t = SqlTerminal::new();
    t.enter_char('x');
    t.add_command();
    assert_eq!(t.history.len(), 1);
    t.enter_char('x');
    t.enter_char('\u{000B}');
    t.add_command();
    assert_eq!(t.history.len(), 1);
    assert_eq!(t.history[0], "x");
}
