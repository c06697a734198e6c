use vstd::prelude::*;

use crate::error::SqlError;
use crate::query::{is_select, is_select_query};
use crate::session::SqlSession;
use crate::terminal::{submit_step, SqlTerminal};
use crate::text::u64_to_string;

verus! {

/// What one submitted line produced, for the presentation layer to render:
/// an informational message, a row-change count, a table of rows with its
/// column names, or an error message. The pipeline never panics on a query
/// failure; it reports it here.
pub enum CommandOutcome {
    Info { message: String },
    RowsChanged { count: usize },
    Rows { columns: Vec<String>, rows: Vec<Vec<String>> },
    Error { message: String },
}

/// The outcome of the read path, for each value the session's `select`
/// can hand back: zero rows are an informational outcome, not an error;
/// rows are surfaced with their column names; a failure is surfaced with
/// its message.
pub fn select_outcome(columns: Vec<String>, result: Result<Vec<Vec<String>>, SqlError>) -> (r:
    CommandOutcome)
    ensures
        result matches Ok(rows) ==> {
            &&& rows@.len() == 0 ==> (r matches CommandOutcome::Info { message } && message@
                == "Query returned 0 rows"@)
            &&& rows@.len() > 0 ==> r == (CommandOutcome::Rows { columns, rows })
        },
        result matches Err(e) ==> (r matches CommandOutcome::Error { message } && message@
            == e.spec_message()),
{
    match result {
        Ok(rows) => {
            if rows.len() == 0 {
                CommandOutcome::Info { message: String::from_str("Query returned 0 rows") }
            } else {
                CommandOutcome::Rows { columns, rows }
            }
        },
        Err(e) => CommandOutcome::Error { message: e.message() },
    }
}

/// The outcome of the write path, for each value the session's `execute`
/// can hand back: a success is surfaced with its row-change count, a
/// failure with its message.
pub fn execute_outcome(result: Result<usize, SqlError>) -> (r: CommandOutcome)
    ensures
        result matches Ok(count) ==> r == (CommandOutcome::RowsChanged { count }),
        result matches Err(e) ==> (r matches CommandOutcome::Error { message } && message@
            == e.spec_message()),
{
    match result {
        Ok(count) => CommandOutcome::RowsChanged { count },
        Err(e) => CommandOutcome::Error { message: e.message() },
    }
}

/// Drive one submit cycle: take the live buffer, reject empty input (the
/// buffer and history are still reset, and the session is untouched),
/// classify the statement, and dispatch a `SELECT` through the session's
/// read path and anything else through its transactional write path. The
/// engine's answer becomes the outcome through `select_outcome` or
/// `execute_outcome`.
///
/// Column names are fetched best-effort: their failure yields an empty
/// column list rather than aborting, since an execution failure is
/// reported separately.
pub fn execute_command(session: &mut SqlSession, terminal: &mut SqlTerminal) -> (r: Option<
    CommandOutcome,
>)
    requires
        old(terminal).wf(),
    ensures
        final(terminal).wf(),
        final(terminal).state() == submit_step(old(terminal).state()),
        final(session).read_only == old(session).read_only,
        r is None <==> old(terminal).input@.len() == 0,
        old(terminal).input@.len() == 0 ==> *final(session) == *old(session),
        old(terminal).input@.len() > 0 && is_select_query(old(terminal).input@) ==> {
            &&& *final(session) == *old(session)
            &&& ((r matches Some(CommandOutcome::Info { .. })) || (r matches Some(
                CommandOutcome::Rows { .. },
            )) || (r matches Some(CommandOutcome::Error { .. })))
        },
        old(terminal).input@.len() > 0 && !is_select_query(old(terminal).input@) ==> ((
        r matches Some(CommandOutcome::RowsChanged { .. })) || (r matches Some(
            CommandOutcome::Error { .. },
        ))),
        (old(terminal).input@.len() > 0 && !is_select_query(old(terminal).input@)
            && old(session).read_only) ==> ((r matches Some(CommandOutcome::Error { message })
            && message@ == SqlError::ReadOnlyViolation.spec_message())
            && final(session).transaction_active == old(session).transaction_active),
        (r matches Some(CommandOutcome::RowsChanged { .. })) ==> final(session).transaction_active
            && !old(session).read_only,
        r matches Some(CommandOutcome::Rows { rows, .. }) ==> rows@.len() > 0,
        r matches Some(CommandOutcome::Info { message }) ==> message@ == "Query returned 0 rows"@
            && is_select_query(old(terminal).input@),
{
    let query = terminal.input.clone();
    if query.as_str().is_empty() {
        terminal.add_command();
        return None;
    }
    let mut echo = String::from_str("> ");
    echo.append(query.as_str());
    terminal.add_log_line(echo);
    let outcome = if is_select(query.as_str()) {
        let columns = match session.extract_column_names(query.as_str()) {
            Ok(names) => names,
            Err(_) => Vec::new(),
        };
        select_outcome(columns, session.select(query.as_str()))
    } else {
        execute_outcome(session.execute(query.as_str()))
    };
    match &outcome {
        CommandOutcome::Info { message } => {
            terminal.add_log_line(message.clone());
        },
        CommandOutcome::RowsChanged { count } => {
            let mut line = u64_to_string(*count as u64);
            line.append(" changes.");
            terminal.add_log_line(line);
        },
        CommandOutcome::Error { message } => {
            let mut line = String::from_str("Error: ");
            line.append(message.as_str());
            terminal.add_log_line(line);
        },
        CommandOutcome::Rows { .. } => {},
    }
    terminal.add_command();
    Some(outcome)
}

} // verus!
