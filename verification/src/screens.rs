use vstd::prelude::*;

use crate::table::TableData;
use crate::terminal::{initial_state, SqlTerminal};

verus! {

/// The help overlay; it carries no state of its own.
pub struct HelpScreen;

impl HelpScreen {
    pub fn new() -> HelpScreen {
        HelpScreen
    }
}

/// The quit-confirmation overlay; it carries no state of its own.
pub struct QuitScreen;

impl QuitScreen {
    pub fn new() -> QuitScreen {
        QuitScreen
    }
}

/// The results view: the page of rows currently shown, if one has been
/// loaded.
pub struct ResultsScreen {
    pub table_view: Option<TableData>,
}

impl ResultsScreen {
    pub fn new() -> (r: ResultsScreen)
        ensures
            r.table_view is None,
    {
        ResultsScreen { table_view: None }
    }
}

/// Which screen owns the keyboard: exactly one variant is live at a time,
/// and each carries only that screen's own data.
pub enum Screen {
    Terminal(SqlTerminal),
    Results(ResultsScreen),
    Help(HelpScreen),
    Exiting(QuitScreen),
}

impl Default for Screen {
    /// A fresh application starts on an empty terminal screen.
    fn default() -> (r: Screen)
        ensures
            r matches Screen::Terminal(t) && t.wf() && t.state() == initial_state(),
    {
        Screen::Terminal(SqlTerminal::new())
    }
}

} // verus!
