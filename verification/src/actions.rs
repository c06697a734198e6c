use vstd::prelude::*;

verus! {

/// Actions available on every screen.
#[derive(Debug)]
pub enum GlobalActions {
    Save,
    Rollback,
    Quit,
    Help,
}

/// Actions of the terminal screen's line editor and history.
#[derive(Debug)]
pub enum TerminalActions {
    MoveHistoryForward,
    MoveHistoryBackward,
    MoveCursorRight,
    MoveCursorLeft,
    InputCharacter,
    Backspace,
    Delete,
    EnterCommand,
}

/// Actions of the results screen's table navigation.
#[derive(Debug)]
pub enum ResultActions {
    MoveCursorRight,
    MoveCursorLeft,
    MoveCursorUp,
    MoveCursorDown,
    ExitResults,
}

/// Actions of the help overlay.
#[derive(Debug)]
pub enum HelpActions {
    ExitHelp,
}

/// Actions of the quit-confirmation overlay.
#[derive(Debug)]
pub enum QuitActions {
    ExitApplication,
}

/// One action of any screen, or none.
#[derive(Debug)]
pub enum Actions {
    Global(GlobalActions),
    Terminal(TerminalActions),
    Result(ResultActions),
    Help(HelpActions),
    Quit(QuitActions),
    NoAction,
}

impl Default for Actions {
    /// With no key to interpret, nothing happens.
    fn default() -> (r: Actions)
        ensures
            r is NoAction,
    {
        Actions::NoAction
    }
}

} // verus!
