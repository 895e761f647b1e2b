use vstd::prelude::*;

verus! {

/// The dialog shown over the drive list.
#[derive(Clone, Copy, Debug, PartialEq, Eq, Structural)]
pub enum Modal {
    Hidden,
    Keybindings,
    Warning,
    Copying,
    Verifying,
    Victory,
    Error,
}

/// A key press, as far as the screen tells keys apart.
#[derive(Clone, Copy, Debug, PartialEq, Eq, Structural)]
pub enum Key {
    /// Control and `c` together.
    Interrupt,
    Char(char),
    Up,
    Down,
    Enter,
    Esc,
    Other,
}

/// What the caller does after a key press.
#[derive(Clone, Copy, Debug, PartialEq, Eq, Structural)]
pub enum Command {
    Nothing,
    /// List the drives again and find the selected one in the new list.
    Refresh,
    /// Select the drive at the new row.
    Reselect,
    /// Start copying between the image and the selected drive.
    StartCopy,
    /// Drop the finished transfer's record and error.
    Dismiss,
}

/// What the caller does after looking at the running transfer.
#[derive(Clone, Copy, Debug, PartialEq, Eq, Structural)]
pub enum PollAction {
    Wait,
    ShowError,
    StartVerify,
    ShowVictory,
    Exit,
}

/// The state of the drive selection screen.
#[derive(Clone, Copy, Debug, PartialEq, Eq, Structural)]
pub struct Screen {
    pub modal: Modal,
    pub selected_row: usize,
    pub drive_count: usize,
    /// Some drive is selected.
    pub has_selection: bool,
    pub all_drives: bool,
    pub exit: bool,
}

/// The screen and command after `key` is pressed on `s`.
pub open spec fn key_effect(s: Screen, key: Key) -> (Screen, Command) {
    if key == Key::Interrupt {
        (Screen { exit: true, ..s }, Command::Nothing)
    } else if key == Key::Char('i') {
        if s.modal == Modal::Hidden {
            (Screen { modal: Modal::Keybindings, ..s }, Command::Nothing)
        } else if s.modal == Modal::Keybindings {
            (Screen { modal: Modal::Hidden, ..s }, Command::Nothing)
        } else {
            (s, Command::Nothing)
        }
    } else if s.modal == Modal::Warning && key == Key::Enter {
        (s, Command::StartCopy)
    } else if s.modal == Modal::Hidden {
        if key == Key::Char('a') {
            (Screen { all_drives: !s.all_drives, ..s }, Command::Refresh)
        } else if key == Key::Char('r') {
            (s, Command::Refresh)
        } else if key == Key::Up {
            if s.selected_row > 0 {
                (Screen { selected_row: (s.selected_row - 1) as usize, ..s }, Command::Reselect)
            } else {
                (s, Command::Nothing)
            }
        } else if key == Key::Down {
            if s.selected_row + 1 < s.drive_count {
                (Screen { selected_row: (s.selected_row + 1) as usize, ..s }, Command::Reselect)
            } else {
                (s, Command::Nothing)
            }
        } else if key == Key::Enter {
            if s.has_selection {
                (Screen { modal: Modal::Warning, ..s }, Command::Nothing)
            } else {
                (s, Command::Nothing)
            }
        } else if key == Key::Esc {
            (Screen { exit: true, ..s }, Command::Nothing)
        } else {
            (s, Command::Nothing)
        }
    } else if key == Key::Esc {
        (Screen { modal: Modal::Hidden, ..s }, Command::Dismiss)
    } else {
        (s, Command::Nothing)
    }
}

/// What follows a look at the transfer: an error shows, a finished copy is
/// verified when that was asked for, and otherwise a finished transfer ends
/// in the summary, or ends the program when the drive was given up front.
pub open spec fn poll_action(
    has_error: bool,
    finished: bool,
    verify: bool,
    modal: Modal,
    drive_given: bool,
) -> PollAction {
    if has_error {
        PollAction::ShowError
    } else if finished {
        if verify && modal == Modal::Copying {
            PollAction::StartVerify
        } else if !drive_given {
            PollAction::ShowVictory
        } else {
            PollAction::Exit
        }
    } else {
        PollAction::Wait
    }
}

impl Screen {
    /// The screen before any drive is listed.
    pub fn new(all_drives: bool) -> (r: Screen)
        ensures
            r == (Screen {
                modal: Modal::Hidden,
                selected_row: 0,
                drive_count: 0,
                has_selection: false,
                all_drives,
                exit: false,
            }),
    {
        Screen {
            modal: Modal::Hidden,
            selected_row: 0,
            drive_count: 0,
            has_selection: false,
            all_drives,
            exit: false,
        }
    }

    /// Applies a key press and says what the caller is to do.
    pub fn handle_key(&mut self, key: Key) -> (c: Command)
        ensures
            (*final(self), c) == key_effect(*old(self), key),
    {
        if key == Key::Interrupt {
            self.exit = true;
            Command::Nothing
        } else if key == Key::Char('i') {
            if self.modal == Modal::Hidden {
                self.modal = Modal::Keybindings;
            } else if self.modal == Modal::Keybindings {
                self.modal = Modal::Hidden;
            }
            Command::Nothing
        } else if self.modal == Modal::Warning && key == Key::Enter {
            Command::StartCopy
        } else if self.modal == Modal::Hidden {
            if key == Key::Char('a') {
                self.all_drives = !self.all_drives;
                Command::Refresh
            } else if key == Key::Char('r') {
                Command::Refresh
            } else if key == Key::Up {
                if self.selected_row > 0 {
                    self.selected_row = self.selected_row - 1;
                    Command::Reselect
                } else {
                    Command::Nothing
                }
            } else if key == Key::Down {
                if self.drive_count > 0 && self.selected_row < self.drive_count - 1 {
                    self.selected_row = self.selected_row + 1;
                    Command::Reselect
                } else {
                    Command::Nothing
                }
            } else if key == Key::Enter {
                if self.has_selection {
                    self.modal = Modal::Warning;
                }
                Command::Nothing
            } else if key == Key::Esc {
                self.exit = true;
                Command::Nothing
            } else {
                Command::Nothing
            }
        } else if key == Key::Esc {
            self.modal = Modal::Hidden;
            Command::Dismiss
        } else {
            Command::Nothing
        }
    }

    /// Takes in a fresh list of drives, where the drive selected before
    /// stands at `found` (if it is still there): the selection moves to
    /// it, or to the first row, and is dropped when the list is empty.
    pub fn drives_listed(&mut self, count: usize, found: Option<usize>)
        requires
            found is Some ==> found.unwrap() < count,
        ensures
            final(self).drive_count == count,
            final(self).has_selection == (count > 0),
            final(self).selected_row == (if found is Some {
                found.unwrap()
            } else {
                0
            }),
            final(self).modal == old(self).modal,
            final(self).all_drives == old(self).all_drives,
            final(self).exit == old(self).exit,
    {
        self.drive_count = count;
        self.has_selection = count > 0;
        self.selected_row = match found {
            Some(i) => i,
            None => 0,
        };
    }
}

/// What follows a look at the running transfer.
pub fn after_poll(has_error: bool, finished: bool, verify: bool, modal: Modal, drive_given: bool) -> (r:
    PollAction)
    ensures
        r == poll_action(has_error, finished, verify, modal, drive_given),
{
    if has_error {
        PollAction::ShowError
    } else if finished {
        if verify && modal == Modal::Copying {
            PollAction::StartVerify
        } else if !drive_given {
            PollAction::ShowVictory
        } else {
            PollAction::Exit
        }
    } else {
        PollAction::Wait
    }
}

} // verus!
