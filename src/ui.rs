use vstd::prelude::*;
use vstd::string::*;
use crate::clock::wall_clock_micros;

verus! {

/// How long a status message stays, in microseconds.
pub const STATUS_TTL_US: u64 = 3_000_000;

/// A key press, as the interface tells keys apart.
#[derive(Clone, Copy, Debug, PartialEq, Eq, Structural)]
pub enum UiKey {
    Char(char),
    Up,
    Down,
    Enter,
    Esc,
    Other,
}

/// What the surrounding loop must do after a key.
#[derive(Clone, Copy, Debug, PartialEq, Eq, Structural)]
pub enum UiAction {
    Nothing,
    /// Cancel the session and leave.
    Quit,
    /// Write this value into the session's `paused` flag.
    SetPaused(bool),
    /// Export the session and report the outcome in the status line.
    Export,
}

/// State of the terminal interface.
#[derive(Debug)]
pub struct UiState {
    /// Selected row among the hops that have sent probes.
    pub selected: Option<usize>,
    pub paused: bool,
    pub show_help: bool,
    pub show_hop_detail: bool,
    /// Message and the wall-clock time (microseconds) it was set.
    pub status_message: Option<(String, u64)>,
}

impl Default for UiState {
    fn default() -> (r: UiState)
        ensures
            r.selected is None,
            !r.paused,
            !r.show_help,
            !r.show_hop_detail,
            r.status_message is None,
    {
        UiState { selected: None, paused: false, show_help: false, show_hop_detail: false, status_message: None }
    }
}

/// The selection after moving up among `n` rows: wraps to the last row.
pub open spec fn select_up(sel: Option<usize>, n: usize) -> Option<usize> {
    if n == 0 {
        sel
    } else {
        match sel {
            Some(i) if i > 0 => Some((i - 1) as usize),
            _ => Some((n - 1) as usize),
        }
    }
}

/// The selection after moving down among `n` rows: wraps to the first row.
pub open spec fn select_down(sel: Option<usize>, n: usize) -> Option<usize> {
    if n == 0 {
        sel
    } else {
        match sel {
            Some(i) if i < n - 1 => Some((i + 1) as usize),
            _ => Some(0),
        }
    }
}

/// The status message left at `now`: dropped once older than three seconds.
pub open spec fn status_after(msg: Option<(String, u64)>, now: u64) -> Option<(String, u64)> {
    match msg {
        Some((m, t)) => if now > t + STATUS_TTL_US {
            None
        } else {
            Some((m, t))
        },
        None => None,
    }
}

impl UiState {
    /// Shows `msg` in the status line from `now` (wall-clock microseconds).
    pub fn set_status_at(&mut self, msg: String, now: u64)
        ensures
            final(self).status_message == Some((msg, now)),
            final(self).selected == old(self).selected,
            final(self).paused == old(self).paused,
            final(self).show_help == old(self).show_help,
            final(self).show_hop_detail == old(self).show_hop_detail,
    {
        self.status_message = Some((msg, now));
    }

    /// Shows `msg` in the status line from now on.
    pub fn set_status(&mut self, msg: String)
        ensures
            final(self).status_message matches Some((m, _)) && m == msg,
            final(self).selected == old(self).selected,
            final(self).paused == old(self).paused,
            final(self).show_help == old(self).show_help,
            final(self).show_hop_detail == old(self).show_hop_detail,
    {
        let now = wall_clock_micros();
        self.set_status_at(msg, now);
    }

    /// Drops the status message once it is older than three seconds at `now`.
    pub fn clear_old_status_at(&mut self, now: u64)
        ensures
            final(self).status_message == status_after(old(self).status_message, now),
            final(self).selected == old(self).selected,
            final(self).paused == old(self).paused,
            final(self).show_help == old(self).show_help,
            final(self).show_hop_detail == old(self).show_hop_detail,
    {
        let expired = match &self.status_message {
            Some((_, t)) => now > *t && now - *t > STATUS_TTL_US,
            None => false,
        };
        if expired {
            self.status_message = None;
        }
    }

    /// Drops the status message once it is older than three seconds.
    pub fn clear_old_status(&mut self)
        ensures
            exists|now: u64| final(self).status_message == #[trigger] status_after(old(self).status_message, now),
            final(self).selected == old(self).selected,
            final(self).paused == old(self).paused,
            final(self).show_help == old(self).show_help,
            final(self).show_hop_detail == old(self).show_hop_detail,
    {
        let now = wall_clock_micros();
        self.clear_old_status_at(now);
    }

    /// Handles one key press at `now` with `hop_count` rows listed. The help
    /// overlay closes on any key; the detail overlay closes on Esc and
    /// swallows other keys. Otherwise: `q` quits, `?` and `h` open help, `p`
    /// toggles pause, `e` exports, arrows and `k`/`j` move the selection with
    /// wrap-around, Enter opens the selected hop, Esc clears the selection.
    pub fn handle_key(&mut self, key: UiKey, hop_count: usize, now: u64) -> (r: UiAction)
        ensures
            old(self).show_help ==> r == UiAction::Nothing && !final(self).show_help
                && final(self).selected == old(self).selected && final(self).paused == old(self).paused
                && final(self).show_hop_detail == old(self).show_hop_detail,
            !old(self).show_help && old(self).show_hop_detail ==> r == UiAction::Nothing
                && final(self).show_hop_detail == (key != UiKey::Esc) && final(self).selected == old(self).selected
                && final(self).paused == old(self).paused && !final(self).show_help,
            !old(self).show_help && !old(self).show_hop_detail ==> {
                &&& key == UiKey::Char('q') ==> r == UiAction::Quit
                &&& (key == UiKey::Char('?') || key == UiKey::Char('h')) ==> final(self).show_help && r == UiAction::Nothing
                &&& key == UiKey::Char('p') ==> final(self).paused == !old(self).paused && r == UiAction::SetPaused(!old(self).paused)
                    && (final(self).status_message matches Some((m, t)) && t == now && m@ == if final(self).paused { "Paused"@ } else { "Resumed"@ })
                &&& key != UiKey::Char('p') ==> final(self).paused == old(self).paused
                &&& key == UiKey::Char('e') ==> r == UiAction::Export
                &&& (key == UiKey::Up || key == UiKey::Char('k')) ==> final(self).selected == select_up(old(self).selected, hop_count)
                &&& (key == UiKey::Down || key == UiKey::Char('j')) ==> final(self).selected == select_down(old(self).selected, hop_count)
                &&& key == UiKey::Enter ==> final(self).show_hop_detail == old(self).selected is Some
                &&& key == UiKey::Esc ==> final(self).selected is None
                &&& key != UiKey::Char('q') && key != UiKey::Char('p') && key != UiKey::Char('e') ==> r == UiAction::Nothing
            },
    {
        if self.show_help {
            self.show_help = false;
            return UiAction::Nothing;
        }
        if self.show_hop_detail {
            match key {
                UiKey::Esc => {
                    self.show_hop_detail = false;
                },
                _ => {},
            }
            return UiAction::Nothing;
        }
        match key {
            UiKey::Char('q') => UiAction::Quit,
            UiKey::Char('?') | UiKey::Char('h') => {
                self.show_help = true;
                UiAction::Nothing
            },
            UiKey::Char('p') => {
                self.paused = !self.paused;
                let msg = if self.paused {
                    String::from_str("Paused")
                } else {
                    String::from_str("Resumed")
                };
                self.status_message = Some((msg, now));
                UiAction::SetPaused(self.paused)
            },
            UiKey::Char('r') => {
                self.status_message = Some((String::from_str("Stats reset not yet implemented"), now));
                UiAction::Nothing
            },
            UiKey::Char('e') => UiAction::Export,
            UiKey::Up | UiKey::Char('k') => {
                if hop_count > 0 {
                    self.selected = Some(
                        match self.selected {
                            Some(i) => if i > 0 {
                                i - 1
                            } else {
                                hop_count - 1
                            },
                            None => hop_count - 1,
                        },
                    );
                }
                UiAction::Nothing
            },
            UiKey::Down | UiKey::Char('j') => {
                if hop_count > 0 {
                    self.selected = Some(
                        match self.selected {
                            Some(i) => if i < hop_count - 1 {
                                i + 1
                            } else {
                                0
                            },
                            None => 0,
                        },
                    );
                }
                UiAction::Nothing
            },
            UiKey::Enter => {
                if self.selected.is_some() {
                    self.show_hop_detail = true;
                }
                UiAction::Nothing
            },
            UiKey::Esc => {
                self.selected = None;
                UiAction::Nothing
            },
            _ => UiAction::Nothing,
        }
    }
}

} // verus!
