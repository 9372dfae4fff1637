use vstd::prelude::*;
use crate::action::{Action, Backend};
use crate::input::KeyCode;

verus! {

/// The number of items of the entry menu.
pub const MENU_LEN: usize = 9;

/// What the entry menu item at index `i` does: the in-memory store, the
/// five stores that ask for a path or address, help, themes and quit.
pub open spec fn menu_action(i: int) -> Action {
    if i == 0 {
        Action::OpenMemory
    } else if i == 1 {
        Action::PromptFor(Backend::File)
    } else if i == 2 {
        Action::PromptFor(Backend::Redb)
    } else if i == 3 {
        Action::PromptFor(Backend::Git)
    } else if i == 4 {
        Action::PromptFor(Backend::Mongo)
    } else if i == 5 {
        Action::PromptFor(Backend::Proxy)
    } else if i == 6 {
        Action::Help
    } else if i == 7 {
        Action::OpenThemeMenu
    } else {
        Action::Quit
    }
}

/// The item a shortcut letter picks.
pub open spec fn shortcut(c: char) -> Option<int> {
    if c == 'i' {
        Some(0)
    } else if c == 'l' {
        Some(1)
    } else if c == 'r' {
        Some(2)
    } else if c == 'g' {
        Some(3)
    } else if c == 'm' {
        Some(4)
    } else if c == 'p' {
        Some(5)
    } else if c == 'h' {
        Some(6)
    } else if c == 't' {
        Some(7)
    } else if c == 'q' {
        Some(8)
    } else {
        None
    }
}

/// What a key does on the entry menu with item `s` highlighted: the
/// highlight `s2` after it, and the action `r`.
pub open spec fn entry_post(s: int, code: KeyCode, s2: int, r: Action) -> bool {
    match code {
        KeyCode::Char(c) => if c == 'j' {
            r == Action::Idle && s2 == (if s + 1 < MENU_LEN { s + 1 } else { s })
        } else if c == 'k' {
            r == Action::Idle && s2 == (if s > 0 { s - 1 } else { 0 })
        } else if shortcut(c) is Some {
            r == menu_action(shortcut(c).unwrap()) && s2 == s
        } else {
            r == Action::PassThrough && s2 == s
        },
        KeyCode::Down => r == Action::Idle && s2 == (if s + 1 < MENU_LEN { s + 1 } else { s }),
        KeyCode::Up => r == Action::Idle && s2 == (if s > 0 { s - 1 } else { 0 }),
        KeyCode::Enter => r == menu_action(s) && s2 == s,
        _ => r == Action::PassThrough && s2 == s,
    }
}

/// The entry menu: which item is highlighted.
#[derive(Debug)]
pub struct EntryContext {
    pub selected: usize,
}

impl Default for EntryContext {
    fn default() -> (r: Self)
        ensures
            r.selected == 0,
    {
        EntryContext { selected: 0 }
    }
}

/// The action of the menu item at index `i`.
pub fn item_action(i: usize) -> (r: Action)
    ensures
        r == menu_action(i as int),
{
    if i == 0 {
        Action::OpenMemory
    } else if i == 1 {
        Action::PromptFor(Backend::File)
    } else if i == 2 {
        Action::PromptFor(Backend::Redb)
    } else if i == 3 {
        Action::PromptFor(Backend::Git)
    } else if i == 4 {
        Action::PromptFor(Backend::Mongo)
    } else if i == 5 {
        Action::PromptFor(Backend::Proxy)
    } else if i == 6 {
        Action::Help
    } else if i == 7 {
        Action::OpenThemeMenu
    } else {
        Action::Quit
    }
}

impl EntryContext {
    pub open spec fn wf(&self) -> bool {
        self.selected < MENU_LEN
    }

    /// Handles a key on the entry menu: `j`/Down and `k`/Up move the
    /// highlight (staying on the menu), Enter runs the highlighted item, a
    /// shortcut letter runs its item; any other key is passed on.
    pub fn consume(&mut self, code: KeyCode) -> (r: Action)
        requires
            old(self).wf(),
        ensures
            final(self).wf(),
            entry_post(old(self).selected as int, code, final(self).selected as int, r),
    {
        match code {
            KeyCode::Char(c) => {
                if c == 'j' {
                    self.select_next();
                    Action::Idle
                } else if c == 'k' {
                    self.select_previous();
                    Action::Idle
                } else if c == 'i' {
                    item_action(0)
                } else if c == 'l' {
                    item_action(1)
                } else if c == 'r' {
                    item_action(2)
                } else if c == 'g' {
                    item_action(3)
                } else if c == 'm' {
                    item_action(4)
                } else if c == 'p' {
                    item_action(5)
                } else if c == 'h' {
                    item_action(6)
                } else if c == 't' {
                    item_action(7)
                } else if c == 'q' {
                    item_action(8)
                } else {
                    Action::PassThrough
                }
            },
            KeyCode::Down => {
                self.select_next();
                Action::Idle
            },
            KeyCode::Up => {
                self.select_previous();
                Action::Idle
            },
            KeyCode::Enter => item_action(self.selected),
            _ => Action::PassThrough,
        }
    }

    /// Moves the highlight down one item, staying on the last.
    pub fn select_next(&mut self)
        requires
            old(self).wf(),
        ensures
            final(self).wf(),
            final(self).selected == (if old(self).selected + 1 < MENU_LEN { old(self).selected + 1 } else { old(self).selected as int }),
    {
        if self.selected + 1 < MENU_LEN {
            self.selected += 1;
        }
    }

    /// Moves the highlight up one item, staying on the first.
    pub fn select_previous(&mut self)
        requires
            old(self).wf(),
        ensures
            final(self).wf(),
            final(self).selected == (if old(self).selected > 0 { old(self).selected - 1 } else { 0 }),
    {
        if self.selected > 0 {
            self.selected -= 1;
        }
    }
}

} // verus!
