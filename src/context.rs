use vstd::prelude::*;
use crate::action::Action;
use crate::editor::EditorState;
use crate::entry::{EntryContext, entry_post};
use crate::input::{Input, KeyCode};
use crate::notebook::Notebook;
use crate::prompt::{PromptEdit, PromptInput, edit_post};

verus! {

/// Which top-level screen is shown.
#[derive(Clone, Copy, Debug, PartialEq, Eq, Structural)]
pub enum ContextState {
    Entry,
    Notebook,
}

/// A choice between quitting and going back to the entry menu.
pub struct QuitMenu {
    pub message: String,
    pub quit_action: Action,
    pub menu_action: Action,
}

impl QuitMenu {
    /// A quit menu with the two actions it offers.
    pub fn new(message: String, quit_action: Action, menu_action: Action) -> (r: Self)
        ensures
            r.message@ == message@,
            r.quit_action == quit_action,
            r.menu_action == menu_action,
    {
        QuitMenu { message, quit_action, menu_action }
    }
}

/// A dialog of lines of text that Esc or Enter closes.
pub struct InfoDialog {
    pub title: String,
    pub lines: Vec<String>,
}

impl InfoDialog {
    /// A dialog with a title and its lines.
    pub fn new(title: String, lines: Vec<String>) -> (r: Self)
        ensures
            r.title@ == title@,
            r.lines@ == lines@,
    {
        InfoDialog { title, lines }
    }
}

/// A one-line prompt: the text typed so far, an optional mask character for
/// secrets, the message shown above it, and the action raised on Enter.
pub struct ContextPrompt {
    pub input: PromptInput,
    pub mask: Option<char>,
    pub message: Vec<String>,
    pub action: Action,
}

impl ContextPrompt {
    /// A prompt showing its text, seeded with `default` (the cursor at its end).
    pub fn new(message: Vec<String>, action: Action, default: Option<String>) -> (r: Self)
        ensures
            r.input.wf(),
            r.mask is None,
            r.action == action,
            r.message@ == message@,
            r.input.value@ == (match default { Some(s) => s@, None => Seq::<char>::empty() }),
    {
        Self::with_mask(message, action, default, None)
    }

    /// A prompt that shows `mask_char` in place of each character typed.
    pub fn new_masked(message: Vec<String>, action: Action, default: Option<String>, mask_char: char) -> (r: Self)
        ensures
            r.input.wf(),
            r.mask == Some(mask_char),
            r.action == action,
            r.message@ == message@,
            r.input.value@ == (match default { Some(s) => s@, None => Seq::<char>::empty() }),
    {
        Self::with_mask(message, action, default, Some(mask_char))
    }

    fn with_mask(message: Vec<String>, action: Action, default: Option<String>, mask: Option<char>) -> (r: Self)
        ensures
            r.input.wf(),
            r.mask == mask,
            r.action == action,
            r.message@ == message@,
            r.input.value@ == (match default { Some(s) => s@, None => Seq::<char>::empty() }),
    {
        let text = match default {
            Some(s) => s,
            None => String::new(),
        };
        ContextPrompt { input: PromptInput::new(text), mask, message, action }
    }
}

/// The list of theme presets, each with its shortcut key, and the highlighted one.
pub struct ThemeSelector {
    pub keys: Vec<char>,
    pub selected: usize,
}

impl ThemeSelector {
    pub open spec fn wf(&self) -> bool {
        self.selected < self.keys.len()
    }

    /// A selector over presets with these keys, with `selected` highlighted.
    pub fn new(keys: Vec<char>, selected: usize) -> (r: Self)
        requires
            selected < keys.len(),
        ensures
            r.wf(),
            r.keys@ == keys@,
            r.selected == selected,
    {
        ThemeSelector { keys, selected }
    }

    /// The first preset bound to key `c`.
    pub fn select_by_key(&self, c: char) -> (r: Option<usize>)
        ensures
            r matches Some(i) ==> i < self.keys.len() && self.keys@[i as int] == c
                && forall|j: int| 0 <= j < i ==> self.keys@[j] != c,
            r is None ==> forall|j: int| 0 <= j < self.keys.len() ==> self.keys@[j] != c,
    {
        let mut i: usize = 0;
        while i < self.keys.len()
            invariant
                i <= self.keys.len(),
                forall|j: int| 0 <= j < i ==> self.keys@[j] != c,
            decreases self.keys.len() - i,
        {
            if self.keys[i] == c {
                return Some(i);
            }
            i += 1;
        }
        None
    }
}

/// The modal surface that has the keyboard, if any: at most one at a time.
pub enum Overlay {
    VimKeymap,
    EditorKeymap,
    Help,
    Alert(String),
    Info(InfoDialog),
    QuitMenu(QuitMenu),
    Confirm(String, Action),
    ThemeSelector(ThemeSelector),
    Prompt(ContextPrompt),
}

/// The kind of an overlay, by priority: the lower the number, the earlier
/// it is asked.
pub open spec fn overlay_rank(o: Overlay) -> int {
    match o {
        Overlay::VimKeymap => 1,
        Overlay::EditorKeymap => 2,
        Overlay::Help => 3,
        Overlay::Alert(_) => 4,
        Overlay::Info(_) => 5,
        Overlay::QuitMenu(_) => 6,
        Overlay::Confirm(_, _) => 7,
        Overlay::ThemeSelector(_) => 8,
        Overlay::Prompt(_) => 9,
    }
}

/// The editing key a prompt makes of an input event.
pub open spec fn edit_of(input: Input) -> Option<PromptEdit> {
    match input {
        Input::Key(k) => match k.code {
            KeyCode::Char(c) => if k.modifiers.ctrl { None } else { Some(PromptEdit::InsertChar(c)) },
            KeyCode::Backspace => Some(PromptEdit::DeletePrevChar),
            KeyCode::Delete => Some(PromptEdit::DeleteNextChar),
            KeyCode::Left => Some(PromptEdit::GoToPrevChar),
            KeyCode::Right => Some(PromptEdit::GoToNextChar),
            KeyCode::Home => Some(PromptEdit::GoToStart),
            KeyCode::End => Some(PromptEdit::GoToEnd),
            _ => None,
        },
        _ => None,
    }
}

/// The editing key an input event means to a prompt, if any.
pub fn to_input_request(input: &Input) -> (r: Option<PromptEdit>)
    ensures
        r == edit_of(*input),
{
    match input {
        Input::Key(key) => match key.code {
            KeyCode::Char(c) => if key.modifiers.ctrl {
                None
            } else {
                Some(PromptEdit::InsertChar(c))
            },
            KeyCode::Backspace => Some(PromptEdit::DeletePrevChar),
            KeyCode::Delete => Some(PromptEdit::DeleteNextChar),
            KeyCode::Left => Some(PromptEdit::GoToPrevChar),
            KeyCode::Right => Some(PromptEdit::GoToNextChar),
            KeyCode::Home => Some(PromptEdit::GoToStart),
            KeyCode::End => Some(PromptEdit::GoToEnd),
            _ => None,
        },
        _ => None,
    }
}

/// The key code of a key event.
pub open spec fn code_of(input: Input) -> Option<KeyCode> {
    match input {
        Input::Key(k) => Some(k.code),
        _ => None,
    }
}

/// Process-wide UI state.
pub struct Context {
    pub entry: EntryContext,
    pub notebook: Notebook,
    pub state: ContextState,
    pub overlay: Option<Overlay>,
    pub keymap: bool,
}


/// The overlay's own invariant.
pub open spec fn overlay_wf(o: Option<Overlay>) -> bool {
    match o {
        Some(Overlay::ThemeSelector(t)) => t.wf(),
        Some(Overlay::Prompt(p)) => p.input.wf(),
        _ => true,
    }
}

/// What one input event does to the context `o`, giving `f` and action `r`.
pub open spec fn consume_post(o: Context, f: Context, input: Input, r: Action) -> bool {
    let code = code_of(input);
    &&& f.state == o.state
    &&& f.notebook == o.notebook
    &&& f.keymap == o.keymap
    &&& match o.overlay {
        Some(ov) => {
            &&& f.entry == o.entry
            &&& match ov {
                Overlay::VimKeymap | Overlay::EditorKeymap | Overlay::Help | Overlay::Alert(_) => f.overlay is None && r == Action::Idle,
                Overlay::Info(_) => r == Action::Idle
                    && (if code == Some(KeyCode::Esc) || code == Some(KeyCode::Enter) { f.overlay is None } else { f.overlay == o.overlay }),
                Overlay::QuitMenu(m) => if code == Some(KeyCode::Char('q')) {
                    r == m.quit_action && f.overlay is None
                } else if code == Some(KeyCode::Char('m')) {
                    r == m.menu_action && f.overlay is None
                } else if code == Some(KeyCode::Esc) {
                    r == Action::Idle && f.overlay is None
                } else {
                    r == Action::Idle && f.overlay == o.overlay
                },
                Overlay::Confirm(_, a) => if code == Some(KeyCode::Char('y')) {
                    r == a && f.overlay is None
                } else if code == Some(KeyCode::Char('n')) {
                    r == Action::Idle && f.overlay is None
                } else {
                    r == Action::Idle && f.overlay == o.overlay
                },
                Overlay::ThemeSelector(t) => theme_post(t, code, f.overlay, r),
                Overlay::Prompt(p) => if code == Some(KeyCode::Enter) {
                    r == p.action && f.overlay == o.overlay
                } else if code == Some(KeyCode::Esc) {
                    r == Action::Idle && f.overlay is None
                } else {
                    &&& r == Action::Idle
                    &&& match edit_of(input) {
                        Some(e) => f.overlay matches Some(Overlay::Prompt(edited)) && edited.action == p.action
                            && edited.mask == p.mask && edited.message == p.message
                            && edit_post(e, p.input.value@, p.input.cursor as int, edited.input.value@, edited.input.cursor as int),
                        None => f.overlay == o.overlay,
                    }
                },
            }
        },
        None => {
            &&& f.overlay is None
            &&& match o.state {
                ContextState::Entry => match code {
                    Some(c) => entry_post(o.entry.selected as int, c, f.entry.selected as int, r),
                    None => r == Action::Idle && f.entry == o.entry,
                },
                ContextState::Notebook => r == Action::PassThrough && f.entry == o.entry,
            }
        },
    }
}

/// What a key does to the theme selector `t`: the overlay after it and the action.
pub open spec fn theme_post(t: ThemeSelector, code: Option<KeyCode>, after: Option<Overlay>, r: Action) -> bool {
    let n = t.keys.len() as int;
    let s = t.selected as int;
    let moved_to = |i: int| after matches Some(Overlay::ThemeSelector(t2)) && t2.keys == t.keys && t2.selected == i;
    match code {
        Some(KeyCode::Char(c)) => if c == 'j' {
            r == Action::Idle && moved_to(if s + 1 < n { s + 1 } else { s })
        } else if c == 'k' {
            r == Action::Idle && moved_to(if s > 0 { s - 1 } else { 0 })
        } else if exists|i: int| 0 <= i < n && t.keys@[i] == c {
            after is None && (exists|i: int| 0 <= i < n && t.keys@[i] == c && r == Action::ApplyTheme(i as usize)
                && forall|j: int| 0 <= j < i ==> t.keys@[j] != c)
        } else {
            r == Action::Idle && moved_to(s)
        },
        Some(KeyCode::Down) => r == Action::Idle && moved_to(if s + 1 < n { s + 1 } else { s }),
        Some(KeyCode::Up) => r == Action::Idle && moved_to(if s > 0 { s - 1 } else { 0 }),
        Some(KeyCode::Enter) => r == Action::ApplyTheme(t.selected) && after is None,
        Some(KeyCode::Esc) => r == Action::Idle && after is None,
        _ => r == Action::Idle && moved_to(s),
    }
}

impl Default for Context {
    /// The entry screen with no overlay and an empty note.
    fn default() -> (r: Self)
        ensures
            r.wf(),
            r.state == ContextState::Entry,
            r.overlay is None,
            r.entry.selected == 0,
            !r.keymap,
    {
        Context {
            entry: EntryContext::default(),
            notebook: Notebook::new(EditorState::new(Vec::new())),
            state: ContextState::Entry,
            overlay: None,
            keymap: false,
        }
    }
}

impl Context {
    pub open spec fn wf(&self) -> bool {
        &&& self.entry.wf()
        &&& self.notebook.wf()
        &&& overlay_wf(self.overlay)
    }

    /// Shows `o`, in place of any overlay shown before.
    pub fn show(&mut self, o: Overlay)
        requires
            overlay_wf(Some(o)),
            old(self).wf(),
        ensures
            final(self).wf(),
            final(self).overlay == Some(o),
            final(self).state == old(self).state,
            final(self).entry == old(self).entry,
    {
        self.overlay = Some(o);
    }

    /// Closes the prompt and hands back the text typed into it; `None`,
    /// changing nothing, when no prompt is shown.
    pub fn take_prompt_input(&mut self) -> (r: Option<String>)
        ensures
            old(self).overlay matches Some(Overlay::Prompt(p)) ==> r matches Some(s) && s@ == p.input.value@ && final(self).overlay is None,
            !(old(self).overlay matches Some(Overlay::Prompt(_))) ==> r is None && final(self).overlay == old(self).overlay,
            final(self).state == old(self).state,
            final(self).entry == old(self).entry,
    {
        match self.overlay.take() {
            Some(Overlay::Prompt(p)) => Some(p.input.value),
            other => {
                self.overlay = other;
                None
            },
        }
    }

    /// Hands one input event to the overlay that has the keyboard, or, with
    /// none shown, to the current screen. Overlays only ever close here, so
    /// at most one is shown at any time.
    pub fn consume(&mut self, input: &Input) -> (r: Action)
        requires
            old(self).wf(),
        ensures
            final(self).wf(),
            consume_post(*old(self), *final(self), *input, r),
            final(self).notebook == old(self).notebook,
            final(self).keymap == old(self).keymap,
            final(self).overlay is Some ==> old(self).overlay is Some
                && overlay_rank(final(self).overlay.unwrap()) == overlay_rank(old(self).overlay.unwrap()),
    {
        let code: Option<KeyCode> = match input {
            Input::Key(k) => Some(k.code),
            _ => None,
        };
        let ov = self.overlay.take();
        match ov {
            Some(Overlay::VimKeymap) | Some(Overlay::EditorKeymap) | Some(Overlay::Help) | Some(Overlay::Alert(_)) => Action::Idle,
            Some(Overlay::Info(d)) => {
                if !(code == Some(KeyCode::Esc) || code == Some(KeyCode::Enter)) {
                    self.overlay = Some(Overlay::Info(d));
                }
                Action::Idle
            },
            Some(Overlay::QuitMenu(m)) => {
                if code == Some(KeyCode::Char('q')) {
                    m.quit_action
                } else if code == Some(KeyCode::Char('m')) {
                    m.menu_action
                } else if code == Some(KeyCode::Esc) {
                    Action::Idle
                } else {
                    self.overlay = Some(Overlay::QuitMenu(m));
                    Action::Idle
                }
            },
            Some(Overlay::Confirm(msg, a)) => {
                if code == Some(KeyCode::Char('y')) {
                    a
                } else if code == Some(KeyCode::Char('n')) {
                    Action::Idle
                } else {
                    self.overlay = Some(Overlay::Confirm(msg, a));
                    Action::Idle
                }
            },
            Some(Overlay::ThemeSelector(t)) => self.consume_theme(t, code),
            Some(Overlay::Prompt(p)) => {
                if code == Some(KeyCode::Enter) {
                    let a = p.action;
                    self.overlay = Some(Overlay::Prompt(p));
                    a
                } else if code == Some(KeyCode::Esc) {
                    Action::Idle
                } else {
                    let mut p = p;
                    match to_input_request(input) {
                        Some(e) => p.input.handle(e),
                        None => {},
                    }
                    self.overlay = Some(Overlay::Prompt(p));
                    Action::Idle
                }
            },
            None => match self.state {
                ContextState::Entry => match code {
                    Some(c) => self.entry.consume(c),
                    None => Action::Idle,
                },
                ContextState::Notebook => Action::PassThrough,
            },
        }
    }

    fn consume_theme(&mut self, t: ThemeSelector, code: Option<KeyCode>) -> (r: Action)
        requires
            old(self).wf(),
            old(self).overlay is None,
            t.wf(),
        ensures
            final(self).wf(),
            final(self).state == old(self).state,
            final(self).entry == old(self).entry,
            theme_post(t, code, final(self).overlay, r),
            final(self).notebook == old(self).notebook,
            final(self).keymap == old(self).keymap,
            final(self).overlay is Some ==> final(self).overlay matches Some(Overlay::ThemeSelector(_)),
    {
        let mut t = t;
        let n = t.keys.len();
        let is_next = code == Some(KeyCode::Char('j')) || code == Some(KeyCode::Down);
        let is_prev = code == Some(KeyCode::Char('k')) || code == Some(KeyCode::Up);
        if is_next {
            if t.selected + 1 < n {
                t.selected += 1;
            }
            self.overlay = Some(Overlay::ThemeSelector(t));
            return Action::Idle;
        }
        if is_prev {
            if t.selected > 0 {
                t.selected -= 1;
            }
            self.overlay = Some(Overlay::ThemeSelector(t));
            return Action::Idle;
        }
        match code {
            Some(KeyCode::Enter) => Action::ApplyTheme(t.selected),
            Some(KeyCode::Esc) => Action::Idle,
            Some(KeyCode::Char(c)) => match t.select_by_key(c) {
                Some(i) => Action::ApplyTheme(i),
                None => {
                    self.overlay = Some(Overlay::ThemeSelector(t));
                    Action::Idle
                },
            },
            _ => {
                self.overlay = Some(Overlay::ThemeSelector(t));
                Action::Idle
            },
        }
    }
}

} // verus!
