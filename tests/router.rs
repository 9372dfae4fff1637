use glues_tui::action::{Action, Backend};
use glues_tui::context::{Context, ContextPrompt, ContextState, InfoDialog, Overlay, QuitMenu, ThemeSelector};
use glues_tui::entry::EntryContext;
use glues_tui::input::{Input, KeyCode, KeyEvent, KeyEventKind, KeyModifiers};

fn key(code: KeyCode) -> Input {
    Input::Key(KeyEvent::press(code))
}

fn ch(c: char) -> Input {
    key(KeyCode::Char(c))
}

fn prompt_text(ctx: &Context) -> String {
    match &ctx.overlay {
        Some(Overlay::Prompt(p)) => p.input.value.clone(),
        _ => panic!("no prompt"),
    }
}

#[test]
fn key_modifiers_new() {
    let m = KeyModifiers::new(true, false, true);
    assert!(m.ctrl && !m.alt && m.shift);
    assert_eq!(KeyModifiers::default(), KeyModifiers::new(false, false, false));
    let k = KeyEvent { code: KeyCode::Esc, modifiers: m, kind: KeyEventKind::Release };
    assert_eq!(k.kind, KeyEventKind::Release);
}

#[test]
fn quits_on_esc_then_q() {
    let mut ctx = Context::default();
    ctx.state = ContextState::Notebook;
    ctx.show(Overlay::QuitMenu(QuitMenu::new("Quit?".to_string(), Action::Quit, Action::BackToMenu)));
    assert_eq!(ctx.consume(&ch('q')), Action::Quit);
    assert!(ctx.overlay.is_none());
}

#[test]
fn quit_menu_cancel_from_normal() {
    let mut ctx = Context::default();
    ctx.state = ContextState::Notebook;
    ctx.show(Overlay::QuitMenu(QuitMenu::new("Quit?".to_string(), Action::Quit, Action::BackToMenu)));
    assert_eq!(ctx.consume(&ch('x')), Action::Idle);
    assert!(matches!(ctx.overlay, Some(Overlay::QuitMenu(_))));
    assert_eq!(ctx.consume(&key(KeyCode::Esc)), Action::Idle);
    assert!(ctx.overlay.is_none());
    assert_eq!(ctx.consume(&ch('q')), Action::PassThrough);
}

#[test]
fn quit_menu_returns_to_entry() {
    let mut ctx = Context::default();
    ctx.show(Overlay::QuitMenu(QuitMenu::new("Quit?".to_string(), Action::Quit, Action::BackToMenu)));
    assert_eq!(ctx.consume(&ch('m')), Action::BackToMenu);
    assert!(ctx.overlay.is_none());
}

#[test]
fn dismissable_overlays_close_on_any_event() {
    for o in [Overlay::VimKeymap, Overlay::EditorKeymap, Overlay::Help, Overlay::Alert("oops".to_string())] {
        let mut ctx = Context::default();
        ctx.show(o);
        assert_eq!(ctx.consume(&Input::Resize(10, 10)), Action::Idle);
        assert!(ctx.overlay.is_none());
        assert_eq!(ctx.entry.selected, 0);
    }
}

#[test]
fn info_dialog_closes_on_esc_or_enter_only() {
    let mut ctx = Context::default();
    ctx.show(Overlay::Info(InfoDialog::new("Info".to_string(), vec!["line".to_string()])));
    assert_eq!(ctx.consume(&ch('j')), Action::Idle);
    assert!(ctx.overlay.is_some());
    assert_eq!(ctx.entry.selected, 0);
    assert_eq!(ctx.consume(&key(KeyCode::Enter)), Action::Idle);
    assert!(ctx.overlay.is_none());
}

#[test]
fn confirm_dialog_yes_and_no() {
    let mut ctx = Context::default();
    ctx.show(Overlay::Confirm("Remove?".to_string(), Action::RemoveNote));
    assert_eq!(ctx.consume(&ch('x')), Action::Idle);
    assert_eq!(ctx.consume(&ch('y')), Action::RemoveNote);
    assert!(ctx.overlay.is_none());
    ctx.show(Overlay::Confirm("Remove?".to_string(), Action::RemoveNote));
    assert_eq!(ctx.consume(&ch('n')), Action::Idle);
    assert!(ctx.overlay.is_none());
}

#[test]
fn theme_selector_navigation_and_commit() {
    let mut ctx = Context::default();
    ctx.show(Overlay::ThemeSelector(ThemeSelector::new(vec!['d', 'l', 'f'], 0)));
    assert_eq!(ctx.consume(&ch('j')), Action::Idle);
    assert_eq!(ctx.consume(&key(KeyCode::Down)), Action::Idle);
    assert_eq!(ctx.consume(&key(KeyCode::Down)), Action::Idle);
    assert_eq!(ctx.consume(&ch('k')), Action::Idle);
    assert_eq!(ctx.consume(&key(KeyCode::Enter)), Action::ApplyTheme(1));
    assert!(ctx.overlay.is_none());
    ctx.show(Overlay::ThemeSelector(ThemeSelector::new(vec!['d', 'l', 'f'], 0)));
    assert_eq!(ctx.consume(&ch('z')), Action::Idle);
    assert!(ctx.overlay.is_some());
    assert_eq!(ctx.consume(&ch('f')), Action::ApplyTheme(2));
    assert!(ctx.overlay.is_none());
    ctx.show(Overlay::ThemeSelector(ThemeSelector::new(vec!['d'], 0)));
    assert_eq!(ctx.consume(&key(KeyCode::Esc)), Action::Idle);
    assert!(ctx.overlay.is_none());
}

#[test]
fn prompt_edits_submits_and_cancels() {
    let mut ctx = Context::default();
    let p = ContextPrompt::new(vec!["Enter the path:".to_string()], Action::Open(Backend::File), Some("/tmp".to_string()));
    assert_eq!(p.input.cursor, 4);
    ctx.show(Overlay::Prompt(p));
    ctx.consume(&ch('/'));
    ctx.consume(&ch('x'));
    assert_eq!(prompt_text(&ctx), "/tmp/x");
    ctx.consume(&key(KeyCode::Backspace));
    assert_eq!(prompt_text(&ctx), "/tmp/");
    ctx.consume(&key(KeyCode::Home));
    ctx.consume(&key(KeyCode::Delete));
    assert_eq!(prompt_text(&ctx), "tmp/");
    ctx.consume(&key(KeyCode::Right));
    ctx.consume(&ch('세'));
    assert_eq!(prompt_text(&ctx), "t세mp/");
    ctx.consume(&key(KeyCode::End));
    ctx.consume(&key(KeyCode::Left));
    ctx.consume(&ch('!'));
    assert_eq!(prompt_text(&ctx), "t세mp!/");
    let ctrl = Input::Key(KeyEvent { code: KeyCode::Char('a'), modifiers: KeyModifiers::new(true, false, false), kind: KeyEventKind::Press });
    ctx.consume(&ctrl);
    assert_eq!(prompt_text(&ctx), "t세mp!/");
    assert_eq!(ctx.consume(&key(KeyCode::Enter)), Action::Open(Backend::File));
    assert_eq!(ctx.take_prompt_input(), Some("t세mp!/".to_string()));
    assert!(ctx.overlay.is_none());
    assert_eq!(ctx.take_prompt_input(), None);
    ctx.show(Overlay::Prompt(ContextPrompt::new_masked(vec![], Action::Open(Backend::Mongo), None, '*')));
    assert_eq!(ctx.consume(&key(KeyCode::Esc)), Action::Idle);
    assert!(ctx.overlay.is_none());
}

#[test]
fn masked_prompt_keeps_its_mask() {
    let p = ContextPrompt::new_masked(vec!["Password".to_string()], Action::Open(Backend::Proxy), None, '*');
    assert_eq!(p.mask, Some('*'));
    assert_eq!(p.input.value, "");
    assert_eq!(p.input.cursor, 0);
}

#[test]
fn overlays_take_priority_over_entry_menu() {
    let mut ctx = Context::default();
    ctx.show(Overlay::Help);
    assert_eq!(ctx.consume(&ch('j')), Action::Idle);
    assert_eq!(ctx.entry.selected, 0);
    assert_eq!(ctx.consume(&ch('j')), Action::Idle);
    assert_eq!(ctx.entry.selected, 1);
}

#[test]
fn entry_menu_keys() {
    let mut e = EntryContext::default();
    assert_eq!(e.consume(KeyCode::Char('q')), Action::Quit);
    assert_eq!(e.consume(KeyCode::Char('i')), Action::OpenMemory);
    assert_eq!(e.consume(KeyCode::Char('l')), Action::PromptFor(Backend::File));
    assert_eq!(e.consume(KeyCode::Char('r')), Action::PromptFor(Backend::Redb));
    assert_eq!(e.consume(KeyCode::Char('g')), Action::PromptFor(Backend::Git));
    assert_eq!(e.consume(KeyCode::Char('m')), Action::PromptFor(Backend::Mongo));
    assert_eq!(e.consume(KeyCode::Char('p')), Action::PromptFor(Backend::Proxy));
    assert_eq!(e.consume(KeyCode::Char('h')), Action::Help);
    assert_eq!(e.consume(KeyCode::Char('t')), Action::OpenThemeMenu);
    assert_eq!(e.consume(KeyCode::Char('z')), Action::PassThrough);
    assert_eq!(e.consume(KeyCode::Tab), Action::PassThrough);
    assert_eq!(e.consume(KeyCode::Enter), Action::OpenMemory);
    assert_eq!(e.consume(KeyCode::Up), Action::Idle);
    assert_eq!(e.selected, 0);
    for _ in 0..3 {
        e.consume(KeyCode::Char('j'));
    }
    assert_eq!(e.consume(KeyCode::Enter), Action::PromptFor(Backend::Git));
    for _ in 0..20 {
        e.consume(KeyCode::Down);
    }
    assert_eq!(e.selected, 8);
    assert_eq!(e.consume(KeyCode::Enter), Action::Quit);
    e.consume(KeyCode::Char('k'));
    assert_eq!(e.consume(KeyCode::Enter), Action::OpenThemeMenu);
}

#[test]
fn non_key_events_on_entry_are_ignored() {
    let mut ctx = Context::default();
    assert_eq!(ctx.consume(&Input::Paste("x".to_string())), Action::Idle);
    assert_eq!(ctx.consume(&Input::Resize(80, 24)), Action::Idle);
    assert_eq!(ctx.entry.selected, 0);
}
