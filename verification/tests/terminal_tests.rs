use dsh_tui::draft::{InputEvent, KeyCode, KeyPress};
use dsh_tui::terminal::{
    Action, Block, Color, Command, Entry, EntryKind, Event, Frame, MarkdownTheme, Msg, Picker,
    PickerItem, Prompt, Style, TerminalApp,
};

const ACCENT: Color = Color::Rgb(0x8b, 0xa4, 0xe8);

fn app() -> TerminalApp {
    TerminalApp::new("dsh".to_string(), 80, 24, true)
}

fn frame(mode: &str) -> Frame {
    let mut f = Frame::idle();
    f.mode = mode.to_string();
    f
}

fn with_commands(mut f: Frame, names: &[&str]) -> Frame {
    f.commands = names
        .iter()
        .map(|n| Command { name: n.to_string(), description: format!("about {n}") })
        .collect();
    f
}

fn prompt(id: &str) -> Prompt {
    Prompt { id: id.to_string(), hint: format!("answer {id}") }
}

fn picker(id: &str, labels: &[&str], allow_save: bool) -> Picker {
    Picker {
        id: id.to_string(),
        items: labels
            .iter()
            .map(|l| PickerItem { value: format!("v-{l}"), label: l.to_string() })
            .collect(),
        title: "Models".to_string(),
        hint: "Enter select".to_string(),
        empty: "No match".to_string(),
        allow_save,
    }
}

fn type_text(a: &mut TerminalApp, text: &str) {
    for c in text.chars() {
        a.update(Msg::Edit(InputEvent::Key(KeyPress { code: KeyCode::Char(c), ctrl: false, alt: false })));
    }
}

fn sent(acts: &[Action]) -> Vec<&Event> {
    acts.iter()
        .filter_map(|a| match a {
            Action::Send(e) => Some(e),
            _ => None,
        })
        .collect()
}

#[test]
fn new_app_starts_idle_and_empty() {
    let a = app();
    assert_eq!(a.frame.mode, "idle");
    assert_eq!(a.input.text(), "");
    assert!(a.history.is_empty());
    assert_eq!(a.candidate, 0);
    assert_eq!((a.cols, a.rows), (80, 24));
}

#[test]
fn init_pushes_the_header_and_reports_ready() {
    let a = app();
    let acts = a.init();
    assert_eq!(acts.len(), 2);
    match &acts[0] {
        Action::Push(Block::Text { text, style, pad_top }) => {
            assert_eq!(text, "dsh");
            assert_eq!(*style, Style { fg: Some(ACCENT), bold: false });
            assert_eq!(*pad_top, 0);
        }
        _ => panic!("header expected"),
    }
    assert!(matches!(acts[1], Action::Send(Event::Ready)));
    let plain = TerminalApp::new("dsh".to_string(), 80, 24, false).init();
    match &plain[0] {
        Action::Push(Block::Text { style, .. }) => assert_eq!(*style, Style { fg: None, bold: false }),
        _ => panic!("header expected"),
    }
}

#[test]
fn committed_entries_become_styled_blocks_in_order() {
    let mut a = app();
    let mut f = frame("idle");
    f.committed = vec![
        Entry { kind: EntryKind::User, text: "hi".to_string() },
        Entry { kind: EntryKind::Assistant, text: "# Hello".to_string() },
        Entry { kind: EntryKind::Tool, text: "ran".to_string() },
        Entry { kind: EntryKind::Notice, text: "note".to_string() },
        Entry { kind: EntryKind::Error, text: "bad".to_string() },
    ];
    let acts = a.update(Msg::Frame(f));
    assert_eq!(acts.len(), 5);
    match &acts[0] {
        Action::Push(Block::Text { text, style, pad_top }) => {
            assert_eq!(text, "hi");
            assert_eq!(*style, Style { fg: Some(ACCENT), bold: true });
            assert_eq!(*pad_top, 1);
        }
        _ => panic!(),
    }
    match &acts[1] {
        Action::Push(Block::Markdown { text, theme, pad_top }) => {
            assert_eq!(text, "# Hello");
            assert_eq!(*theme, MarkdownTheme::Accent);
            assert_eq!(*pad_top, 1);
        }
        _ => panic!(),
    }
    match &acts[2] {
        Action::Push(Block::Text { style, pad_top, .. }) => {
            assert_eq!(*style, Style { fg: Some(Color::Green), bold: false });
            assert_eq!(*pad_top, 0);
        }
        _ => panic!(),
    }
    match &acts[3] {
        Action::Push(Block::Text { style, .. }) => assert_eq!(*style, Style { fg: None, bold: false }),
        _ => panic!(),
    }
    match &acts[4] {
        Action::Push(Block::Text { style, .. }) => {
            assert_eq!(*style, Style { fg: Some(Color::Red), bold: false })
        }
        _ => panic!(),
    }
    assert!(a.frame.committed.is_empty());
}

#[test]
fn committed_entries_are_plain_without_color() {
    let mut a = TerminalApp::new("dsh".to_string(), 80, 24, false);
    let mut f = frame("idle");
    f.committed = vec![
        Entry { kind: EntryKind::User, text: "hi".to_string() },
        Entry { kind: EntryKind::Assistant, text: "x".to_string() },
    ];
    let acts = a.update(Msg::Frame(f));
    match &acts[0] {
        Action::Push(Block::Text { style, .. }) => assert_eq!(*style, Style { fg: None, bold: false }),
        _ => panic!(),
    }
    match &acts[1] {
        Action::Push(Block::Markdown { theme, .. }) => assert_eq!(*theme, MarkdownTheme::Plain),
        _ => panic!(),
    }
}

#[test]
fn an_interaction_puts_the_draft_aside_and_gives_it_back() {
    let mut a = app();
    type_text(&mut a, "draft");
    a.update(Msg::EditKey(KeyCode::Home));
    let mut f = frame("interaction");
    f.interaction = Some(prompt("q1"));
    a.update(Msg::Frame(f));
    assert_eq!(a.input.text(), "");
    type_text(&mut a, "yes");
    let mut f = frame("interaction");
    f.interaction = Some(prompt("q2"));
    a.update(Msg::Frame(f));
    assert_eq!(a.input.text(), "");
    a.update(Msg::Frame(frame("running")));
    assert_eq!(a.input.text(), "draft");
    assert_eq!(a.input.cursor(), (0, 0));
    assert!(a.saved_input.is_none());
}

#[test]
fn the_same_interaction_keeps_the_answer_being_typed() {
    let mut a = app();
    let mut f = frame("interaction");
    f.interaction = Some(prompt("q1"));
    a.update(Msg::Frame(f));
    type_text(&mut a, "ye");
    let mut f = frame("interaction");
    f.interaction = Some(prompt("q1"));
    a.update(Msg::Frame(f));
    assert_eq!(a.input.text(), "ye");
}

#[test]
fn slash_lists_matching_commands() {
    let mut a = app();
    a.update(Msg::Frame(with_commands(frame("idle"), &["help", "model", "mode", "new"])));
    type_text(&mut a, "/mo");
    assert_eq!(a.completions(), vec![1, 2]);
    type_text(&mut a, " x");
    assert!(a.completions().is_empty());
}

#[test]
fn no_completions_while_a_command_runs_or_after_escape() {
    let mut a = app();
    a.update(Msg::Frame(with_commands(frame("command"), &["help"])));
    type_text(&mut a, "/h");
    assert!(a.completions().is_empty());
    let mut b = app();
    b.update(Msg::Frame(with_commands(frame("idle"), &["help"])));
    type_text(&mut b, "/h");
    assert_eq!(b.completions(), vec![0]);
    let acts = b.update(Msg::Escape);
    assert!(acts.is_empty());
    assert!(b.completions().is_empty());
    assert_eq!(b.input.text(), "/h");
}

#[test]
fn tab_completes_the_selected_command_with_a_space() {
    let mut a = app();
    a.update(Msg::Frame(with_commands(frame("idle"), &["model", "mode"])));
    type_text(&mut a, "/mo");
    a.update(Msg::History(false));
    assert_eq!(a.candidate, 1);
    a.update(Msg::Complete);
    assert_eq!(a.input.text(), "/mode ");
    assert!(a.menu_dismissed);
}

#[test]
fn enter_completes_then_submits_the_command() {
    let mut a = app();
    a.update(Msg::Frame(with_commands(frame("idle"), &["model"])));
    type_text(&mut a, "/mo");
    let acts = a.update(Msg::Submit);
    match sent(&acts)[..] {
        [Event::Submit { text, interaction_id: None }] => assert_eq!(text, "/model"),
        _ => panic!("one submit expected"),
    }
    assert_eq!(a.input.text(), "");
    assert_eq!(a.history, vec!["/model".to_string()]);
}

#[test]
fn submit_records_only_non_blank_drafts() {
    let mut a = app();
    type_text(&mut a, "hello");
    a.update(Msg::Submit);
    type_text(&mut a, "   ");
    let acts = a.update(Msg::Submit);
    match sent(&acts)[..] {
        [Event::Submit { text, .. }] => assert_eq!(text, "   "),
        _ => panic!(),
    }
    assert_eq!(a.history, vec!["hello".to_string()]);
}

#[test]
fn answers_to_an_interaction_carry_its_id_and_stay_out_of_history() {
    let mut a = app();
    let mut f = frame("interaction");
    f.interaction = Some(prompt("ask-1"));
    a.update(Msg::Frame(f));
    type_text(&mut a, "y");
    let acts = a.update(Msg::Submit);
    match sent(&acts)[..] {
        [Event::Submit { text, interaction_id: Some(id) }] => {
            assert_eq!(text, "y");
            assert_eq!(id, "ask-1");
        }
        _ => panic!(),
    }
    assert!(a.history.is_empty());
}

#[test]
fn nothing_is_submitted_while_a_command_runs() {
    let mut a = app();
    a.update(Msg::Frame(frame("command")));
    type_text(&mut a, "x");
    let acts = a.update(Msg::Submit);
    assert!(acts.is_empty());
    assert_eq!(a.input.text(), "x");
}

#[test]
fn picker_filters_case_insensitively_and_picks() {
    let mut a = app();
    let mut f = frame("idle");
    f.picker = Some(picker("models", &["GPT-5", "DeepSeek Flash", "gpt-mini"], false));
    a.update(Msg::Frame(f));
    type_text(&mut a, "gp");
    assert_eq!(a.choices(), vec![0, 2]);
    a.update(Msg::History(false));
    let acts = a.update(Msg::Submit);
    match sent(&acts)[..] {
        [Event::Pick { id, value: Some(v), save: false }] => {
            assert_eq!(id, "models");
            assert_eq!(v, "v-gpt-mini");
        }
        _ => panic!(),
    }
}

#[test]
fn saving_a_choice_needs_permission() {
    let mut a = app();
    let mut f = frame("idle");
    f.picker = Some(picker("models", &["a"], false));
    a.update(Msg::Frame(f));
    assert!(a.update(Msg::SaveChoice).is_empty());
    let mut f = frame("idle");
    f.picker = Some(picker("models", &["a"], true));
    a.update(Msg::Frame(f));
    let acts = a.update(Msg::SaveChoice);
    match sent(&acts)[..] {
        [Event::Pick { value: Some(v), save: true, .. }] => assert_eq!(v, "v-a"),
        _ => panic!(),
    }
}

#[test]
fn picking_with_no_match_sends_nothing() {
    let mut a = app();
    let mut f = frame("idle");
    f.picker = Some(picker("models", &["a"], true));
    a.update(Msg::Frame(f));
    type_text(&mut a, "zzz");
    assert!(a.choices().is_empty());
    assert!(a.update(Msg::Submit).is_empty());
}

#[test]
fn escape_cancels_a_picker_with_no_value() {
    let mut a = app();
    let mut f = frame("idle");
    f.picker = Some(picker("models", &["a"], true));
    a.update(Msg::Frame(f));
    let acts = a.update(Msg::Escape);
    match sent(&acts)[..] {
        [Event::Pick { id, value: None, save: false }] => assert_eq!(id, "models"),
        _ => panic!(),
    }
}

#[test]
fn escape_clears_when_idle_and_reports_otherwise() {
    let mut a = app();
    type_text(&mut a, "abc");
    assert!(a.update(Msg::Escape).is_empty());
    assert_eq!(a.input.text(), "");
    a.update(Msg::Frame(frame("running")));
    let acts = a.update(Msg::Escape);
    match sent(&acts)[..] {
        [Event::Escape { mode }] => assert_eq!(mode, "running"),
        _ => panic!(),
    }
}

#[test]
fn ctrl_c_clears_an_idle_draft_else_interrupts() {
    let mut a = app();
    type_text(&mut a, "abc");
    assert!(a.update(Msg::Interrupt).is_empty());
    assert_eq!(a.input.text(), "");
    let acts = a.update(Msg::Interrupt);
    match sent(&acts)[..] {
        [Event::Interrupt { mode }] => assert_eq!(mode, "idle"),
        _ => panic!(),
    }
}

#[test]
fn ctrl_d_reports_end_of_input_only_when_empty() {
    let mut a = app();
    let acts = a.update(Msg::Eof);
    match sent(&acts)[..] {
        [Event::Eof { mode }] => assert_eq!(mode, "idle"),
        _ => panic!(),
    }
    type_text(&mut a, "x");
    assert!(a.update(Msg::Eof).is_empty());
}

#[test]
fn history_walks_up_and_back_down_to_the_draft() {
    let mut a = app();
    type_text(&mut a, "first");
    a.update(Msg::Submit);
    type_text(&mut a, "second");
    a.update(Msg::Submit);
    type_text(&mut a, "dra");
    a.update(Msg::History(true));
    assert_eq!(a.input.text(), "second");
    a.update(Msg::History(true));
    assert_eq!(a.input.text(), "first");
    a.update(Msg::History(true));
    assert_eq!(a.input.text(), "first");
    a.update(Msg::History(false));
    assert_eq!(a.input.text(), "second");
    a.update(Msg::History(false));
    assert_eq!(a.input.text(), "dra");
    assert_eq!(a.history_index, None);
    a.update(Msg::History(false));
    assert_eq!(a.input.text(), "dra");
}

#[test]
fn menu_selection_wraps_around() {
    let mut a = app();
    a.update(Msg::Frame(with_commands(frame("idle"), &["a1", "a2", "a3"])));
    type_text(&mut a, "/a");
    a.update(Msg::History(true));
    assert_eq!(a.candidate, 2);
    a.update(Msg::History(false));
    assert_eq!(a.candidate, 0);
    a.update(Msg::History(false));
    a.update(Msg::History(false));
    a.update(Msg::History(false));
    assert_eq!(a.candidate, 0);
}

#[test]
fn paste_folds_line_breaks_and_never_submits() {
    let mut a = app();
    type_text(&mut a, "x");
    let acts = a.update(Msg::Edit(InputEvent::Paste("a\r\nb\nc\td".to_string())));
    assert!(acts.is_empty());
    assert_eq!(a.input.text(), "xa b c d");
    assert_eq!(a.input.cursor(), (0, 8));
}

#[test]
fn kill_line_deletes_to_either_end() {
    let mut a = app();
    type_text(&mut a, "hello world");
    for _ in 0..5 {
        a.update(Msg::EditKey(KeyCode::Left));
    }
    a.update(Msg::KillLine(false));
    assert_eq!(a.input.text(), "hello ");
    a.update(Msg::EditKey(KeyCode::Left));
    a.update(Msg::KillLine(true));
    assert_eq!(a.input.text(), " ");
    assert_eq!(a.input.cursor(), (0, 0));
}

#[test]
fn kill_word_deletes_the_word_and_trailing_space() {
    let mut a = app();
    type_text(&mut a, "say hello  ");
    a.update(Msg::KillWord);
    assert_eq!(a.input.text(), "say ");
    a.update(Msg::KillWord);
    assert_eq!(a.input.text(), "");
    a.update(Msg::KillWord);
    assert_eq!(a.input.text(), "");
}

#[test]
fn ctrl_a_and_ctrl_e_move_to_the_ends() {
    let mut a = app();
    type_text(&mut a, "abc");
    a.update(Msg::EditKey(KeyCode::Home));
    assert_eq!(a.input.cursor(), (0, 0));
    a.update(Msg::EditKey(KeyCode::End));
    assert_eq!(a.input.cursor(), (0, 3));
}

#[test]
fn resize_and_close() {
    let mut a = app();
    assert!(a.update(Msg::Resize(100, 30)).is_empty());
    assert_eq!((a.cols, a.rows), (100, 30));
    let acts = a.update(Msg::Close);
    assert!(matches!(acts[..], [Action::Exit]));
}

#[test]
fn editing_reopens_the_menu_at_the_top() {
    let mut a = app();
    a.update(Msg::Frame(with_commands(frame("idle"), &["a1", "a2"])));
    type_text(&mut a, "/a");
    a.update(Msg::History(false));
    a.update(Msg::Escape);
    assert!(a.menu_dismissed);
    type_text(&mut a, "1");
    assert!(!a.menu_dismissed);
    assert_eq!(a.candidate, 0);
    assert_eq!(a.completions(), vec![0]);
}

#[test]
fn keymap_binds_the_documented_keys() {
    let b = TerminalApp::keymap();
    assert_eq!(b.len(), 14);
    assert!(matches!(b[0].msg, Msg::Escape));
    assert_eq!(b[0].key, KeyPress { code: KeyCode::Esc, ctrl: false, alt: false });
    assert!(matches!(b[1].msg, Msg::Interrupt));
    assert_eq!(b[1].key, KeyPress { code: KeyCode::Char('c'), ctrl: true, alt: false });
    assert!(matches!(b[8].msg, Msg::KillWord));
    assert!(matches!(b[9].msg, Msg::Submit));
    assert!(b[9].scoped && !b[8].scoped);
    assert!(matches!(b[12].msg, Msg::History(false)));
    assert!(matches!(b[13].msg, Msg::CycleEffort));
    assert_eq!(b[13].key, KeyPress { code: KeyCode::BackTab, ctrl: false, alt: false });
    assert!(b[13].scoped);
}

fn shift_tab_message() -> Msg {
    let key = KeyPress { code: KeyCode::BackTab, ctrl: false, alt: false };
    TerminalApp::keymap()
        .into_iter()
        .find(|b| b.key == key)
        .map(|b| b.msg)
        .unwrap_or(Msg::Edit(InputEvent::Key(key)))
}

#[test]
fn shift_tab_asks_to_cycle_effort_and_keeps_the_draft() {
    for mode in ["idle", "running"] {
        let mut a = app();
        a.update(Msg::Frame(with_commands(frame(mode), &["model", "mode"])));
        type_text(&mut a, "/mo");
        a.update(Msg::History(false));
        a.update(Msg::EditKey(KeyCode::Left));
        let before = (a.input.text(), a.input.cursor(), a.candidate, a.menu_dismissed);
        let acts = a.update(shift_tab_message());
        assert_eq!(acts.len(), 1);
        assert!(matches!(acts[0], Action::Send(Event::CycleEffort)));
        assert_eq!((a.input.text(), a.input.cursor(), a.candidate, a.menu_dismissed), before);
        assert_eq!(a.completions(), vec![0, 1]);
    }
}

#[test]
fn shift_tab_does_nothing_in_a_picker_a_prompt_or_a_command() {
    let mut f = frame("idle");
    f.picker = Some(picker("m", &["a", "b"], false));
    let mut g = frame("interaction");
    g.interaction = Some(prompt("q1"));
    for f in [f, g, frame("command")] {
        let mut a = app();
        a.update(Msg::Frame(f));
        type_text(&mut a, "ab");
        let before = (a.input.text(), a.input.cursor(), a.candidate, a.menu_dismissed);
        let acts = a.update(shift_tab_message());
        assert!(acts.is_empty());
        assert_eq!((a.input.text(), a.input.cursor(), a.candidate, a.menu_dismissed), before);
    }
}

#[test]
fn no_color_turns_colors_off_unless_empty() {
    assert!(dsh_tui::terminal::colors_enabled(None));
    assert!(dsh_tui::terminal::colors_enabled(Some("")));
    assert!(!dsh_tui::terminal::colors_enabled(Some("1")));
}

#[test]
fn up_then_down_through_history_restores_the_whole_state() {
    let mut a = app();
    type_text(&mut a, "old");
    a.update(Msg::Submit);
    a.update(Msg::Frame(frame("command")));
    type_text(&mut a, "x");
    a.update(Msg::EditKey(KeyCode::Home));
    a.update(Msg::History(true));
    assert_eq!(a.input.text(), "old");
    a.update(Msg::History(false));
    assert_eq!(a.input.text(), "x");
    assert_eq!(a.input.cursor(), (0, 0));
    assert!(a.history_index.is_none() && a.history_draft.is_none());
}

#[test]
fn a_longer_search_only_narrows_the_choices() {
    let mut a = app();
    let mut f = frame("idle");
    f.picker = Some(picker("models", &["GPT-5", "gpt-mini", "DeepSeek", "Mini GPT"], false));
    a.update(Msg::Frame(f));
    let mut shown = a.choices();
    assert_eq!(shown, vec![0, 1, 2, 3]);
    for c in "gpT-m".chars() {
        type_text(&mut a, &c.to_string());
        let now = a.choices();
        assert!(now.iter().all(|i| shown.contains(i)));
        shown = now;
    }
    assert_eq!(shown, vec![1]);
}

#[test]
fn drafts_stay_on_one_line_through_any_messages() {
    let mut a = app();
    a.update(Msg::Frame(with_commands(frame("idle"), &["model", "mode"])));
    a.update(Msg::Edit(InputEvent::Paste("one\ntwo\r\nthree".to_string())));
    a.update(Msg::EditKey(KeyCode::Enter));
    a.update(Msg::Submit);
    type_text(&mut a, "/mo");
    a.update(Msg::Complete);
    a.update(Msg::Submit);
    a.update(Msg::History(true));
    a.update(Msg::History(true));
    a.update(Msg::Edit(InputEvent::Paste("\n".to_string())));
    a.update(Msg::KillWord);
    a.update(Msg::EditKey(KeyCode::Down));
    a.update(Msg::Edit(InputEvent::Key(KeyPress { code: KeyCode::Char('\n'), ctrl: false, alt: false })));
    let mut f = frame("interaction");
    f.interaction = Some(prompt("q1"));
    a.update(Msg::Frame(f));
    a.update(Msg::Edit(InputEvent::Paste("x\ny".to_string())));
    a.update(Msg::Frame(frame("idle")));
    assert!(!a.input.text().contains('\n'));
    assert_eq!(a.input.cursor().0, 0);
    assert!(a.history.iter().all(|h| !h.contains('\n')));
    assert_eq!(a.history, vec!["one two three".to_string(), "/model ".to_string()]);
}
