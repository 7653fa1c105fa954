use dsh_tui::draft::{InputEvent, KeyCode, KeyPress};
use dsh_tui::tail::Row;
use dsh_tui::terminal::{Color, Command, Frame, Msg, Picker, PickerItem, Prompt, Style, TerminalApp};

const ACCENT: Color = Color::Rgb(0x8b, 0xa4, 0xe8);
const MUTED: Color = Color::Rgb(0x80, 0x80, 0x80);

fn st(c: Color) -> Style {
    Style { fg: Some(c), bold: false }
}

fn rule(n: usize) -> String {
    "─".repeat(n)
}

fn line(r: &Row) -> (&str, Style) {
    match r {
        Row::Line { text, style } => (text.as_str(), *style),
        _ => panic!("a line was expected"),
    }
}

fn split(r: &Row) -> (&str, u16, &str, u16, Style) {
    match r {
        Row::Split { left, gap, right, right_width, style } => {
            (left.as_str(), *gap, right.as_str(), *right_width, *style)
        }
        _ => panic!("a split row was expected"),
    }
}

fn type_text(a: &mut TerminalApp, text: &str) {
    for c in text.chars() {
        a.update(Msg::Edit(InputEvent::Key(KeyPress { code: KeyCode::Char(c), ctrl: false, alt: false })));
    }
}

fn with_frame(a: &mut TerminalApp, f: impl FnOnce(&mut Frame)) {
    let mut frame = Frame::idle();
    f(&mut frame);
    a.update(Msg::Frame(frame));
}

fn height(rows: &[Row]) -> usize {
    rows.iter()
        .map(|r| match r {
            Row::Active { height, .. } => *height as usize,
            _ => 1,
        })
        .sum()
}

#[test]
fn idle_tail_in_a_normal_terminal() {
    let a = TerminalApp::new("dsh".to_string(), 80, 24, true);
    let rows = a.tail();
    assert_eq!(rows.len(), 6);
    match &rows[0] {
        Row::Active { text, height } => {
            assert_eq!(text, "");
            assert_eq!(*height, 3);
        }
        _ => panic!(),
    }
    assert_eq!(line(&rows[1]), (format!("─ Idle {}", rule(73)).as_str(), st(ACCENT)));
    assert!(matches!(rows[2], Row::Input));
    assert_eq!(line(&rows[3]), (rule(80).as_str(), st(ACCENT)));
    assert_eq!(split(&rows[4]), ("", 0, "", 0, st(MUTED)));
    assert_eq!(split(&rows[5]), ("", 1, " · ", 3, st(MUTED)));
    assert_eq!(height(&rows), 8);
}

#[test]
fn command_menu_shows_matches_with_the_selection() {
    let mut a = TerminalApp::new("dsh".to_string(), 40, 24, true);
    with_frame(&mut a, |f| {
        f.commands = ["model", "mode", "help"]
            .iter()
            .map(|n| Command { name: n.to_string(), description: format!("about {n}") })
            .collect();
    });
    type_text(&mut a, "/mo");
    let rows = a.tail();
    assert_eq!(height(&rows), 10);
    let heading = "─ Commands · 1/2 ";
    assert_eq!(line(&rows[1]).0, format!("{heading}{}", rule(40 - 17)));
    assert!(matches!(rows[2], Row::Input));
    assert_eq!(line(&rows[4]), ("> /model — about model", st(ACCENT)));
    assert_eq!(line(&rows[5]), ("  /mode — about mode", st(Color::Reset)));
    assert_eq!(split(&rows[7]).0, "Tab complete · Enter run · Esc close");
}

#[test]
fn short_terminals_keep_the_input_first() {
    let a = TerminalApp::new("dsh".to_string(), 20, 3, true);
    let rows = a.tail();
    assert_eq!(rows.len(), 2);
    assert!(matches!(rows[0], Row::Input));
    assert!(matches!(rows[1], Row::Split { .. }));

    let mut b = TerminalApp::new("dsh".to_string(), 20, 3, true);
    with_frame(&mut b, |f| {
        f.commands = vec![Command { name: "x1".to_string(), description: String::new() }];
    });
    type_text(&mut b, "/x");
    let rows = b.tail();
    assert_eq!(rows.len(), 2);
    assert!(matches!(rows[0], Row::Input));
    assert_eq!(line(&rows[1]).0, rule(20));

    let mut c = TerminalApp::new("dsh".to_string(), 20, 5, true);
    with_frame(&mut c, |f| {
        f.commands = vec![
            Command { name: "x1".to_string(), description: "d".to_string() },
            Command { name: "x2".to_string(), description: "d".to_string() },
        ];
    });
    type_text(&mut c, "/x");
    let rows = c.tail();
    assert_eq!(rows.len(), 4);
    assert!(matches!(rows[0], Row::Input));
    assert_eq!(line(&rows[1]).0, rule(20));
    assert_eq!(line(&rows[2]).0, "> /x1 — d");
    assert!(matches!(rows[3], Row::Split { .. }));
}

#[test]
fn one_row_terminal_shows_only_the_input() {
    let a = TerminalApp::new("dsh".to_string(), 20, 1, false);
    let rows = a.tail();
    assert_eq!(rows.len(), 1);
    assert!(matches!(rows[0], Row::Input));
}

#[test]
fn footer_and_context_fit_a_narrow_terminal() {
    let mut a = TerminalApp::new("dsh".to_string(), 10, 24, true);
    with_frame(&mut a, |f| {
        f.mode = "running".to_string();
        f.activity = "thinking".to_string();
        f.stats = "12k tok".to_string();
        f.model = "deepseek-flash".to_string();
        f.effort = "high".to_string();
        f.preset = "default".to_string();
        f.extensions = 3;
        f.cwd = "~/src".to_string();
        f.active = "partial".to_string();
    });
    let rows = a.tail();
    let border = st(Color::Rgb(0xb2, 0x94, 0xbb));
    match &rows[0] {
        Row::Active { text, height } => {
            assert_eq!(text, "partial");
            assert_eq!(*height, 3);
        }
        _ => panic!(),
    }
    assert_eq!(line(&rows[1]), ("─ Thinking ", border));
    assert_eq!(line(&rows[3]), (rule(10).as_str(), border));
    assert_eq!(split(&rows[4]), ("~/src", 0, "…t default", 10, st(MUTED)));
    assert_eq!(split(&rows[5]), ("12k tok · Esc to stop", 0, "…sh · high", 10, st(MUTED)));
}

#[test]
fn effort_colors_follow_the_theme() {
    let cases = [
        ("off", Color::Rgb(0x50, 0x50, 0x50)),
        ("none", Color::Rgb(0x50, 0x50, 0x50)),
        ("minimal", Color::Rgb(0x6e, 0x6e, 0x6e)),
        ("low", Color::Rgb(0x5f, 0x87, 0xaf)),
        ("medium", Color::Rgb(0x81, 0xa2, 0xbe)),
        ("xhigh", Color::Rgb(0xd1, 0x83, 0xe8)),
        ("max", Color::Rgb(0xff, 0x5f, 0xff)),
        ("other", ACCENT),
    ];
    for (effort, color) in cases {
        let mut a = TerminalApp::new("dsh".to_string(), 40, 24, true);
        with_frame(&mut a, |f| f.effort = effort.to_string());
        let rows = a.tail();
        assert_eq!(line(&rows[3]).1, st(color));
    }
    let a = TerminalApp::new("dsh".to_string(), 40, 24, false);
    assert_eq!(line(&a.tail()[3]).1, Style { fg: None, bold: false });
}

#[test]
fn picker_menu_scrolls_to_the_selection() {
    let mut a = TerminalApp::new("dsh".to_string(), 40, 7, true);
    with_frame(&mut a, |f| {
        f.picker = Some(Picker {
            id: "p".to_string(),
            items: (1..=5)
                .map(|i| PickerItem { value: format!("v{i}"), label: format!("item {i}") })
                .collect(),
            title: "Models".to_string(),
            hint: "Enter select".to_string(),
            empty: "No match".to_string(),
            allow_save: false,
        });
    });
    // Rows 7: height 6, footer 1, one menu row, chrome 3.
    a.update(Msg::History(false));
    a.update(Msg::History(false));
    let rows = a.tail();
    assert_eq!(height(&rows), 6);
    assert_eq!(line(&rows[0]).0, format!("─ Models · 3/5 {}", rule(40 - 15)));
    assert!(matches!(rows[1], Row::Input));
    assert_eq!(line(&rows[3]), ("> item 3", st(ACCENT)));
    assert_eq!(split(&rows[5]).0, "Enter select");
}

#[test]
fn an_empty_picker_shows_its_empty_text() {
    let mut a = TerminalApp::new("dsh".to_string(), 40, 24, true);
    with_frame(&mut a, |f| {
        f.picker = Some(Picker {
            id: "p".to_string(),
            items: vec![],
            title: "Models".to_string(),
            hint: String::new(),
            empty: "No match".to_string(),
            allow_save: false,
        });
    });
    let rows = a.tail();
    assert_eq!(line(&rows[1]).0, format!("─ Models · 0/0 {}", rule(40 - 15)));
    assert_eq!(line(&rows[4]), ("No match", st(ACCENT)));
}

#[test]
fn an_interaction_shows_its_hint() {
    let mut a = TerminalApp::new("dsh".to_string(), 40, 24, true);
    with_frame(&mut a, |f| {
        f.mode = "interaction".to_string();
        f.stats = "1k".to_string();
        f.interaction = Some(Prompt { id: "q".to_string(), hint: "y to allow".to_string() });
    });
    let rows = a.tail();
    assert_eq!(line(&rows[1]).0, format!("─ Input {}", rule(40 - 8)));
    assert_eq!(split(&rows[5]).0, "y to allow");
}

#[test]
fn tall_terminals_cap_the_live_area() {
    for rows in [2u16, 4, 9, 10, 50] {
        let a = TerminalApp::new("dsh".to_string(), 30, rows, true);
        let expected = (rows as usize - 1).clamp(1, 8);
        assert_eq!(height(&a.tail()), expected);
    }
}
