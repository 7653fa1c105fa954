use dsh_tui::draft::{InputEvent, KeyCode, KeyPress};
use dsh_tui::probe::{FrameUpdate, Probe, ProbeAction, ProbeCommand, ProbeMsg};

fn pushed(acts: &[ProbeAction]) -> Vec<String> {
    acts.iter()
        .filter_map(|a| match a {
            ProbeAction::Push(t) => Some(t.clone()),
            _ => None,
        })
        .collect()
}

fn items(v: &[&str]) -> ProbeMsg {
    ProbeMsg::Command(ProbeCommand {
        id: Some(7),
        action: None,
        state: Some(FrameUpdate {
            items: Some(v.iter().map(|s| s.to_string()).collect()),
            frame: Some(2),
            fail: None,
        }),
    })
}

#[test]
fn items_are_pushed_once_and_acknowledged() {
    let mut p = Probe::new();
    let acts = p.update(items(&["DONE00", "DONE01"]));
    assert_eq!(pushed(&acts), vec!["DONE00".to_string(), "DONE01".to_string()]);
    assert!(matches!(acts.last(), Some(ProbeAction::Ack(7))));
    assert_eq!(p.committed, 2);
    assert_eq!(p.frame, 2);
    let acts = p.update(items(&["DONE00", "DONE01", "DONE02"]));
    assert_eq!(pushed(&acts), vec!["DONE02".to_string()]);
}

#[test]
fn close_exits_with_zero() {
    let mut p = Probe::new();
    let acts = p.update(ProbeMsg::Command(ProbeCommand {
        id: Some(1),
        action: Some("close".to_string()),
        state: None,
    }));
    assert!(matches!(acts[..], [ProbeAction::Exit(0)]));
}

#[test]
fn fail_flag_is_taken_from_the_state() {
    let mut p = Probe::new();
    p.update(ProbeMsg::Command(ProbeCommand {
        id: None,
        action: None,
        state: Some(FrameUpdate { items: None, frame: None, fail: Some(true) }),
    }));
    assert!(p.fail);
}

#[test]
fn submit_pushes_the_input() {
    let mut p = Probe::new();
    for c in "ok".chars() {
        p.update(ProbeMsg::Edit(InputEvent::Key(KeyPress { code: KeyCode::Char(c), ctrl: false, alt: false })));
    }
    p.update(ProbeMsg::Edit(InputEvent::Paste("a\r\nb\tc".to_string())));
    let acts = p.update(ProbeMsg::Submit);
    assert_eq!(pushed(&acts), vec!["INPUT:oka b\tc".to_string()]);
    assert_eq!(p.input.text(), "");
}

#[test]
fn quit_and_resize() {
    let mut p = Probe::new();
    assert!(p.update(ProbeMsg::Resize(12, 5)).is_empty());
    assert_eq!((p.columns, p.rows), (12, 5));
    assert!(matches!(p.update(ProbeMsg::Quit(143))[..], [ProbeAction::Exit(143)]));
}

#[test]
fn live_lines_fit_the_terminal() {
    let mut p = Probe::new();
    p.frame = 3;
    assert_eq!(p.tail(), vec!["LIVE3:0", "LIVE3:1", "LIVE3:2"]);
    p.columns = 5;
    assert_eq!(p.tail(), vec!["LIVE3", "LIVE3", "LIVE3"]);
    p.rows = 3;
    assert_eq!(p.tail().len(), 1);
    p.rows = 1;
    assert!(p.tail().is_empty());
}

#[test]
fn probe_keymap() {
    let k = Probe::keymap();
    assert_eq!(k.len(), 3);
    assert!(matches!(k[0].msg, ProbeMsg::Quit(130)));
    assert!(matches!(k[1].msg, ProbeMsg::Quit(0)));
    assert!(matches!(k[2].msg, ProbeMsg::Submit) && k[2].scoped);
}
