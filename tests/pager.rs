use burden::collect::Diagnostic;
use burden::pager::{
    command_of, viewport_height, viewport_rows, Action, Command, KeyName, KeyPress, NavState,
    Pager,
};

fn buffer(n: usize) -> Vec<Diagnostic> {
    (0..n).map(|i| Diagnostic::new(&format!("diagnostic {}\ndetail", i))).collect()
}

fn numbered(n: usize) -> Diagnostic {
    let text: Vec<String> = (1..=n).map(|i| format!("line {}", i)).collect();
    Diagnostic::new(&text.join("\n"))
}

fn key(code: KeyName) -> KeyPress {
    KeyPress { code, control: false, press: true }
}

#[test]
fn scenario_next_twice_reaches_last() {
    let mut p = Pager::new(buffer(3)).unwrap();
    assert_eq!(p.handle(Command::Next), Action::Redraw);
    assert_eq!(p.handle(Command::Next), Action::Redraw);
    assert_eq!(p.state(), NavState { current_index: 2, scroll_offset: 0 });
    assert_eq!(p.frame(10).header(), "Displaying Message 3 of 3");
}

#[test]
fn scenario_scroll_down_six_times() {
    let mut p = Pager::new(vec![numbered(50)]).unwrap();
    for _ in 0..6 {
        assert_eq!(p.handle(Command::ScrollDown), Action::Redraw);
    }
    assert_eq!(p.state().scroll_offset, 6);
    let f = p.frame(10);
    let expected: Vec<String> = (7..=16).map(|i| format!("line {}", i)).collect();
    assert_eq!(f.body, expected);
    assert_eq!(f.header(), "Displaying Message 1 of 1");
}

#[test]
fn scenario_empty_buffer_gives_no_pager() {
    assert!(Pager::new(Vec::new()).is_none());
}

#[test]
fn scenario_interrupt_exits_and_keeps_state() {
    let mut p = Pager::new(buffer(4)).unwrap();
    p.handle(Command::Next);
    p.handle(Command::ScrollDown);
    let before = p.state();
    let frame_before = p.frame(8).body;
    let ctrl_c = KeyPress { code: KeyName::Char('c'), control: true, press: true };
    assert_eq!(p.handle_key(ctrl_c), Action::Exit);
    assert_eq!(p.state(), before);
    assert_eq!(p.frame(8).body, frame_before);
    assert_eq!(p.len(), 4);
}

#[test]
fn escape_exits() {
    let mut p = Pager::new(buffer(2)).unwrap();
    assert_eq!(p.handle_key(key(KeyName::Esc)), Action::Exit);
}

#[test]
fn previous_at_first_is_noop() {
    let mut p = Pager::new(buffer(3)).unwrap();
    assert_eq!(p.handle(Command::Previous), Action::Stay);
    assert_eq!(p.state(), NavState { current_index: 0, scroll_offset: 0 });
}

#[test]
fn next_at_last_is_noop() {
    let mut p = Pager::new(buffer(3)).unwrap();
    p.handle(Command::Last);
    p.handle(Command::ScrollDown);
    assert_eq!(p.handle(Command::Next), Action::Stay);
    assert_eq!(p.state(), NavState { current_index: 2, scroll_offset: 1 });
}

#[test]
fn first_and_last_land_on_ends_and_reset_scroll() {
    let mut p = Pager::new(buffer(5)).unwrap();
    p.handle(Command::Next);
    p.handle(Command::ScrollDown);
    p.handle(Command::ScrollDown);
    assert_eq!(p.handle(Command::Last), Action::Redraw);
    assert_eq!(p.state(), NavState { current_index: 4, scroll_offset: 0 });
    p.handle(Command::ScrollDown);
    assert_eq!(p.handle(Command::First), Action::Redraw);
    assert_eq!(p.state(), NavState { current_index: 0, scroll_offset: 0 });
    assert_eq!(p.handle(Command::First), Action::Stay);
}

#[test]
fn scroll_up_at_zero_is_noop() {
    let mut p = Pager::new(buffer(1)).unwrap();
    assert_eq!(p.handle(Command::ScrollUp), Action::Stay);
    assert_eq!(p.state().scroll_offset, 0);
    p.handle(Command::ScrollDown);
    assert_eq!(p.handle(Command::ScrollUp), Action::Redraw);
    assert_eq!(p.state().scroll_offset, 0);
}

#[test]
fn moving_resets_scroll() {
    let mut p = Pager::new(buffer(3)).unwrap();
    for _ in 0..5 {
        p.handle(Command::ScrollDown);
    }
    p.handle(Command::Next);
    assert_eq!(p.state(), NavState { current_index: 1, scroll_offset: 0 });
    p.handle(Command::ScrollDown);
    p.handle(Command::Previous);
    assert_eq!(p.state(), NavState { current_index: 0, scroll_offset: 0 });
}

#[test]
fn redraw_is_idempotent() {
    let mut p = Pager::new(buffer(3)).unwrap();
    p.handle(Command::Next);
    let a = p.frame(6);
    let b = p.frame(6);
    assert_eq!(a.position, b.position);
    assert_eq!(a.total, b.total);
    assert_eq!(a.body, b.body);
    assert_eq!(a.header(), b.header());
}

#[test]
fn scroll_past_end_shows_blank_rows() {
    let mut p = Pager::new(vec![numbered(3)]).unwrap();
    for _ in 0..5 {
        p.handle(Command::ScrollDown);
    }
    assert_eq!(p.frame(4).body, vec!["", "", "", ""]);
    assert_eq!(p.handle(Command::ScrollUp), Action::Redraw);
    assert_eq!(p.state().scroll_offset, 4);
}

#[test]
fn short_text_is_padded_with_blank_rows() {
    let d = numbered(2);
    assert_eq!(viewport_rows(&d, 0, 4), vec!["line 1", "line 2", "", ""]);
    assert_eq!(viewport_rows(&d, 1, 2), vec!["line 2", ""]);
    assert!(viewport_rows(&d, 0, 0).is_empty());
}

#[test]
fn viewport_height_reserves_rows_and_clamps() {
    assert_eq!(viewport_height(24), 20);
    assert_eq!(viewport_height(5), 1);
    assert_eq!(viewport_height(3), 1);
    assert_eq!(viewport_height(0), 1);
}

#[test]
fn keys_decode_to_commands() {
    assert_eq!(command_of(key(KeyName::Left)), Command::Previous);
    assert_eq!(command_of(key(KeyName::Right)), Command::Next);
    assert_eq!(command_of(key(KeyName::Up)), Command::ScrollUp);
    assert_eq!(command_of(key(KeyName::Down)), Command::ScrollDown);
    assert_eq!(command_of(key(KeyName::Home)), Command::First);
    assert_eq!(command_of(key(KeyName::End)), Command::Last);
    assert_eq!(command_of(key(KeyName::Esc)), Command::Quit);
    assert_eq!(command_of(key(KeyName::Char('c'))), Command::Ignore);
    assert_eq!(command_of(key(KeyName::Other)), Command::Ignore);
}

#[test]
fn control_keys_other_than_c_are_ignored() {
    let ctrl_left = KeyPress { code: KeyName::Left, control: true, press: true };
    assert_eq!(command_of(ctrl_left), Command::Ignore);
    let ctrl_c = KeyPress { code: KeyName::Char('c'), control: true, press: true };
    assert_eq!(command_of(ctrl_c), Command::Quit);
}

#[test]
fn released_keys_are_ignored() {
    let release = KeyPress { code: KeyName::Esc, control: false, press: false };
    assert_eq!(command_of(release), Command::Ignore);
}

#[test]
fn ignored_key_keeps_state() {
    let mut p = Pager::new(buffer(2)).unwrap();
    p.handle(Command::ScrollDown);
    assert_eq!(p.handle_key(key(KeyName::Char('x'))), Action::Stay);
    assert_eq!(p.state(), NavState { current_index: 0, scroll_offset: 1 });
}

#[test]
fn step_matches_state_machine() {
    let s = NavState { current_index: 1, scroll_offset: 3 };
    assert_eq!(s.step(Command::Previous, 3), NavState { current_index: 0, scroll_offset: 0 });
    assert_eq!(s.step(Command::ScrollUp, 3), NavState { current_index: 1, scroll_offset: 2 });
    assert_eq!(s.step(Command::Quit, 3), s);
    let top = NavState { current_index: 0, scroll_offset: usize::MAX };
    assert_eq!(top.step(Command::ScrollDown, 1), top);
}
