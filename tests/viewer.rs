use centauri::app::{App, Key, KeyEvent, Mode, ViewState};
use centauri::line::{gutter_text, gutter_width};
use centauri::highlight::{StyleTag, Theme};
use centauri::line::Span;
use centauri::viewport::{max_down, scroll_down, scroll_up, visible_range};

fn press(code: Key) -> KeyEvent {
    KeyEvent { code, accelerate: false, press: true }
}

fn fast(code: Key) -> KeyEvent {
    KeyEvent { code, accelerate: true, press: true }
}

fn doc(n: usize) -> String {
    (0..n).map(|i| format!("line {}\n", i)).collect()
}

#[test]
fn scroll_down_is_clamped() {
    assert_eq!(max_down(3, 10), 0);
    assert_eq!(max_down(50, 10), 40);
    assert_eq!(scroll_down(0, 1, 3, 10), 0);
    assert_eq!(scroll_down(38, 5, 50, 10), 38);
    assert_eq!(scroll_down(35, 5, 50, 10), 40);
    assert_eq!(scroll_down(0, usize::MAX, usize::MAX, 0), usize::MAX);
}

#[test]
fn scroll_up_stops_at_zero() {
    assert_eq!(scroll_up(3, 5), 0);
    assert_eq!(scroll_up(7, 5), 2);
    assert_eq!(scroll_up(0, 1), 0);
}

#[test]
fn visible_range_cases() {
    assert_eq!(visible_range(0, 10, 3), (0, 3));
    assert_eq!(visible_range(5, 10, 50), (5, 15));
    assert_eq!(visible_range(45, 10, 50), (45, 50));
    assert_eq!(visible_range(60, 10, 50), (50, 50));
}

#[test]
fn repeated_scrolling_stays_in_bounds() {
    let mut app = App::new(&doc(23), None, Theme::Dark, 10);
    for _ in 0..40 {
        app.handle_key_event(fast(Key::Down));
        assert!(app.row() <= 13);
    }
    assert_eq!(app.row(), 10);
    app.handle_key_event(press(Key::Down));
    app.handle_key_event(press(Key::Down));
    app.handle_key_event(press(Key::Down));
    assert_eq!(app.row(), 13);
    for _ in 0..40 {
        app.handle_key_event(fast(Key::Up));
    }
    assert_eq!(app.row(), 0);
}

#[test]
fn insert_twice_stays_insert() {
    let mut app = App::new("a", None, Theme::Dark, 10);
    app.handle_key_event(press(Key::Char('i')));
    assert_eq!(app.mode(), Mode::Insert);
    app.handle_key_event(press(Key::Char('i')));
    assert_eq!(app.mode(), Mode::Insert);
    app.handle_key_event(press(Key::Esc));
    assert_eq!(app.mode(), Mode::Normal);
    app.handle_key_event(press(Key::Esc));
    assert_eq!(app.mode(), Mode::Normal);
    assert!(!app.is_exited());
}

#[test]
fn quit_blocked_in_insert() {
    let mut app = App::new("a", None, Theme::Dark, 10);
    app.handle_key_event(press(Key::Char('i')));
    app.handle_key_event(press(Key::Char('q')));
    assert!(!app.is_exited());
    app.handle_key_event(press(Key::Esc));
    app.handle_key_event(press(Key::Char('q')));
    assert!(app.is_exited());

    let mut app = App::new("a", None, Theme::Dark, 10);
    app.handle_key_event(press(Key::Char('q')));
    assert!(app.is_exited());
}

#[test]
fn three_line_document_never_scrolls() {
    let mut app = App::new("fn main() {\n    let x = 1;\n}", None, Theme::Dark, 10);
    assert_eq!(app.total_lines(), 3);
    for _ in 0..5 {
        app.handle_key_event(press(Key::Down));
        app.handle_key_event(fast(Key::Down));
    }
    assert_eq!(app.row(), 0);
    let lines = app.visible_lines();
    assert_eq!(lines.len(), 3);
    assert_eq!(
        lines.iter().map(|l| l.line_number).collect::<Vec<_>>(),
        vec![1, 2, 3]
    );
    assert_eq!(lines[1].spans[8], Span { start: 4, end: 7, tag: Some(StyleTag::Keyword) });
    assert_eq!(lines[1].spans[10], Span { start: 8, end: 9, tag: Some(StyleTag::BoundName) });
    assert_eq!(lines[2].spans, vec![Span { start: 0, end: 1, tag: None }]);
}

#[test]
fn move_speed_follows_modifier() {
    let mut app = App::new(&doc(100), None, Theme::Light, 10);
    app.handle_key_event(fast(Key::Down));
    assert_eq!(app.state.move_speed, 5);
    assert_eq!(app.row(), 5);
    app.handle_key_event(press(Key::Down));
    assert_eq!(app.state.move_speed, 1);
    assert_eq!(app.row(), 6);
    app.handle_key_event(press(Key::Other));
    assert_eq!(app.row(), 6);
}

#[test]
fn release_events_are_ignored() {
    let mut app = App::new(&doc(100), None, Theme::Dark, 10);
    app.handle_event(KeyEvent { code: Key::Down, accelerate: true, press: false });
    assert_eq!(app.row(), 0);
    assert_eq!(app.state.move_speed, 1);
    app.handle_event(KeyEvent { code: Key::Char('q'), accelerate: false, press: false });
    assert!(!app.is_exited());
    app.handle_event(press(Key::Down));
    assert_eq!(app.row(), 1);
}

#[test]
fn run_stops_at_quit() {
    let mut app = App::new(&doc(100), None, Theme::Dark, 10);
    let events = vec![
        press(Key::Down),
        press(Key::Char('i')),
        press(Key::Char('q')),
        press(Key::Esc),
        press(Key::Char('q')),
        press(Key::Down),
    ];
    assert_eq!(app.run(&events), 5);
    assert!(app.is_exited());
    assert_eq!(app.row(), 1);

    let mut app = App::new(&doc(100), None, Theme::Dark, 10);
    assert_eq!(app.run(&vec![press(Key::Down), fast(Key::Down)]), 2);
    assert!(!app.is_exited());
    assert_eq!(app.row(), 6);
}

#[test]
fn exit_marks_quit() {
    let mut app = App::new("", None, Theme::Dark, 10);
    app.exit();
    assert!(app.is_exited());
    assert_eq!(app.mode(), Mode::Normal);
}

#[test]
fn new_splits_lines() {
    let app = App::new("a\nb c\r\n\nd\n", Some("x.rs".to_string()), Theme::Light, 4);
    assert_eq!(app.total_lines(), 4);
    assert_eq!(app.lines, vec!["a", "b c", "", "d"]);
    assert_eq!(app.theme(), Theme::Light);
    assert_eq!(app.title_name(), "x.rs");
    assert_eq!(
        app.state,
        ViewState { row: 0, mode: Mode::Normal, move_speed: 1, exited: false }
    );
    let empty = App::new("", None, Theme::Dark, 4);
    assert_eq!(empty.total_lines(), 0);
    assert_eq!(empty.title_name(), "<NEW FILE>");
    assert!(empty.visible_lines().is_empty());
}

#[test]
fn gutter_widths() {
    assert_eq!(gutter_width(0), 1);
    assert_eq!(gutter_width(9), 1);
    assert_eq!(gutter_width(10), 2);
    assert_eq!(gutter_width(100), 3);
    assert_eq!(gutter_width(usize::MAX), 20);
    assert_eq!(App::new(&doc(12), None, Theme::Dark, 4).gutter_width(), 2);
}

#[test]
fn window_after_scroll() {
    let mut app = App::new(&doc(30), None, Theme::Dark, 10);
    app.handle_key_event(fast(Key::Down));
    app.handle_key_event(fast(Key::Down));
    let lines = app.visible_lines();
    assert_eq!(lines.len(), 10);
    assert_eq!(lines[0].line_number, 11);
    assert_eq!(lines[9].line_number, 20);
}

#[test]
fn shrinking_document_window_clamps_offset() {
    let mut app = App::new(&doc(30), None, Theme::Dark, 10);
    app.run(&vec![fast(Key::Down); 4]);
    assert_eq!(app.row(), 20);
    app.set_height(25);
    assert_eq!(app.row(), 5);
    app.set_height(40);
    assert_eq!(app.row(), 0);
    app.set_height(5);
    assert_eq!(app.row(), 0);
}

fn text(v: Vec<char>) -> String {
    v.into_iter().collect()
}

#[test]
fn gutter_texts() {
    assert_eq!(text(gutter_text(7, 1)), " 7 | ");
    assert_eq!(text(gutter_text(7, 3)), "   7 | ");
    assert_eq!(text(gutter_text(120, 3)), " 120 | ");
    assert_eq!(text(gutter_text(1234, 2)), " 1234 | ");
    assert_eq!(text(gutter_text(0, 0)), " 0 | ");
    assert_eq!(text(gutter_text(42, 5)), format!(" {:5} | ", 42));
}
