use todo_tui::menu::{menu_line, menu_line_pieces, menu_lines, menu_step, step_allowed, Key, MenuEvent, MenuStep};
use todo_tui::paint::{render, Piece, Tint};

fn key(code: Key) -> MenuEvent {
    MenuEvent::Key { code, modifiers: 0 }
}

#[test]
fn up_and_down_move_within_bounds() {
    assert_eq!(menu_step(0, 3, key(Key::Up)), MenuStep::Moved { index: 0 });
    assert_eq!(menu_step(2, 3, key(Key::Up)), MenuStep::Moved { index: 1 });
    assert_eq!(menu_step(0, 3, key(Key::Down)), MenuStep::Moved { index: 1 });
    assert_eq!(menu_step(2, 3, key(Key::Down)), MenuStep::Moved { index: 2 });
}

#[test]
fn up_then_down_returns() {
    let up = menu_step(1, 3, key(Key::Up));
    assert_eq!(up, MenuStep::Moved { index: 0 });
    assert_eq!(menu_step(0, 3, key(Key::Down)), MenuStep::Moved { index: 1 });
}

#[test]
fn other_events_choose() {
    assert_eq!(menu_step(1, 3, key(Key::Enter)), MenuStep::Chosen { index: 1 });
    assert_eq!(menu_step(1, 3, key(Key::Other)), MenuStep::Chosen { index: 1 });
    assert_eq!(menu_step(1, 3, MenuEvent::Other), MenuStep::Chosen { index: 1 });
    // Arrows with a modifier held choose too.
    assert_eq!(menu_step(1, 3, MenuEvent::Key { code: Key::Up, modifiers: 1 }), MenuStep::Chosen { index: 1 });
    assert_eq!(menu_step(1, 3, MenuEvent::Key { code: Key::Down, modifiers: 2 }), MenuStep::Chosen { index: 1 });
}

#[test]
fn every_event_keeps_the_highlight_in_range() {
    let events = [
        key(Key::Up),
        key(Key::Down),
        key(Key::Enter),
        MenuEvent::Other,
        MenuEvent::Key { code: Key::Up, modifiers: 4 },
    ];
    for len in 1..5usize {
        for sel in 0..len {
            for ev in events.iter() {
                match menu_step(sel, len, *ev) {
                    MenuStep::Moved { index } | MenuStep::Chosen { index } => assert!(index < len),
                }
            }
        }
    }
}

#[test]
fn unhighlighted_lines_are_the_items() {
    assert_eq!(menu_line("About", false), "About");
    let items = vec!["A".to_string(), "Bee".to_string(), "C".to_string()];
    let lines = menu_lines(&items, 1);
    assert_eq!(lines.len(), 3);
    assert_eq!(lines[0], "A");
    assert_eq!(lines[2], "C");
}

#[test]
fn highlighted_line_is_marked_and_styled() {
    let line = menu_line("Create", true);
    let coloured = "> \u{1b}[38;5;10m\u{1b}[1mCreate\u{1b}[0m";
    let uncoloured = "> \u{1b}[m\u{1b}[1mCreate\u{1b}[0m";
    // Without NO_COLOR the colour is written; with it, left out.
    assert!(line == coloured || line == uncoloured, "{:?}", line);
}

#[test]
fn highlighted_pieces_are_marker_and_green_bold_item() {
    let pieces = menu_line_pieces("x", true);
    assert_eq!(pieces.len(), 2);
    assert!(matches!(&pieces[0], Piece::Plain { text } if text == "> "));
    assert!(matches!(&pieces[1], Piece::Bold { text, tint: Tint::Green } if text == "x"));
    let plain = menu_line_pieces("x", false);
    assert_eq!(plain.len(), 1);
    assert!(matches!(&plain[0], Piece::Plain { text } if text == "x"));
}

#[test]
fn render_writes_plain_pieces_as_they_are() {
    let pieces = vec![
        Piece::Plain { text: "a".to_string() },
        Piece::Plain { text: "bc".to_string() },
    ];
    assert_eq!(render(&pieces), "abc");
    assert_eq!(render(&Vec::new()), "");
}

#[test]
fn step_conditions() {
    assert!(step_allowed(0, 0, key(Key::Up)));
    assert!(!step_allowed(0, 0, key(Key::Down)));
    assert!(!step_allowed(0, 0, key(Key::Enter)));
    assert!(step_allowed(2, 3, key(Key::Enter)));
    assert!(!step_allowed(3, 3, MenuEvent::Other));
}
