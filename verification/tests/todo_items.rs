use todo_tui::paint::{Piece, Tint};
use todo_tui::todos::{
    add_item, all_drawable, todo_line_pieces, can_toggle, can_undo, decorate, empty_notice, last_is_task, mark_last,
    push_item, todo_line, todo_lines, toggle_item, undo_changes, view_action, view_specials, Entry,
    Todos, ViewAction,
};

fn task(name: &str, complete: bool) -> Entry {
    Entry::Task { name: name.to_string(), complete, extra: String::new() }
}

fn label(text: &str) -> Entry {
    Entry::Label { text: text.to_string() }
}

fn describe(todos: &Todos) -> Vec<String> {
    todos
        .items
        .iter()
        .map(|e| match e {
            Entry::Task { name, complete, extra } if extra.is_empty() => format!("task:{}:{}", name, complete),
            Entry::Task { name, complete, extra } => format!("task:{}:{}:{}", name, complete, extra),
            Entry::Label { text } => format!("label:{}", text),
        })
        .collect()
}

fn sample() -> Todos {
    Todos { items: vec![task("milk", false), task("eggs", true)] }
}

#[test]
fn specials_are_the_commands() {
    assert_eq!(view_specials(), vec!["Create", "Clear", "Back"]);
}

#[test]
fn notice_only_for_empty_lists() {
    let empty = Todos { items: Vec::new() };
    assert_eq!(empty_notice(&empty), Some(vec!["(You have no TO-DO items!)".to_string()]));
    assert_eq!(empty_notice(&sample()), None);
}

#[test]
fn mark_last_appends_line_break() {
    let mut t = sample();
    mark_last(&mut t);
    assert_eq!(describe(&t), vec!["task:milk:false", "task:eggs\n\r:true"]);
    let mut e = Todos { items: Vec::new() };
    mark_last(&mut e);
    assert!(e.items.is_empty());
}

#[test]
fn push_item_adds_label() {
    let mut t = sample();
    push_item(&mut t, "Back");
    assert_eq!(describe(&t)[2], "label:Back");
}

#[test]
fn decorate_marks_and_appends_commands() {
    let mut t = sample();
    decorate(&mut t, &view_specials());
    assert_eq!(
        describe(&t),
        vec!["task:milk:false", "task:eggs\n\r:true", "label:Create", "label:Clear", "label:Back"]
    );
}

#[test]
fn undo_after_decorate_restores_list() {
    let specials = view_specials();
    let mut t = sample();
    decorate(&mut t, &specials);
    assert!(can_undo(&t, &specials));
    undo_changes(&mut t, &specials);
    assert_eq!(describe(&t), describe(&sample()));

    let mut empty = Todos { items: Vec::new() };
    decorate(&mut empty, &specials);
    undo_changes(&mut empty, &specials);
    assert!(empty.items.is_empty());
}

#[test]
fn undo_removes_every_line_break_in_last_name() {
    let specials = view_specials();
    let mut t = Todos { items: vec![task("a\n\rb", false)] };
    decorate(&mut t, &specials);
    undo_changes(&mut t, &specials);
    assert_eq!(describe(&t), vec!["task:ab:false"]);
}

#[test]
fn undo_on_short_list_empties_it() {
    let specials = view_specials();
    let mut t = Todos { items: vec![label("Back")] };
    undo_changes(&mut t, &specials);
    assert!(t.items.is_empty());
}

#[test]
fn create_appends_new_task() {
    let specials = view_specials();
    let mut t = sample();
    decorate(&mut t, &specials);
    add_item(&mut t, &specials, "bread".to_string());
    assert_eq!(describe(&t), vec!["task:milk:false", "task:eggs:true", "task:bread:false"]);
}

#[test]
fn toggle_flips_first_task_with_the_name() {
    let specials = view_specials();
    let mut t = sample();
    decorate(&mut t, &specials);
    assert!(can_toggle(&t, 0));
    toggle_item(&mut t, 0);
    undo_changes(&mut t, &specials);
    assert_eq!(describe(&t), vec!["task:milk:true", "task:eggs:true"]);
}

#[test]
fn toggle_with_duplicate_names_sets_the_first() {
    let mut t = Todos { items: vec![task("x", false), task("x", false)] };
    toggle_item(&mut t, 1);
    assert_eq!(describe(&t), vec!["task:x:true", "task:x:false"]);
    // The first one is set to the opposite of the chosen one, so a second
    // toggle from the same place leaves it as it is.
    toggle_item(&mut t, 1);
    assert_eq!(describe(&t), vec!["task:x:true", "task:x:false"]);
}

#[test]
fn toggle_twice_restores() {
    let mut t = sample();
    toggle_item(&mut t, 1);
    assert_eq!(describe(&t), vec!["task:milk:false", "task:eggs:false"]);
    toggle_item(&mut t, 1);
    assert_eq!(describe(&t), describe(&sample()));
}

#[test]
fn toggle_conditions() {
    let t = Todos { items: vec![label("Back"), task("x", true)] };
    assert!(!can_toggle(&t, 1));
    assert!(!can_toggle(&t, 0));
    assert!(!can_toggle(&t, 5));
    assert!(can_toggle(&sample(), 1));
}

#[test]
fn actions_by_text() {
    assert_eq!(view_action(&label("Back")), ViewAction::Back);
    assert_eq!(view_action(&label("Clear")), ViewAction::Clear);
    assert_eq!(view_action(&label("Create")), ViewAction::Create);
    assert_eq!(view_action(&task("milk", false)), ViewAction::Toggle);
    // A task named like a command acts as the command.
    assert_eq!(view_action(&task("Back", false)), ViewAction::Back);
}

#[test]
fn lines_show_state_marks() {
    let specials = view_specials();
    assert_eq!(todo_line(&task("milk", false), false, &specials), "\u{2718} milk");
    assert_eq!(todo_line(&task("eggs", true), false, &specials), "\u{2714} eggs");
    assert_eq!(todo_line(&label("Back"), false, &specials), "Back");
    assert_eq!(todo_line(&task("\"Clear\" ", true), false, &specials), "\"Clear\" ");
}

#[test]
fn highlighted_todo_line() {
    let specials = view_specials();
    let line = todo_line(&task("milk", true), true, &specials);
    let coloured = "> \u{1b}[38;5;12m\u{1b}[1m\u{2714} \u{1b}[0m\u{1b}[38;5;10m\u{1b}[1mmilk\u{1b}[0m";
    let uncoloured = "> \u{1b}[m\u{1b}[1m\u{2714} \u{1b}[0m\u{1b}[m\u{1b}[1mmilk\u{1b}[0m";
    // Without NO_COLOR the colour is written; with it, left out.
    assert!(line == coloured || line == uncoloured, "{:?}", line);
}

#[test]
fn lines_for_whole_screen() {
    let specials = view_specials();
    let mut t = sample();
    decorate(&mut t, &specials);
    assert!(all_drawable(&t.items, &specials));
    let lines = todo_lines(&t.items, 4, &specials);
    assert_eq!(lines.len(), 5);
    assert_eq!(lines[0], "\u{2718} milk");
    assert_eq!(lines[1], "\u{2714} eggs\n\r");
    assert_eq!(lines[2], "Create");
    assert!(lines[4].starts_with("> "));
}

#[test]
fn drawability_and_last_task_checks() {
    let specials = view_specials();
    assert!(!all_drawable(&vec![label("note")], &specials));
    assert!(all_drawable(&vec![label(" \"Back\"")], &specials));
    assert!(last_is_task(&sample().items));
    assert!(!last_is_task(&vec![task("a", true), label("Back")]));
    assert!(last_is_task(&Vec::new()));
}

#[test]
fn highlighted_todo_pieces() {
    let specials = view_specials();
    let pieces = todo_line_pieces(&task("milk", false), true, &specials);
    assert_eq!(pieces.len(), 3);
    assert!(matches!(&pieces[0], Piece::Plain { text } if text == "> "));
    assert!(matches!(&pieces[1], Piece::Bold { text, tint: Tint::Blue } if text == "\u{2718} "));
    assert!(matches!(&pieces[2], Piece::Bold { text, tint: Tint::Green } if text == "milk"));
}

#[test]
fn other_fields_are_kept() {
    let specials = view_specials();
    let mut t = Todos {
        items: vec![
            Entry::Task { name: "a".to_string(), complete: false, extra: "{\"due\":1}".to_string() },
            Entry::Task { name: "b".to_string(), complete: true, extra: "{\"tag\":2}".to_string() },
        ],
    };
    decorate(&mut t, &specials);
    toggle_item(&mut t, 1);
    undo_changes(&mut t, &specials);
    assert_eq!(describe(&t), vec!["task:a:false:{\"due\":1}", "task:b:false:{\"tag\":2}"]);
}
