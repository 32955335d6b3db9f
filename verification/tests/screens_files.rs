use todo_tui::files::{
    cleared_message, created_message, creation_step, default_todo_name, duplicate_todo_path,
    first_counter,
    name_vector, new_todo_name, original_todo_path, todo_file_path, CreateStep,
};
use todo_tui::screens::{
    about_items, about_title, create_choice, create_items, create_title, empty_list_choice,
    empty_list_items, entry_items, entry_title, list_choice, list_items, list_title, lists_note,
    main_choice, no_lists_note, todo_choice, todo_items, todo_title, view_title, CreateChoice,
    EmptyListChoice, ListChoice, MainChoice, TodoChoice,
};

fn strings(v: &[&str]) -> Vec<String> {
    v.iter().map(|s| s.to_string()).collect()
}

#[test]
fn name_vector_formats_filters_and_reverses() {
    let names = strings(&["about.rs", " create.rs ", "entry.rs", "my_list.json"]);
    let blacklist = strings(&["entry.rs"]);
    assert_eq!(name_vector(&names, &blacklist), vec!["My List", "Create", "About"]);
    assert_eq!(name_vector(&Vec::new(), &blacklist), Vec::<String>::new());
}

#[test]
fn file_paths() {
    assert_eq!(todo_file_path("My List"), "./todos/my_list.json");
    assert_eq!(todo_file_path("  Groceries \n\r"), "./todos/groceries.json");
    assert_eq!(todo_file_path("Default"), "./todos/default.json");
}

#[test]
fn trailing_line_break_opens_same_file() {
    assert_eq!(todo_file_path("Work\n\r"), todo_file_path("Work"));
    assert_eq!(todo_file_path("a b\t "), todo_file_path("a b"));
}

#[test]
fn new_names_and_paths() {
    assert_eq!(new_todo_name("  my new list "), "my_new_list");
    assert_eq!(default_todo_name(), "Default");
    assert_eq!(original_todo_path("Default"), "./todos/Default.json");
    assert_eq!(duplicate_todo_path("Default", 1), "./todos/Default_1.json");
    assert_eq!(duplicate_todo_path("x", 1203), "./todos/x_1203.json");
    assert_eq!(duplicate_todo_path("x", 0), "./todos/x_0.json");
}

fn created_at(step: CreateStep) -> Option<String> {
    match step {
        CreateStep::Create { path } => Some(path),
        CreateStep::TryNext { .. } => None,
    }
}

#[test]
fn creation_steps() {
    assert_eq!(first_counter(), 1);
    assert_eq!(created_at(creation_step("x", 1, true, false)), Some("./todos/x.json".to_string()));
    assert_eq!(created_at(creation_step("x", 1, true, true)), Some("./todos/x.json".to_string()));
    assert_eq!(created_at(creation_step("x", 3, false, true)), Some("./todos/x_3.json".to_string()));
    match creation_step("x", 3, false, false) {
        CreateStep::TryNext { counter } => assert_eq!(counter, 4),
        CreateStep::Create { .. } => panic!("expected another try"),
    }
}

#[test]
fn new_list_goes_to_first_free_numbered_path() {
    // Plain path and numbers 1 and 2 taken: number 3 is used.
    let taken = ["./todos/x.json", "./todos/x_1.json", "./todos/x_2.json"];
    let mut counter = first_counter();
    let path = loop {
        let original_free = !taken.contains(&"./todos/x.json");
        let dup = duplicate_todo_path("x", counter);
        let duplicate_free = !taken.contains(&dup.as_str());
        match creation_step("x", counter, original_free, duplicate_free) {
            CreateStep::Create { path } => break path,
            CreateStep::TryNext { counter: next } => counter = next,
        }
    };
    assert_eq!(path, "./todos/x_3.json");
}

#[test]
fn messages() {
    assert_eq!(created_message("Default"), "\r\nCreated new TO-DO with name Default!");
    assert_eq!(cleared_message(), "\r\nCleared all TO-DOs!");
    assert_eq!(lists_note(), "Here are your current TO-DO lists! :3\n\r");
    assert_eq!(no_lists_note(), "You don't have any TO-DOs! D:\n\r");
}

#[test]
fn titles() {
    assert_eq!(entry_title(&None), "Welcome to this random TO-DO list terminal app I wrote! \n\n\r");
    assert_eq!(
        entry_title(&Some(strings(&["\r\nCreated", " x!"]))),
        "Welcome to this random TO-DO list terminal app I wrote! \r\nCreated x! \n\n\r"
    );
    assert_eq!(
        about_title("1.0"),
        "It's so sweet! :3\r\nCreated by Rosie/Acquite as a random Rust Project~\r\nVersion: 1.0!\n\r\n"
    );
    assert!(create_title().starts_with("Create a new TO-DO List item! :3\r\n"));
    assert_eq!(todo_title("  Work\n\r"), "Opened the TO-DO Work! \n\n\r");
    assert_eq!(view_title("Work\n\r", &None), "Viewing items inside Work! \n\n\r");
    assert_eq!(
        view_title("Work", &Some(strings(&["(You have no TO-DO items!)"]))),
        "Viewing items inside Work! \n\r(You have no TO-DO items!) \n\n\r"
    );
    assert_eq!(list_title("hi"), "hi\n");
}

#[test]
fn menus() {
    assert_eq!(entry_items(strings(&["About", "List"])), vec!["About", "List", "Exit"]);
    assert_eq!(create_items(), vec!["Enter Name", "Use Default", "Back"]);
    assert_eq!(about_items(), vec!["Back"]);
    assert_eq!(todo_items(), vec!["View", "Rename", "Delete", "Back"]);
    assert_eq!(empty_list_items(), vec!["Create", "Back"]);
    assert_eq!(list_items(strings(&["A", "B"])), vec!["A", "B\n\r", "Clear", "Back"]);
}

#[test]
fn choices() {
    assert_eq!(main_choice("About"), MainChoice::About);
    assert_eq!(main_choice("Create"), MainChoice::Create);
    assert_eq!(main_choice("List"), MainChoice::List);
    assert_eq!(main_choice("Exit"), MainChoice::Exit);
    assert_eq!(create_choice("Enter Name"), CreateChoice::EnterName);
    assert_eq!(create_choice("Use Default"), CreateChoice::UseDefault);
    assert_eq!(create_choice("Back"), CreateChoice::Back);
    assert_eq!(todo_choice("View"), TodoChoice::View);
    assert_eq!(todo_choice("Rename"), TodoChoice::Rename);
    assert_eq!(todo_choice("Delete"), TodoChoice::Delete);
    assert_eq!(todo_choice("Back"), TodoChoice::Back);
    assert_eq!(list_choice("Clear"), ListChoice::Clear);
    assert_eq!(list_choice("Back"), ListChoice::Back);
    assert_eq!(list_choice("Work\n\r"), ListChoice::Open);
    assert_eq!(empty_list_choice("Create"), EmptyListChoice::Create);
    assert_eq!(empty_list_choice("Back"), EmptyListChoice::Back);
}
