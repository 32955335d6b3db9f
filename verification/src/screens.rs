//! The screens of the program: their titles, menus and what a choice on
//! each of them leads to.
use vstd::prelude::*;

use crate::text::{
    join, views_of_strings, concat_all, same_text,
};
use crate::words::{trim, trim_text};

verus! {

// ---------------------------------------------------------------------------
// Titles
// ---------------------------------------------------------------------------

/// The title of the main screen, with the optional note after it.
pub open spec fn main_title(extra: Option<Seq<Seq<char>>>) -> Seq<char> {
    match extra {
        Some(content) => "Welcome to this random TO-DO list terminal app I wrote! "@ + join(content, seq![])
            + " \n\n\r"@,
        None => "Welcome to this random TO-DO list terminal app I wrote! \n\n\r"@,
    }
}

/// The title of the main screen; `extra` is the note from the screen that
/// led back here, its pieces written one after another.
pub fn entry_title(extra: &Option<Vec<String>>) -> (out: String)
    ensures
        out@ == main_title(match extra {
            Some(v) => Some(views_of_strings(v@)),
            None => None,
        }),
{
    match extra {
        Some(content) => {
            let mut out = String::from_str("Welcome to this random TO-DO list terminal app I wrote! ");
            let joined = concat_all(content);
            out.append(joined.as_str());
            out.append(" \n\n\r");
            out
        },
        None => String::from_str("Welcome to this random TO-DO list terminal app I wrote! \n\n\r"),
    }
}

/// The title of the about screen for the given version.
pub fn about_title(version: &str) -> (out: String)
    ensures
        out@ == "It's so sweet! :3\r\nCreated by Rosie/Acquite as a random Rust Project~\r\nVersion: "@
            + version@ + "!\n\r\n"@,
{
    let mut out = String::from_str("It's so sweet! :3\r\nCreated by Rosie/Acquite as a random Rust Project~\r\nVersion: ");
    out.append(version);
    out.append("!\n\r\n");
    out
}

/// The title of the screen that creates a list.
pub fn create_title() -> (out: String)
    ensures
        out@ == "Create a new TO-DO List item! :3\r\nGive your wonderful creation a name hehe~\r\nYou can leave this blank and choose `Use Default`..\r\n\n"@,
{
    String::from_str("Create a new TO-DO List item! :3\r\nGive your wonderful creation a name hehe~\r\nYou can leave this blank and choose `Use Default`..\r\n\n")
}

/// The title of the screen of one list, named without surrounding whitespace.
pub fn todo_title(todo: &str) -> (out: String)
    ensures
        out@ == "Opened the TO-DO "@ + trim(todo@) + "! \n\n\r"@,
{
    let mut out = String::from_str("Opened the TO-DO ");
    let name = trim_text(todo);
    out.append(name.as_str());
    out.append("! \n\n\r");
    out
}

/// The title of the screen that shows the items of a list.
pub open spec fn items_title(todo: Seq<char>, extra: Option<Seq<Seq<char>>>) -> Seq<char> {
    match extra {
        Some(content) => "Viewing items inside "@ + trim(todo) + "! \n\r"@ + join(content, seq![]) + " \n\n\r"@,
        None => "Viewing items inside "@ + trim(todo) + "! \n\n\r"@,
    }
}

/// The title of the screen that shows the items of a list, with the optional
/// note below it.
pub fn view_title(todo: &str, extra: &Option<Vec<String>>) -> (out: String)
    ensures
        out@ == items_title(todo@, match extra {
            Some(v) => Some(views_of_strings(v@)),
            None => None,
        }),
{
    let mut out = String::from_str("Viewing items inside ");
    let name = trim_text(todo);
    out.append(name.as_str());
    match extra {
        Some(content) => {
            out.append("! \n\r");
            let joined = concat_all(content);
            out.append(joined.as_str());
            out.append(" \n\n\r");
        },
        None => {
            out.append("! \n\n\r");
        },
    }
    out
}

/// The title of the screen that lists the lists: the note, on a line of its
/// own.
pub fn list_title(content: &str) -> (out: String)
    ensures
        out@ == content@ + "\n"@,
{
    let mut out = String::from_str(content);
    out.append("\n");
    out
}

// ---------------------------------------------------------------------------
// Menus
// ---------------------------------------------------------------------------

/// The strings of `texts`, as a vector.
fn strings(texts: &Vec<&str>) -> (out: Vec<String>)
    ensures
        out@.len() == texts@.len(),
        forall|i: int| 0 <= i < texts@.len() ==> #[trigger] out@[i]@ == texts@[i]@,
{
    let mut out: Vec<String> = Vec::new();
    let n: usize = texts.len();
    for i in 0..n
        invariant
            n == texts.len(),
            out@.len() == i,
            forall|j: int| 0 <= j < i ==> #[trigger] out@[j]@ == texts@[j]@,
    {
        out.push(String::from_str(texts[i]));
    }
    out
}

/// The items of the main screen: the screens found, then `Exit`.
pub fn entry_items(screens: Vec<String>) -> (items: Vec<String>)
    ensures
        views_of_strings(items@) == views_of_strings(screens@).push("Exit"@),
{
    let mut items = screens;
    let ghost before = items@;
    items.push(String::from_str("Exit"));
    assert(views_of_strings(items@) =~= views_of_strings(before).push("Exit"@));
    items
}

/// The items of the screen that creates a list.
pub fn create_items() -> (items: Vec<String>)
    ensures
        views_of_strings(items@) == seq!["Enter Name"@, "Use Default"@, "Back"@],
{
    let items = strings(&vec!["Enter Name", "Use Default", "Back"]);
    assert(views_of_strings(items@) =~= seq!["Enter Name"@, "Use Default"@, "Back"@]);
    items
}

/// The items of the about screen.
pub fn about_items() -> (items: Vec<String>)
    ensures
        views_of_strings(items@) == seq!["Back"@],
{
    let items = strings(&vec!["Back"]);
    assert(views_of_strings(items@) =~= seq!["Back"@]);
    items
}

/// The items of the screen of one list.
pub fn todo_items() -> (items: Vec<String>)
    ensures
        views_of_strings(items@) == seq!["View"@, "Rename"@, "Delete"@, "Back"@],
{
    let items = strings(&vec!["View", "Rename", "Delete", "Back"]);
    assert(views_of_strings(items@) =~= seq!["View"@, "Rename"@, "Delete"@, "Back"@]);
    items
}

/// The items of the screen that lists the lists when there are none.
pub fn empty_list_items() -> (items: Vec<String>)
    ensures
        views_of_strings(items@) == seq!["Create"@, "Back"@],
{
    let items = strings(&vec!["Create", "Back"]);
    assert(views_of_strings(items@) =~= seq!["Create"@, "Back"@]);
    items
}

/// The menu of the lists: the names with a line break after the last one,
/// then `Clear` and `Back`.
pub open spec fn lists_menu(names: Seq<Seq<char>>) -> Seq<Seq<char>> {
    names.drop_last().push(names.last() + "\n\r"@).push("Clear"@).push("Back"@)
}

/// The items of the screen that lists the lists, from their shown names.
pub fn list_items(names: Vec<String>) -> (items: Vec<String>)
    requires
        names@.len() > 0,
    ensures
        views_of_strings(items@) == lists_menu(views_of_strings(names@)),
{
    let mut items = names;
    let ghost start = views_of_strings(items@);
    let last = items.pop();
    match last {
        Some(mut last) => {
            last.append("\n\r");
            items.push(last);
        },
        None => {},
    }
    items.push(String::from_str("Clear"));
    items.push(String::from_str("Back"));
    assert(views_of_strings(items@) =~= lists_menu(start));
    items
}

/// The note above the lists when there are some.
pub fn lists_note() -> (out: String)
    ensures
        out@ == "Here are your current TO-DO lists! :3\n\r"@,
{
    String::from_str("Here are your current TO-DO lists! :3\n\r")
}

/// The note on the screen of lists when there are none.
pub fn no_lists_note() -> (out: String)
    ensures
        out@ == "You don't have any TO-DOs! D:\n\r"@,
{
    String::from_str("You don't have any TO-DOs! D:\n\r")
}

// ---------------------------------------------------------------------------
// Choices
// ---------------------------------------------------------------------------

/// The screens the main screen leads to.
#[derive(Clone, Copy, PartialEq, Eq, Debug)]
pub enum MainChoice {
    About,
    Create,
    List,
    Exit,
}

/// Whether `s` is an item of the main screen that leads somewhere.
pub open spec fn is_main_choice(s: Seq<char>) -> bool {
    s == "About"@ || s == "Create"@ || s == "List"@ || s == "Exit"@
}

/// Where the chosen item of the main screen leads.
pub fn main_choice(selected: &str) -> (choice: MainChoice)
    requires
        is_main_choice(selected@),
    ensures
        choice == (if selected@ == "About"@ {
            MainChoice::About
        } else if selected@ == "Create"@ {
            MainChoice::Create
        } else if selected@ == "List"@ {
            MainChoice::List
        } else {
            MainChoice::Exit
        }),
{
    if same_text(selected, "About") {
        MainChoice::About
    } else if same_text(selected, "Create") {
        MainChoice::Create
    } else if same_text(selected, "List") {
        MainChoice::List
    } else {
        MainChoice::Exit
    }
}

/// What the screen that creates a list does.
#[derive(Clone, Copy, PartialEq, Eq, Debug)]
pub enum CreateChoice {
    EnterName,
    UseDefault,
    Back,
}

/// Whether `s` is an item of the screen that creates a list.
pub open spec fn is_create_choice(s: Seq<char>) -> bool {
    s == "Enter Name"@ || s == "Use Default"@ || s == "Back"@
}

/// What the chosen item of the screen that creates a list does.
pub fn create_choice(selected: &str) -> (choice: CreateChoice)
    requires
        is_create_choice(selected@),
    ensures
        choice == (if selected@ == "Enter Name"@ {
            CreateChoice::EnterName
        } else if selected@ == "Use Default"@ {
            CreateChoice::UseDefault
        } else {
            CreateChoice::Back
        }),
{
    if same_text(selected, "Enter Name") {
        CreateChoice::EnterName
    } else if same_text(selected, "Use Default") {
        CreateChoice::UseDefault
    } else {
        CreateChoice::Back
    }
}

/// What the screen of one list does.
#[derive(Clone, Copy, PartialEq, Eq, Debug)]
pub enum TodoChoice {
    View,
    Rename,
    Delete,
    Back,
}

/// Whether `s` is an item of the screen of one list.
pub open spec fn is_todo_choice(s: Seq<char>) -> bool {
    s == "View"@ || s == "Rename"@ || s == "Delete"@ || s == "Back"@
}

/// What the chosen item of the screen of one list does.
pub fn todo_choice(selected: &str) -> (choice: TodoChoice)
    requires
        is_todo_choice(selected@),
    ensures
        choice == (if selected@ == "View"@ {
            TodoChoice::View
        } else if selected@ == "Rename"@ {
            TodoChoice::Rename
        } else if selected@ == "Delete"@ {
            TodoChoice::Delete
        } else {
            TodoChoice::Back
        }),
{
    if same_text(selected, "View") {
        TodoChoice::View
    } else if same_text(selected, "Rename") {
        TodoChoice::Rename
    } else if same_text(selected, "Delete") {
        TodoChoice::Delete
    } else {
        TodoChoice::Back
    }
}

/// What the screen of lists does when there are some.
#[derive(Clone, Copy, PartialEq, Eq, Debug)]
pub enum ListChoice {
    /// Delete every list.
    Clear,
    Back,
    /// Open the chosen list.
    Open,
}

/// What the chosen item of the screen of lists does: its commands by their
/// text, any other item opens that list.
pub fn list_choice(selected: &str) -> (choice: ListChoice)
    ensures
        choice == (if selected@ == "Clear"@ {
            ListChoice::Clear
        } else if selected@ == "Back"@ {
            ListChoice::Back
        } else {
            ListChoice::Open
        }),
{
    if same_text(selected, "Clear") {
        ListChoice::Clear
    } else if same_text(selected, "Back") {
        ListChoice::Back
    } else {
        ListChoice::Open
    }
}

/// What the screen of lists does when there are none.
#[derive(Clone, Copy, PartialEq, Eq, Debug)]
pub enum EmptyListChoice {
    Create,
    Back,
}

/// Whether `s` is an item of the screen of lists when there are none.
pub open spec fn is_empty_list_choice(s: Seq<char>) -> bool {
    s == "Create"@ || s == "Back"@
}

/// What the chosen item of the screen of lists does when there are none.
pub fn empty_list_choice(selected: &str) -> (choice: EmptyListChoice)
    requires
        is_empty_list_choice(selected@),
    ensures
        choice == (if selected@ == "Create"@ {
            EmptyListChoice::Create
        } else {
            EmptyListChoice::Back
        }),
{
    if same_text(selected, "Create") {
        EmptyListChoice::Create
    } else {
        EmptyListChoice::Back
    }
}

} // verus!
