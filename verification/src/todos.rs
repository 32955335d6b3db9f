//! A TO-DO list as the viewing screen shows and edits it: the tasks of the
//! list file, the last one marked with a line break while on screen, and the
//! screen's own commands appended below them.
use vstd::prelude::*;

use crate::text::{
    drop_pair, drop_pairs, chars_of, string_of, views_of_strings, same_text, has_pair,
    lemma_drop_pair_concat, lemma_drop_pair_absent, lemma_drop_pair_of_pattern,
    drop_char, drop_chars, contains_text,
};
use crate::words::{trim, trim_chars};
use crate::paint::{bold, piece_views, plain, render, renders, Piece, PieceView, Tint};

verus! {

/// One entry of a list: a task of the list file, or a plain label (the
/// screen's commands are labels).
pub enum Entry {
    /// A task; `extra` holds the other fields of its record in the list
    /// file, kept as they are (empty when there are none).
    Task { name: String, complete: bool, extra: String },
    Label { text: String },
}

/// The mathematical value of an [`Entry`].
pub enum Item {
    Task { name: Seq<char>, complete: bool, extra: Seq<char> },
    Label { text: Seq<char> },
}

impl View for Entry {
    type V = Item;

    open spec fn view(&self) -> Item {
        match self {
            Entry::Task { name, complete, extra } => Item::Task { name: name@, complete: *complete, extra: extra@ },
            Entry::Label { text } => Item::Label { text: text@ },
        }
    }
}

impl Entry {
    /// A copy of this entry.
    pub fn duplicate(&self) -> (out: Entry)
        ensures
            out@ == self@,
    {
        match self {
            Entry::Task { name, complete, extra } => Entry::Task {
                name: name.clone(),
                complete: *complete,
                extra: extra.clone(),
            },
            Entry::Label { text } => Entry::Label { text: text.clone() },
        }
    }
}

/// The entries of a list file, in file order.
pub struct Todos {
    pub items: Vec<Entry>,
}

impl View for Todos {
    type V = Seq<Item>;

    open spec fn view(&self) -> Seq<Item> {
        self.items@.map_values(|e: Entry| e@)
    }
}

/// The text an entry is shown and chosen by: a task's name or a label's text.
pub open spec fn shown(item: Item) -> Seq<char> {
    match item {
        Item::Task { name, .. } => name,
        Item::Label { text } => text,
    }
}

/// The line break that marks the last task while the list is on screen.
pub open spec fn line_break() -> Seq<char> {
    seq!['\n', '\r']
}

/// `items` with the name of its last entry, a task, followed by a line break.
pub open spec fn marked(items: Seq<Item>) -> Seq<Item> {
    if items.len() == 0 {
        items
    } else {
        items.update(
            items.len() - 1,
            Item::Task {
                name: items.last()->name + line_break(),
                complete: items.last()->complete,
                extra: items.last()->extra,
            },
        )
    }
}

/// The labels for the given texts.
pub open spec fn labels(texts: Seq<Seq<char>>) -> Seq<Item> {
    texts.map_values(|t: Seq<char>| Item::Label { text: t })
}

/// The list as the viewing screen shows it: last task marked, commands
/// appended.
pub open spec fn decorated(items: Seq<Item>, commands: Seq<Seq<char>>) -> Seq<Item> {
    marked(items) + labels(commands)
}

/// The entries left after removing the last `n` (all of them when there are
/// fewer).
pub open spec fn without_last(items: Seq<Item>, n: nat) -> Seq<Item> {
    if items.len() <= n {
        seq![]
    } else {
        items.take(items.len() - n)
    }
}

/// `items` with the last `n` removed and the line breaks taken out of the
/// name of the new last entry, a task.
pub open spec fn undone(items: Seq<Item>, n: nat) -> Seq<Item> {
    let kept = without_last(items, n);
    if kept.len() == 0 {
        kept
    } else {
        kept.update(
            kept.len() - 1,
            Item::Task {
                name: drop_pair(kept.last()->name, '\n', '\r'),
                complete: kept.last()->complete,
                extra: kept.last()->extra,
            },
        )
    }
}

/// Whether the last entry, if any, is a task.
pub open spec fn ends_in_task(items: Seq<Item>) -> bool {
    items.len() > 0 ==> items.last() is Task
}

/// The commands of the viewing screen, in menu order.
pub open spec fn view_commands() -> Seq<Seq<char>> {
    seq!["Create"@, "Clear"@, "Back"@]
}

/// The commands of the viewing screen: `Create`, `Clear` and `Back`.
pub fn view_specials() -> (out: Vec<String>)
    ensures
        views_of_strings(out@) == view_commands(),
{
    let out: Vec<String> = vec![String::from_str("Create"), String::from_str("Clear"), String::from_str("Back")];
    assert(views_of_strings(out@) =~= view_commands());
    out
}

/// The note shown above an empty list.
pub fn empty_notice(todos: &Todos) -> (out: Option<Vec<String>>)
    ensures
        todos@.len() == 0 <==> out is Some,
        out matches Some(v) ==> views_of_strings(v@) == seq!["(You have no TO-DO items!)"@],
{
    if todos.items.len() == 0 {
        let v: Vec<String> = vec![String::from_str("(You have no TO-DO items!)")];
        assert(views_of_strings(v@) =~= seq!["(You have no TO-DO items!)"@]);
        Some(v)
    } else {
        None
    }
}

/// Appends a label with the given text.
pub fn push_item(todos: &mut Todos, item: &str)
    ensures
        final(todos)@ == old(todos)@.push(Item::Label { text: item@ }),
{
    todos.items.push(Entry::Label { text: String::from_str(item) });
    assert(final(todos)@ =~= old(todos)@.push(Item::Label { text: item@ }));
}

/// Marks the last task of the list with a line break, so that the commands
/// below it stand apart on screen.
pub fn mark_last(todos: &mut Todos)
    requires
        ends_in_task(old(todos)@),
    ensures
        final(todos)@ == marked(old(todos)@),
{
    match todos.items.pop() {
        None => {},
        Some(Entry::Task { name, complete, extra }) => {
            let mut name = name;
            name.append("\n\r");
            proof {
                reveal_strlit("\n\r");
            }
            assert("\n\r"@ =~= line_break());
            todos.items.push(Entry::Task { name, complete, extra });
            assert(final(todos)@ =~= marked(old(todos)@));
        },
        Some(other) => todos.items.push(other),
    }
}

/// Shows the list as the viewing screen does: marks the last task and
/// appends one label for each command.
pub fn decorate(todos: &mut Todos, specials: &Vec<String>)
    requires
        ends_in_task(old(todos)@),
    ensures
        final(todos)@ == decorated(old(todos)@, views_of_strings(specials@)),
{
    let ghost start = todos@;
    mark_last(todos);
    let n: usize = specials.len();
    let ghost texts = views_of_strings(specials@);
    assert(labels(texts.take(0)) =~= Seq::<Item>::empty());
    assert(marked(start) + labels(texts.take(0)) =~= marked(start));
    for i in 0..n
        invariant
            n == specials.len(),
            texts == views_of_strings(specials@),
            todos@ == marked(start) + labels(texts.take(i as int)),
    {
        push_item(todos, specials[i].as_str());
        assert(labels(texts.take(i + 1)) =~= labels(texts.take(i as int)).push(Item::Label { text: specials@[i as int]@ }));
        assert(marked(start) + labels(texts.take(i + 1)) =~= (marked(start) + labels(texts.take(i as int))).push(Item::Label { text: specials@[i as int]@ }));
    }
    assert(texts.take(n as int) =~= texts);
}

/// Takes the commands off the list again and the line breaks out of the name
/// of the task that is last after that: one entry is removed from the end for
/// each command (none once the list is empty).
pub fn undo_changes(todos: &mut Todos, specials: &Vec<String>)
    requires
        ends_in_task(without_last(old(todos)@, specials@.len())),
    ensures
        final(todos)@ == undone(old(todos)@, specials@.len()),
{
    let ghost start = todos@;
    let n: usize = specials.len();
    assert(without_last(start, 0) =~= start);
    for i in 0..n
        invariant
            n == specials.len(),
            todos@ == without_last(start, i as nat),
    {
        let ghost before = todos@;
        let _ = todos.items.pop();
        proof {
            if before.len() > 0 {
                assert(todos@ =~= before.take(before.len() - 1));
                if start.len() > i + 1 {
                    assert(before.take(before.len() - 1) =~= start.take(start.len() - (i + 1)));
                }
            }
        }
        assert(todos@ =~= without_last(start, (i + 1) as nat));
    }
    match todos.items.pop() {
        None => {},
        Some(Entry::Task { name, complete, extra }) => {
            let chars = chars_of(name.as_str());
            let cleaned = drop_pairs(&chars, '\n', '\r');
            todos.items.push(Entry::Task { name: string_of(&cleaned), complete, extra });
            assert(todos@ =~= undone(start, n as nat));
        },
        Some(other) => todos.items.push(other),
    }
}

/// Adds a new, incomplete task named `name` below the tasks of a list that
/// is on screen (the commands and the mark are taken off first).
pub fn add_item(todos: &mut Todos, specials: &Vec<String>, name: String)
    requires
        ends_in_task(without_last(old(todos)@, specials@.len())),
    ensures
        final(todos)@ == undone(old(todos)@, specials@.len()).push(
            Item::Task { name: name@, complete: false, extra: seq![] },
        ),
{
    undo_changes(todos, specials);
    let ghost before = todos@;
    todos.items.push(Entry::Task { name, complete: false, extra: String::new() });
    assert(todos@ =~= before.push(Item::Task { name: name@, complete: false, extra: seq![] }));
}

/// Whether `f` is where a search from the top for a task named `name` stops:
/// a task of that name, with only tasks of other names above it.
pub open spec fn first_named(items: Seq<Item>, f: int, name: Seq<char>) -> bool {
    &&& 0 <= f < items.len()
    &&& items[f] is Task
    &&& items[f]->name == name
    &&& forall|j: int| 0 <= j < f ==> (#[trigger] items[j]) is Task && items[j]->name != name
}

/// Whether toggling the task at `selected` is defined: it is a task, and the
/// search for its name from the top meets no label before a match.
pub open spec fn toggle_defined(items: Seq<Item>, selected: int) -> bool {
    &&& 0 <= selected < items.len()
    &&& items[selected] is Task
    &&& exists|f: int| first_named(items, f, items[selected]->name)
}

/// The list after toggling from `selected`: the first task with the selected
/// task's name gets the opposite of the selected task's state.
pub open spec fn toggled(items: Seq<Item>, selected: int, f: int) -> Seq<Item> {
    items.update(
        f,
        Item::Task { name: items[f]->name, complete: !items[selected]->complete, extra: items[f]->extra },
    )
}

/// Toggles the task chosen at `selected`: the first task from the top with
/// the same name is set to the opposite of the chosen task's state.
pub fn toggle_item(todos: &mut Todos, selected: usize)
    requires
        toggle_defined(old(todos)@, selected as int),
    ensures
        exists|f: int|
            first_named(old(todos)@, f, old(todos)@[selected as int]->name)
            && final(todos)@ == toggled(old(todos)@, selected as int, f),
{
    let ghost start = todos@;
    let (target, flipped): (String, bool) = match &todos.items[selected] {
        Entry::Task { name, complete, .. } => (name.clone(), !*complete),
        Entry::Label { text } => (text.clone(), false),
    };
    let ghost f0 = choose|f: int| first_named(start, f, target@);
    let n: usize = todos.items.len();
    let mut j: usize = 0;
    while j < n
        invariant
            n == todos.items.len(),
            todos@ == start,
            start == old(todos)@,
            0 <= j <= f0,
            selected < n,
            start[selected as int] is Task,
            target@ == start[selected as int]->name,
            first_named(start, f0, target@),
            flipped == !start[selected as int]->complete,
        decreases n - j,
    {
        let found: Option<String> = match &todos.items[j] {
            Entry::Task { name, extra, .. } => {
                if same_text(name.as_str(), target.as_str()) {
                    Some(extra.clone())
                } else {
                    None
                }
            },
            Entry::Label { .. } => None,
        };
        if let Some(extra) = found {
            assert(j as int == f0) by {
                if (j as int) < f0 {
                    assert(start[j as int] is Task && start[j as int]->name != target@);
                }
            }
            todos.items.set(j, Entry::Task { name: target, complete: flipped, extra });
            assert(todos@ =~= toggled(start, selected as int, f0));
            assert(first_named(start, f0, start[selected as int]->name)
                && todos@ == toggled(start, selected as int, f0));
            return;
        }
        assert(j as int != f0);
        j = j + 1;
    }
}

/// What choosing an entry of the viewing screen does.
#[derive(Clone, Copy, PartialEq, Eq, Debug)]
pub enum ViewAction {
    Back,
    Clear,
    Create,
    Toggle,
}

/// The action for an entry: the commands by their text, every other entry
/// toggles.
pub open spec fn action_for(item: Item) -> ViewAction {
    if shown(item) == "Back"@ {
        ViewAction::Back
    } else if shown(item) == "Clear"@ {
        ViewAction::Clear
    } else if shown(item) == "Create"@ {
        ViewAction::Create
    } else {
        ViewAction::Toggle
    }
}

/// The action for the chosen entry.
pub fn view_action(selected: &Entry) -> (action: ViewAction)
    ensures
        action == action_for(selected@),
{
    let text: &str = match selected {
        Entry::Task { name, .. } => name.as_str(),
        Entry::Label { text } => text.as_str(),
    };
    if same_text(text, "Back") {
        ViewAction::Back
    } else if same_text(text, "Clear") {
        ViewAction::Clear
    } else if same_text(text, "Create") {
        ViewAction::Create
    } else {
        ViewAction::Toggle
    }
}

/// Law: taking the commands and the mark off a list shown on screen gives
/// back the list of the file, as long as the name of its last task holds no
/// line break `\n\r` of its own.
pub proof fn lemma_undo_restores(items: Seq<Item>, commands: Seq<Seq<char>>)
    requires
        ends_in_task(items),
        items.len() > 0 ==> !has_pair(items.last()->name, '\n', '\r'),
    ensures
        undone(decorated(items, commands), commands.len()) == items,
{
    let d = decorated(items, commands);
    let n = commands.len();
    if items.len() == 0 {
        assert(without_last(d, n) =~= Seq::<Item>::empty());
        assert(undone(d, n) =~= items);
    } else {
        assert(without_last(d, n) =~= marked(items));
        let name = items.last()->name;
        lemma_drop_pair_of_pattern('\n', '\r');
        lemma_drop_pair_concat(name, line_break(), '\n', '\r');
        lemma_drop_pair_absent(name, '\n', '\r');
        assert(drop_pair(name + line_break(), '\n', '\r') =~= name);
        assert(undone(d, n) =~= items);
    }
}

/// Law: creating a task on screen leaves the file's list with the new,
/// incomplete task appended and nothing else changed (under the same
/// condition as [`lemma_undo_restores`]).
pub proof fn lemma_create_appends(items: Seq<Item>, commands: Seq<Seq<char>>, name: Seq<char>)
    requires
        ends_in_task(items),
        items.len() > 0 ==> !has_pair(items.last()->name, '\n', '\r'),
    ensures
        undone(decorated(items, commands), commands.len()).push(Item::Task { name, complete: false, extra: seq![] })
            == items.push(Item::Task { name, complete: false, extra: seq![] }),
{
    lemma_undo_restores(items, commands);
}

/// Law: the search for a name stops at one place only.
pub proof fn lemma_first_named_unique(items: Seq<Item>, f: int, g: int, name: Seq<char>)
    requires
        first_named(items, f, name),
        first_named(items, g, name),
    ensures
        f == g,
{
    if f < g {
        assert(items[f] is Task && items[f]->name != name);
    } else if g < f {
        assert(items[g] is Task && items[g]->name != name);
    }
}

/// Law: toggling a task twice, where no task above it has its name, restores
/// the list.
pub proof fn lemma_toggle_twice(items: Seq<Item>, selected: int)
    requires
        0 <= selected < items.len(),
        items[selected] is Task,
        first_named(items, selected, items[selected]->name),
    ensures
        toggle_defined(items, selected),
        toggle_defined(toggled(items, selected, selected), selected),
        first_named(
            toggled(items, selected, selected),
            selected,
            toggled(items, selected, selected)[selected]->name,
        ),
        toggled(toggled(items, selected, selected), selected, selected) == items,
{
    let once = toggled(items, selected, selected);
    assert forall|j: int| 0 <= j < selected implies (#[trigger] once[j]) is Task && once[j]->name != once[selected]->name by {
        assert(items[j] is Task && items[j]->name != items[selected]->name);
    }
    assert(first_named(once, selected, once[selected]->name));
    assert(toggled(once, selected, selected) =~= items);
}

/// The text an entry is recognised by on screen: its shown text without
/// double quotes and surrounding whitespace.
pub open spec fn cleaned(text: Seq<char>) -> Seq<char> {
    trim(drop_char(text, '"'))
}

/// Whether an entry stands for one of the commands.
pub open spec fn is_command(item: Item, commands: Seq<Seq<char>>) -> bool {
    commands.contains(cleaned(shown(item)))
}

/// Whether an entry can be drawn: it is a command or a task (a task has a
/// state to show).
pub open spec fn drawable(item: Item, commands: Seq<Seq<char>>) -> bool {
    is_command(item, commands) || item is Task
}

/// The mark drawn before an entry: none for a command, a check mark for a
/// complete task and a cross for an incomplete one.
pub open spec fn emote(item: Item, commands: Seq<Seq<char>>) -> Seq<char> {
    if is_command(item, commands) {
        seq![]
    } else if item->complete {
        "\u{2714} "@
    } else {
        "\u{2718} "@
    }
}

/// The pieces of the line that draws an entry: mark then text; when
/// highlighted, the marker `"> "`, then the mark in bold blue and the text in
/// bold green.
pub open spec fn entry_pieces(item: Item, commands: Seq<Seq<char>>, highlighted: bool) -> Seq<PieceView> {
    if highlighted {
        seq![
            PieceView::Plain { text: "> "@ },
            PieceView::Bold { text: emote(item, commands), tint: Tint::Blue },
            PieceView::Bold { text: shown(item), tint: Tint::Green },
        ]
    } else {
        seq![PieceView::Plain { text: emote(item, commands) + shown(item) }]
    }
}

/// The mark drawn before an entry.
pub fn entry_emote(entry: &Entry, specials: &Vec<String>) -> (out: String)
    requires
        drawable(entry@, views_of_strings(specials@)),
    ensures
        out@ == emote(entry@, views_of_strings(specials@)),
{
    let text: &str = match entry {
        Entry::Task { name, .. } => name.as_str(),
        Entry::Label { text } => text.as_str(),
    };
    let chars = chars_of(text);
    let unquoted = drop_chars(&chars, '"');
    let key = trim_chars(&unquoted);
    let key_text = string_of(&key);
    if contains_text(specials, key_text.as_str()) {
        String::new()
    } else {
        match entry {
            Entry::Task { complete, .. } => {
                if *complete {
                    String::from_str("\u{2714} ")
                } else {
                    String::from_str("\u{2718} ")
                }
            },
            Entry::Label { .. } => String::new(),
        }
    }
}

/// The pieces of the line that draws an entry of the viewing screen.
pub fn todo_line_pieces(entry: &Entry, highlighted: bool, specials: &Vec<String>) -> (pieces: Vec<Piece>)
    requires
        drawable(entry@, views_of_strings(specials@)),
    ensures
        piece_views(pieces@) == entry_pieces(entry@, views_of_strings(specials@), highlighted),
{
    let mark = entry_emote(entry, specials);
    let text: &str = match entry {
        Entry::Task { name, .. } => name.as_str(),
        Entry::Label { text } => text.as_str(),
    };
    let pieces: Vec<Piece> = if highlighted {
        vec![plain("> "), bold(mark.as_str(), Tint::Blue), bold(text, Tint::Green)]
    } else {
        let mut line = mark;
        line.append(text);
        vec![plain(line.as_str())]
    };
    assert(piece_views(pieces@) =~= entry_pieces(entry@, views_of_strings(specials@), highlighted));
    pieces
}

/// The line that draws an entry of the viewing screen.
pub fn todo_line(entry: &Entry, highlighted: bool, specials: &Vec<String>) -> (line: String)
    requires
        drawable(entry@, views_of_strings(specials@)),
    ensures
        renders(line@, entry_pieces(entry@, views_of_strings(specials@), highlighted)),
{
    let pieces = todo_line_pieces(entry, highlighted, specials);
    render(&pieces)
}

/// The lines that draw the viewing screen's entries with the highlight on
/// `selected`.
pub fn todo_lines(items: &Vec<Entry>, selected: usize, specials: &Vec<String>) -> (lines: Vec<String>)
    requires
        forall|i: int| 0 <= i < items.len() ==> drawable(#[trigger] items@[i]@, views_of_strings(specials@)),
    ensures
        lines.len() == items.len(),
        forall|i: int| 0 <= i < items.len()
            ==> renders(#[trigger] lines@[i]@, entry_pieces(items@[i]@, views_of_strings(specials@), i == selected)),
{
    let mut lines: Vec<String> = Vec::new();
    let n: usize = items.len();
    for i in 0..n
        invariant
            n == items.len(),
            lines.len() == i,
            forall|k: int| 0 <= k < items.len() ==> drawable(#[trigger] items@[k]@, views_of_strings(specials@)),
            forall|j: int| 0 <= j < i
                ==> renders(#[trigger] lines@[j]@, entry_pieces(items@[j]@, views_of_strings(specials@), j == selected)),
    {
        let line = todo_line(&items[i], i == selected, specials);
        lines.push(line);
    }
    lines
}

// ---------------------------------------------------------------------------
// Checks of the conditions above, for callers that cannot prove them
// ---------------------------------------------------------------------------

/// Whether the last entry of the list, if any, is a task.
pub fn last_is_task(items: &Vec<Entry>) -> (ok: bool)
    ensures
        ok == ends_in_task(items@.map_values(|e: Entry| e@)),
{
    let n: usize = items.len();
    if n == 0 {
        true
    } else {
        match &items[n - 1] {
            Entry::Task { .. } => true,
            Entry::Label { .. } => false,
        }
    }
}

/// Whether [`undo_changes`] may run on `todos` with `specials`.
pub fn can_undo(todos: &Todos, specials: &Vec<String>) -> (ok: bool)
    ensures
        ok == ends_in_task(without_last(todos@, specials@.len())),
{
    let n: usize = todos.items.len();
    let k: usize = specials.len();
    if n <= k {
        true
    } else {
        match &todos.items[n - k - 1] {
            Entry::Task { .. } => true,
            Entry::Label { .. } => false,
        }
    }
}

/// Whether every entry can be drawn with the given commands.
pub fn all_drawable(items: &Vec<Entry>, specials: &Vec<String>) -> (ok: bool)
    ensures
        ok == forall|i: int| 0 <= i < items.len() ==> drawable(#[trigger] items@[i]@, views_of_strings(specials@)),
{
    let n: usize = items.len();
    for i in 0..n
        invariant
            n == items.len(),
            forall|j: int| 0 <= j < i ==> drawable(#[trigger] items@[j]@, views_of_strings(specials@)),
    {
        let is_task: bool = match &items[i] {
            Entry::Task { .. } => true,
            Entry::Label { .. } => false,
        };
        if !is_task {
            let text: &str = match &items[i] {
                Entry::Task { name, .. } => name.as_str(),
                Entry::Label { text } => text.as_str(),
            };
            let chars = chars_of(text);
            let unquoted = drop_chars(&chars, '"');
            let key = trim_chars(&unquoted);
            let key_text = string_of(&key);
            if !contains_text(specials, key_text.as_str()) {
                assert(!drawable(items@[i as int]@, views_of_strings(specials@)));
                return false;
            }
        }
    }
    true
}

/// Whether [`toggle_item`] may run on `todos` at `selected`.
pub fn can_toggle(todos: &Todos, selected: usize) -> (ok: bool)
    ensures
        ok == toggle_defined(todos@, selected as int),
{
    let n: usize = todos.items.len();
    if selected >= n {
        return false;
    }
    let target: &String = match &todos.items[selected] {
        Entry::Task { name, .. } => name,
        Entry::Label { .. } => {
            return false;
        },
    };
    let ghost items = todos@;
    for j in 0..n
        invariant
            n == todos.items.len(),
            items == todos@,
            selected < n,
            items[selected as int] is Task,
            target@ == items[selected as int]->name,
            forall|k: int| 0 <= k < j ==> (#[trigger] items[k]) is Task && items[k]->name != target@,
    {
        match &todos.items[j] {
            Entry::Task { name, .. } => {
                if same_text(name.as_str(), target.as_str()) {
                    assert(first_named(items, j as int, target@));
                    return true;
                }
            },
            Entry::Label { .. } => {
                assert forall|f: int| !first_named(items, f, target@) by {
                    if first_named(items, f, target@) {
                        if f < j {
                        } else if f > j {
                            assert(items[j as int] is Task);
                        }
                    }
                }
                return false;
            },
        }
    }
    // The search meets the selected task itself at the latest.
    assert(items[selected as int]->name == target@);
    false
}

/// Law: an entry acts as a command exactly when its whole shown text is that
/// command; every other entry, a task named `Clear the garage` among them,
/// toggles.
pub proof fn lemma_commands_match_whole_text(item: Item)
    ensures
        (action_for(item) == ViewAction::Back) == (shown(item) == "Back"@),
        (action_for(item) == ViewAction::Clear) == (shown(item) == "Clear"@),
        (action_for(item) == ViewAction::Create) == (shown(item) == "Create"@),
        (action_for(item) == ViewAction::Toggle)
            == (shown(item) != "Back"@ && shown(item) != "Clear"@ && shown(item) != "Create"@),
{
    reveal_strlit("Back");
    reveal_strlit("Clear");
    reveal_strlit("Create");
    assert("Back"@.len() != "Clear"@.len());
    assert("Back"@.len() != "Create"@.len());
    assert("Clear"@.len() != "Create"@.len());
}

} // verus!
