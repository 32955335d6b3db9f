//! Names of lists and the files that hold them.
use vstd::prelude::*;

use crate::text::{
    ascii_lower, ascii_lower_char, chars_of, contains_text, decimal, lower_ascii, push_decimal,
    string_of, swap_char, swap_chars, views_of_strings,
};
use crate::words::{
    all_whitespace, display_name, format_chars, lemma_trim_ignores_trailing_whitespace, trim,
    trim_chars,
};

verus! {

/// What a directory's file names are shown as: from the last name to the
/// first, each trimmed name that is not on the blacklist, formatted with
/// [`display_name`].
pub open spec fn shown_names(names: Seq<Seq<char>>, blacklist: Seq<Seq<char>>) -> Seq<Seq<char>>
    decreases names.len(),
{
    if names.len() == 0 {
        seq![]
    } else {
        let rest = shown_names(names.drop_first(), blacklist);
        if blacklist.contains(trim(names[0])) {
            rest
        } else {
            rest.push(display_name(trim(names[0])))
        }
    }
}

/// The menu items for the files of a directory, given the names that reading
/// the directory gave in the order it gave them: each name trimmed, names on
/// the blacklist left out, the rest formatted for display, and the whole list
/// reversed.
pub fn name_vector(names: &Vec<String>, blacklist: &Vec<String>) -> (items: Vec<String>)
    ensures
        views_of_strings(items@) == shown_names(views_of_strings(names@), views_of_strings(blacklist@)),
{
    let ghost all = views_of_strings(names@);
    let ghost banned = views_of_strings(blacklist@);
    let mut items: Vec<String> = Vec::new();
    let mut i: usize = names.len();
    assert(all.skip(i as int) =~= Seq::<Seq<char>>::empty());
    assert(views_of_strings(items@) =~= Seq::<Seq<char>>::empty());
    while i > 0
        invariant
            i <= names.len(),
            all == views_of_strings(names@),
            banned == views_of_strings(blacklist@),
            views_of_strings(items@) == shown_names(all.skip(i as int), banned),
        decreases i,
    {
        i = i - 1;
        let ghost rest = all.skip(i as int);
        assert(rest.drop_first() =~= all.skip(i + 1));
        assert(rest[0] == names@[i as int]@);
        let chars = chars_of(names[i].as_str());
        let trimmed = trim_chars(&chars);
        let name = string_of(&trimmed);
        if !contains_text(blacklist, name.as_str()) {
            let shown = format_chars(&trimmed);
            let ghost before = views_of_strings(items@);
            items.push(string_of(&shown));
            assert(views_of_strings(items@) =~= before.push(display_name(trim(rest[0]))));
        }
    }
    assert(all.skip(0) =~= all);
    items
}

/// The stem of the file that holds the list called `name`: ASCII capitals
/// lowered, surrounding whitespace trimmed, spaces read as underscores.
pub open spec fn file_stem(name: Seq<char>) -> Seq<char> {
    swap_char(trim(ascii_lower(name)), ' ', '_')
}

/// The path of the file that holds the list called `name`.
pub open spec fn list_path(name: Seq<char>) -> Seq<char> {
    "./todos/"@ + file_stem(name) + ".json"@
}

/// The path of the file that holds the list called `name`.
pub fn todo_file_path(name: &str) -> (path: String)
    ensures
        path@ == list_path(name@),
{
    let chars = chars_of(name);
    let lowered = lower_ascii(&chars);
    let trimmed = trim_chars(&lowered);
    let stem = swap_chars(&trimmed, ' ', '_');
    let mut path = String::from_str("./todos/");
    let stem_text = string_of(&stem);
    path.append(stem_text.as_str());
    path.append(".json");
    path
}

/// The name a new list gets from what was typed: trimmed, with spaces read
/// as underscores.
pub open spec fn typed_name(input: Seq<char>) -> Seq<char> {
    swap_char(trim(input), ' ', '_')
}

/// The name a new list gets from what was typed.
pub fn new_todo_name(input: &str) -> (name: String)
    ensures
        name@ == typed_name(input@),
        !name@.contains(' '),
{
    let chars = chars_of(input);
    let trimmed = trim_chars(&chars);
    let named = swap_chars(&trimmed, ' ', '_');
    assert(!named@.contains(' ')) by {
        if named@.contains(' ') {
            let k = choose|k: int| 0 <= k < named@.len() && named@[k] == ' ';
            assert(named@[k] == (if trimmed@[k] == ' ' { '_' } else { trimmed@[k] }));
        }
    }
    string_of(&named)
}

/// The name a list gets when none is typed.
pub fn default_todo_name() -> (name: String)
    ensures
        name@ == "Default"@,
{
    String::from_str("Default")
}

/// The path a new list called `name` is first tried at.
pub open spec fn original_path(name: Seq<char>) -> Seq<char> {
    "./todos/"@ + name + ".json"@
}

/// The path a new list called `name` is tried at on try `counter`, once the
/// plain path is taken.
pub open spec fn duplicate_path(name: Seq<char>, counter: nat) -> Seq<char> {
    "./todos/"@ + name + "_"@ + decimal(counter) + ".json"@
}

/// The path a new list called `name` is first tried at.
pub fn original_todo_path(name: &str) -> (path: String)
    ensures
        path@ == original_path(name@),
{
    let mut path = String::from_str("./todos/");
    path.append(name);
    path.append(".json");
    path
}

/// The path a new list called `name` is tried at on try `counter`.
pub fn duplicate_todo_path(name: &str, counter: u64) -> (path: String)
    ensures
        path@ == duplicate_path(name@, counter as nat),
{
    let mut path = String::from_str("./todos/");
    path.append(name);
    path.append("_");
    let mut digits: Vec<char> = Vec::new();
    push_decimal(&mut digits, counter);
    assert(digits@ =~= decimal(counter as nat));
    let digits_text = string_of(&digits);
    path.append(digits_text.as_str());
    path.append(".json");
    path
}

/// The number of the first try to place a new list.
pub fn first_counter() -> (counter: u64)
    ensures
        counter == 1,
{
    1
}

/// What to do on one try to place a new list.
pub enum CreateStep {
    /// Create the list at `path`.
    Create { path: String },
    /// Both paths of this try are taken: try again with number `counter`.
    TryNext { counter: u64 },
}

/// One try, number `counter`, to place a new list called `name`: its plain
/// path if that is free, else its path numbered `counter` if that is free,
/// else the next try with the next number.
pub fn creation_step(name: &str, counter: u64, original_free: bool, duplicate_free: bool) -> (step: CreateStep)
    requires
        original_free || duplicate_free || counter < u64::MAX,
    ensures
        original_free ==> (step matches CreateStep::Create { path } && path@ == original_path(name@)),
        !original_free && duplicate_free
            ==> (step matches CreateStep::Create { path } && path@ == duplicate_path(name@, counter as nat)),
        !original_free && !duplicate_free
            ==> (step matches CreateStep::TryNext { counter: next } && next == counter + 1),
{
    if original_free {
        CreateStep::Create { path: original_todo_path(name) }
    } else if duplicate_free {
        CreateStep::Create { path: duplicate_todo_path(name, counter) }
    } else {
        CreateStep::TryNext { counter: counter + 1 }
    }
}

/// The note the main screen shows after a list was created.
pub fn created_message(name: &str) -> (out: String)
    ensures
        out@ == "\r\nCreated new TO-DO with name "@ + name@ + "!"@,
{
    let mut out = String::from_str("\r\nCreated new TO-DO with name ");
    out.append(name);
    out.append("!");
    out
}

/// The note the main screen shows after every list was deleted.
pub fn cleared_message() -> (out: String)
    ensures
        out@ == "\r\nCleared all TO-DOs!"@,
{
    String::from_str("\r\nCleared all TO-DOs!")
}

/// Law: whitespace after a list's name, such as the line break that marks
/// the last entry of the menu of lists, does not change the file it opens
/// (for whitespace that ASCII lowering leaves as it is).
pub proof fn lemma_path_ignores_trailing_whitespace(name: Seq<char>, tail: Seq<char>)
    requires
        all_whitespace(tail),
        forall|i: int| 0 <= i < tail.len() ==> ascii_lower_char(#[trigger] tail[i]) == tail[i],
    ensures
        list_path(name + tail) == list_path(name),
{
    assert(ascii_lower(name + tail) =~= ascii_lower(name) + tail);
    lemma_trim_ignores_trailing_whitespace(ascii_lower(name), tail);
}

/// Law: the stem of a list's file reads every space of the lowered, trimmed
/// name as `_` and keeps every other character, so the path holds no space.
pub proof fn lemma_stem_reads_every_space(name: Seq<char>)
    ensures
        file_stem(name).len() == trim(ascii_lower(name)).len(),
        forall|i: int| 0 <= i < file_stem(name).len() ==> #[trigger] file_stem(name)[i] == (
            if trim(ascii_lower(name))[i] == ' ' { '_' } else { trim(ascii_lower(name))[i] }),
        forall|i: int| 0 <= i < list_path(name).len() ==> #[trigger] list_path(name)[i] != ' ',
{
    reveal_strlit("./todos/");
    reveal_strlit(".json");
    let p = list_path(name);
    let stem = file_stem(name);
    assert forall|i: int| 0 <= i < p.len() implies #[trigger] p[i] != ' ' by {
        if i < 8 {
            assert(p[i] == "./todos/"@[i]);
        } else if i < 8 + stem.len() {
            assert(p[i] == stem[i - 8]);
        } else {
            assert(p[i] == ".json"@[i - 8 - stem.len()]);
        }
    }
}

/// Whether a name is left out of the menu because its trimmed form is on the
/// blacklist.
pub open spec fn banned(blacklist: Seq<Seq<char>>, name: Seq<char>) -> bool {
    blacklist.contains(trim(name))
}

/// Law: the menu items for a directory are the names that are not on the
/// blacklist (wherever on it they stand), each trimmed and formatted, last
/// name first.
pub proof fn lemma_shown_names_filter_reverse(names: Seq<Seq<char>>, blacklist: Seq<Seq<char>>)
    ensures
        shown_names(names, blacklist) == names.filter(|n: Seq<char>| !banned(blacklist, n)).map_values(
            |n: Seq<char>| display_name(trim(n)),
        ).reverse(),
    decreases names.len(),
{
    let keep = |n: Seq<char>| !banned(blacklist, n);
    let show = |n: Seq<char>| display_name(trim(n));
    reveal_with_fuel(Seq::filter, 2);
    if names.len() == 0 {
        assert(names.filter(keep) =~= Seq::<Seq<char>>::empty());
        assert(names.filter(keep).map_values(show).reverse() =~= Seq::<Seq<char>>::empty());
    } else {
        let first = seq![names[0]];
        let rest = names.drop_first();
        assert(names =~= first + rest);
        lemma_shown_names_filter_reverse(rest, blacklist);
        Seq::filter_distributes_over_add(first, rest, keep);
        assert(first.drop_last() =~= Seq::<Seq<char>>::empty());
        let tail = rest.filter(keep);
        if keep(names[0]) {
            assert(first.filter(keep) =~= first);
            assert((first + tail).map_values(show).reverse()
                =~= tail.map_values(show).reverse().push(show(names[0])));
        } else {
            assert(first.filter(keep) =~= Seq::<Seq<char>>::empty());
            assert(Seq::<Seq<char>>::empty() + tail =~= tail);
        }
    }
}

} // verus!
