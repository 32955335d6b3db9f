//! Keyboard navigation of a vertical menu and the lines it is drawn with.
use vstd::prelude::*;

use crate::paint::{bold, piece_views, plain, render, renders, Piece, PieceView, Tint};

verus! {

/// The keys that a menu tells apart.
#[derive(Clone, Copy, PartialEq, Eq, Debug)]
pub enum Key {
    Up,
    Down,
    Enter,
    Other,
}

/// A terminal event as a menu sees it: a key with the bits of the modifier
/// keys held with it (0 for none), or any other event.
#[derive(Clone, Copy, PartialEq, Eq, Debug)]
pub enum MenuEvent {
    Key { code: Key, modifiers: u8 },
    Other,
}

/// What a menu does with an event: move the highlight to `index` and wait
/// for the next event, or choose the item at `index`.
#[derive(Clone, Copy, PartialEq, Eq, Debug)]
pub enum MenuStep {
    Moved { index: usize },
    Chosen { index: usize },
}

/// Whether `event` is the given key pressed alone.
pub open spec fn is_plain(event: MenuEvent, key: Key) -> bool {
    event matches MenuEvent::Key { code, modifiers } && code == key && modifiers == 0
}

/// The events on which a menu of `len` items highlighting `selected` can
/// act: moving up always; moving down when there is an item; choosing when
/// `selected` is an item.
pub open spec fn step_defined(selected: usize, len: usize, event: MenuEvent) -> bool {
    if is_plain(event, Key::Up) {
        true
    } else if is_plain(event, Key::Down) {
        len > 0
    } else {
        selected < len
    }
}

/// What a menu does: a plain Up moves the highlight one item up unless it is
/// on the first, a plain Down one item down unless it is on the last, and
/// every other event (Enter among them) chooses the highlighted item.
pub open spec fn next_step(selected: usize, len: usize, event: MenuEvent) -> MenuStep {
    if is_plain(event, Key::Up) {
        MenuStep::Moved { index: if selected > 0 { (selected - 1) as usize } else { selected } }
    } else if is_plain(event, Key::Down) {
        MenuStep::Moved { index: if selected < len - 1 { (selected + 1) as usize } else { selected } }
    } else {
        MenuStep::Chosen { index: selected }
    }
}

/// One step of a menu of `len` items whose highlight is on `selected`.
pub fn menu_step(selected: usize, len: usize, event: MenuEvent) -> (step: MenuStep)
    requires
        step_defined(selected, len, event),
    ensures
        step == next_step(selected, len, event),
{
    match event {
        MenuEvent::Key { code: Key::Up, modifiers: 0 } => {
            let index: usize = if selected > 0 { selected - 1 } else { selected };
            MenuStep::Moved { index }
        },
        MenuEvent::Key { code: Key::Down, modifiers: 0 } => {
            let index: usize = if selected < len - 1 { selected + 1 } else { selected };
            MenuStep::Moved { index }
        },
        _ => MenuStep::Chosen { index: selected },
    }
}

/// Whether [`menu_step`] may run: see [`step_defined`].
pub fn step_allowed(selected: usize, len: usize, event: MenuEvent) -> (ok: bool)
    ensures
        ok == step_defined(selected, len, event),
{
    match event {
        MenuEvent::Key { code: Key::Up, modifiers: 0 } => true,
        MenuEvent::Key { code: Key::Down, modifiers: 0 } => len > 0,
        _ => selected < len,
    }
}

/// Law: a menu whose highlight is on one of its items keeps it on one of its
/// items whatever the event, and chooses only one of its items; so a menu
/// that starts on an item never indexes past its end.
pub proof fn lemma_menu_stays_in_range(selected: usize, len: usize, event: MenuEvent)
    requires
        selected < len,
    ensures
        step_defined(selected, len, event),
        match next_step(selected, len, event) {
            MenuStep::Moved { index } => index < len,
            MenuStep::Chosen { index } => index < len,
        },
{
}

/// Law: from an item that is neither the first nor the last, a plain Down
/// undoes a plain Up.
pub proof fn lemma_up_then_down(selected: usize, len: usize, up: MenuEvent, down: MenuEvent)
    requires
        0 < selected < len,
        is_plain(up, Key::Up),
        is_plain(down, Key::Down),
    ensures
        next_step(selected, len, up) == (MenuStep::Moved { index: (selected - 1) as usize }),
        next_step((selected - 1) as usize, len, down) == (MenuStep::Moved { index: selected }),
{
}

/// The pieces of the line that draws `item`: the item as it is; when
/// highlighted, the marker `"> "` and then the item in bold green.
pub open spec fn menu_pieces(item: Seq<char>, highlighted: bool) -> Seq<PieceView> {
    if highlighted {
        seq![PieceView::Plain { text: "> "@ }, PieceView::Bold { text: item, tint: Tint::Green }]
    } else {
        seq![PieceView::Plain { text: item }]
    }
}

/// The pieces of the line that draws `item`.
pub fn menu_line_pieces(item: &str, highlighted: bool) -> (pieces: Vec<Piece>)
    ensures
        piece_views(pieces@) == menu_pieces(item@, highlighted),
{
    let pieces: Vec<Piece> = if highlighted {
        vec![plain("> "), bold(item, Tint::Green)]
    } else {
        vec![plain(item)]
    };
    assert(piece_views(pieces@) =~= menu_pieces(item@, highlighted));
    pieces
}

/// The line that draws `item`, highlighted in bold green when `highlighted`.
pub fn menu_line(item: &str, highlighted: bool) -> (line: String)
    ensures
        renders(line@, menu_pieces(item@, highlighted)),
{
    let pieces = menu_line_pieces(item, highlighted);
    render(&pieces)
}

/// The lines that draw a menu of `items` with the highlight on `selected`.
pub fn menu_lines(items: &Vec<String>, selected: usize) -> (lines: Vec<String>)
    ensures
        lines.len() == items.len(),
        forall|i: int| 0 <= i < items.len() ==> renders(#[trigger] lines@[i]@, menu_pieces(items@[i]@, i == selected)),
{
    let mut lines: Vec<String> = Vec::new();
    let n: usize = items.len();
    for i in 0..n
        invariant
            n == items.len(),
            lines.len() == i,
            forall|j: int| 0 <= j < i ==> renders(#[trigger] lines@[j]@, menu_pieces(items@[j]@, j == selected)),
    {
        let line = menu_line(items[i].as_str(), i == selected);
        lines.push(line);
    }
    lines
}

/// Law: on a plain Up the highlight goes to the item above (staying on the
/// first), on a plain Down to the item below (staying on the last), and on
/// every other event the highlighted item itself is chosen.
pub proof fn lemma_menu_moves_and_chooses(selected: usize, len: usize, event: MenuEvent)
    requires
        selected < len,
    ensures
        is_plain(event, Key::Up) ==> next_step(selected, len, event) == (MenuStep::Moved {
            index: if selected == 0 { 0 } else { (selected - 1) as usize },
        }),
        is_plain(event, Key::Down) ==> next_step(selected, len, event) == (MenuStep::Moved {
            index: if selected + 1 == len { selected } else { (selected + 1) as usize },
        }),
        !is_plain(event, Key::Up) && !is_plain(event, Key::Down)
            ==> next_step(selected, len, event) == (MenuStep::Chosen { index: selected }),
{
}

} // verus!
