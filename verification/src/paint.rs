//! Lines of terminal text made of pieces, some of them bold and coloured by
//! crossterm's styling.
use vstd::prelude::*;

use crossterm::style::{style, Color, Stylize};


verus! {

/// The colours that menus highlight with.
#[derive(Clone, Copy, PartialEq, Eq, Debug)]
pub enum Tint {
    Green,
    Blue,
}

/// A piece of a line: text written as it is, or text written bold in a
/// colour.
pub enum Piece {
    Plain { text: String },
    Bold { text: String, tint: Tint },
}

/// The mathematical value of a [`Piece`].
pub enum PieceView {
    Plain { text: Seq<char> },
    Bold { text: Seq<char>, tint: Tint },
}

impl View for Piece {
    type V = PieceView;

    open spec fn view(&self) -> PieceView {
        match self {
            Piece::Plain { text } => PieceView::Plain { text: text@ },
            Piece::Bold { text, tint } => PieceView::Bold { text: text@, tint: *tint },
        }
    }
}

/// The values of a list of pieces.
pub open spec fn piece_views(pieces: Seq<Piece>) -> Seq<PieceView> {
    pieces.map_values(|p: Piece| p@)
}

/// The colour number crossterm writes for a tint (its 256-colour index).
pub open spec fn tint_code(tint: Tint) -> Seq<char> {
    match tint {
        Tint::Green => "10"@,
        Tint::Blue => "12"@,
    }
}

/// `text` in bold and the colour `tint`, as escape sequences: set the
/// foreground colour, set bold, the text, reset.
pub open spec fn ansi_styled(text: Seq<char>, tint: Tint) -> Seq<char> {
    "\u{1b}[38;5;"@ + tint_code(tint) + "m\u{1b}[1m"@ + text + "\u{1b}[0m"@
}

/// `text` in bold with the colour left out (the sequence that would set it
/// is written empty), as crossterm writes it when `NO_COLOR` is set.
pub open spec fn ansi_bold_uncoloured(text: Seq<char>) -> Seq<char> {
    "\u{1b}[m\u{1b}[1m"@ + text + "\u{1b}[0m"@
}

/// Whether `out` is what styling `text` bold in `tint` may give: the escape
/// sequences around the text; the same without the colour when `NO_COLOR` is
/// set; or nothing at all, on a Windows console without escape-sequence
/// support.
pub open spec fn styled_forms(out: Seq<char>, text: Seq<char>, tint: Tint) -> bool {
    out == ansi_styled(text, tint) || out == ansi_bold_uncoloured(text) || out.len() == 0
}

/// Whether `out` is what writing the piece may give.
pub open spec fn shows(out: Seq<char>, piece: PieceView) -> bool {
    match piece {
        PieceView::Plain { text } => out == text,
        PieceView::Bold { text, tint } => styled_forms(out, text, tint),
    }
}

/// The texts, one after another.
pub open spec fn flatten(parts: Seq<Seq<char>>) -> Seq<char>
    decreases parts.len(),
{
    if parts.len() == 0 {
        seq![]
    } else {
        flatten(parts.drop_last()) + parts.last()
    }
}

/// Whether `out` is what writing the pieces one after another may give:
/// each piece writes a text it may show, and `out` is those texts in order.
pub open spec fn renders(out: Seq<char>, pieces: Seq<PieceView>) -> bool {
    exists|parts: Seq<Seq<char>>|
        #![trigger flatten(parts)]
        parts.len() == pieces.len()
        && (forall|i: int| 0 <= i < parts.len() ==> shows(#[trigger] parts[i], pieces[i]))
        && out == flatten(parts)
}

/// Calls crossterm's `style(text).with(color).bold()` and formats it with
/// `to_string`.
/// Trusted: crossterm writes the foreground colour sequence (`38;5;10` for
/// green, `38;5;12` for blue), the bold sequence, the text and the reset
/// sequence; when the `NO_COLOR` environment variable is set the colour
/// sequence is written empty; on a Windows console without escape-sequence
/// support nothing is written at all. Which of the three comes back depends
/// on the environment and is not stated.
#[verifier::external_body]
pub(crate) fn paint_bold(text: &str, tint: Tint) -> (out: String)
    ensures
        styled_forms(out@, text@, tint),
{
    let color = match tint {
        Tint::Green => Color::Green,
        Tint::Blue => Color::Blue,
    };
    style(text).with(color).bold().to_string()
}

/// Writes one piece.
pub fn render_piece(piece: &Piece) -> (out: String)
    ensures
        shows(out@, piece@),
{
    match piece {
        Piece::Plain { text } => text.clone(),
        Piece::Bold { text, tint } => paint_bold(text.as_str(), *tint),
    }
}

/// Writes the pieces one after another.
pub fn render(pieces: &Vec<Piece>) -> (out: String)
    ensures
        renders(out@, piece_views(pieces@)),
{
    let ghost all = piece_views(pieces@);
    let ghost mut parts: Seq<Seq<char>> = seq![];
    let mut out = String::new();
    let n: usize = pieces.len();
    for i in 0..n
        invariant
            n == pieces.len(),
            all == piece_views(pieces@),
            parts.len() == i,
            forall|k: int| 0 <= k < i ==> shows(#[trigger] parts[k], all[k]),
            out@ == flatten(parts),
    {
        let piece = render_piece(&pieces[i]);
        out.append(piece.as_str());
        proof {
            let next = parts.push(piece@);
            assert(next.drop_last() =~= parts);
            assert(all[i as int] == pieces@[i as int]@);
            assert forall|k: int| 0 <= k < i + 1 implies shows(#[trigger] next[k], all[k]) by {
                if k < i {
                    assert(next[k] == parts[k]);
                }
            }
            parts = next;
        }
    }
    assert(parts.len() == all.len());
    out
}

/// A plain piece.
pub fn plain(text: &str) -> (piece: Piece)
    ensures
        piece@ == (PieceView::Plain { text: text@ }),
{
    Piece::Plain { text: String::from_str(text) }
}

/// A bold piece in the given colour.
pub fn bold(text: &str, tint: Tint) -> (piece: Piece)
    ensures
        piece@ == (PieceView::Bold { text: text@, tint }),
{
    Piece::Bold { text: String::from_str(text), tint }
}

} // verus!
