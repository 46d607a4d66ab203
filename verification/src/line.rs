//! Lines of text that hold numbers to a fixed number of decimals.
//!
//! The library composes a line from pieces; where a piece is a number to so
//! many decimals, whoever shows the line prints the number.

use crate::num::Num;
use vstd::prelude::*;

verus! {

/// A piece of a line.
#[derive(Debug)]
pub enum Piece {
    /// Text as it stands.
    Text(String),
    /// A number, to be printed with this many decimals.
    Fixed { num: Num, decimals: u8 },
}

/// The mathematical content of a [`Piece`].
pub enum PieceView {
    Text(Seq<char>),
    Fixed { num: Num, decimals: u8 },
}

impl View for Piece {
    type V = PieceView;

    open spec fn view(&self) -> PieceView {
        match *self {
            Piece::Text(s) => PieceView::Text(s@),
            Piece::Fixed { num, decimals } => PieceView::Fixed { num, decimals },
        }
    }
}

/// The content of a line.
pub open spec fn line(pieces: Seq<Piece>) -> Seq<PieceView> {
    pieces.map_values(|p: Piece| p@)
}

/// Appends text to a line.
pub fn add_text(pieces: &mut Vec<Piece>, s: &str)
    ensures
        line(final(pieces)@) == line(old(pieces)@).push(PieceView::Text(s@)),
{
    pieces.push(Piece::Text(s.to_owned()));
    assert(line(pieces@) =~= line(old(pieces)@).push(PieceView::Text(s@)));
}

/// Appends a number to a line.
pub fn add_fixed(pieces: &mut Vec<Piece>, num: &Num, decimals: u8)
    ensures
        line(final(pieces)@) == line(old(pieces)@).push(PieceView::Fixed { num: *num, decimals }),
{
    pieces.push(Piece::Fixed { num: num.clone(), decimals });
    assert(line(pieces@) =~= line(old(pieces)@).push(PieceView::Fixed { num: *num, decimals }));
}

/// Appends the pieces of another line.
pub fn add_line(pieces: &mut Vec<Piece>, mut other: Vec<Piece>)
    ensures
        line(final(pieces)@) == line(old(pieces)@) + line(other@),
{
    let ghost tail = other@;
    pieces.append(&mut other);
    assert(line(pieces@) =~= line(old(pieces)@) + line(tail));
}

} // verus!
