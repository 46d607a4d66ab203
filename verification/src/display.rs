//! An order book as a line of text.

use crate::book::best_first;
use crate::book::spread;
use crate::book::Depth;
use crate::book::DepthView;
use crate::items::LobLevel;
use crate::line::add_fixed;
use crate::line::add_line;
use crate::line::add_text;
use crate::line::line;
use crate::line::Piece;
use crate::line::PieceView;
use crate::num::arithmetic;
use crate::num::FloatOp;
use crate::num::Num;
use crate::text::decimal;
use crate::text::unsigned_text;
use vstd::prelude::*;

verus! {

/// Levels one after the other: the price to two decimals, and the size in
/// brackets.
pub open spec fn side_line(levels: Seq<LobLevel>) -> Seq<PieceView>
    decreases levels.len(),
{
    if levels.len() == 0 {
        Seq::empty()
    } else {
        let before = side_line(levels.drop_last());
        let level = levels.last();
        (if levels.len() == 1 {
            before
        } else {
            before.push(PieceView::Text(", "@))
        }).push(PieceView::Fixed { num: level.price, decimals: 2 }).push(
            PieceView::Text(" ("@ + level.size.text@ + ")"@),
        )
    }
}

/// The spread to two decimals, or a question mark.
pub open spec fn spread_piece(spread: Option<Num>) -> PieceView {
    match spread {
        Some(s) => PieceView::Fixed { num: s, decimals: 2 },
        None => PieceView::Text("?"@),
    }
}

/// The line about a book: the number of levels of each side, the spread, and
/// every level, on each side with the best first.
pub open spec fn book_line<A: Fn(FloatOp, Num, Num) -> Num>(
    unit: A,
    d: DepthView,
    instrument: Seq<char>,
) -> Seq<PieceView> {
    seq![
        PieceView::Text(
            instrument + "  bids="@ + decimal(d.bids.len()) + "  asks="@ + decimal(d.asks.len())
                + "  spread="@,
        ),
        spread_piece(spread(unit, d.bids, d.asks)),
        PieceView::Text("  bids: [ "@),
    ] + side_line(best_first(d.bids)) + seq![PieceView::Text(" ] | asks: [ "@)] + side_line(d.asks)
        + seq![PieceView::Text(" ]"@)]
}

fn format_side(levels: &Vec<LobLevel>) -> (r: Vec<Piece>)
    ensures
        line(r@) == side_line(levels@),
{
    let mut out: Vec<Piece> = Vec::new();
    let mut i: usize = 0;
    proof {
        assert(levels@.take(0) =~= Seq::<LobLevel>::empty());
        assert(line(out@) =~= Seq::<PieceView>::empty());
    }
    while i < levels.len()
        invariant
            i <= levels.len(),
            line(out@) == side_line(levels@.take(i as int)),
        decreases levels.len() - i,
    {
        assert(levels@.take(i + 1).drop_last() =~= levels@.take(i as int));
        if i != 0 {
            add_text(&mut out, ", ");
        }
        add_fixed(&mut out, &levels[i].price, 2);
        add_text(
            &mut out,
            " (".to_owned().concat(levels[i].size.text.as_str()).concat(")").as_str(),
        );
        i += 1;
    }
    assert(levels@.take(levels@.len() as int) =~= levels@);
    out
}

/// Formats a book as a line of text.
pub fn display_book<A: Fn(FloatOp, Num, Num) -> Num>(book: &Depth, instrument: &str, unit: &A) -> (r:
    Vec<Piece>)
    requires
        arithmetic(*unit),
    ensures
        line(r@) == book_line(*unit, book@, instrument@),
{
    let mut out: Vec<Piece> = Vec::new();
    assert(line(out@) =~= Seq::<PieceView>::empty());
    let head: String = instrument.to_owned().concat("  bids=").concat(
        unsigned_text(book.bids.len() as u64).as_str(),
    ).concat("  asks=").concat(unsigned_text(book.asks.len() as u64).as_str()).concat("  spread=");
    add_text(&mut out, head.as_str());
    match book.spread(unit) {
        Some(s) => add_fixed(&mut out, &s, 2),
        None => add_text(&mut out, "?"),
    }
    add_text(&mut out, "  bids: [ ");
    let bids: Vec<LobLevel> = book.top_bids(book.bids.len());
    let asks: Vec<LobLevel> = book.top_asks(book.asks.len());
    add_line(&mut out, format_side(&bids));
    add_text(&mut out, " ] | asks: [ ");
    add_line(&mut out, format_side(&asks));
    add_text(&mut out, " ]");
    assert(line(out@) =~= book_line(*unit, book@, instrument@));
    out
}

/// A side is shown level by level: the price with two decimals, the size in
/// brackets as it is written, and a comma between two levels.
pub proof fn side_shows_every_level(levels: Seq<LobLevel>, i: int)
    requires
        0 <= i < levels.len(),
    ensures
        side_line(levels).len() == 3 * levels.len() - 1,
        side_line(levels)[3 * i] == (PieceView::Fixed { num: levels[i].price, decimals: 2 }),
        side_line(levels)[3 * i + 1] == PieceView::Text(" ("@ + levels[i].size.text@ + ")"@),
        i + 1 < levels.len() ==> side_line(levels)[3 * i + 2] == PieceView::Text(", "@),
    decreases levels.len(),
{
    let t = levels.drop_last();
    let n = levels.len();
    assert(levels[n - 1] == levels.last());
    if t.len() == 0 {
        assert(side_line(t) =~= Seq::<PieceView>::empty());
    } else {
        side_shows_every_level(t, if i < t.len() {
            i
        } else {
            0
        });
        let s = side_line(t);
        let u = side_line(levels);
        assert(u[3 * (n - 1) - 1] == PieceView::Text(", "@));
        if i < t.len() {
            assert(t[i] == levels[i]);
            assert(u[3 * i] == s[3 * i]);
            assert(u[3 * i + 1] == s[3 * i + 1]);
            if i + 1 < t.len() {
                assert(u[3 * i + 2] == s[3 * i + 2]);
            }
        }
    }
}

/// A book is shown by its instrument and the number of levels of each side,
/// the spread with two decimals, or a question mark where there is none, the
/// bids from the highest down and the asks from the lowest up.
pub proof fn book_shows_both_sides<A: Fn(FloatOp, Num, Num) -> Num>(
    unit: A,
    d: DepthView,
    instrument: Seq<char>,
    bids: Seq<LobLevel>,
)
    requires
        bids.len() == d.bids.len(),
        forall|i: int| 0 <= i < bids.len() ==> #[trigger] bids[i] == d.bids[d.bids.len() - 1 - i],
    ensures
        ({
            let shown = book_line(unit, d, instrument);
            let b = side_line(bids).len() as int;
            let a = side_line(d.asks).len() as int;
            &&& shown.len() == b + a + 5
            &&& shown[0] == PieceView::Text(
                instrument + "  bids="@ + decimal(d.bids.len()) + "  asks="@ + decimal(d.asks.len())
                    + "  spread="@,
            )
            &&& d.bids.len() > 0 && d.asks.len() > 0 ==> shown[1] == (PieceView::Fixed {
                num: crate::num::answer(
                    unit,
                    FloatOp::Difference,
                    d.asks[0].price,
                    d.bids.last().price,
                ),
                decimals: 2,
            })
            &&& d.bids.len() == 0 || d.asks.len() == 0 ==> shown[1] == PieceView::Text("?"@)
            &&& shown[2] == PieceView::Text("  bids: [ "@)
            &&& shown.subrange(3, 3 + b) == side_line(bids)
            &&& shown[3 + b] == PieceView::Text(" ] | asks: [ "@)
            &&& shown.subrange(4 + b, 4 + b + a) == side_line(d.asks)
            &&& shown[4 + b + a] == PieceView::Text(" ]"@)
        }),
{
    assert(best_first(d.bids) =~= bids);
    let shown = book_line(unit, d, instrument);
    let b = side_line(bids).len() as int;
    let a = side_line(d.asks).len() as int;
    assert(shown.subrange(3, 3 + b) =~= side_line(bids));
    assert(shown.subrange(4 + b, 4 + b + a) =~= side_line(d.asks));
}

} // verus!
