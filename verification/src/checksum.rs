//! The checksum of an order book.

use crate::book::best_first;
use crate::book::first_levels;
use crate::book::Depth;
use crate::book::DepthView;
use crate::items::LobLevel;
use crate::num::Num;
use crate::text::chars_of;
use crate::text::text_of;
use vstd::prelude::*;
use vstd::utf8::encode_utf8;

verus! {

/// The CRC-32 of bytes.
pub uninterp spec fn crc32(bytes: Seq<u8>) -> u32;

/// `crc32fast::hash` depends on the bytes alone.
pub assume_specification[ crc32fast::hash ](buf: &[u8]) -> (r: u32)
    ensures
        r == crc32(buf@),
;

/// A text without its first decimal point.
pub open spec fn without_point(s: Seq<char>) -> Seq<char>
    decreases s.len(),
{
    if s.len() == 0 {
        s
    } else if s[0] == '.' {
        s.skip(1)
    } else {
        seq![s[0]] + without_point(s.skip(1))
    }
}

/// A text without the zeros that it begins with.
pub open spec fn without_zeros(s: Seq<char>) -> Seq<char>
    decreases s.len(),
{
    if s.len() > 0 && s[0] == '0' {
        without_zeros(s.skip(1))
    } else {
        s
    }
}

/// A number as it enters the checksum: its printed text without the decimal
/// point and then without leading zeros.
pub open spec fn checksum_digits(n: Num) -> Seq<char> {
    without_zeros(without_point(n.text@))
}

proof fn lemma_without_point(s: Seq<char>, i: int)
    requires
        0 <= i <= s.len(),
        forall|j: int| 0 <= j < i ==> s[j] != '.',
        i < s.len() ==> s[i] == '.',
    ensures
        without_point(s) == s.take(i) + s.skip(if i < s.len() { i + 1 } else { i }),
    decreases s.len(),
{
    if s.len() == 0 {
        assert(s.take(i) + s.skip(i) =~= s);
    } else if i == 0 {
        assert(s.take(0) + s.skip(1) =~= s.skip(1));
    } else {
        let t = s.skip(1);
        lemma_without_point(t, i - 1);
        if i < s.len() {
            assert(seq![s[0]] + (t.take(i - 1) + t.skip(i)) =~= s.take(i) + s.skip(i + 1));
        } else {
            assert(seq![s[0]] + (t.take(i - 1) + t.skip(i - 1)) =~= s.take(i) + s.skip(i));
        }
    }
}

/// A number as it enters the checksum.
pub fn format_number(value: &Num) -> (r: String)
    ensures
        r@ == checksum_digits(*value),
{
    let v: Vec<char> = chars_of(value.text.as_str());
    let ghost s = value.text@;
    let mut p: usize = 0;
    while p < v.len() && v[p] != '.'
        invariant
            p <= v.len(),
            v@ == s,
            forall|j: int| 0 <= j < p ==> s[j] != '.',
        ensures
            p <= v.len(),
            p < v.len() ==> s[p as int] == '.',
            forall|j: int| 0 <= j < p ==> s[j] != '.',
        decreases v.len() - p,
    {
        p += 1;
    }
    proof {
        lemma_without_point(s, p as int);
    }
    let mut joined: Vec<char> = Vec::new();
    let mut i: usize = 0;
    while i < v.len()
        invariant
            i <= v.len(),
            p <= v.len(),
            v@ == s,
            joined@ == (if i <= p {
                s.take(i as int)
            } else {
                s.take(p as int) + s.subrange(p + 1, i as int)
            }),
        decreases v.len() - i,
    {
        if i != p {
            joined.push(v[i]);
        }
        proof {
            if i < p {
                assert(joined@ =~= s.take(i + 1));
            } else {
                assert(joined@ =~= s.take(p as int) + s.subrange(p + 1, i + 1));
            }
        }
        i += 1;
    }
    proof {
        assert(joined@ =~= without_point(s));
    }
    let mut z: usize = 0;
    assert(joined@.skip(0) =~= joined@);
    while z < joined.len() && joined[z] == '0'
        invariant
            z <= joined.len(),
            without_zeros(joined@) == without_zeros(joined@.skip(z as int)),
        ensures
            z <= joined.len(),
            z < joined.len() ==> joined@[z as int] != '0',
            without_zeros(joined@) == without_zeros(joined@.skip(z as int)),
        decreases joined.len() - z,
    {
        assert(joined@.skip(z as int).skip(1) =~= joined@.skip(z + 1));
        z += 1;
    }
    let mut out: Vec<char> = Vec::new();
    let mut k: usize = z;
    while k < joined.len()
        invariant
            z <= k <= joined.len(),
            out@ == joined@.subrange(z as int, k as int),
        decreases joined.len() - k,
    {
        out.push(joined[k]);
        assert(out@ =~= joined@.subrange(z as int, k + 1));
        k += 1;
    }
    assert(out@ =~= joined@.skip(z as int));
    text_of(&out)
}

/// The checksum text of levels: for each its price and its size.
pub open spec fn levels_digits(levels: Seq<LobLevel>) -> Seq<char>
    decreases levels.len(),
{
    if levels.len() == 0 {
        Seq::empty()
    } else {
        levels_digits(levels.drop_last()) + checksum_digits(levels.last().price) + checksum_digits(
            levels.last().size,
        )
    }
}

/// The text that the checksum of a book is taken of: the best `depth` asks
/// and then the best `depth` bids, each side with the best first.
pub open spec fn checksum_text(d: DepthView, depth: int) -> Seq<char> {
    levels_digits(first_levels(d.asks, depth)) + levels_digits(
        first_levels(best_first(d.bids), depth),
    )
}

/// The checksum of a book.
pub open spec fn book_checksum(d: DepthView, depth: int) -> u32 {
    crc32(encode_utf8(checksum_text(d, depth)))
}

fn append_levels(s: &mut String, levels: &Vec<LobLevel>)
    ensures
        final(s)@ == old(s)@ + levels_digits(levels@),
{
    let mut i: usize = 0;
    proof {
        assert(levels@.take(0) =~= Seq::<LobLevel>::empty());
        assert(s@ =~= old(s)@ + levels_digits(levels@.take(0)));
    }
    while i < levels.len()
        invariant
            i <= levels.len(),
            s@ == old(s)@ + levels_digits(levels@.take(i as int)),
        decreases levels.len() - i,
    {
        s.append(format_number(&levels[i].price).as_str());
        s.append(format_number(&levels[i].size).as_str());
        proof {
            assert(levels@.take(i + 1).drop_last() =~= levels@.take(i as int));
            assert(s@ =~= old(s)@ + levels_digits(levels@.take(i + 1)));
        }
        i += 1;
    }
    assert(levels@.take(levels@.len() as int) =~= levels@);
}

/// The CRC-32 of the best `depth` levels of each side.
pub fn compute_checksum(book: &Depth, depth: usize) -> (r: u32)
    ensures
        r == book_checksum(book@, depth as int),
{
    let asks: Vec<LobLevel> = book.top_asks(depth);
    let bids: Vec<LobLevel> = book.top_bids(depth);
    let mut s = String::new();
    append_levels(&mut s, &asks);
    append_levels(&mut s, &bids);
    assert(s@ =~= checksum_text(book@, depth as int));
    crc32fast::hash(s.as_str().as_bytes())
}

/// The digits of a text with a point are what stands before the first point
/// and what follows it.
pub proof fn point_is_left_out(before: Seq<char>, after: Seq<char>)
    requires
        forall|i: int| 0 <= i < before.len() ==> before[i] != '.',
    ensures
        without_point(before + seq!['.'] + after) == before + after,
        without_point(before) == before,
{
    let s = before + seq!['.'] + after;
    let i = before.len() as int;
    assert(s[i] == '.');
    assert forall|j: int| 0 <= j < i implies s[j] != '.' by {
        assert(s[j] == before[j]);
    }
    lemma_without_point(s, i);
    assert(s.take(i) + s.skip(i + 1) =~= before + after);
    lemma_without_point(before, i);
    assert(before.take(i) + before.skip(i) =~= before);
}

/// The zeros that a text starts with are left out, and nothing else.
pub proof fn leading_zeros_are_left_out(zeros: Seq<char>, rest: Seq<char>)
    requires
        forall|i: int| 0 <= i < zeros.len() ==> zeros[i] == '0',
        rest.len() == 0 || rest[0] != '0',
    ensures
        without_zeros(zeros + rest) == rest,
    decreases zeros.len(),
{
    if zeros.len() == 0 {
        assert(zeros + rest =~= rest);
    } else {
        let t = zeros.skip(1);
        assert forall|i: int| 0 <= i < t.len() implies t[i] == '0' by {
            assert(t[i] == zeros[i + 1]);
        }
        leading_zeros_are_left_out(t, rest);
        assert((zeros + rest)[0] == '0');
        assert((zeros + rest).skip(1) =~= t + rest);
    }
}

/// What a number adds to the checksum is its text without the point and
/// without the zeros that it then starts with.
pub proof fn digits_of_a_number(n: Num, whole: Seq<char>, fraction: Seq<char>, zeros: int)
    requires
        forall|i: int| 0 <= i < whole.len() ==> whole[i] != '.',
        n.text@ == whole + seq!['.'] + fraction || (n.text@ == whole && fraction.len() == 0),
        0 <= zeros <= whole.len() + fraction.len(),
        forall|i: int| 0 <= i < zeros ==> (whole + fraction)[i] == '0',
        zeros == whole.len() + fraction.len() || (whole + fraction)[zeros] != '0',
    ensures
        checksum_digits(n) == (whole + fraction).skip(zeros),
{
    let all = whole + fraction;
    point_is_left_out(whole, fraction);
    if fraction.len() == 0 {
        assert(all =~= whole);
    }
    leading_zeros_are_left_out(all.take(zeros), all.skip(zeros));
    assert(all.take(zeros) + all.skip(zeros) =~= all);
}

/// The digits of levels follow each other, and those of a level are those of
/// its price and after that those of its size.
pub proof fn digits_of_levels(a: Seq<LobLevel>, b: Seq<LobLevel>, level: LobLevel)
    ensures
        levels_digits(Seq::empty()) == Seq::<char>::empty(),
        levels_digits(seq![level]) == checksum_digits(level.price) + checksum_digits(level.size),
        levels_digits(a + b) == levels_digits(a) + levels_digits(b),
    decreases b.len(),
{
    assert(seq![level].drop_last() =~= Seq::<LobLevel>::empty());
    assert(levels_digits(seq![level].drop_last()) =~= Seq::<char>::empty());
    assert(levels_digits(seq![level]) =~= checksum_digits(level.price) + checksum_digits(
        level.size,
    ));
    if b.len() == 0 {
        assert(a + b =~= a);
        assert(levels_digits(a) + levels_digits(b) =~= levels_digits(a));
    } else {
        digits_of_levels(a, b.drop_last(), level);
        assert((a + b).drop_last() =~= a + b.drop_last());
        assert((a + b).last() == b.last());
        assert(levels_digits(a + b) =~= levels_digits(a) + levels_digits(b));
    }
}

/// The checksum is taken of the lowest asks, from the lowest up, and after
/// that of the highest bids, from the highest down, so many of each.
pub proof fn checksum_is_of_the_best_levels(
    d: DepthView,
    depth: int,
    asks: Seq<LobLevel>,
    bids: Seq<LobLevel>,
)
    requires
        depth >= 0,
        asks.len() == (if depth < d.asks.len() {
            depth
        } else {
            d.asks.len() as int
        }),
        forall|i: int| 0 <= i < asks.len() ==> #[trigger] asks[i] == d.asks[i],
        bids.len() == (if depth < d.bids.len() {
            depth
        } else {
            d.bids.len() as int
        }),
        forall|i: int| 0 <= i < bids.len() ==> #[trigger] bids[i] == d.bids[d.bids.len() - 1 - i],
    ensures
        book_checksum(d, depth) == crc32(encode_utf8(levels_digits(asks) + levels_digits(bids))),
{
    assert(first_levels(d.asks, depth) =~= asks);
    assert(first_levels(best_first(d.bids), depth) =~= bids);
}

} // verus!
