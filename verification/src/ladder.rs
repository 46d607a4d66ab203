//! One side of an order book: levels in strictly ascending order of price.

use crate::items::LobLevel;
use crate::num::Num;
use vstd::prelude::*;

verus! {

/// The levels are in strictly ascending order of price.
pub open spec fn sorted(s: Seq<LobLevel>) -> bool {
    forall|i: int, j: int|
        0 <= i < j < s.len() ==> (#[trigger] s[i]).price.key() < (#[trigger] s[j]).price.key()
}

/// The levels after `size` was put at `price`: in the place of the level at
/// that price, or as a new level where there was none.
pub open spec fn upsert(s: Seq<LobLevel>, price: Num, size: Num) -> Seq<LobLevel>
    decreases s.len(),
{
    if s.len() == 0 || s.last().price.key() < price.key() {
        s.push(LobLevel { price, size })
    } else if s.last().price.key() == price.key() {
        s.drop_last().push(LobLevel { price: s.last().price, size })
    } else {
        upsert(s.drop_last(), price, size).push(s.last())
    }
}

/// The levels without the one at the price with this key.
pub open spec fn erase(s: Seq<LobLevel>, key: int) -> Seq<LobLevel>
    decreases s.len(),
{
    if s.len() == 0 {
        s
    } else if s.last().price.key() == key {
        erase(s.drop_last(), key)
    } else {
        erase(s.drop_last(), key).push(s.last())
    }
}

/// The size at the price with this key, if a level stands there.
pub open spec fn size_at(s: Seq<LobLevel>, key: int) -> Option<Num>
    decreases s.len(),
{
    if s.len() == 0 {
        None
    } else if s.last().price.key() == key {
        Some(s.last().size)
    } else {
        size_at(s.drop_last(), key)
    }
}

/// The price of the best bid, if there is one.
pub open spec fn best_bid(bids: Seq<LobLevel>) -> Option<Num> {
    if bids.len() == 0 {
        None
    } else {
        Some(bids.last().price)
    }
}

/// The price of the best ask, if there is one.
pub open spec fn best_ask(asks: Seq<LobLevel>) -> Option<Num> {
    if asks.len() == 0 {
        None
    } else {
        Some(asks[0].price)
    }
}

proof fn lemma_upsert(s: Seq<LobLevel>, price: Num, size: Num, i: int)
    requires
        sorted(s),
        0 <= i <= s.len(),
        forall|j: int| 0 <= j < i ==> (#[trigger] s[j]).price.key() < price.key(),
        forall|j: int| i <= j < s.len() ==> (#[trigger] s[j]).price.key() >= price.key(),
    ensures
        upsert(s, price, size) == (if i < s.len() && s[i].price.key() == price.key() {
            s.update(i, LobLevel { price: s[i].price, size })
        } else {
            s.insert(i, LobLevel { price, size })
        }),
    decreases s.len(),
{
    let level = LobLevel { price, size };
    if s.len() == 0 || s.last().price.key() < price.key() {
        assert(i == s.len());
        assert(s.insert(i, level) =~= s.push(level));
    } else if s.last().price.key() == price.key() {
        if i < s.len() - 1 {
            assert(s[i].price.key() < s[s.len() - 1].price.key());
        }
        assert(i == s.len() - 1);
        assert(s.update(i, LobLevel { price: s[i].price, size }) =~= s.drop_last().push(
            LobLevel { price: s.last().price, size },
        ));
    } else {
        let t = s.drop_last();
        assert(i < s.len());
        lemma_upsert(t, price, size, i);
        if i < t.len() && t[i].price.key() == price.key() {
            assert(upsert(s, price, size) =~= s.update(i, LobLevel { price: s[i].price, size }));
        } else {
            assert(upsert(s, price, size) =~= s.insert(i, level));
        }
    }
}

proof fn lemma_erase_absent(s: Seq<LobLevel>, key: int)
    requires
        forall|j: int| 0 <= j < s.len() ==> (#[trigger] s[j]).price.key() != key,
    ensures
        erase(s, key) == s,
    decreases s.len(),
{
    if s.len() > 0 {
        assert(s[s.len() - 1].price.key() != key);
        lemma_erase_absent(s.drop_last(), key);
        assert(s.drop_last().push(s.last()) =~= s);
    }
}

proof fn lemma_erase(s: Seq<LobLevel>, key: int, i: int)
    requires
        sorted(s),
        0 <= i < s.len(),
        s[i].price.key() == key,
    ensures
        erase(s, key) == s.remove(i),
    decreases s.len(),
{
    if i == s.len() - 1 {
        assert forall|j: int| 0 <= j < s.drop_last().len() implies (
        #[trigger] s.drop_last()[j]).price.key() != key by {
            assert(s[j].price.key() < s[i].price.key());
        }
        lemma_erase_absent(s.drop_last(), key);
        assert(s.remove(i) =~= s.drop_last());
    } else {
        assert(s[i].price.key() < s[s.len() - 1].price.key());
        lemma_erase(s.drop_last(), key, i);
        assert(s.remove(i) =~= s.drop_last().remove(i).push(s.last()));
    }
}

/// Putting a size at a price keeps the order, and changes the size at that
/// price and at no other.
pub proof fn upsert_is_local(s: Seq<LobLevel>, price: Num, size: Num)
    requires
        sorted(s),
    ensures
        sorted(upsert(s, price, size)),
        size_at(upsert(s, price, size), price.key()) == Some(size),
        forall|key: int| key != price.key() ==> #[trigger] size_at(upsert(s, price, size), key)
            == size_at(s, key),
        upsert(s, price, size).len() > 0,
        upsert(s, price, size).last().price.key() >= price.key(),
        s.len() > 0 ==> upsert(s, price, size).last().price.key() >= s.last().price.key(),
    decreases s.len(),
{
    let r = upsert(s, price, size);
    if s.len() == 0 || s.last().price.key() < price.key() {
        assert(r.drop_last() =~= s);
    } else if s.last().price.key() == price.key() {
        assert(r.drop_last() =~= s.drop_last());
        lemma_size_at_above(s.drop_last(), price.key());
    } else {
        let t = s.drop_last();
        upsert_is_local(t, price, size);
        assert(r.drop_last() =~= upsert(t, price, size));
        assert forall|j: int| 0 <= j < t.len() implies (#[trigger] t[j]).price.key()
            < s.last().price.key() by {
            assert(s[j].price.key() < s[s.len() - 1].price.key());
        }
        lemma_upsert_bounded(t, price, size, s.last().price.key());
        assert forall|key: int| key != price.key() implies #[trigger] size_at(r, key) == size_at(
            s,
            key,
        ) by {
            assert(size_at(upsert(t, price, size), key) == size_at(t, key));
        }
    }
    assert forall|key: int| key != price.key() implies #[trigger] size_at(r, key) == size_at(
        s,
        key,
    ) by {
        if s.len() == 0 || s.last().price.key() < price.key() {
            assert(size_at(r, key) == size_at(r.drop_last(), key));
        }
    }
}

/// A size stands at no price other than those of the levels.
proof fn lemma_size_at_above(s: Seq<LobLevel>, key: int)
    requires
        forall|j: int| 0 <= j < s.len() ==> (#[trigger] s[j]).price.key() != key,
    ensures
        size_at(s, key) is None,
    decreases s.len(),
{
    if s.len() > 0 {
        assert(s[s.len() - 1].price.key() != key);
        lemma_size_at_above(s.drop_last(), key);
    }
}

proof fn lemma_upsert_bounded(s: Seq<LobLevel>, price: Num, size: Num, bound: int)
    requires
        forall|j: int| 0 <= j < s.len() ==> (#[trigger] s[j]).price.key() < bound,
        price.key() < bound,
    ensures
        forall|j: int|
            0 <= j < upsert(s, price, size).len() ==> (#[trigger] upsert(
                s,
                price,
                size,
            )[j]).price.key() < bound,
    decreases s.len(),
{
    let r = upsert(s, price, size);
    if s.len() > 0 && s.last().price.key() > price.key() {
        lemma_upsert_bounded(s.drop_last(), price, size, bound);
    }
    assert forall|j: int| 0 <= j < r.len() implies (#[trigger] r[j]).price.key() < bound by {
        if s.len() > 0 {
            assert(s[s.len() - 1].price.key() < bound);
            if s.last().price.key() > price.key() && j < r.len() - 1 {
                assert(r[j] == upsert(s.drop_last(), price, size)[j]);
            } else if j < s.len() {
                assert(s[j].price.key() < bound);
            }
        }
    }
}

/// Removing a price keeps the order, leaves nothing at that price, and keeps
/// the size at every other.
pub proof fn erase_is_local(s: Seq<LobLevel>, key: int)
    requires
        sorted(s),
    ensures
        sorted(erase(s, key)),
        size_at(erase(s, key), key) is None,
        forall|k: int| k != key ==> #[trigger] size_at(erase(s, key), k) == size_at(s, k),
        erase(s, key).len() <= s.len(),
        forall|j: int|
            0 <= j < erase(s, key).len() ==> exists|i: int|
                0 <= i < s.len() && #[trigger] s[i] == #[trigger] erase(s, key)[j],
    decreases s.len(),
{
    if s.len() > 0 {
        let t = s.drop_last();
        let r = erase(s, key);
        erase_is_local(t, key);
        assert forall|j: int| 0 <= j < r.len() implies exists|i: int|
            0 <= i < s.len() && #[trigger] s[i] == #[trigger] r[j] by {
            if j < erase(t, key).len() {
                let i = choose|i: int| 0 <= i < t.len() && #[trigger] t[i] == erase(t, key)[j];
                assert(s[i] == r[j]);
            } else {
                assert(s[s.len() - 1] == r[j]);
            }
        }
        assert forall|k: int| k != key implies #[trigger] size_at(r, k) == size_at(s, k) by {
            assert(size_at(erase(t, key), k) == size_at(t, k));
            if s.last().price.key() != key {
                assert(r.drop_last() =~= erase(t, key));
            }
        }
        if s.last().price.key() != key {
            assert(r.drop_last() =~= erase(t, key));
            assert forall|i: int, j: int| 0 <= i < j < r.len() implies (
            #[trigger] r[i]).price.key() < (#[trigger] r[j]).price.key() by {
                if j == r.len() - 1 {
                    let m = choose|m: int| 0 <= m < t.len() && #[trigger] t[m] == erase(t, key)[i];
                    assert(s[m] == t[m]);
                    assert(s[m].price.key() < s[s.len() - 1].price.key());
                }
            }
        }
    }
}

/// A side of a book is determined by the sizes that stand at its prices, up
/// to how a price at which a level stands is written.
pub proof fn side_is_its_sizes(a: Seq<LobLevel>, b: Seq<LobLevel>)
    requires
        sorted(a),
        sorted(b),
        forall|key: int| #[trigger] size_at(a, key) == size_at(b, key),
    ensures
        a.len() == b.len(),
        forall|i: int|
            0 <= i < a.len() ==> (#[trigger] a[i]).price.key() == b[i].price.key() && a[i].size
                == b[i].size,
    decreases a.len(),
{
    if a.len() == 0 {
        if b.len() > 0 {
            let k = b.last().price.key();
            assert(size_at(a, k) == size_at(b, k));
        }
    } else if b.len() == 0 {
        let k = a.last().price.key();
        assert(size_at(a, k) == size_at(b, k));
    } else {
        let ka = a.last().price.key();
        let kb = b.last().price.key();
        if ka > kb {
            assert forall|j: int| 0 <= j < b.len() implies (#[trigger] b[j]).price.key() != ka by {
                if j < b.len() - 1 {
                    assert(b[j].price.key() < b[b.len() - 1].price.key());
                }
            }
            lemma_size_at_above(b, ka);
            assert(size_at(a, ka) == size_at(b, ka));
        } else if kb > ka {
            assert forall|j: int| 0 <= j < a.len() implies (#[trigger] a[j]).price.key() != kb by {
                if j < a.len() - 1 {
                    assert(a[j].price.key() < a[a.len() - 1].price.key());
                }
            }
            lemma_size_at_above(a, kb);
            assert(size_at(a, kb) == size_at(b, kb));
        } else {
            let ta = a.drop_last();
            let tb = b.drop_last();
            assert forall|j: int| 0 <= j < ta.len() implies (#[trigger] ta[j]).price.key()
                != ka by {
                assert(a[j].price.key() < a[a.len() - 1].price.key());
            }
            assert forall|j: int| 0 <= j < tb.len() implies (#[trigger] tb[j]).price.key()
                != ka by {
                assert(b[j].price.key() < b[b.len() - 1].price.key());
            }
            lemma_size_at_above(ta, ka);
            lemma_size_at_above(tb, ka);
            assert forall|key: int| #[trigger] size_at(ta, key) == size_at(tb, key) by {
                assert(size_at(a, key) == size_at(b, key));
            }
            side_is_its_sizes(ta, tb);
            assert(size_at(a, ka) == size_at(b, ka));
            assert forall|i: int| 0 <= i < a.len() implies (#[trigger] a[i]).price.key()
                == b[i].price.key() && a[i].size == b[i].size by {
                if i < a.len() - 1 {
                    assert(ta[i].price.key() == tb[i].price.key());
                }
            }
        }
    }
}

/// One side of an order book. The levels can be changed only by operations
/// that keep them in order.
#[derive(Debug, Clone)]
pub struct Ladder {
    levels: Vec<LobLevel>,
}

impl View for Ladder {
    type V = Seq<LobLevel>;

    closed spec fn view(&self) -> Seq<LobLevel> {
        self.levels@
    }
}

impl Ladder {
    /// The levels are in order.
    pub open spec fn wf(self) -> bool {
        sorted(self@)
    }

    /// A side without levels.
    pub fn new() -> (r: Ladder)
        ensures
            r.wf(),
            r@ == Seq::<LobLevel>::empty(),
    {
        Ladder { levels: Vec::new() }
    }

    /// The levels, the lowest price first.
    pub fn levels(&self) -> (r: &Vec<LobLevel>)
        ensures
            r@ == self@,
    {
        &self.levels
    }

    /// The number of levels.
    pub fn len(&self) -> (r: usize)
        ensures
            r == self@.len(),
    {
        self.levels.len()
    }

    /// Whether there is no level.
    pub fn is_empty(&self) -> (r: bool)
        ensures
            r == (self@.len() == 0),
    {
        self.levels.len() == 0
    }

    /// Removes every level.
    pub fn clear(&mut self)
        ensures
            final(self).wf(),
            final(self)@ == Seq::<LobLevel>::empty(),
    {
        self.levels = Vec::new();
    }

    /// The number of levels below a price.
    fn position(&self, price: &Num) -> (r: usize)
        requires
            self.wf(),
        ensures
            r <= self@.len(),
            forall|j: int| 0 <= j < r ==> (#[trigger] self@[j]).price.key() < price.key(),
            forall|j: int|
                r <= j < self@.len() ==> (#[trigger] self@[j]).price.key() >= price.key(),
    {
        let key: i64 = price.sort_key();
        let mut lo: usize = 0;
        let mut hi: usize = self.levels.len();
        while lo < hi
            invariant
                self.wf(),
                lo <= hi <= self@.len(),
                key == price.key(),
                forall|j: int| 0 <= j < lo ==> (#[trigger] self@[j]).price.key() < key,
                forall|j: int| hi <= j < self@.len() ==> (#[trigger] self@[j]).price.key() >= key,
            decreases hi - lo,
        {
            let mid: usize = lo + (hi - lo) / 2;
            if self.levels[mid].price.sort_key() < key {
                assert forall|j: int| 0 <= j < mid + 1 implies (#[trigger] self@[j]).price.key()
                    < key by {
                    if j < mid {
                        assert(self@[j].price.key() < self@[mid as int].price.key());
                    }
                }
                lo = mid + 1;
            } else {
                assert forall|j: int| mid <= j < self@.len() implies (
                #[trigger] self@[j]).price.key() >= key by {
                    if mid < j {
                        assert(self@[mid as int].price.key() < self@[j].price.key());
                    }
                }
                hi = mid;
            }
        }
        lo
    }

    /// Puts a size at a price. A level that stands there keeps its price.
    pub fn insert(&mut self, price: &Num, size: &Num)
        requires
            old(self).wf(),
        ensures
            final(self).wf(),
            final(self)@ == upsert(old(self)@, *price, *size),
    {
        let i: usize = self.position(price);
        let ghost before = self@;
        proof {
            lemma_upsert(before, *price, *size, i as int);
            upsert_is_local(before, *price, *size);
        }
        if i < self.levels.len() && self.levels[i].price.sort_key() == price.sort_key() {
            let kept: Num = self.levels[i].price.clone();
            self.levels.set(i, LobLevel { price: kept, size: size.clone() });
        } else {
            self.levels.insert(i, LobLevel { price: price.clone(), size: size.clone() });
        }
    }

    /// Removes the level at a price, if there is one.
    pub fn remove(&mut self, price: &Num)
        requires
            old(self).wf(),
        ensures
            final(self).wf(),
            final(self)@ == erase(old(self)@, price.key()),
    {
        let i: usize = self.position(price);
        proof {
            erase_is_local(self@, price.key());
        }
        if i < self.levels.len() && self.levels[i].price.sort_key() == price.sort_key() {
            proof {
                lemma_erase(self@, price.key(), i as int);
            }
            let _gone: LobLevel = self.levels.remove(i);
        } else {
            proof {
                assert forall|j: int| 0 <= j < self@.len() implies (#[trigger] self@[j]).price.key()
                    != price.key() by {
                    if i < j {
                        assert(self@[i as int].price.key() < self@[j].price.key());
                    }
                }
                lemma_erase_absent(self@, price.key());
            }
        }
    }

    /// The highest price.
    pub fn highest(&self) -> (r: Option<Num>)
        ensures
            r == best_bid(self@),
    {
        let n: usize = self.levels.len();
        if n == 0 {
            None
        } else {
            Some(self.levels[n - 1].price.clone())
        }
    }

    /// The lowest price.
    pub fn lowest(&self) -> (r: Option<Num>)
        ensures
            r == best_ask(self@),
    {
        if self.levels.len() == 0 {
            None
        } else {
            Some(self.levels[0].price.clone())
        }
    }
}

/// No price in the list is NaN.
pub open spec fn prices_are_numbers(s: Seq<LobLevel>) -> bool {
    forall|i: int| 0 <= i < s.len() ==> !(#[trigger] s[i]).price.nan()
}

pub(crate) proof fn lemma_upsert_lowest(s: Seq<LobLevel>, price: Num, size: Num)
    requires
        sorted(s),
    ensures
        prices_are_numbers(s) && !price.nan() ==> prices_are_numbers(upsert(s, price, size)),
        upsert(s, price, size)[0].price.key() == (if s.len() > 0 && s[0].price.key()
            < price.key() {
            s[0].price.key()
        } else {
            price.key()
        }),
        upsert(s, price, size).last().price.key() == (if s.len() > 0 && s.last().price.key()
            > price.key() {
            s.last().price.key()
        } else {
            price.key()
        }),
        upsert(s, price, size).len() > 0,
    decreases s.len(),
{
    let r = upsert(s, price, size);
    if s.len() > 1 {
        assert(s[0].price.key() < s[s.len() - 1].price.key());
    }
    if s.len() == 0 || s.last().price.key() < price.key() {
        if s.len() > 0 {
            assert(r[0] == s[0]);
        }
    } else if s.last().price.key() == price.key() {
        if s.len() > 1 {
            assert(r[0] == s[0]);
        }
    } else {
        let t = s.drop_last();
        lemma_upsert_lowest(t, price, size);
        assert(r[0] == upsert(t, price, size)[0]);
        if t.len() > 0 {
            assert(t[0] == s[0]);
        }
    }
    if prices_are_numbers(s) && !price.nan() {
        assert forall|i: int| 0 <= i < r.len() implies !(#[trigger] r[i]).price.nan() by {
            if s.len() > 0 {
                assert(!s[s.len() - 1].price.nan());
                let t = s.drop_last();
                if s.last().price.key() > price.key() {
                    assert(prices_are_numbers(t)) by {
                        assert forall|j: int| 0 <= j < t.len() implies !(
                        #[trigger] t[j]).price.nan() by {
                            assert(t[j] == s[j]);
                        }
                    }
                    if i < r.len() - 1 {
                        assert(r[i] == upsert(t, price, size)[i]);
                    }
                } else if i < s.len() - 1 || (i < s.len() && s.last().price.key() < price.key()) {
                    assert(r[i] == s[i]);
                }
            }
        }
    }
}

pub(crate) proof fn lemma_erase_ends(s: Seq<LobLevel>, key: int)
    requires
        sorted(s),
    ensures
        prices_are_numbers(s) ==> prices_are_numbers(erase(s, key)),
        s.len() > 0 && s.last().price.key() != key ==> erase(s, key).len() > 0 && erase(
            s,
            key,
        ).last() == s.last(),
        erase(s, key).len() > 0 ==> s.len() > 0 && erase(s, key)[0].price.key() >= s[0].price.key()
            && erase(s, key).last().price.key() <= s.last().price.key(),
{
    erase_is_local(s, key);
    let r = erase(s, key);
    if prices_are_numbers(s) {
        assert forall|j: int| 0 <= j < r.len() implies !(#[trigger] r[j]).price.nan() by {
            let i = choose|i: int| 0 <= i < s.len() && #[trigger] s[i] == r[j];
            assert(!s[i].price.nan());
        }
    }
    if r.len() > 0 {
        let i = choose|i: int| 0 <= i < s.len() && #[trigger] s[i] == r[0];
        if i > 0 {
            assert(s[0].price.key() < s[i].price.key());
        }
        let j = choose|j: int| 0 <= j < s.len() && #[trigger] s[j] == r[r.len() - 1];
        if j < s.len() - 1 {
            assert(s[j].price.key() < s[s.len() - 1].price.key());
        }
    }
}

pub(crate) proof fn lemma_upsert_sizes(s: Seq<LobLevel>, price: Num, size: Num)
    requires
        size.positive(),
        forall|i: int| 0 <= i < s.len() ==> (#[trigger] s[i]).size.positive(),
    ensures
        forall|i: int|
            0 <= i < upsert(s, price, size).len() ==> (#[trigger] upsert(
                s,
                price,
                size,
            )[i]).size.positive(),
    decreases s.len(),
{
    let r = upsert(s, price, size);
    if s.len() > 0 && s.last().price.key() > price.key() {
        lemma_upsert_sizes(s.drop_last(), price, size);
    }
    assert forall|i: int| 0 <= i < r.len() implies (#[trigger] r[i]).size.positive() by {
        if s.len() > 0 {
            assert(s[s.len() - 1].size.positive());
            if s.last().price.key() > price.key() {
                if i < r.len() - 1 {
                    assert(r[i] == upsert(s.drop_last(), price, size)[i]);
                }
            } else if i < s.len() - 1 {
                assert(r[i] == s[i]);
            } else if i < s.len() && s.last().price.key() < price.key() {
                assert(r[i] == s[i]);
            }
        }
    }
}

/// The size at a price is that of the level with that price, and there is
/// none exactly where no level has it.
pub proof fn size_is_that_of_the_level(s: Seq<LobLevel>, key: int)
    requires
        sorted(s),
    ensures
        forall|i: int|
            0 <= i < s.len() && (#[trigger] s[i]).price.key() == key ==> size_at(s, key) == Some(
                s[i].size,
            ),
        size_at(s, key) is Some <==> exists|i: int|
            0 <= i < s.len() && (#[trigger] s[i]).price.key() == key,
    decreases s.len(),
{
    if s.len() > 0 {
        let t = s.drop_last();
        size_is_that_of_the_level(t, key);
        assert(s[s.len() - 1] == s.last());
        assert forall|i: int|
            0 <= i < s.len() && (#[trigger] s[i]).price.key() == key implies size_at(s, key)
            == Some(s[i].size) by {
            if i < t.len() {
                assert(t[i] == s[i]);
                assert(s[i].price.key() < s[s.len() - 1].price.key());
            }
        }
        if size_at(t, key) is Some {
            let i = choose|i: int| 0 <= i < t.len() && (#[trigger] t[i]).price.key() == key;
            assert(s[i] == t[i]);
        }
    }
}

/// The best bid is the highest price of its side and the best ask the lowest
/// of its, and there is one exactly where the side has a level.
pub proof fn best_prices_are_extremes(s: Seq<LobLevel>)
    requires
        sorted(s),
    ensures
        best_bid(s) is Some <==> s.len() > 0,
        best_ask(s) is Some <==> s.len() > 0,
        forall|i: int|
            0 <= i < s.len() ==> (#[trigger] s[i]).price.key() <= (best_bid(s)->0).key(),
        forall|i: int|
            0 <= i < s.len() ==> (best_ask(s)->0).key() <= (#[trigger] s[i]).price.key(),
        s.len() > 0 ==> exists|i: int|
            0 <= i < s.len() && (#[trigger] s[i]).price == best_bid(s)->0,
        s.len() > 0 ==> exists|i: int|
            0 <= i < s.len() && (#[trigger] s[i]).price == best_ask(s)->0,
{
    if s.len() > 0 {
        assert(s[s.len() - 1].price == best_bid(s)->0);
        assert(s[0].price == best_ask(s)->0);
    }
}

/// A size put at a price that has a level keeps the price as that level has
/// it, and one put at another price brings its own.
pub proof fn price_stays_as_first_written(s: Seq<LobLevel>, price: Num, size: Num)
    requires
        sorted(s),
    ensures
        forall|i: int|
            0 <= i < s.len() && (#[trigger] s[i]).price.key() == price.key() ==> upsert(
                s,
                price,
                size,
            ).contains(LobLevel { price: s[i].price, size }),
        size_at(s, price.key()) is None ==> upsert(s, price, size).contains(
            LobLevel { price, size },
        ),
        forall|i: int|
            0 <= i < s.len() && (#[trigger] s[i]).price.key() != price.key() ==> upsert(
                s,
                price,
                size,
            ).contains(s[i]),
    decreases s.len(),
{
    let u = upsert(s, price, size);
    if s.len() == 0 || s.last().price.key() < price.key() {
        assert(u[s.len() as int] == LobLevel { price, size });
        assert forall|i: int| 0 <= i < s.len() implies u.contains(#[trigger] s[i])
            && s[i].price.key() != price.key() by {
            assert(u[i] == s[i]);
            assert(s[i].price.key() <= s[s.len() - 1].price.key());
        }
    } else if s.last().price.key() == price.key() {
        assert(u[s.len() - 1] == LobLevel { price: s.last().price, size });
        assert forall|i: int| 0 <= i < s.len() - 1 implies u.contains(#[trigger] s[i])
            && s[i].price.key() != price.key() by {
            assert(u[i] == s[i]);
            assert(s[i].price.key() < s[s.len() - 1].price.key());
        }
    } else {
        let t = s.drop_last();
        let v = upsert(t, price, size);
        price_stays_as_first_written(t, price, size);
        assert(u == v.push(s.last()));
        assert forall|l: LobLevel| v.contains(l) implies #[trigger] u.contains(l) by {
            let k = choose|k: int| 0 <= k < v.len() && v[k] == l;
            assert(u[k] == l);
        }
        assert(u[v.len() as int] == s.last());
        assert forall|i: int|
            0 <= i < s.len() && (#[trigger] s[i]).price.key() == price.key() implies u.contains(
            LobLevel { price: s[i].price, size },
        ) by {
            assert(t[i] == s[i]);
        }
        assert forall|i: int|
            0 <= i < s.len() && (#[trigger] s[i]).price.key() != price.key() implies u.contains(
            s[i],
        ) by {
            if i < t.len() {
                assert(t[i] == s[i]);
            }
        }
    }
}

} // verus!
