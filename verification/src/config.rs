//! Configuration of a data source.

use crate::num::Num;
use crate::num::NumView;
use crate::text::blank;
use crate::text::chars_of;
use crate::text::is_blank;
use crate::text::is_white;
use crate::text::same_text;
use crate::text::text_of;
pub use vstd::hash_map::StringHashMap;
use crate::text::begins;
use vstd::prelude::*;

verus! {

/// A set of data kinds.
#[allow(clippy::upper_case_acronyms)]
#[derive(Debug, Clone, Copy, PartialEq, Eq, Structural)]
pub enum DataKind {
    /// No kind.
    EMPTY,
    /// The order book.
    LOB,
    /// Trades.
    TRADE,
    /// The order book and trades.
    BOTH,
}

impl DataKind {
    /// The order book is in the set.
    pub open spec fn lob(self) -> bool {
        self is LOB || self is BOTH
    }

    /// Trades are in the set.
    pub open spec fn trade(self) -> bool {
        self is TRADE || self is BOTH
    }

    /// The two sets have a kind in common.
    pub open spec fn meets(self, other: DataKind) -> bool {
        (self.lob() && other.lob()) || (self.trade() && other.trade())
    }

    /// The set with the given members.
    pub open spec fn of(lob: bool, trade: bool) -> DataKind {
        if lob && trade {
            DataKind::BOTH
        } else if lob {
            DataKind::LOB
        } else if trade {
            DataKind::TRADE
        } else {
            DataKind::EMPTY
        }
    }

    /// The kinds of either set.
    pub open spec fn union(self, other: DataKind) -> DataKind {
        DataKind::of(self.lob() || other.lob(), self.trade() || other.trade())
    }

    /// The kinds of the set that are not in `other`.
    pub open spec fn minus(self, other: DataKind) -> DataKind {
        DataKind::of(self.lob() && !other.lob(), self.trade() && !other.trade())
    }

    fn has_lob(&self) -> (r: bool)
        ensures
            r == self.lob(),
    {
        matches!(*self, DataKind::LOB | DataKind::BOTH)
    }

    fn has_trade(&self) -> (r: bool)
        ensures
            r == self.trade(),
    {
        matches!(*self, DataKind::TRADE | DataKind::BOTH)
    }

    fn with(lob: bool, trade: bool) -> (r: DataKind)
        ensures
            r == DataKind::of(lob, trade),
    {
        if lob && trade {
            DataKind::BOTH
        } else if lob {
            DataKind::LOB
        } else if trade {
            DataKind::TRADE
        } else {
            DataKind::EMPTY
        }
    }

    /// The empty set.
    pub fn empty() -> (r: Self)
        ensures
            r == DataKind::EMPTY,
    {
        DataKind::EMPTY
    }

    /// Whether the set has one of the kinds of `other`.
    pub fn contains(&self, other: DataKind) -> (r: bool)
        ensures
            r == self.meets(other),
    {
        (self.has_lob() && other.has_lob()) || (self.has_trade() && other.has_trade())
    }

    /// Adds the kinds of `other`.
    pub fn insert(&mut self, other: DataKind)
        ensures
            *final(self) == old(self).union(other),
    {
        *self = DataKind::with(
            self.has_lob() || other.has_lob(),
            self.has_trade() || other.has_trade(),
        );
    }

    /// Removes the kinds of `other`.
    pub fn remove(&mut self, other: DataKind)
        ensures
            *final(self) == old(self).minus(other),
    {
        *self = DataKind::with(
            self.has_lob() && !other.has_lob(),
            self.has_trade() && !other.has_trade(),
        );
    }

    /// Whether no kind is in the set.
    pub fn is_empty(&self) -> (r: bool)
        ensures
            r == (*self == DataKind::EMPTY),
    {
        matches!(*self, DataKind::EMPTY)
    }

    /// The set as a bit mask: 1 for the order book, 2 for trades.
    pub fn bits(&self) -> (r: u8)
        ensures
            r == (if self.lob() {
                1int
            } else {
                0
            }) + (if self.trade() {
                2int
            } else {
                0
            }),
    {
        match self {
            DataKind::EMPTY => 0,
            DataKind::LOB => 1,
            DataKind::TRADE => 2,
            DataKind::BOTH => 3,
        }
    }

    /// The set's name: the names of its kinds, joined by a bar.
    pub open spec fn name(self) -> Seq<char> {
        match self {
            DataKind::EMPTY => ""@,
            DataKind::LOB => "Lob"@,
            DataKind::TRADE => "Trade"@,
            DataKind::BOTH => "Lob|Trade"@,
        }
    }

    /// The set's name.
    pub fn to_string(&self) -> (r: String)
        ensures
            r@ == self.name(),
    {
        match self {
            DataKind::EMPTY => "".to_owned(),
            DataKind::LOB => "Lob".to_owned(),
            DataKind::TRADE => "Trade".to_owned(),
            DataKind::BOTH => "Lob|Trade".to_owned(),
        }
    }
}

impl std::ops::BitOr for DataKind {
    type Output = DataKind;

    fn bitor(self, rhs: DataKind) -> (r: DataKind) {
        DataKind::with(self.has_lob() || rhs.has_lob(), self.has_trade() || rhs.has_trade())
    }
}

impl vstd::std_specs::ops::BitOrSpecImpl for DataKind {
    open spec fn obeys_bitor_spec() -> bool {
        true
    }

    open spec fn bitor_req(self, rhs: DataKind) -> bool {
        true
    }

    open spec fn bitor_spec(self, rhs: DataKind) -> DataKind {
        self.union(rhs)
    }
}

impl std::ops::BitOrAssign for DataKind {
    fn bitor_assign(&mut self, rhs: DataKind)
        ensures
            *final(self) == old(self).union(rhs),
    {
        self.insert(rhs);
    }
}

/// The single kinds of a set, one for each channel to subscribe to: the order
/// book first, then trades.
pub open spec fn channel_kinds(data_kind: DataKind) -> Seq<DataKind> {
    (if data_kind.lob() {
        seq![DataKind::LOB]
    } else {
        Seq::empty()
    }) + (if data_kind.trade() {
        seq![DataKind::TRADE]
    } else {
        Seq::empty()
    })
}

/// Splits a set into single kinds, one for each channel to subscribe to.
pub fn active_channel_kinds(data_kind: DataKind) -> (r: Vec<DataKind>)
    ensures
        r@ == channel_kinds(data_kind),
{
    let mut kinds: Vec<DataKind> = Vec::new();
    if data_kind.contains(DataKind::LOB) {
        kinds.push(DataKind::LOB);
    }
    if data_kind.contains(DataKind::TRADE) {
        kinds.push(DataKind::TRADE);
    }
    assert(kinds@ =~= channel_kinds(data_kind));
    kinds
}

/// Every channel kind is a single kind of the set, and every kind of the set
/// has its channel: the union of the channel kinds is the set.
pub proof fn channel_kinds_cover(data_kind: DataKind)
    ensures
        channel_kinds(data_kind).len() <= 2,
        forall|i: int|
            0 <= i < channel_kinds(data_kind).len() ==> {
                &&& #[trigger] channel_kinds(data_kind)[i] == DataKind::LOB
                    || channel_kinds(data_kind)[i] == DataKind::TRADE
                &&& data_kind.meets(channel_kinds(data_kind)[i])
            },
        data_kind.lob() == channel_kinds(data_kind).contains(DataKind::LOB),
        data_kind.trade() == channel_kinds(data_kind).contains(DataKind::TRADE),
{
    let k = channel_kinds(data_kind);
    if data_kind.lob() {
        assert(k[0] == DataKind::LOB);
    }
    if data_kind.trade() {
        assert(k[k.len() - 1] == DataKind::TRADE);
    }
}

/// Inserting and removing the same kinds leaves a set that has none of them.
pub proof fn insert_then_remove(k: DataKind, other: DataKind)
    ensures
        !k.union(other).minus(other).meets(other),
        k.union(other).minus(other) == k.minus(other),
        other != DataKind::EMPTY ==> k.union(other).meets(other),
{
}

/// The parts of a text between bars.
pub open spec fn bar_parts(s: Seq<char>) -> Seq<Seq<char>>
    decreases s.len(),
{
    if s.len() == 0 {
        seq![Seq::empty()]
    } else {
        let before = bar_parts(s.drop_last());
        if s.last() == '|' {
            before.push(Seq::empty())
        } else {
            before.drop_last().push(before.last().push(s.last()))
        }
    }
}

/// A text without the white space at its ends.
pub open spec fn trimmed(s: Seq<char>) -> Seq<char>
    decreases s.len(),
{
    if s.len() == 0 {
        s
    } else if is_white(s[0]) {
        trimmed(s.skip(1))
    } else if is_white(s.last()) {
        trimmed(s.drop_last())
    } else {
        s
    }
}

/// What is wrong with the text of a set of data kinds.
#[derive(Debug)]
pub enum DataKindError {
    /// A part names no kind; the part as it was written.
    Invalid(String),
    /// No kind is named.
    Empty,
}

/// The mathematical content of a [`DataKindError`].
pub enum DataKindErrorView {
    Invalid(Seq<char>),
    Empty,
}

impl View for DataKindError {
    type V = DataKindErrorView;

    open spec fn view(&self) -> DataKindErrorView {
        match *self {
            DataKindError::Invalid(s) => DataKindErrorView::Invalid(s@),
            DataKindError::Empty => DataKindErrorView::Empty,
        }
    }
}

impl DataKindErrorView {
    /// The message the error is reported with.
    pub open spec fn message(self) -> Seq<char> {
        match self {
            DataKindErrorView::Invalid(s) => "invalid data_kind: "@ + s,
            DataKindErrorView::Empty => "data_kind must include at least Lob or Trade"@,
        }
    }
}

impl DataKindError {
    /// The error's message.
    pub fn to_string(&self) -> (r: String)
        ensures
            r@ == self@.message(),
    {
        match self {
            DataKindError::Invalid(s) => "invalid data_kind: ".to_owned().concat(s.as_str()),
            DataKindError::Empty => "data_kind must include at least Lob or Trade".to_owned(),
        }
    }
}

/// Adds the kinds that the parts name, or gives the first part that names none.
pub open spec fn kinds_of_parts(parts: Seq<Seq<char>>, n: int) -> Result<DataKind, Seq<char>>
    decreases n,
{
    if n <= 0 {
        Ok(DataKind::EMPTY)
    } else {
        match kinds_of_parts(parts, n - 1) {
            Err(p) => Err(p),
            Ok(k) => {
                let t = trimmed(parts[n - 1]);
                if t == "Lob"@ {
                    Ok(k.union(DataKind::LOB))
                } else if t == "Trade"@ {
                    Ok(k.union(DataKind::TRADE))
                } else if t.len() == 0 {
                    Ok(k)
                } else {
                    Err(parts[n - 1])
                }
            },
        }
    }
}

/// The set that a text names.
pub open spec fn parse_kind(s: Seq<char>) -> Result<DataKind, DataKindErrorView> {
    let parts = bar_parts(s);
    match kinds_of_parts(parts, parts.len() as int) {
        Err(p) => Err(DataKindErrorView::Invalid(p)),
        Ok(k) => if k == DataKind::EMPTY {
            Err(DataKindErrorView::Empty)
        } else {
            Ok(k)
        },
    }
}

/// A kind is named by one of the parts of a text, white space aside.
pub open spec fn is_named(s: Seq<char>, name: Seq<char>) -> bool {
    exists|i: int| 0 <= i < bar_parts(s).len() && trimmed(#[trigger] bar_parts(s)[i]) == name
}

/// Each part of a text names a kind or is empty, white space aside.
pub open spec fn names_kinds(s: Seq<char>) -> bool {
    forall|i: int|
        0 <= i < bar_parts(s).len() ==> is_kind_or_empty(trimmed(#[trigger] bar_parts(s)[i]))
}

/// The text is the name of a kind, or empty.
pub open spec fn is_kind_or_empty(t: Seq<char>) -> bool {
    t == "Lob"@ || t == "Trade"@ || t.len() == 0
}

proof fn lemma_kinds_of_parts(parts: Seq<Seq<char>>, n: int)
    requires
        0 <= n <= parts.len(),
    ensures
        kinds_of_parts(parts, n) is Ok <==> forall|i: int|
            0 <= i < n ==> is_kind_or_empty(trimmed(#[trigger] parts[i])),
        kinds_of_parts(parts, n) matches Ok(k) ==> {
            &&& k.lob() <==> exists|i: int| 0 <= i < n && trimmed(#[trigger] parts[i]) == "Lob"@
            &&& k.trade() <==> exists|i: int|
                0 <= i < n && trimmed(#[trigger] parts[i]) == "Trade"@
        },
    decreases n,
{
    reveal_strlit("Lob");
    reveal_strlit("Trade");
    assert("Lob"@.len() != "Trade"@.len());
    if n > 0 {
        lemma_kinds_of_parts(parts, n - 1);
        let t = trimmed(parts[n - 1]);
        if kinds_of_parts(parts, n) is Ok {
            let k = kinds_of_parts(parts, n)->Ok_0;
            let before = kinds_of_parts(parts, n - 1)->Ok_0;
            if k.lob() && !before.lob() {
                assert(trimmed(parts[n - 1]) == "Lob"@);
            }
            if k.trade() && !before.trade() {
                assert(trimmed(parts[n - 1]) == "Trade"@);
            }
        }
    }
}

/// A set is read from a text where each part between bars names a kind or is
/// empty, and one names a kind; the set has exactly the kinds that are named.
/// Any other text is refused, the empty one among them.
pub proof fn kinds_are_those_named(s: Seq<char>)
    ensures
        parse_kind(s) is Ok <==> names_kinds(s) && (is_named(s, "Lob"@) || is_named(s, "Trade"@)),
        parse_kind(s) matches Ok(k) ==> k.lob() == is_named(s, "Lob"@) && k.trade() == is_named(
            s,
            "Trade"@,
        ),
        s.len() == 0 ==> parse_kind(s) == Err::<DataKind, DataKindErrorView>(
            DataKindErrorView::Empty,
        ),
{
    let parts = bar_parts(s);
    lemma_kinds_of_parts(parts, parts.len() as int);
    if s.len() == 0 {
        reveal_strlit("Lob");
        reveal_strlit("Trade");
        reveal_with_fuel(kinds_of_parts, 2);
        assert(parts[0].len() == 0);
    }
}

proof fn lemma_no_bars(s: Seq<char>)
    requires
        forall|i: int| 0 <= i < s.len() ==> #[trigger] s[i] != '|',
    ensures
        bar_parts(s) == seq![s],
    decreases s.len(),
{
    if s.len() > 0 {
        lemma_no_bars(s.drop_last());
        assert(s.drop_last().push(s.last()) =~= s);
        assert(bar_parts(s) =~= seq![s]);
    } else {
        assert(s =~= Seq::<char>::empty());
        assert(bar_parts(s) =~= seq![s]);
    }
}

proof fn lemma_one_bar(a: Seq<char>, b: Seq<char>)
    requires
        forall|i: int| 0 <= i < a.len() ==> #[trigger] a[i] != '|',
        forall|i: int| 0 <= i < b.len() ==> #[trigger] b[i] != '|',
    ensures
        bar_parts(a + seq!['|'] + b) == seq![a, b],
    decreases b.len(),
{
    let s = a + seq!['|'] + b;
    if b.len() > 0 {
        lemma_one_bar(a, b.drop_last());
        assert(s.drop_last() =~= a + seq!['|'] + b.drop_last());
        assert(b.drop_last().push(s.last()) =~= b);
        assert(bar_parts(s) =~= seq![a, b]);
    } else {
        lemma_no_bars(a);
        assert(s.drop_last() =~= a);
        assert(b =~= Seq::<char>::empty());
        assert(bar_parts(s) =~= seq![a, b]);
    }
}

/// The name of a set that is not empty is read back as that set.
pub proof fn name_is_read_back(k: DataKind)
    requires
        k != DataKind::EMPTY,
    ensures
        parse_kind(k.name()) == Ok::<DataKind, DataKindErrorView>(k),
{
    reveal_strlit("Lob");
    reveal_strlit("Trade");
    reveal_strlit("Lob|Trade");
    lemma_no_bars("Lob"@);
    lemma_no_bars("Trade"@);
    lemma_one_bar("Lob"@, "Trade"@);
    assert("Lob|Trade"@ =~= "Lob"@ + seq!['|'] + "Trade"@);
    assert("Lob"@.len() != "Trade"@.len());
    assert(trimmed("Lob"@) == "Lob"@);
    assert(trimmed("Trade"@) == "Trade"@);
    reveal_with_fuel(kinds_of_parts, 3);
    assert(kinds_of_parts(seq!["Lob"@], 1) == Ok::<DataKind, Seq<char>>(DataKind::LOB));
    assert(kinds_of_parts(seq!["Trade"@], 1) == Ok::<DataKind, Seq<char>>(DataKind::TRADE));
    assert(kinds_of_parts(seq!["Lob"@, "Trade"@], 2) == Ok::<DataKind, Seq<char>>(DataKind::BOTH));
}

/// The parts of a text between bars, as characters.
fn split_bars(v: &Vec<char>) -> (r: Vec<Vec<char>>)
    ensures
        r@.len() == bar_parts(v@).len(),
        forall|i: int| 0 <= i < r@.len() ==> (#[trigger] r@[i])@ == bar_parts(v@)[i],
{
    let mut done: Vec<Vec<char>> = Vec::new();
    let mut part: Vec<char> = Vec::new();
    let mut i: usize = 0;
    assert(v@.take(0) =~= Seq::<char>::empty());
    while i < v.len()
        invariant
            i <= v.len(),
            bar_parts(v@.take(i as int)).len() == done@.len() + 1,
            forall|j: int|
                0 <= j < done@.len() ==> (#[trigger] done@[j])@ == bar_parts(v@.take(i as int))[j],
            part@ == bar_parts(v@.take(i as int)).last(),
        decreases v.len() - i,
    {
        assert(v@.take(i + 1).drop_last() =~= v@.take(i as int));
        if v[i] == '|' {
            done.push(part);
            part = Vec::new();
        } else {
            part.push(v[i]);
        }
        i += 1;
    }
    assert(v@.take(v@.len() as int) =~= v@);
    done.push(part);
    done
}

/// Removes the white space at both ends.
fn trim(v: &Vec<char>) -> (r: String)
    ensures
        r@ == trimmed(v@),
{
    let mut from: usize = 0;
    let mut to: usize = v.len();
    assert(v@.subrange(0, v@.len() as int) =~= v@);
    while from < to && v[from].is_whitespace()
        invariant
            from <= to == v.len(),
            trimmed(v@) == trimmed(v@.subrange(from as int, to as int)),
        ensures
            from <= to == v.len(),
            trimmed(v@) == trimmed(v@.subrange(from as int, to as int)),
            from < to ==> !is_white(v@[from as int]),
        decreases to - from,
    {
        assert(v@.subrange(from as int, to as int).skip(1) =~= v@.subrange(from + 1, to as int));
        from += 1;
    }
    while from < to && v[to - 1].is_whitespace()
        invariant
            from <= to <= v.len(),
            trimmed(v@) == trimmed(v@.subrange(from as int, to as int)),
            from < to ==> !is_white(v@[from as int]),
        ensures
            from <= to <= v.len(),
            trimmed(v@) == trimmed(v@.subrange(from as int, to as int)),
            from < to ==> !is_white(v@[from as int]) && !is_white(v@[to - 1]),
        decreases to - from,
    {
        assert(v@.subrange(from as int, to as int).drop_last() =~= v@.subrange(
            from as int,
            to - 1,
        ));
        to -= 1;
    }
    let mut out: Vec<char> = Vec::new();
    let mut i: usize = from;
    while i < to
        invariant
            from <= i <= to <= v.len(),
            out@ == v@.subrange(from as int, i as int),
        decreases to - i,
    {
        out.push(v[i]);
        assert(out@ =~= v@.subrange(from as int, i + 1));
        i += 1;
    }
    text_of(&out)
}

impl DataKind {
    /// Reads a set of kinds from names joined by bars, such as `Lob|Trade`.
    /// White space around a name and empty parts are passed over.
    pub fn parse(s: &str) -> (r: Result<DataKind, DataKindError>)
        ensures
            (match r {
                Ok(k) => Ok::<DataKind, DataKindErrorView>(k),
                Err(e) => Err(e@),
            }) == parse_kind(s@),
    {
        let v: Vec<char> = chars_of(s);
        let parts: Vec<Vec<char>> = split_bars(&v);
        let ghost model = bar_parts(s@);
        let mut kind = DataKind::empty();
        let mut i: usize = 0;
        while i < parts.len()
            invariant
                i <= parts.len(),
                parts@.len() == model.len(),
                forall|j: int| 0 <= j < parts@.len() ==> (#[trigger] parts@[j])@ == model[j],
                kinds_of_parts(model, i as int) == Ok::<DataKind, Seq<char>>(kind),
                model == bar_parts(s@),
            decreases parts.len() - i,
        {
            let t: String = trim(&parts[i]);
            assert(parts@[i as int]@ == model[i as int]);
            proof {
                reveal_strlit("Lob");
                reveal_strlit("Trade");
                assert("Lob"@.len() != "Trade"@.len());
            }
            if same_text(t.as_str(), "Lob") {
                kind.insert(DataKind::LOB);
            } else if same_text(t.as_str(), "Trade") {
                kind.insert(DataKind::TRADE);
            } else if t.as_str().is_empty() {
            } else {
                let part: String = text_of(&parts[i]);
                proof {
                    lemma_first_bad_part(model, i + 1, model.len() as int);
                }
                return Err(DataKindError::Invalid(part));
            }
            i += 1;
        }
        if kind.is_empty() {
            return Err(DataKindError::Empty);
        }
        Ok(kind)
    }
}

proof fn lemma_first_bad_part(parts: Seq<Seq<char>>, i: int, n: int)
    requires
        0 <= i <= n,
        kinds_of_parts(parts, i) is Err,
    ensures
        kinds_of_parts(parts, n) == kinds_of_parts(parts, i),
    decreases n - i,
{
    if i < n {
        lemma_first_bad_part(parts, i, n - 1);
    }
}

/// Reconnecting and keeping a connection alive.
#[derive(Debug, Clone)]
pub struct ResilienceConfig {
    /// First backoff in milliseconds.
    pub initial_backoff_ms: u64,
    /// Longest backoff in milliseconds.
    pub max_backoff_ms: u64,
    /// Factor from one backoff to the next.
    pub backoff_multiplier: Num,
    /// Largest random addition to a backoff, in milliseconds.
    pub jitter_ms: u64,
    /// Heartbeat interval in seconds, if any.
    pub heartbeat_interval_secs: Option<u64>,
    /// Largest number of reconnect attempts; without it there is no limit.
    pub max_attempts: Option<u32>,
    /// Seconds without market data after which a connection counts as failed;
    /// without it silence is not watched.
    pub silence_timeout_secs: Option<u64>,
    /// Whether to log every message.
    pub debug_log: bool,
}

impl Default for ResilienceConfig {
    fn default() -> (r: Self)
        ensures
            r.initial_backoff_ms == 1000,
            r.max_backoff_ms == 60_000,
            r.backoff_multiplier@ == (NumView { bits: 0x4000_0000_0000_0000, text: "2"@ }),
            r.jitter_ms == 1000,
            r.heartbeat_interval_secs is None,
            r.max_attempts is None,
            r.silence_timeout_secs is None,
            !r.debug_log,
    {
        ResilienceConfig {
            initial_backoff_ms: 1000,
            max_backoff_ms: 60_000,
            backoff_multiplier: Num::new(0x4000_0000_0000_0000, "2".to_owned()),
            jitter_ms: 1000,
            heartbeat_interval_secs: None,
            max_attempts: None,
            silence_timeout_secs: None,
            debug_log: false,
        }
    }
}

/// Case conversion of a fallback instrument.
#[derive(Debug, Clone, Copy, PartialEq, Eq, Structural)]
pub enum CaseFallback {
    /// The text as it is.
    Unchanged,
    /// Lower case.
    Lower,
    /// Upper case.
    Upper,
}

impl Default for CaseFallback {
    fn default() -> (r: Self)
        ensures
            r == CaseFallback::Unchanged,
    {
        CaseFallback::Unchanged
    }
}

/// How to rewrite an instrument that an exchange does not know. Each list is
/// in order of priority.
#[derive(Debug, Clone)]
pub struct ExchangeFallbackMapping {
    /// Base currencies to try.
    pub base_mappings: Vec<String>,
    /// Quote currencies to try.
    pub quote_mappings: Vec<String>,
    /// Separators to try.
    pub separator_mappings: Vec<String>,
    /// Case conversion of the result.
    pub case_fallback: CaseFallback,
}

impl Default for ExchangeFallbackMapping {
    fn default() -> (r: Self)
        ensures
            r.base_mappings@.len() == 0,
            r.quote_mappings@.len() == 0,
            r.separator_mappings@.len() == 0,
            r.case_fallback == CaseFallback::Unchanged,
    {
        ExchangeFallbackMapping {
            base_mappings: Vec::new(),
            quote_mappings: Vec::new(),
            separator_mappings: Vec::new(),
            case_fallback: CaseFallback::Unchanged,
        }
    }
}

/// Fallback mappings by exchange, and then by instrument alias. The empty
/// alias holds the mapping that applies where no other alias does.
pub type FallbackTable = StringHashMap<StringHashMap<ExchangeFallbackMapping>>;

/// The configuration of one stream.
pub struct DataSourceConfig {
    /// `okx`, `kraken`, `bitstamp` or `bitvavo`.
    pub exchange: String,
    /// `global` or `europe`.
    pub region: String,
    /// Instrument in the exchange's own notation.
    pub instrument: String,
    /// Alias that selects a fallback mapping.
    pub alias: Option<String>,
    /// Kinds of data to subscribe to.
    pub data_kind: DataKind,
    /// Largest number of price levels of a side; without it there is no limit.
    pub max_level: Option<usize>,
    /// Largest distance from the best price in per cent; 0 and 100 or more
    /// keep every level.
    pub max_level_pct: Num,
    /// Whether to log a checksum that does not match.
    pub checksum_log: bool,
    /// Whether to log an update that is rejected because it crosses the book.
    pub crossguard_log: bool,
    /// Reconnecting.
    pub resilience: ResilienceConfig,
    /// Fallback mappings.
    pub fallback: FallbackTable,
    /// Key for exchanges that ask for authentication.
    pub api_key: Option<String>,
    /// Secret for exchanges that ask for authentication.
    pub api_secret: Option<String>,
}

impl Default for DataSourceConfig {
    fn default() -> (r: Self)
        ensures
            r.exchange@.len() == 0,
            r.region@.len() == 0,
            r.instrument@.len() == 0,
            r.alias is None,
            r.data_kind == DataKind::EMPTY,
            r.max_level is None,
            r.max_level_pct@ == (NumView { bits: 0, text: "0"@ }),
            !r.checksum_log,
            !r.crossguard_log,
            call_ensures(ResilienceConfig::default, (), r.resilience),
            r.fallback@ == Map::<Seq<char>, StringHashMap<ExchangeFallbackMapping>>::empty(),
            r.api_key is None,
            r.api_secret is None,
    {
        DataSourceConfig {
            exchange: String::new(),
            region: String::new(),
            instrument: String::new(),
            alias: None,
            data_kind: DataKind::empty(),
            max_level: None,
            max_level_pct: Num::zero_value(),
            checksum_log: false,
            crossguard_log: false,
            resilience: ResilienceConfig::default(),
            fallback: StringHashMap::new(),
            api_key: None,
            api_secret: None,
        }
    }
}

/// What is wrong with a configuration.
#[derive(Debug, Clone)]
pub enum ConfigError {
    MissingExchange,
    UnknownExchange(String),
    MissingRegion,
    UnknownRegion(String),
    MissingInstrument,
    EmptyDataKind,
    MaxLevelWithoutLob,
    /// The exchange asks for authentication.
    MissingCredentials,
}

/// The mathematical content of a [`ConfigError`].
pub enum ConfigErrorView {
    MissingExchange,
    UnknownExchange(Seq<char>),
    MissingRegion,
    UnknownRegion(Seq<char>),
    MissingInstrument,
    EmptyDataKind,
    MaxLevelWithoutLob,
    MissingCredentials,
}

impl View for ConfigError {
    type V = ConfigErrorView;

    open spec fn view(&self) -> ConfigErrorView {
        match *self {
            ConfigError::MissingExchange => ConfigErrorView::MissingExchange,
            ConfigError::UnknownExchange(s) => ConfigErrorView::UnknownExchange(s@),
            ConfigError::MissingRegion => ConfigErrorView::MissingRegion,
            ConfigError::UnknownRegion(s) => ConfigErrorView::UnknownRegion(s@),
            ConfigError::MissingInstrument => ConfigErrorView::MissingInstrument,
            ConfigError::EmptyDataKind => ConfigErrorView::EmptyDataKind,
            ConfigError::MaxLevelWithoutLob => ConfigErrorView::MaxLevelWithoutLob,
            ConfigError::MissingCredentials => ConfigErrorView::MissingCredentials,
        }
    }
}

impl ConfigErrorView {
    /// The message the error is reported with.
    pub open spec fn message(self) -> Seq<char> {
        match self {
            ConfigErrorView::MissingExchange => "exchange is required"@,
            ConfigErrorView::UnknownExchange(e) => "unknown exchange: "@ + e,
            ConfigErrorView::MissingRegion => "region is required"@,
            ConfigErrorView::UnknownRegion(r) => "unknown region: "@ + r,
            ConfigErrorView::MissingInstrument => "instrument is required"@,
            ConfigErrorView::EmptyDataKind => "data_kind must include at least Lob or Trade"@,
            ConfigErrorView::MaxLevelWithoutLob => "max_level requires data_kind to include Lob"@,
            ConfigErrorView::MissingCredentials => "bitvavo requires api_key and api_secret"@,
        }
    }
}

impl ConfigError {
    /// The error's message.
    pub fn to_string(&self) -> (r: String)
        ensures
            r@ == self@.message(),
    {
        match self {
            ConfigError::MissingExchange => "exchange is required".to_owned(),
            ConfigError::UnknownExchange(e) => "unknown exchange: ".to_owned().concat(e.as_str()),
            ConfigError::MissingRegion => "region is required".to_owned(),
            ConfigError::UnknownRegion(r) => "unknown region: ".to_owned().concat(r.as_str()),
            ConfigError::MissingInstrument => "instrument is required".to_owned(),
            ConfigError::EmptyDataKind => "data_kind must include at least Lob or Trade".to_owned(),
            ConfigError::MaxLevelWithoutLob => {
                "max_level requires data_kind to include Lob".to_owned()
            },
            ConfigError::MissingCredentials => "bitvavo requires api_key and api_secret".to_owned(),
        }
    }
}

/// An exchange the library knows.
pub open spec fn known_exchange(name: Seq<char>) -> bool {
    name == "okx"@ || name == "kraken"@ || name == "bitstamp"@ || name == "bitvavo"@
}

/// A region the library knows.
pub open spec fn known_region(name: Seq<char>) -> bool {
    name == "global"@ || name == "europe"@
}

/// A text is there and is not empty.
pub open spec fn given(t: Option<String>) -> bool {
    t matches Some(s) && s@.len() > 0
}

impl DataSourceConfig {
    /// The first thing that is wrong with the configuration, if anything is.
    pub open spec fn fault(self) -> Option<ConfigErrorView> {
        if blank(self.exchange@) {
            Some(ConfigErrorView::MissingExchange)
        } else if !known_exchange(self.exchange@) {
            Some(ConfigErrorView::UnknownExchange(self.exchange@))
        } else if self.exchange@ == "bitvavo"@ && !(given(self.api_key) && given(
            self.api_secret,
        )) {
            Some(ConfigErrorView::MissingCredentials)
        } else if blank(self.region@) {
            Some(ConfigErrorView::MissingRegion)
        } else if !known_region(self.region@) {
            Some(ConfigErrorView::UnknownRegion(self.region@))
        } else if blank(self.instrument@) {
            Some(ConfigErrorView::MissingInstrument)
        } else if self.data_kind == DataKind::EMPTY {
            Some(ConfigErrorView::EmptyDataKind)
        } else if self.max_level is Some && !self.data_kind.lob() {
            Some(ConfigErrorView::MaxLevelWithoutLob)
        } else {
            None
        }
    }

    /// Checks the configuration.
    pub fn validate(&self) -> (r: Result<(), ConfigError>)
        ensures
            r is Ok <==> self.fault() is None,
            r matches Err(e) ==> self.fault() == Some(e@),
    {
        if is_blank(self.exchange.as_str()) {
            return Err(ConfigError::MissingExchange);
        }
        let exchange = self.exchange.as_str();
        if !(same_text(exchange, "okx") || same_text(exchange, "kraken") || same_text(
            exchange,
            "bitstamp",
        ) || same_text(exchange, "bitvavo")) {
            return Err(ConfigError::UnknownExchange(self.exchange.clone()));
        }
        if same_text(exchange, "bitvavo") && !(is_given(&self.api_key) && is_given(
            &self.api_secret,
        )) {
            return Err(ConfigError::MissingCredentials);
        }
        if is_blank(self.region.as_str()) {
            return Err(ConfigError::MissingRegion);
        }
        if !(same_text(self.region.as_str(), "global") || same_text(
            self.region.as_str(),
            "europe",
        )) {
            return Err(ConfigError::UnknownRegion(self.region.clone()));
        }
        if is_blank(self.instrument.as_str()) {
            return Err(ConfigError::MissingInstrument);
        }
        if self.data_kind.is_empty() {
            return Err(ConfigError::EmptyDataKind);
        }
        if self.max_level.is_some() && !self.data_kind.contains(DataKind::LOB) {
            return Err(ConfigError::MaxLevelWithoutLob);
        }
        Ok(())
    }
}

fn is_given(t: &Option<String>) -> (r: bool)
    ensures
        r == given(*t),
{
    match t {
        Some(s) => !s.as_str().is_empty(),
        None => false,
    }
}

/// Whether a text is given and not empty.
pub open spec fn has_text(t: Option<String>) -> bool {
    t is Some && t->0@.len() > 0
}

/// A configuration is without fault exactly where it names one of the four
/// exchanges, one of the two regions, an instrument and a kind of data, has no
/// limit on levels without the book, and has a key and a secret where the
/// exchange asks for them.
pub proof fn configuration_without_fault(c: DataSourceConfig)
    ensures
        c.fault() is None <==> {
            &&& c.exchange@ == "okx"@ || c.exchange@ == "kraken"@ || c.exchange@ == "bitstamp"@
                || c.exchange@ == "bitvavo"@
            &&& c.exchange@ == "bitvavo"@ ==> has_text(c.api_key) && has_text(c.api_secret)
            &&& c.region@ == "global"@ || c.region@ == "europe"@
            &&& !blank(c.instrument@)
            &&& c.data_kind != DataKind::EMPTY
            &&& c.max_level is Some ==> c.data_kind != DataKind::TRADE
        },
{
    reveal_strlit("okx");
    reveal_strlit("kraken");
    reveal_strlit("bitstamp");
    reveal_strlit("bitvavo");
    reveal_strlit("global");
    reveal_strlit("europe");
    if blank(c.exchange@) && c.exchange@.len() > 0 {
        assert(is_white(c.exchange@[0]));
    }
    if blank(c.region@) && c.region@.len() > 0 {
        assert(is_white(c.region@[0]));
    }
}

/// Whether the exchange, and its key and secret, are in order.
pub open spec fn exchange_is_fit(c: DataSourceConfig) -> bool {
    &&& c.exchange@ == "okx"@ || c.exchange@ == "kraken"@ || c.exchange@ == "bitstamp"@
        || c.exchange@ == "bitvavo"@
    &&& c.exchange@ == "bitvavo"@ ==> has_text(c.api_key) && has_text(c.api_secret)
}

/// Whether the region is one of the two.
pub open spec fn region_is_fit(c: DataSourceConfig) -> bool {
    c.region@ == "global"@ || c.region@ == "europe"@
}

/// Each fault tells what it stands for, and the text that it refuses. Of
/// several, the one that is told is the first in this order: the exchange, its
/// key and secret, the region, the instrument, the kind of data, and the limit
/// on levels.
pub proof fn fault_tells_what_is_wrong(c: DataSourceConfig)
    ensures
        match c.fault() {
            Some(ConfigErrorView::MissingExchange) => blank(c.exchange@),
            Some(ConfigErrorView::UnknownExchange(e)) => e == c.exchange@ && !blank(e) && e
                != "okx"@ && e != "kraken"@ && e != "bitstamp"@ && e != "bitvavo"@,
            Some(ConfigErrorView::MissingCredentials) => c.exchange@ == "bitvavo"@ && (!has_text(
                c.api_key,
            ) || !has_text(c.api_secret)),
            Some(ConfigErrorView::MissingRegion) => exchange_is_fit(c) && blank(c.region@),
            Some(ConfigErrorView::UnknownRegion(r)) => exchange_is_fit(c) && !region_is_fit(c) && r
                == c.region@ && !blank(r),
            Some(ConfigErrorView::MissingInstrument) => exchange_is_fit(c) && region_is_fit(c)
                && blank(c.instrument@),
            Some(ConfigErrorView::EmptyDataKind) => exchange_is_fit(c) && region_is_fit(c)
                && !blank(c.instrument@) && c.data_kind == DataKind::EMPTY,
            Some(ConfigErrorView::MaxLevelWithoutLob) => exchange_is_fit(c) && region_is_fit(c)
                && !blank(c.instrument@) && c.max_level is Some && c.data_kind == DataKind::TRADE,
            None => true,
        },
{
}

/// A kind of data is what it holds: the book, trades, both or neither. One kind
/// added to another holds what either holds, and one taken from another leaves
/// what only the other holds.
pub proof fn kinds_hold_the_book_and_trades(k: DataKind, other: DataKind)
    ensures
        k.lob() <==> k == DataKind::LOB || k == DataKind::BOTH,
        k.trade() <==> k == DataKind::TRADE || k == DataKind::BOTH,
        k.lob() == other.lob() && k.trade() == other.trade() ==> k == other,
        k.union(other).lob() <==> k.lob() || other.lob(),
        k.union(other).trade() <==> k.trade() || other.trade(),
        k.minus(other).lob() <==> k.lob() && !other.lob(),
        k.minus(other).trade() <==> k.trade() && !other.trade(),
        k.meets(other) <==> (k.lob() && other.lob()) || (k.trade() && other.trade()),
        k.lob() && k.trade() ==> channel_kinds(k) == seq![DataKind::LOB, DataKind::TRADE],
        k.lob() && !k.trade() ==> channel_kinds(k) == seq![DataKind::LOB],
        !k.lob() && k.trade() ==> channel_kinds(k) == seq![DataKind::TRADE],
        !k.lob() && !k.trade() ==> channel_kinds(k).len() == 0,
{
    assert(k.lob() && k.trade() ==> channel_kinds(k) =~= seq![DataKind::LOB, DataKind::TRADE]);
    assert(k.lob() && !k.trade() ==> channel_kinds(k) =~= seq![DataKind::LOB]);
    assert(!k.lob() && k.trade() ==> channel_kinds(k) =~= seq![DataKind::TRADE]);
}

/// Trimming takes away the space before and after a text, and only that: what
/// is left neither starts nor ends with space.
pub proof fn trimming_takes_space_away(before: Seq<char>, s: Seq<char>, after: Seq<char>)
    requires
        blank(before),
        blank(after),
        s.len() > 0 ==> !is_white(s[0]) && !is_white(s.last()),
    ensures
        trimmed(before + s + after) == s,
    decreases before.len() + after.len(),
{
    let whole = before + s + after;
    if before.len() > 0 {
        assert(is_white(before[0]));
        assert(whole[0] == before[0]);
        let rest = before.skip(1);
        assert forall|i: int| 0 <= i < rest.len() implies is_white(#[trigger] rest[i]) by {
            assert(rest[i] == before[i + 1]);
        }
        assert(whole.skip(1) =~= rest + s + after);
        trimming_takes_space_away(rest, s, after);
    } else if after.len() > 0 {
        assert(is_white(after[after.len() - 1]));
        assert(whole.last() == after[after.len() - 1]);
        if s.len() > 0 {
            assert(whole[0] == s[0]);
            let rest = after.drop_last();
            assert forall|i: int| 0 <= i < rest.len() implies is_white(#[trigger] rest[i]) by {
                assert(rest[i] == after[i]);
            }
            assert(whole.drop_last() =~= before + s + rest);
            trimming_takes_space_away(before, s, rest);
        } else {
            assert(whole[0] == after[0]);
            assert(is_white(after[0]));
            let rest = after.skip(1);
            assert forall|i: int| 0 <= i < rest.len() implies is_white(#[trigger] rest[i]) by {
                assert(rest[i] == after[i + 1]);
            }
            assert(whole.skip(1) =~= before + s + rest);
            trimming_takes_space_away(before, s, rest);
        }
    } else {
        assert(whole =~= s);
    }
}

/// The parts with a bar between each two of them.
pub open spec fn joined(parts: Seq<Seq<char>>) -> Seq<char>
    decreases parts.len(),
{
    if parts.len() == 0 {
        Seq::empty()
    } else if parts.len() == 1 {
        parts[0]
    } else {
        joined(parts.drop_last()) + seq!['|'] + parts.last()
    }
}

/// The parts of a text hold no bar, and with bars between them they are the
/// text.
pub proof fn parts_lie_between_bars(s: Seq<char>)
    ensures
        bar_parts(s).len() > 0,
        joined(bar_parts(s)) == s,
        forall|i: int, j: int|
            0 <= i < bar_parts(s).len() && 0 <= j < bar_parts(s)[i].len()
                ==> #[trigger] bar_parts(s)[i][j] != '|',
    decreases s.len(),
{
    let parts = bar_parts(s);
    if s.len() == 0 {
        assert(joined(parts) =~= s);
    } else {
        let t = s.drop_last();
        let before = bar_parts(t);
        parts_lie_between_bars(t);
        assert(s =~= t.push(s.last()));
        if s.last() == '|' {
            assert(parts.drop_last() =~= before);
            assert(joined(parts) =~= s);
        } else {
            assert(parts.drop_last() =~= before.drop_last());
            assert(parts.last() == before.last().push(s.last()));
            if before.len() > 1 {
                assert(joined(parts) =~= joined(before.drop_last()) + seq!['|'] + parts.last());
            } else {
                assert(parts.len() == 1);
                assert(parts[0] == parts.last());
            }
            assert(joined(parts) =~= s);
            assert forall|i: int, j: int|
                0 <= i < parts.len() && 0 <= j < parts[i].len() implies #[trigger] parts[i][j]
                != '|' by {
                if i < before.len() - 1 {
                    assert(parts[i] == before[i]);
                    assert(before[i][j] != '|');
                } else {
                    assert(parts[i] == before.last().push(s.last()));
                    if j < before.last().len() {
                        assert(before[before.len() - 1][j] != '|');
                    }
                }
            }
        }
    }
}

/// A text that names something that is no kind is refused with the first part
/// that does so, as it is written; one that names nothing is refused as empty.
pub proof fn first_bad_part_is_told(s: Seq<char>, i: int)
    requires
        0 <= i < bar_parts(s).len(),
        !is_kind_or_empty(trimmed(bar_parts(s)[i])),
        forall|j: int| 0 <= j < i ==> is_kind_or_empty(trimmed(#[trigger] bar_parts(s)[j])),
    ensures
        parse_kind(s) == Err::<DataKind, DataKindErrorView>(
            DataKindErrorView::Invalid(bar_parts(s)[i]),
        ),
{
    let parts = bar_parts(s);
    lemma_kinds_of_parts(parts, i);
    assert(kinds_of_parts(parts, i) is Ok);
    assert(kinds_of_parts(parts, i + 1) == Err::<DataKind, Seq<char>>(parts[i]));
    lemma_first_bad_part(parts, i + 1, parts.len() as int);
}

/// A text whose parts are all kinds or space is refused only where none of
/// them is a kind.
pub proof fn nothing_named_is_empty(s: Seq<char>)
    requires
        names_kinds(s),
        !is_named(s, "Lob"@),
        !is_named(s, "Trade"@),
    ensures
        parse_kind(s) == Err::<DataKind, DataKindErrorView>(DataKindErrorView::Empty),
{
    let parts = bar_parts(s);
    lemma_kinds_of_parts(parts, parts.len() as int);
    kinds_are_those_named(s);
}

/// The message of a fault starts with what is at fault and ends with the text
/// that is refused, if there is one.
pub proof fn fault_message_tells_the_fault(e: ConfigErrorView, s: Seq<char>)
    ensures
        e == ConfigErrorView::UnknownExchange(s) || e == ConfigErrorView::UnknownRegion(s)
            ==> e.message().len() > s.len() && e.message().skip(e.message().len() - s.len()) == s,
        e == ConfigErrorView::UnknownExchange(s) ==> begins(e.message(), "unknown exchange"@),
        e == ConfigErrorView::UnknownRegion(s) ==> begins(e.message(), "unknown region"@),
        e is MissingExchange ==> begins(e.message(), "exchange is required"@),
        e is MissingRegion ==> begins(e.message(), "region is required"@),
        e is MissingInstrument ==> begins(e.message(), "instrument is required"@),
        e is EmptyDataKind ==> begins(e.message(), "data_kind must include"@),
        e is MaxLevelWithoutLob ==> begins(e.message(), "max_level requires"@),
        e is MissingCredentials ==> begins(e.message(), "bitvavo requires"@),
{
    reveal_strlit("exchange is required");
    reveal_strlit("unknown exchange: ");
    reveal_strlit("unknown exchange");
    reveal_strlit("region is required");
    reveal_strlit("unknown region: ");
    reveal_strlit("unknown region");
    reveal_strlit("instrument is required");
    reveal_strlit("data_kind must include at least Lob or Trade");
    reveal_strlit("data_kind must include");
    reveal_strlit("max_level requires data_kind to include Lob");
    reveal_strlit("max_level requires");
    reveal_strlit("bitvavo requires api_key and api_secret");
    reveal_strlit("bitvavo requires");
    let m = e.message();
    if e == ConfigErrorView::UnknownExchange(s) {
        assert(m.take(16) =~= "unknown exchange"@);
        assert(m.skip(m.len() - s.len()) =~= s);
    }
    if e == ConfigErrorView::UnknownRegion(s) {
        assert(m.take(14) =~= "unknown region"@);
        assert(m.skip(m.len() - s.len()) =~= s);
    }
    if e is MissingExchange {
        assert(m.take(20) =~= "exchange is required"@);
    }
    if e is MissingRegion {
        assert(m.take(18) =~= "region is required"@);
    }
    if e is MissingInstrument {
        assert(m.take(22) =~= "instrument is required"@);
    }
    if e is EmptyDataKind {
        assert(m.take(22) =~= "data_kind must include"@);
    }
    if e is MaxLevelWithoutLob {
        assert(m.take(18) =~= "max_level requires"@);
    }
    if e is MissingCredentials {
        assert(m.take(16) =~= "bitvavo requires"@);
    }
}

/// The message of a text that names no kind ends with the part that is
/// refused.
pub proof fn kind_message_tells_the_part(s: Seq<char>)
    ensures
        ({
            let m = DataKindErrorView::Invalid(s).message();
            &&& begins(m, "invalid data_kind"@)
            &&& m.len() > s.len()
            &&& m.skip(m.len() - s.len()) == s
        }),
        begins(DataKindErrorView::Empty.message(), "data_kind must include"@),
{
    reveal_strlit("invalid data_kind: ");
    reveal_strlit("invalid data_kind");
    reveal_strlit("data_kind must include at least Lob or Trade");
    reveal_strlit("data_kind must include");
    let m = DataKindErrorView::Invalid(s).message();
    assert(m.take(17) =~= "invalid data_kind"@);
    assert(m.skip(m.len() - s.len()) =~= s);
    assert(DataKindErrorView::Empty.message().take(22) =~= "data_kind must include"@);
}

} // verus!
