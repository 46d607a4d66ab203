//! Instruments: exchanges, and fallback names of an instrument.

use crate::config::known_exchange;
use crate::config::CaseFallback;
use crate::config::DataSourceConfig;
use crate::config::ExchangeFallbackMapping;
use crate::config::FallbackTable;
use crate::items::text_view;
use crate::items::IngestError;
use crate::items::IngestErrorView;
use crate::json::view_str;
use crate::text::all_ascii;
use crate::text::ascii_lower;
use crate::text::ascii_upper;
use crate::text::lower_text;
use crate::text::same_text;
use crate::text::text_lower;
use crate::text::text_upper;
use crate::text::upper_text;
use vstd::prelude::*;

verus! {

/// An exchange that can validate instruments.
#[derive(Debug, Clone, Copy, PartialEq, Eq, Structural)]
pub enum ExchangeValidator {
    Okx,
    Kraken,
    Bitstamp,
    Bitvavo,
}

impl ExchangeValidator {
    /// The exchange's name.
    pub open spec fn name(self) -> Seq<char> {
        match self {
            ExchangeValidator::Okx => "okx"@,
            ExchangeValidator::Kraken => "kraken"@,
            ExchangeValidator::Bitstamp => "bitstamp"@,
            ExchangeValidator::Bitvavo => "bitvavo"@,
        }
    }

    /// The exchange's name.
    pub fn exchange_name(&self) -> (r: &'static str)
        ensures
            r@ == self.name(),
    {
        match self {
            ExchangeValidator::Okx => "okx",
            ExchangeValidator::Kraken => "kraken",
            ExchangeValidator::Bitstamp => "bitstamp",
            ExchangeValidator::Bitvavo => "bitvavo",
        }
    }

    /// The exchange of a name.
    pub fn from_exchange_name(exchange: &str) -> (r: Option<Self>)
        ensures
            r is Some <==> known_exchange(exchange@),
            r matches Some(v) ==> v.name() == exchange@,
    {
        if same_text(exchange, "okx") {
            Some(ExchangeValidator::Okx)
        } else if same_text(exchange, "kraken") {
            Some(ExchangeValidator::Kraken)
        } else if same_text(exchange, "bitstamp") {
            Some(ExchangeValidator::Bitstamp)
        } else if same_text(exchange, "bitvavo") {
            Some(ExchangeValidator::Bitvavo)
        } else {
            None
        }
    }
}

/// Different exchanges have different names.
pub proof fn names_are_distinct(a: ExchangeValidator, b: ExchangeValidator)
    requires
        a.name() == b.name(),
    ensures
        a == b,
{
    reveal_strlit("okx");
    reveal_strlit("kraken");
    reveal_strlit("bitstamp");
    reveal_strlit("bitvavo");
    if a != b {
        assert("okx"@.len() == 3);
        assert("kraken"@.len() == 6);
        assert("bitstamp"@.len() == 8);
        assert("bitvavo"@.len() == 7);
    }
}

/// A text after case conversion.
pub open spec fn cased(s: Seq<char>, case_fallback: CaseFallback) -> Seq<char> {
    match case_fallback {
        CaseFallback::Unchanged => s,
        CaseFallback::Lower => text_lower(s),
        CaseFallback::Upper => text_upper(s),
    }
}

/// Converts the case of a text.
pub fn apply_case_fallback(s: &str, case_fallback: CaseFallback) -> (r: String)
    ensures
        r@ == cased(s@, case_fallback),
        case_fallback is Unchanged ==> r@ == s@,
        all_ascii(s@) && case_fallback is Lower ==> r@ == s@.map_values(|c: char| ascii_lower(c)),
        all_ascii(s@) && case_fallback is Upper ==> r@ == s@.map_values(|c: char| ascii_upper(c)),
{
    match case_fallback {
        CaseFallback::Unchanged => s.to_owned(),
        CaseFallback::Lower => lower_text(s),
        CaseFallback::Upper => upper_text(s),
    }
}

/// An ASCII text keeps its length, stays ASCII, and does not change when its
/// case is converted once more; what is converted after another conversion is
/// converted as if there had been none.
pub proof fn ascii_case_is_stable(s: Seq<char>, first: CaseFallback, then_by: CaseFallback)
    requires
        all_ascii(s),
    ensures
        cased(s, first).len() == s.len(),
        all_ascii(cased(s, first)),
        cased(cased(s, first), first) == cased(s, first),
        !(then_by is Unchanged) ==> cased(cased(s, first), then_by) == cased(s, then_by),
{
    let r = cased(s, first);
    assert forall|i: int| 0 <= i < r.len() implies #[trigger] r[i] <= '\u{7f}' by {
        assert(s[i] <= '\u{7f}');
    }
    assert(cased(r, first) =~= r);
    if !(then_by is Unchanged) {
        assert(cased(r, then_by) =~= cased(s, then_by));
    }
}

/// The contents of a list of texts.
pub open spec fn texts(v: Seq<String>) -> Seq<Seq<char>> {
    v.map_values(|s: String| s@)
}

/// The combinations of a base and a quote with the first `n` separators that
/// differ from `first` once their case is converted.
pub open spec fn separator_variants(
    mapping: ExchangeFallbackMapping,
    base: Seq<char>,
    quote: Seq<char>,
    first: Seq<char>,
    n: int,
) -> Seq<Seq<char>>
    decreases n,
{
    if n <= 0 {
        Seq::empty()
    } else {
        let before = separator_variants(mapping, base, quote, first, n - 1);
        let v = cased(
            base + mapping.separator_mappings@[n - 1]@ + quote,
            mapping.case_fallback,
        );
        if v == first {
            before
        } else {
            before.push(v)
        }
    }
}

/// The variants of a base with the first `n` quotes.
pub open spec fn quote_variants(
    mapping: ExchangeFallbackMapping,
    base: Seq<char>,
    first: Seq<char>,
    n: int,
) -> Seq<Seq<char>>
    decreases n,
{
    if n <= 0 {
        Seq::empty()
    } else {
        quote_variants(mapping, base, first, n - 1) + separator_variants(
            mapping,
            base,
            mapping.quote_mappings@[n - 1]@,
            first,
            mapping.separator_mappings@.len() as int,
        )
    }
}

/// The variants with the first `n` bases.
pub open spec fn base_variants(
    mapping: ExchangeFallbackMapping,
    first: Seq<char>,
    n: int,
) -> Seq<Seq<char>>
    decreases n,
{
    if n <= 0 {
        Seq::empty()
    } else {
        base_variants(mapping, first, n - 1) + quote_variants(
            mapping,
            mapping.base_mappings@[n - 1]@,
            first,
            mapping.quote_mappings@.len() as int,
        )
    }
}

/// The instruments to try: the original first, its case converted, and then
/// every combination of base, separator and quote that differs from it, the
/// base varying slowest and the separator fastest.
pub open spec fn fallback_variants(
    original: Seq<char>,
    mapping: ExchangeFallbackMapping,
) -> Seq<Seq<char>> {
    let first = cased(original, mapping.case_fallback);
    seq![first] + base_variants(mapping, first, mapping.base_mappings@.len() as int)
}

/// The instruments to try in place of one that is not found.
pub fn generate_fallback_variants(original: &str, mapping: &ExchangeFallbackMapping) -> (r: Vec<
    String,
>)
    ensures
        texts(r@) == fallback_variants(original@, *mapping),
{
    let first: String = apply_case_fallback(original, mapping.case_fallback);
    let mut variants: Vec<String> = Vec::new();
    variants.push(first.clone());
    let ghost f = first@;
    assert(texts(variants@) =~= seq![f]);
    let mut b: usize = 0;
    while b < mapping.base_mappings.len()
        invariant
            b <= mapping.base_mappings.len(),
            first@ == f,
            texts(variants@) == seq![f] + base_variants(*mapping, f, b as int),
        decreases mapping.base_mappings.len() - b,
    {
        let base: &String = &mapping.base_mappings[b];
        let ghost done_bases = seq![f] + base_variants(*mapping, f, b as int);
        let mut q: usize = 0;
        assert(done_bases + quote_variants(*mapping, base@, f, 0) =~= done_bases);
        while q < mapping.quote_mappings.len()
            invariant
                q <= mapping.quote_mappings.len(),
                first@ == f,
                texts(variants@) == done_bases + quote_variants(*mapping, base@, f, q as int),
            decreases mapping.quote_mappings.len() - q,
        {
            let quote: &String = &mapping.quote_mappings[q];
            let ghost done_quotes = done_bases + quote_variants(*mapping, base@, f, q as int);
            let mut i: usize = 0;
            assert(done_quotes + separator_variants(*mapping, base@, quote@, f, 0)
                =~= done_quotes);
            while i < mapping.separator_mappings.len()
                invariant
                    i <= mapping.separator_mappings.len(),
                    first@ == f,
                    texts(variants@) == done_quotes + separator_variants(
                        *mapping,
                        base@,
                        quote@,
                        f,
                        i as int,
                    ),
                decreases mapping.separator_mappings.len() - i,
            {
                let ghost before = texts(variants@);
                let variant: String = base.clone().concat(
                    mapping.separator_mappings[i].as_str(),
                ).concat(quote.as_str());
                let converted: String = apply_case_fallback(
                    variant.as_str(),
                    mapping.case_fallback,
                );
                if !same_text(converted.as_str(), first.as_str()) {
                    let ghost c = converted@;
                    variants.push(converted);
                    assert(texts(variants@) =~= before.push(c));
                }
                assert(texts(variants@) =~= done_quotes + separator_variants(
                    *mapping,
                    base@,
                    quote@,
                    f,
                    i + 1,
                ));
                i += 1;
            }
            assert(texts(variants@) =~= done_bases + quote_variants(*mapping, base@, f, q + 1));
            q += 1;
        }
        assert(texts(variants@) =~= seq![f] + base_variants(*mapping, f, b + 1));
        b += 1;
    }
    variants
}

proof fn lemma_separator_variants(
    mapping: ExchangeFallbackMapping,
    base: Seq<char>,
    quote: Seq<char>,
    first: Seq<char>,
    n: int,
)
    requires
        0 <= n <= mapping.separator_mappings@.len(),
    ensures
        forall|i: int|
            0 <= i < separator_variants(mapping, base, quote, first, n).len() ==> {
                let v = #[trigger] separator_variants(mapping, base, quote, first, n)[i];
                v != first && exists|s: int|
                    0 <= s < n && v == cased(
                        base + #[trigger] mapping.separator_mappings@[s]@ + quote,
                        mapping.case_fallback,
                    )
            },
        forall|s: int|
            0 <= s < n ==> {
                let v = cased(
                    base + #[trigger] mapping.separator_mappings@[s]@ + quote,
                    mapping.case_fallback,
                );
                v == first || separator_variants(mapping, base, quote, first, n).contains(v)
            },
    decreases n,
{
    if n > 0 {
        lemma_separator_variants(mapping, base, quote, first, n - 1);
        let before = separator_variants(mapping, base, quote, first, n - 1);
        let all = separator_variants(mapping, base, quote, first, n);
        let last = cased(base + mapping.separator_mappings@[n - 1]@ + quote, mapping.case_fallback);
        assert forall|i: int| 0 <= i < all.len() implies ({
            let v = #[trigger] all[i];
            v != first && exists|s: int|
                0 <= s < n && v == cased(
                    base + #[trigger] mapping.separator_mappings@[s]@ + quote,
                    mapping.case_fallback,
                )
        }) by {
            if i < before.len() {
                assert(all[i] == before[i]);
            } else {
                assert(all[i] == last);
            }
        }
        assert forall|s: int| 0 <= s < n implies ({
            let v = cased(
                base + #[trigger] mapping.separator_mappings@[s]@ + quote,
                mapping.case_fallback,
            );
            v == first || all.contains(v)
        }) by {
            let v = cased(base + mapping.separator_mappings@[s]@ + quote, mapping.case_fallback);
            if s < n - 1 {
                if v != first {
                    let k = choose|k: int| 0 <= k < before.len() && before[k] == v;
                    assert(all[k] == v);
                }
            } else if v != first {
                assert(all[all.len() - 1] == v);
            }
        }
    }
}

proof fn lemma_quote_variants(
    mapping: ExchangeFallbackMapping,
    base: Seq<char>,
    first: Seq<char>,
    n: int,
)
    requires
        0 <= n <= mapping.quote_mappings@.len(),
    ensures
        forall|i: int|
            0 <= i < quote_variants(mapping, base, first, n).len() ==> #[trigger] quote_variants(
                mapping,
                base,
                first,
                n,
            )[i] != first,
        forall|q: int, s: int|
            0 <= q < n && 0 <= s < mapping.separator_mappings@.len() ==> {
                let v = cased(
                    base + #[trigger] mapping.separator_mappings@[s]@
                        + #[trigger] mapping.quote_mappings@[q]@,
                    mapping.case_fallback,
                );
                v == first || quote_variants(mapping, base, first, n).contains(v)
            },
    decreases n,
{
    if n > 0 {
        let m = mapping.separator_mappings@.len() as int;
        let quote = mapping.quote_mappings@[n - 1]@;
        lemma_quote_variants(mapping, base, first, n - 1);
        lemma_separator_variants(mapping, base, quote, first, m);
        let before = quote_variants(mapping, base, first, n - 1);
        let added = separator_variants(mapping, base, quote, first, m);
        let all = quote_variants(mapping, base, first, n);
        assert forall|i: int| 0 <= i < all.len() implies #[trigger] all[i] != first by {
            if i < before.len() {
                assert(all[i] == before[i]);
            } else {
                assert(all[i] == added[i - before.len()]);
            }
        }
        assert forall|q: int, s: int| 0 <= q < n && 0 <= s < m implies ({
            let v = cased(
                base + #[trigger] mapping.separator_mappings@[s]@
                    + #[trigger] mapping.quote_mappings@[q]@,
                mapping.case_fallback,
            );
            v == first || all.contains(v)
        }) by {
            let v = cased(
                base + mapping.separator_mappings@[s]@ + mapping.quote_mappings@[q]@,
                mapping.case_fallback,
            );
            if v != first {
                if q < n - 1 {
                    let k = choose|k: int| 0 <= k < before.len() && before[k] == v;
                    assert(all[k] == v);
                } else {
                    let k = choose|k: int| 0 <= k < added.len() && added[k] == v;
                    assert(all[before.len() + k] == v);
                }
            }
        }
    }
}

proof fn lemma_base_variants(mapping: ExchangeFallbackMapping, first: Seq<char>, n: int)
    requires
        0 <= n <= mapping.base_mappings@.len(),
    ensures
        forall|i: int|
            0 <= i < base_variants(mapping, first, n).len() ==> #[trigger] base_variants(
                mapping,
                first,
                n,
            )[i] != first,
        forall|b: int, q: int, s: int|
            0 <= b < n && 0 <= q < mapping.quote_mappings@.len() && 0 <= s
                < mapping.separator_mappings@.len() ==> {
                let v = cased(
                    #[trigger] mapping.base_mappings@[b]@
                        + #[trigger] mapping.separator_mappings@[s]@
                        + #[trigger] mapping.quote_mappings@[q]@,
                    mapping.case_fallback,
                );
                v == first || base_variants(mapping, first, n).contains(v)
            },
    decreases n,
{
    if n > 0 {
        let base = mapping.base_mappings@[n - 1]@;
        let m = mapping.quote_mappings@.len() as int;
        lemma_base_variants(mapping, first, n - 1);
        lemma_quote_variants(mapping, base, first, m);
        let before = base_variants(mapping, first, n - 1);
        let added = quote_variants(mapping, base, first, m);
        let all = base_variants(mapping, first, n);
        assert forall|i: int| 0 <= i < all.len() implies #[trigger] all[i] != first by {
            if i < before.len() {
                assert(all[i] == before[i]);
            } else {
                assert(all[i] == added[i - before.len()]);
            }
        }
        assert forall|b: int, q: int, s: int|
            0 <= b < n && 0 <= q < m && 0 <= s < mapping.separator_mappings@.len() implies ({
            let v = cased(
                #[trigger] mapping.base_mappings@[b]@ + #[trigger] mapping.separator_mappings@[s]@
                    + #[trigger] mapping.quote_mappings@[q]@,
                mapping.case_fallback,
            );
            v == first || all.contains(v)
        }) by {
            let v = cased(
                mapping.base_mappings@[b]@ + mapping.separator_mappings@[s]@
                    + mapping.quote_mappings@[q]@,
                mapping.case_fallback,
            );
            if v != first {
                if b < n - 1 {
                    let k = choose|k: int| 0 <= k < before.len() && before[k] == v;
                    assert(all[k] == v);
                } else {
                    let k = choose|k: int| 0 <= k < added.len() && added[k] == v;
                    assert(all[before.len() + k] == v);
                }
            }
        }
    }
}

/// The original comes first and does not come again, and every combination of
/// base, separator and quote is among the variants.
pub proof fn variants_are_complete(original: Seq<char>, mapping: ExchangeFallbackMapping)
    ensures
        fallback_variants(original, mapping)[0] == cased(original, mapping.case_fallback),
        forall|i: int|
            0 < i < fallback_variants(original, mapping).len() ==> #[trigger] fallback_variants(
                original,
                mapping,
            )[i] != fallback_variants(original, mapping)[0],
        forall|b: int, q: int, s: int|
            0 <= b < mapping.base_mappings@.len() && 0 <= q < mapping.quote_mappings@.len() && 0
                <= s < mapping.separator_mappings@.len() ==> fallback_variants(
                original,
                mapping,
            ).contains(
                cased(
                    #[trigger] mapping.base_mappings@[b]@
                        + #[trigger] mapping.separator_mappings@[s]@
                        + #[trigger] mapping.quote_mappings@[q]@,
                    mapping.case_fallback,
                ),
            ),
{
    let first = cased(original, mapping.case_fallback);
    let n = mapping.base_mappings@.len() as int;
    let rest = base_variants(mapping, first, n);
    let all = fallback_variants(original, mapping);
    lemma_base_variants(mapping, first, n);
    assert(all[0] == first);
    assert forall|i: int| 0 < i < all.len() implies #[trigger] all[i] != all[0] by {
        assert(all[i] == rest[i - 1]);
    }
    assert forall|b: int, q: int, s: int|
        0 <= b < n && 0 <= q < mapping.quote_mappings@.len() && 0 <= s
            < mapping.separator_mappings@.len() implies all.contains(
        cased(
            #[trigger] mapping.base_mappings@[b]@ + #[trigger] mapping.separator_mappings@[s]@
                + #[trigger] mapping.quote_mappings@[q]@,
            mapping.case_fallback,
        ),
    ) by {
        let v = cased(
            mapping.base_mappings@[b]@ + mapping.separator_mappings@[s]@
                + mapping.quote_mappings@[q]@,
            mapping.case_fallback,
        );
        if v == first {
            assert(all[0] == v);
        } else {
            let k = choose|k: int| 0 <= k < rest.len() && rest[k] == v;
            assert(all[k + 1] == v);
        }
    }
}

/// The mapping of an alias, or else that of the empty alias.
pub open spec fn mapping_of_alias(
    aliases: Map<Seq<char>, ExchangeFallbackMapping>,
    alias: Option<Seq<char>>,
) -> Option<ExchangeFallbackMapping> {
    if alias matches Some(a) && aliases.contains_key(a) {
        Some(aliases[alias->0])
    } else if aliases.contains_key(""@) {
        Some(aliases[""@])
    } else {
        None
    }
}

/// The mapping that a table has for an exchange and an alias.
pub open spec fn selected_mapping(
    fallback: FallbackTable,
    exchange: Seq<char>,
    alias: Option<Seq<char>>,
) -> Option<ExchangeFallbackMapping> {
    if fallback@.contains_key(exchange) {
        mapping_of_alias(fallback@[exchange]@, alias)
    } else {
        None
    }
}

/// Selects the fallback mapping of an exchange and an alias. Where the alias
/// is absent or has no mapping, the mapping of the empty alias is taken.
pub fn select_fallback_mapping<'a>(
    exchange: &str,
    alias: Option<&str>,
    fallback: &'a FallbackTable,
) -> (r: Option<&'a ExchangeFallbackMapping>)
    ensures
        r is Some <==> selected_mapping(*fallback, exchange@, view_str(alias)) is Some,
        r matches Some(m) ==> selected_mapping(*fallback, exchange@, view_str(alias)) == Some(
            *m,
        ),
{
    match fallback.get(exchange) {
        Some(aliases) => {
            let named: Option<&'a ExchangeFallbackMapping> = match alias {
                Some(a) => aliases.get(a),
                None => None,
            };
            match named {
                Some(m) => Some(m),
                None => aliases.get(""),
            }
        },
        None => None,
    }
}

/// A text is one of the list.
pub open spec fn listed(instrument: Seq<char>, instruments: Seq<String>) -> bool {
    exists|i: int| 0 <= i < instruments.len() && (#[trigger] instruments[i])@ == instrument
}

/// Whether a text is one of a list.
pub fn is_listed(instrument: &str, instruments: &Vec<String>) -> (r: bool)
    ensures
        r == listed(instrument@, instruments@),
{
    let mut i: usize = 0;
    while i < instruments.len()
        invariant
            i <= instruments.len(),
            forall|j: int| 0 <= j < i ==> (#[trigger] instruments@[j])@ != instrument@,
        decreases instruments.len() - i,
    {
        if same_text(instruments[i].as_str(), instrument) {
            return true;
        }
        i += 1;
    }
    false
}

/// The message that an instrument is not found on a venue.
pub open spec fn not_found(instrument: Seq<char>, venue: Seq<char>) -> Seq<char> {
    "Instrument '"@ + instrument + "' not found on "@ + venue
}

/// Checks an instrument against the list of those that a venue offers.
pub fn check_listed(instrument: &str, instruments: &Vec<String>, venue: &str) -> (r: Result<
    (),
    IngestError,
>)
    ensures
        r is Ok <==> listed(instrument@, instruments@),
        r matches Err(e) ==> e@ == IngestErrorView::Config(not_found(instrument@, venue@)),
{
    if is_listed(instrument, instruments) {
        Ok(())
    } else {
        Err(
            IngestError::Config(
                "Instrument '".to_owned().concat(instrument).concat("' not found on ").concat(
                    venue,
                ),
            ),
        )
    }
}

/// The names to try for the instrument of a configuration: its own, and then
/// those of the fallback mapping for the exchange and the alias.
pub open spec fn candidate_names(config: DataSourceConfig) -> Seq<Seq<char>> {
    seq![config.instrument@] + match selected_mapping(
        config.fallback,
        config.exchange@,
        text_view(config.alias),
    ) {
        Some(mapping) => fallback_variants(config.instrument@, mapping),
        None => Seq::empty(),
    }
}

/// The names to try for the instrument of a configuration.
pub fn candidates(config: &DataSourceConfig) -> (r: Vec<String>)
    ensures
        texts(r@) == candidate_names(*config),
{
    let mut names: Vec<String> = Vec::new();
    names.push(config.instrument.clone());
    let alias: Option<&str> = match &config.alias {
        Some(a) => Some(a.as_str()),
        None => None,
    };
    assert(view_str(alias) == text_view(config.alias));
    match select_fallback_mapping(config.exchange.as_str(), alias, &config.fallback) {
        Some(mapping) => {
            let mut variants: Vec<String> = generate_fallback_variants(
                config.instrument.as_str(),
                mapping,
            );
            let ghost tail = variants@;
            names.append(&mut variants);
            assert(texts(names@) =~= seq![config.instrument@] + texts(tail));
        },
        None => {
            assert(texts(names@) =~= seq![config.instrument@] + Seq::<Seq<char>>::empty());
        },
    }
    names
}

/// How the search for the name of an instrument goes on.
#[derive(Debug)]
pub enum Resolution {
    /// The exchange is to be asked for this name.
    Ask(String),
    /// The exchange has this name.
    Use(String),
    /// The exchange has none of the names.
    Refuse(IngestError),
}

/// The mathematical content of a [`Resolution`].
pub enum ResolutionView {
    Ask(Seq<char>),
    Use(Seq<char>),
    Refuse(IngestErrorView),
}

impl View for Resolution {
    type V = ResolutionView;

    open spec fn view(&self) -> ResolutionView {
        match *self {
            Resolution::Ask(s) => ResolutionView::Ask(s@),
            Resolution::Use(s) => ResolutionView::Use(s@),
            Resolution::Refuse(e) => ResolutionView::Refuse(e@),
        }
    }
}

/// How the search goes on after the exchange answered for the first names.
/// A known exchange is asked for one name after the other until it has one.
pub open spec fn resolution(config: DataSourceConfig, answers: Seq<bool>) -> ResolutionView {
    let names = candidate_names(config);
    if !known_exchange(config.exchange@) {
        ResolutionView::Refuse(IngestErrorView::Config("Unknown exchange: "@ + config.exchange@))
    } else if 0 < answers.len() <= names.len() && answers.last() {
        ResolutionView::Use(names[answers.len() - 1])
    } else if answers.len() < names.len() {
        ResolutionView::Ask(names[answers.len() as int])
    } else {
        ResolutionView::Refuse(
            IngestErrorView::Config(
                not_found(config.instrument@, config.exchange@) + " and no valid fallback mapping"@,
            ),
        )
    }
}

/// Searches the name under which an exchange has an instrument. `answers` are
/// the answers of the exchange for the names asked for so far.
pub fn validate_with_fallback(config: &DataSourceConfig, answers: &Vec<bool>) -> (r: Resolution)
    ensures
        r@ == resolution(*config, answers@),
{
    if ExchangeValidator::from_exchange_name(config.exchange.as_str()).is_none() {
        return Resolution::Refuse(
            IngestError::Config("Unknown exchange: ".to_owned().concat(config.exchange.as_str())),
        );
    }
    let mut names: Vec<String> = candidates(config);
    let n: usize = answers.len();
    proof {
        assert(texts(names@).len() == names@.len());
        assert forall|i: int| 0 <= i < names@.len() implies (#[trigger] names@[i])@ == texts(
            names@,
        )[i] by {}
    }
    if 0 < n && n <= names.len() && answers[n - 1] {
        let name: String = names.swap_remove(n - 1);
        return Resolution::Use(name);
    }
    if n < names.len() {
        let name: String = names.swap_remove(n);
        return Resolution::Ask(name);
    }
    Resolution::Refuse(
        IngestError::Config(
            "Instrument '".to_owned().concat(config.instrument.as_str()).concat(
                "' not found on ",
            ).concat(config.exchange.as_str()).concat(" and no valid fallback mapping"),
        ),
    )
}

/// The exchange is asked for the configured name first. The name that is used
/// is the first of the names to try that the exchange said it has.
pub proof fn first_name_accepted_is_used(config: DataSourceConfig, answers: Seq<bool>)
    requires
        known_exchange(config.exchange@),
        forall|i: int| 0 <= i < answers.len() - 1 ==> !#[trigger] answers[i],
    ensures
        resolution(config, Seq::empty()) == ResolutionView::Ask(config.instrument@),
        resolution(config, answers) matches ResolutionView::Use(name) ==> 0 < answers.len()
            && answers.last() && candidate_names(config)[answers.len() - 1] == name,
{
}

/// A search is refused only after the exchange was asked for every name.
pub proof fn refused_after_every_name(config: DataSourceConfig, answers: Seq<bool>)
    requires
        known_exchange(config.exchange@),
        forall|i: int| 0 <= i < answers.len() ==> !#[trigger] answers[i],
    ensures
        resolution(config, answers) is Refuse <==> answers.len() >= candidate_names(config).len(),
{
}

/// A combination of a base, a separator and a quote of a mapping, in its case.
pub open spec fn combination(mapping: ExchangeFallbackMapping, b: int, q: int, s: int) -> Seq<char> {
    cased(
        mapping.base_mappings@[b]@ + mapping.separator_mappings@[s]@ + mapping.quote_mappings@[q]@,
        mapping.case_fallback,
    )
}

/// Whether every combination differs from the name.
pub open spec fn all_differ(mapping: ExchangeFallbackMapping, first: Seq<char>) -> bool {
    forall|b: int, q: int, s: int|
        0 <= b < mapping.base_mappings@.len() && 0 <= q < mapping.quote_mappings@.len() && 0 <= s
            < mapping.separator_mappings@.len() ==> #[trigger] combination(mapping, b, q, s)
            != first
}

/// Whether the name has that place.
pub open spec fn has_place(v: Seq<Seq<char>>, i: int, name: Seq<char>) -> bool {
    0 <= i < v.len() && v[i] == name
}

proof fn lemma_separators_in_order(
    mapping: ExchangeFallbackMapping,
    first: Seq<char>,
    b: int,
    q: int,
    n: int,
)
    requires
        all_differ(mapping, first),
        0 <= b < mapping.base_mappings@.len(),
        0 <= q < mapping.quote_mappings@.len(),
        0 <= n <= mapping.separator_mappings@.len(),
    ensures
        ({
            let v = separator_variants(
                mapping,
                mapping.base_mappings@[b]@,
                mapping.quote_mappings@[q]@,
                first,
                n,
            );
            &&& v.len() == n
            &&& forall|s: int| 0 <= s < n ==> #[trigger] v[s] == combination(mapping, b, q, s)
        }),
    decreases n,
{
    if n > 0 {
        lemma_separators_in_order(mapping, first, b, q, n - 1);
        assert(combination(mapping, b, q, n - 1) != first);
    }
}

proof fn lemma_quotes_in_order(
    mapping: ExchangeFallbackMapping,
    first: Seq<char>,
    b: int,
    n: int,
)
    requires
        all_differ(mapping, first),
        0 <= b < mapping.base_mappings@.len(),
        0 <= n <= mapping.quote_mappings@.len(),
    ensures
        ({
            let ns = mapping.separator_mappings@.len() as int;
            let v = quote_variants(mapping, mapping.base_mappings@[b]@, first, n);
            &&& v.len() == n * ns
            &&& forall|q: int, s: int|
                0 <= q < n && 0 <= s < ns ==> #[trigger] has_place(
                    v,
                    q * ns + s,
                    combination(mapping, b, q, s),
                )
        }),
    decreases n,
{
    let ns = mapping.separator_mappings@.len() as int;
    let v = quote_variants(mapping, mapping.base_mappings@[b]@, first, n);
    if n > 0 {
        lemma_quotes_in_order(mapping, first, b, n - 1);
        lemma_separators_in_order(mapping, first, b, n - 1, ns);
        assert((n - 1) * ns + ns == n * ns) by (nonlinear_arith);
        let w = quote_variants(mapping, mapping.base_mappings@[b]@, first, n - 1);
        assert forall|q: int, s: int| 0 <= q < n && 0 <= s < ns implies #[trigger] has_place(
            v,
            q * ns + s,
            combination(mapping, b, q, s),
        ) by {
            assert(0 <= q * ns) by (nonlinear_arith)
                requires
                    q >= 0,
                    ns >= 0,
            ;
            if q < n - 1 {
                assert(q * ns + ns <= (n - 1) * ns) by (nonlinear_arith)
                    requires
                        q + 1 <= n - 1,
                        ns >= 0,
                ;
                assert(has_place(w, q * ns + s, combination(mapping, b, q, s)));
            }
        }
    } else {
        assert(n * ns == 0) by (nonlinear_arith)
            requires
                n == 0,
        ;
    }
}

proof fn lemma_bases_in_order(mapping: ExchangeFallbackMapping, first: Seq<char>, n: int)
    requires
        all_differ(mapping, first),
        0 <= n <= mapping.base_mappings@.len(),
    ensures
        ({
            let ns = mapping.separator_mappings@.len() as int;
            let nq = mapping.quote_mappings@.len() as int;
            let v = base_variants(mapping, first, n);
            &&& v.len() == n * (nq * ns)
            &&& forall|b: int, q: int, s: int|
                0 <= b < n && 0 <= q < nq && 0 <= s < ns ==> #[trigger] has_place(
                    v,
                    b * (nq * ns) + (q * ns + s),
                    combination(mapping, b, q, s),
                )
        }),
    decreases n,
{
    let ns = mapping.separator_mappings@.len() as int;
    let nq = mapping.quote_mappings@.len() as int;
    let row = nq * ns;
    let v = base_variants(mapping, first, n);
    if n > 0 {
        lemma_bases_in_order(mapping, first, n - 1);
        lemma_quotes_in_order(mapping, first, n - 1, nq);
        let w = base_variants(mapping, first, n - 1);
        assert((n - 1) * row + row == n * row) by (nonlinear_arith);
        assert forall|b: int, q: int, s: int|
            0 <= b < n && 0 <= q < nq && 0 <= s < ns implies #[trigger] has_place(
            v,
            b * (nq * ns) + (q * ns + s),
            combination(mapping, b, q, s),
        ) by {
            assert(0 <= q * ns && q * ns + ns <= row) by (nonlinear_arith)
                requires
                    0 <= q,
                    q + 1 <= nq,
                    ns >= 0,
                    row == nq * ns,
            ;
            assert(0 <= b * row) by (nonlinear_arith)
                requires
                    b >= 0,
                    row >= 0,
            ;
            if b < n - 1 {
                assert(b * row + row <= (n - 1) * row) by (nonlinear_arith)
                    requires
                        b + 1 <= n - 1,
                        row >= 0,
                ;
                assert(has_place(w, b * (nq * ns) + (q * ns + s), combination(mapping, b, q, s)));
            } else {
                let u = quote_variants(mapping, mapping.base_mappings@[b]@, first, nq);
                assert(has_place(u, q * ns + s, combination(mapping, b, q, s)));
            }
        }
    } else {
        assert(n * row == 0) by (nonlinear_arith)
            requires
                n == 0,
        ;
    }
}

/// The names to try are the given one in the case of the mapping and after it
/// every combination, by base, then by quote, then by separator, each in the
/// order of the mapping. This holds where none of them is the given name; one
/// that is, is left out.
pub proof fn variants_come_in_order(
    original: Seq<char>,
    mapping: ExchangeFallbackMapping,
    b: int,
    q: int,
    s: int,
)
    requires
        all_differ(mapping, cased(original, mapping.case_fallback)),
        0 <= b < mapping.base_mappings@.len(),
        0 <= q < mapping.quote_mappings@.len(),
        0 <= s < mapping.separator_mappings@.len(),
    ensures
        ({
            let ns = mapping.separator_mappings@.len() as int;
            let nq = mapping.quote_mappings@.len() as int;
            let nb = mapping.base_mappings@.len() as int;
            let v = fallback_variants(original, mapping);
            &&& v.len() == 1 + nb * (nq * ns)
            &&& v[0] == cased(original, mapping.case_fallback)
            &&& v[1 + b * (nq * ns) + (q * ns + s)] == combination(mapping, b, q, s)
        }),
{
    let first = cased(original, mapping.case_fallback);
    let nb = mapping.base_mappings@.len() as int;
    let nq = mapping.quote_mappings@.len() as int;
    let ns = mapping.separator_mappings@.len() as int;
    lemma_bases_in_order(mapping, first, nb);
    assert(has_place(
        base_variants(mapping, first, nb),
        b * (nq * ns) + (q * ns + s),
        combination(mapping, b, q, s),
    ));
}

/// The case of a name: as it is, or that of its small or capital letters.
pub proof fn case_is_the_one_asked_for(s: Seq<char>)
    ensures
        cased(s, CaseFallback::Unchanged) == s,
        cased(s, CaseFallback::Lower) == text_lower(s),
        cased(s, CaseFallback::Upper) == text_upper(s),
{
}

/// The mapping of the alias counts where the exchange has one; otherwise the
/// one without alias, and else none.
pub proof fn alias_selects_the_mapping(
    fallback: FallbackTable,
    exchange: Seq<char>,
    alias: Option<Seq<char>>,
)
    ensures
        !fallback@.contains_key(exchange) ==> selected_mapping(fallback, exchange, alias) is None,
        fallback@.contains_key(exchange) ==> {
            let aliases = fallback@[exchange]@;
            &&& alias is Some && aliases.contains_key(alias->0) ==> selected_mapping(
                fallback,
                exchange,
                alias,
            ) == Some(aliases[alias->0])
            &&& (alias is None || !aliases.contains_key(alias->0)) && aliases.contains_key(""@)
                ==> selected_mapping(fallback, exchange, alias) == Some(aliases[""@])
            &&& (alias is None || !aliases.contains_key(alias->0)) && !aliases.contains_key(""@)
                ==> selected_mapping(fallback, exchange, alias) is None
        },
{
}

/// The exchange is asked for the names in their turn, the given one first, and
/// after that those that the mapping of the exchange and the alias makes of it.
pub proof fn names_are_asked_in_turn(config: DataSourceConfig, answers: Seq<bool>)
    requires
        config.exchange@ == "okx"@ || config.exchange@ == "kraken"@ || config.exchange@
            == "bitstamp"@ || config.exchange@ == "bitvavo"@,
        forall|i: int| 0 <= i < answers.len() ==> !#[trigger] answers[i],
    ensures
        candidate_names(config)[0] == config.instrument@,
        selected_mapping(config.fallback, config.exchange@, text_view(config.alias)) matches Some(m)
            ==> candidate_names(config).skip(1) == fallback_variants(config.instrument@, m),
        selected_mapping(config.fallback, config.exchange@, text_view(config.alias)) is None
            ==> candidate_names(config).len() == 1,
        answers.len() < candidate_names(config).len() ==> resolution(config, answers)
            == ResolutionView::Ask(candidate_names(config)[answers.len() as int]) && resolution(
            config,
            answers.push(true),
        ) == ResolutionView::Use(candidate_names(config)[answers.len() as int]),
        answers.len() >= candidate_names(config).len() ==> resolution(config, answers) is Refuse,
{
    let selected = selected_mapping(config.fallback, config.exchange@, text_view(config.alias));
    if selected is Some {
        assert(candidate_names(config).skip(1) =~= fallback_variants(
            config.instrument@,
            selected->0,
        ));
    }
    assert(answers.push(true).last());
    assert(answers.push(true).len() - 1 == answers.len());
}

/// An exchange that is not known is refused at once, and so is an instrument
/// of which no name is accepted; the message names what is refused.
pub proof fn refusal_names_what_is_refused(config: DataSourceConfig, answers: Seq<bool>)
    requires
        forall|i: int| 0 <= i < answers.len() ==> !#[trigger] answers[i],
    ensures
        !known_exchange(config.exchange@) ==> resolution(config, answers)
            == ResolutionView::Refuse(
            IngestErrorView::Config("Unknown exchange: "@ + config.exchange@),
        ),
        known_exchange(config.exchange@) <==> config.exchange@ == "okx"@ || config.exchange@
            == "kraken"@ || config.exchange@ == "bitstamp"@ || config.exchange@ == "bitvavo"@,
        known_exchange(config.exchange@) && answers.len() >= candidate_names(config).len()
            ==> resolution(config, answers) == ResolutionView::Refuse(
            IngestErrorView::Config(
                "Instrument '"@ + config.instrument@ + "' not found on "@ + config.exchange@
                    + " and no valid fallback mapping"@,
            ),
        ),
{
}

/// Whether a name is a combination of the mapping.
pub open spec fn is_combination(mapping: ExchangeFallbackMapping, name: Seq<char>) -> bool {
    exists|b: int, q: int, s: int|
        0 <= b < mapping.base_mappings@.len() && 0 <= q < mapping.quote_mappings@.len() && 0 <= s
            < mapping.separator_mappings@.len() && name == #[trigger] combination(mapping, b, q, s)
}

proof fn lemma_quotes_are_combinations(
    mapping: ExchangeFallbackMapping,
    first: Seq<char>,
    b: int,
    n: int,
    i: int,
)
    requires
        0 <= b < mapping.base_mappings@.len(),
        0 <= n <= mapping.quote_mappings@.len(),
        0 <= i < quote_variants(mapping, mapping.base_mappings@[b]@, first, n).len(),
    ensures
        is_combination(
            mapping,
            quote_variants(mapping, mapping.base_mappings@[b]@, first, n)[i],
        ),
    decreases n,
{
    let base = mapping.base_mappings@[b]@;
    let before = quote_variants(mapping, base, first, n - 1);
    let quote = mapping.quote_mappings@[n - 1]@;
    let ns = mapping.separator_mappings@.len() as int;
    let last = separator_variants(mapping, base, quote, first, ns);
    if i < before.len() {
        lemma_quotes_are_combinations(mapping, first, b, n - 1, i);
    } else {
        lemma_separator_variants(mapping, base, quote, first, ns);
        let v = last[i - before.len()];
        let s = choose|s: int|
            0 <= s < ns && v == cased(
                base + #[trigger] mapping.separator_mappings@[s]@ + quote,
                mapping.case_fallback,
            );
        assert(v == combination(mapping, b, n - 1, s));
    }
}

proof fn lemma_bases_are_combinations(
    mapping: ExchangeFallbackMapping,
    first: Seq<char>,
    n: int,
    i: int,
)
    requires
        0 <= n <= mapping.base_mappings@.len(),
        0 <= i < base_variants(mapping, first, n).len(),
    ensures
        is_combination(mapping, base_variants(mapping, first, n)[i]),
    decreases n,
{
    let before = base_variants(mapping, first, n - 1);
    if i < before.len() {
        lemma_bases_are_combinations(mapping, first, n - 1, i);
    } else {
        lemma_quotes_are_combinations(
            mapping,
            first,
            n - 1,
            mapping.quote_mappings@.len() as int,
            i - before.len(),
        );
    }
}

/// Every name after the first is a combination of a base, a separator and a
/// quote of the mapping.
pub proof fn variants_are_combinations(
    original: Seq<char>,
    mapping: ExchangeFallbackMapping,
    i: int,
)
    requires
        0 < i < fallback_variants(original, mapping).len(),
    ensures
        is_combination(mapping, fallback_variants(original, mapping)[i]),
{
    let first = cased(original, mapping.case_fallback);
    lemma_bases_are_combinations(mapping, first, mapping.base_mappings@.len() as int, i - 1);
}

/// Each exchange goes by its own name.
pub proof fn exchanges_go_by_their_names()
    ensures
        ExchangeValidator::Okx.name() == "okx"@,
        ExchangeValidator::Kraken.name() == "kraken"@,
        ExchangeValidator::Bitstamp.name() == "bitstamp"@,
        ExchangeValidator::Bitvavo.name() == "bitvavo"@,
{
}

/// An instrument is listed exactly where one of the names is its own.
pub proof fn listed_means_among_the_names(instrument: Seq<char>, instruments: Seq<String>, i: int)
    ensures
        0 <= i < instruments.len() && instruments[i]@ == instrument ==> listed(
            instrument,
            instruments,
        ),
        (forall|j: int| 0 <= j < instruments.len() ==> (#[trigger] instruments[j])@ != instrument)
            ==> !listed(instrument, instruments),
{
}

} // verus!
