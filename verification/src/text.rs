//! Text: equality, decimal numerals, case, and JSON strings.

use vstd::prelude::*;
use vstd::utf8::encode_utf8;
use vstd::utf8::encode_utf8_decode_utf8;

verus! {

/// `String::push` appends one character.
pub assume_specification[ String::push ](s: &mut String, c: char)
    ensures
        final(s)@ == old(s)@.push(c),
;

/// Whether two texts are the same.
pub(crate) fn same_text(a: &str, b: &str) -> (r: bool)
    ensures
        r == (a@ == b@),
{
    proof {
        encode_utf8_decode_utf8(a@);
        encode_utf8_decode_utf8(b@);
    }
    let x: &[u8] = a.as_bytes();
    let y: &[u8] = b.as_bytes();
    if x.len() != y.len() {
        return false;
    }
    let mut i: usize = 0;
    while i < x.len()
        invariant
            i <= x.len() == y.len(),
            x@ == encode_utf8(a@),
            y@ == encode_utf8(b@),
            forall|j: int| 0 <= j < i ==> x@[j] == y@[j],
        decreases x.len() - i,
    {
        if x[i] != y[i] {
            return false;
        }
        i += 1;
    }
    assert(x@ =~= y@);
    true
}

/// Every character of a text is an ASCII character.
pub open spec fn all_ascii(s: Seq<char>) -> bool {
    forall|i: int| 0 <= i < s.len() ==> #[trigger] s[i] <= '\u{7f}'
}

/// Whether an ASCII character has the Unicode property `White_Space`: the
/// tabs, the ends of lines and pages, and the space.
pub open spec fn ascii_white(c: char) -> bool {
    '\t' <= c <= '\r' || c == ' '
}

/// Whether a character beyond ASCII has the Unicode property `White_Space`.
pub uninterp spec fn wide_white(c: char) -> bool;

/// Whether a character has the Unicode property `White_Space`.
pub open spec fn is_white(c: char) -> bool {
    if c <= '\u{7f}' {
        ascii_white(c)
    } else {
        wide_white(c)
    }
}

/// `char::is_whitespace` tells whether a character has the Unicode property
/// `White_Space`. Which characters beyond ASCII have it is left to the name.
pub assume_specification[ char::is_whitespace ](c: char) -> (r: bool)
    ensures
        r == (if c <= '\u{7f}' {
            ascii_white(c)
        } else {
            wide_white(c)
        }),
;

/// An ASCII letter or digit.
pub open spec fn ascii_alnum(c: char) -> bool {
    '0' <= c <= '9' || 'A' <= c <= 'Z' || 'a' <= c <= 'z'
}

/// Whether a character beyond ASCII has the Unicode property `Alphabetic` or
/// is a number.
pub uninterp spec fn wide_alnum(c: char) -> bool;

/// Whether a character has the Unicode property `Alphabetic` or is a number.
pub open spec fn is_alnum(c: char) -> bool {
    if c <= '\u{7f}' {
        ascii_alnum(c)
    } else {
        wide_alnum(c)
    }
}

/// `char::is_alphanumeric` tells whether a character is a letter or a number
/// by its Unicode properties: of ASCII the letters and the digits. Which
/// characters beyond ASCII are is left to the name.
pub assume_specification[ char::is_alphanumeric ](c: char) -> (r: bool)
    ensures
        r == (if c <= '\u{7f}' {
            ascii_alnum(c)
        } else {
            wide_alnum(c)
        }),
;

/// An ASCII character in lower case.
pub open spec fn ascii_lower(c: char) -> char {
    if 'A' <= c <= 'Z' {
        (c as int + 32) as char
    } else {
        c
    }
}

/// An ASCII character in upper case.
pub open spec fn ascii_upper(c: char) -> char {
    if 'a' <= c <= 'z' {
        (c as int - 32) as char
    } else {
        c
    }
}

/// The characters of the lower-case mapping of a character beyond ASCII.
pub uninterp spec fn wide_lower(c: char) -> Seq<char>;

/// The characters of the lower-case mapping of one character.
pub open spec fn char_lower(c: char) -> Seq<char> {
    if c <= '\u{7f}' {
        seq![ascii_lower(c)]
    } else {
        wide_lower(c)
    }
}

/// `char::to_lowercase` maps the capitals of ASCII to its small letters and
/// keeps the rest of ASCII. What it maps other characters to, one or more for
/// each, is left to the name.
#[verifier::external_body]
fn lower_char(c: char) -> (r: String)
    ensures
        r@ == (if c <= '\u{7f}' {
            seq![ascii_lower(c)]
        } else {
            wide_lower(c)
        }),
{
    c.to_lowercase().to_string()
}

/// The lower-case form of a text that is not all ASCII.
pub uninterp spec fn wide_text_lower(s: Seq<char>) -> Seq<char>;

/// The lower-case form of a text.
pub open spec fn text_lower(s: Seq<char>) -> Seq<char> {
    if all_ascii(s) {
        s.map_values(|c: char| ascii_lower(c))
    } else {
        wide_text_lower(s)
    }
}

/// `str::to_lowercase` maps the capitals of an ASCII text to small letters and
/// keeps its other characters. Of any other text the result is left to the
/// name.
#[verifier::external_body]
pub(crate) fn lower_text(s: &str) -> (r: String)
    ensures
        r@ == (if all_ascii(s@) {
            s@.map_values(|c: char| ascii_lower(c))
        } else {
            wide_text_lower(s@)
        }),
{
    s.to_lowercase()
}

/// The upper-case form of a text that is not all ASCII.
pub uninterp spec fn wide_text_upper(s: Seq<char>) -> Seq<char>;

/// The upper-case form of a text.
pub open spec fn text_upper(s: Seq<char>) -> Seq<char> {
    if all_ascii(s) {
        s.map_values(|c: char| ascii_upper(c))
    } else {
        wide_text_upper(s)
    }
}

/// `str::to_uppercase` maps the small letters of an ASCII text to capitals and
/// keeps its other characters. Of any other text the result is left to the
/// name.
#[verifier::external_body]
pub(crate) fn upper_text(s: &str) -> (r: String)
    ensures
        r@ == (if all_ascii(s@) {
            s@.map_values(|c: char| ascii_upper(c))
        } else {
            wide_text_upper(s@)
        }),
{
    s.to_uppercase()
}

/// A character as it stands in a JSON string. Quotes, backslashes and control
/// characters are escaped.
pub open spec fn json_escaped(c: char) -> Seq<char> {
    if c == '"' || c == '\\' {
        seq!['\\', c]
    } else if c == '\u{8}' {
        seq!['\\', 'b']
    } else if c == '\t' {
        seq!['\\', 't']
    } else if c == '\n' {
        seq!['\\', 'n']
    } else if c == '\u{c}' {
        seq!['\\', 'f']
    } else if c == '\r' {
        seq!['\\', 'r']
    } else if c as int <= 31 {
        seq!['\\', 'u', '0', '0'] + hex(seq![c as u8])
    } else {
        seq![c]
    }
}

/// The characters between the quotes of a JSON string.
pub open spec fn json_contents(s: Seq<char>) -> Seq<char>
    decreases s.len(),
{
    if s.len() == 0 {
        Seq::empty()
    } else {
        json_contents(s.drop_last()) + json_escaped(s.last())
    }
}

/// A text as a JSON string: quoted, with what JSON escapes escaped.
pub open spec fn json_string(s: Seq<char>) -> Seq<char> {
    seq!['"'] + json_contents(s) + seq!['"']
}

/// `serde_json::Value`'s text of a string value is the string between quotes,
/// with quotes, backslashes and control characters escaped and every other
/// character as it is.
#[verifier::external_body]
pub(crate) fn quote(s: &str) -> (r: String)
    ensures
        r@ == json_string(s@),
{
    serde_json::Value::from(s).to_string()
}

/// The characters of a text, in order.
pub fn chars_of(s: &str) -> (r: Vec<char>)
    ensures
        r@ == s@,
{
    let mut v: Vec<char> = Vec::new();
    for c in it: s.chars()
        invariant
            it.seq() == s@,
            v@ == s@.take(it.index() as int),
    {
        proof {
            assert(s@.take(it.index() + 1) =~= s@.take(it.index() as int).push(c));
        }
        v.push(c);
    }
    assert(s@.take(s@.len() as int) =~= s@);
    v
}

/// The text made of the given characters.
pub fn text_of(v: &Vec<char>) -> (r: String)
    ensures
        r@ == v@,
{
    let mut s = String::new();
    let mut i: usize = 0;
    while i < v.len()
        invariant
            i <= v.len(),
            s@ == v@.take(i as int),
        decreases v.len() - i,
    {
        proof {
            assert(v@.take(i + 1) =~= v@.take(i as int).push(v@[i as int]));
        }
        s.push(v[i]);
        i += 1;
    }
    assert(v@.take(v@.len() as int) =~= v@);
    s
}

/// Every character of a text is white space; the empty text is blank.
pub open spec fn blank(s: Seq<char>) -> bool {
    forall|i: int| 0 <= i < s.len() ==> is_white(#[trigger] s[i])
}

/// Whether trimming white space off both ends of the text leaves nothing.
pub fn is_blank(s: &str) -> (r: bool)
    ensures
        r == blank(s@),
{
    let v: Vec<char> = chars_of(s);
    let mut i: usize = 0;
    while i < v.len()
        invariant
            i <= v.len(),
            v@ == s@,
            forall|j: int| 0 <= j < i ==> is_white(#[trigger] s@[j]),
        decreases v.len() - i,
    {
        if !v[i].is_whitespace() {
            assert(!is_white(s@[i as int]));
            return false;
        }
        i += 1;
    }
    true
}

/// `s` begins with `p`.
pub open spec fn begins(s: Seq<char>, p: Seq<char>) -> bool {
    p.len() <= s.len() && s.take(p.len() as int) == p
}

/// Whether a text begins with another.
pub fn starts_with(s: &str, p: &str) -> (r: bool)
    ensures
        r == begins(s@, p@),
{
    let a: Vec<char> = chars_of(s);
    let b: Vec<char> = chars_of(p);
    if b.len() > a.len() {
        return false;
    }
    let mut i: usize = 0;
    while i < b.len()
        invariant
            i <= b.len() <= a.len(),
            a@ == s@,
            b@ == p@,
            forall|j: int| 0 <= j < i ==> a@[j] == b@[j],
        decreases b.len() - i,
    {
        if a[i] != b[i] {
            assert(s@.take(p@.len() as int)[i as int] != p@[i as int]);
            return false;
        }
        i += 1;
    }
    assert(s@.take(p@.len() as int) =~= p@);
    true
}

/// The decimal digit `d`.
pub open spec fn digit(d: int) -> char {
    (48 + d) as char
}

/// The decimal numeral of `n`, without leading zeros.
pub open spec fn decimal(n: nat) -> Seq<char>
    decreases n,
{
    if n < 10 {
        seq![digit(n as int)]
    } else {
        decimal(n / 10).push(digit((n % 10) as int))
    }
}

/// The decimal numeral of `n`, with a minus sign where it is negative.
pub open spec fn signed_decimal(n: int) -> Seq<char> {
    if n < 0 {
        seq!['-'] + decimal((-n) as nat)
    } else {
        decimal(n as nat)
    }
}

fn digit_char(d: u64) -> (r: char)
    requires
        d < 10,
    ensures
        r == digit(d as int),
{
    (48 + d as u8) as char
}

fn push_decimal(s: &mut String, n: u64)
    ensures
        final(s)@ == old(s)@ + decimal(n as nat),
    decreases n,
{
    if n >= 10 {
        push_decimal(s, n / 10);
    }
    s.push(digit_char(n % 10));
    proof {
        let before = old(s)@;
        if n >= 10 {
            assert((before + decimal((n / 10) as nat)).push(digit((n % 10) as int)) =~= before
                + decimal(n as nat));
        } else {
            assert(before.push(digit((n % 10) as int)) =~= before + decimal(n as nat));
        }
    }
}

/// The decimal numeral of an unsigned number.
pub fn unsigned_text(n: u64) -> (r: String)
    ensures
        r@ == decimal(n as nat),
{
    let mut s = String::new();
    push_decimal(&mut s, n);
    assert(Seq::<char>::empty() + decimal(n as nat) =~= decimal(n as nat));
    s
}

/// The decimal numeral of a signed number.
pub fn signed_text(n: i64) -> (r: String)
    ensures
        r@ == signed_decimal(n as int),
{
    let mut s = String::new();
    if n < 0 {
        s.push('-');
        let m: u64 = if n == i64::MIN { 0x8000_0000_0000_0000 } else { (-n) as u64 };
        push_decimal(&mut s, m);
        assert(s@ =~= seq!['-'] + decimal((-n) as nat));
    } else {
        push_decimal(&mut s, n as u64);
        assert(s@ =~= decimal(n as nat));
    }
    s
}

/// `c` is one of the ten decimal digits.
pub open spec fn is_digit(c: char) -> bool {
    '0' <= c <= '9'
}

/// Every character is a decimal digit.
pub open spec fn all_digits(s: Seq<char>) -> bool {
    forall|i: int| 0 <= i < s.len() ==> is_digit(#[trigger] s[i])
}

/// The number that a run of decimal digits stands for.
pub open spec fn digits_value(s: Seq<char>) -> int
    decreases s.len(),
{
    if s.len() == 0 {
        0
    } else {
        digits_value(s.drop_last()) * 10 + (s.last() as int - 48)
    }
}

/// The number that a text of digits only, at least one, stands for.
pub open spec fn numeral(s: Seq<char>) -> Option<int> {
    if s.len() == 0 || !all_digits(s) {
        None
    } else {
        Some(digits_value(s))
    }
}

/// The unsigned number a text spells: digits, after an optional plus sign.
pub open spec fn unsigned_value(s: Seq<char>) -> Option<u64> {
    let digits = if s.len() > 0 && s[0] == '+' {
        s.skip(1)
    } else {
        s
    };
    match numeral(digits) {
        Some(v) => if v <= u64::MAX {
            Some(v as u64)
        } else {
            None
        },
        None => None,
    }
}

/// The signed number a text spells: digits, after an optional sign.
pub open spec fn signed_value(s: Seq<char>) -> Option<i64> {
    let negative = s.len() > 0 && s[0] == '-';
    let digits = if s.len() > 0 && (s[0] == '+' || s[0] == '-') {
        s.skip(1)
    } else {
        s
    };
    match numeral(digits) {
        Some(v) => {
            let n = if negative {
                -v
            } else {
                v
            };
            if i64::MIN <= n <= i64::MAX {
                Some(n as i64)
            } else {
                None
            }
        },
        None => None,
    }
}

proof fn lemma_digits_value_monotone(s: Seq<char>, i: int)
    requires
        0 <= i <= s.len(),
        all_digits(s),
    ensures
        0 <= digits_value(s.take(i)) <= digits_value(s),
    decreases s.len() - i, s.len(),
{
    if i == s.len() {
        assert(s.take(i) =~= s);
        if s.len() > 0 {
            let t = s.drop_last();
            assert(all_digits(t));
            lemma_digits_value_monotone(t, t.len() as int);
            assert(t.take(t.len() as int) =~= t);
            assert(is_digit(s[s.len() - 1]));
        }
    } else {
        lemma_digits_value_monotone(s, i + 1);
        let t = s.take(i + 1);
        assert(t.drop_last() =~= s.take(i));
        assert(all_digits(s.take(i)));
        assert(is_digit(s[i]));
        lemma_digits_value_monotone(s.take(i), i);
        assert(s.take(i).take(i) =~= s.take(i));
    }
}

/// Reads a run of digits from index `from` to the end; `None` where there is
/// none, where another character stands among them, or where the number is
/// above `u64::MAX`.
fn read_digits(v: &Vec<char>, from: usize) -> (r: Option<u64>)
    requires
        from <= v.len(),
    ensures
        r == (match numeral(v@.skip(from as int)) {
            Some(n) => if n <= u64::MAX {
                Some(n as u64)
            } else {
                None
            },
            None => None,
        }),
{
    let ghost s = v@.skip(from as int);
    if from == v.len() {
        return None;
    }
    let mut total: Option<u64> = Some(0);
    let mut i: usize = from;
    assert(s.take(0) =~= Seq::<char>::empty());
    while i < v.len()
        invariant
            from <= i <= v.len(),
            s == v@.skip(from as int),
            forall|j: int| 0 <= j < i - from ==> is_digit(#[trigger] s[j]),
            total == (if digits_value(s.take(i - from)) <= u64::MAX {
                Some(digits_value(s.take(i - from)) as u64)
            } else {
                None
            }),
            0 <= digits_value(s.take(i - from)),
        decreases v.len() - i,
    {
        let c: char = v[i];
        assert(c == s[i - from]);
        if c < '0' || c > '9' {
            assert(!is_digit(s[i - from]));
            return None;
        }
        let d: u64 = c as u64 - 48;
        proof {
            assert(s.take(i - from + 1).drop_last() =~= s.take(i - from));
        }
        total = match total {
            Some(t) => if t > (u64::MAX - d) / 10 {
                None
            } else {
                Some(t * 10 + d)
            },
            None => None,
        };
        i += 1;
    }
    assert(s.take(s.len() as int) =~= s);
    total
}

/// Reads an unsigned decimal number.
pub fn parse_unsigned(s: &str) -> (r: Option<u64>)
    ensures
        r == unsigned_value(s@),
{
    let v: Vec<char> = chars_of(s);
    let from: usize = if v.len() > 0 && v[0] == '+' { 1 } else { 0 };
    assert(v@.skip(0) =~= v@);
    read_digits(&v, from)
}

/// Reads a signed decimal number.
pub fn parse_signed(s: &str) -> (r: Option<i64>)
    ensures
        r == signed_value(s@),
{
    let v: Vec<char> = chars_of(s);
    let negative: bool = v.len() > 0 && v[0] == '-';
    let from: usize = if v.len() > 0 && (v[0] == '+' || v[0] == '-') { 1 } else { 0 };
    proof {
        let t = v@.skip(from as int);
        assert(v@.skip(0) =~= v@);
        assert(t.take(0) =~= Seq::<char>::empty());
        if all_digits(t) {
            lemma_digits_value_monotone(t, 0);
        }
    }
    match read_digits(&v, from) {
        Some(n) => {
            if negative {
                if n < 0x8000_0000_0000_0000 {
                    Some(-(n as i64))
                } else if n == 0x8000_0000_0000_0000 {
                    Some(i64::MIN)
                } else {
                    None
                }
            } else if n <= 0x7fff_ffff_ffff_ffff {
                Some(n as i64)
            } else {
                None
            }
        },
        None => None,
    }
}

/// Reading back a printed unsigned number gives the number.
pub proof fn decimal_round_trip(n: u64)
    ensures
        unsigned_value(decimal(n as nat)) == Some(n),
{
    lemma_decimal(n as nat);
}

/// A numeral is one or more digits, the first of which is not a sign, and
/// its digits stand for the number it was printed from.
proof fn lemma_decimal(n: nat)
    ensures
        decimal(n).len() > 0,
        all_digits(decimal(n)),
        digits_value(decimal(n)) == n,
    decreases n,
{
    reveal_with_fuel(digits_value, 2);
    if n >= 10 {
        lemma_decimal(n / 10);
        assert(decimal(n).drop_last() =~= decimal(n / 10));
    } else {
        assert(decimal(n).drop_last() =~= Seq::<char>::empty());
    }
}

/// A two-digit field, with a leading zero where needed.
pub open spec fn two_digits(n: int) -> Seq<char> {
    seq![digit(n / 10), digit(n % 10)]
}

/// A three-digit field, with leading zeros where needed.
pub open spec fn three_digits(n: int) -> Seq<char> {
    seq![digit(n / 100), digit((n / 10) % 10), digit(n % 10)]
}

/// The time of day of a moment given in milliseconds since the epoch, as
/// `HH:MM:SS.mmm`.
pub open spec fn time_of_day(ms: int) -> Seq<char> {
    two_digits((ms / 3_600_000) % 24) + seq![':'] + two_digits((ms / 60_000) % 60) + seq![':']
        + two_digits((ms / 1000) % 60) + seq!['.'] + three_digits(ms % 1000)
}

fn push_two(s: &mut String, n: u64)
    requires
        n < 100,
    ensures
        final(s)@ == old(s)@ + two_digits(n as int),
{
    s.push(digit_char(n / 10));
    s.push(digit_char(n % 10));
    assert(s@ =~= old(s)@ + two_digits(n as int));
}

/// Formats the time of day.
pub fn time_text(ms: u64) -> (r: String)
    ensures
        r@ == time_of_day(ms as int),
{
    let total_secs: u64 = ms / 1000;
    let millis: u64 = ms % 1000;
    let mut s = String::new();
    push_two(&mut s, (total_secs / 3600) % 24);
    s.push(':');
    push_two(&mut s, (total_secs / 60) % 60);
    s.push(':');
    push_two(&mut s, total_secs % 60);
    s.push('.');
    s.push(digit_char(millis / 100));
    s.push(digit_char((millis / 10) % 10));
    s.push(digit_char(millis % 10));
    proof {
        assert((ms / 1000) / 3600 == ms / 3_600_000);
        assert((ms / 1000) / 60 == ms / 60_000);
        assert(s@ =~= time_of_day(ms as int));
    }
    s
}

/// A hexadecimal digit, in lower case.
pub open spec fn hex_digit(d: int) -> char {
    if d < 10 {
        (48 + d) as char
    } else {
        (87 + d) as char
    }
}

/// Bytes as hexadecimal text, two digits each.
pub open spec fn hex(bytes: Seq<u8>) -> Seq<char>
    decreases bytes.len(),
{
    if bytes.len() == 0 {
        Seq::empty()
    } else {
        hex(bytes.drop_last()) + seq![
            hex_digit(bytes.last() as int / 16),
            hex_digit(bytes.last() as int % 16),
        ]
    }
}

fn hex_char(d: u8) -> (r: char)
    requires
        d < 16,
    ensures
        r == hex_digit(d as int),
{
    if d < 10 {
        (48 + d) as char
    } else {
        (87 + d) as char
    }
}

/// Formats bytes as hexadecimal text.
pub fn hex_text(bytes: &Vec<u8>) -> (r: String)
    ensures
        r@ == hex(bytes@),
{
    let mut s = String::new();
    let mut i: usize = 0;
    assert(bytes@.take(0) =~= Seq::<u8>::empty());
    while i < bytes.len()
        invariant
            i <= bytes.len(),
            s@ == hex(bytes@.take(i as int)),
        decreases bytes.len() - i,
    {
        let ghost before = s@;
        s.push(hex_char(bytes[i] / 16));
        s.push(hex_char(bytes[i] % 16));
        proof {
            assert(bytes@.take(i + 1).drop_last() =~= bytes@.take(i as int));
            assert(s@ =~= hex(bytes@.take(i + 1)));
        }
        i += 1;
    }
    assert(bytes@.take(bytes@.len() as int) =~= bytes@);
    s
}

/// The letters and digits of a text, each in lower case.
pub open spec fn letters_lower(s: Seq<char>) -> Seq<char>
    decreases s.len(),
{
    if s.len() == 0 {
        Seq::empty()
    } else if is_alnum(s.last()) {
        letters_lower(s.drop_last()) + char_lower(s.last())
    } else {
        letters_lower(s.drop_last())
    }
}

/// Keeps the letters and digits of a text, in lower case.
pub fn keep_letters_lower(s: &str) -> (r: String)
    ensures
        r@ == letters_lower(s@),
{
    let v: Vec<char> = chars_of(s);
    let mut out = String::new();
    let mut i: usize = 0;
    assert(v@.take(0) =~= Seq::<char>::empty());
    while i < v.len()
        invariant
            i <= v.len(),
            out@ == letters_lower(v@.take(i as int)),
        decreases v.len() - i,
    {
        proof {
            assert(v@.take(i + 1).drop_last() =~= v@.take(i as int));
        }
        if v[i].is_alphanumeric() {
            out.append(lower_char(v[i]).as_str());
        }
        i += 1;
    }
    assert(v@.take(v@.len() as int) =~= v@);
    out
}

/// Of an ASCII text, the letters and digits, in order and in lower case: all
/// else is dropped.
pub open spec fn ascii_letters_lower(s: Seq<char>) -> Seq<char> {
    s.filter(|c: char| ascii_alnum(c)).map_values(|c: char| ascii_lower(c))
}

/// The letters and digits of an ASCII text are those of ASCII.
pub proof fn ascii_letters_are_kept(s: Seq<char>)
    requires
        all_ascii(s),
    ensures
        letters_lower(s) == ascii_letters_lower(s),
    decreases s.len(),
{
    reveal(Seq::filter);
    let keep = |c: char| ascii_alnum(c);
    let lower = |c: char| ascii_lower(c);
    if s.len() > 0 {
        let t = s.drop_last();
        assert(all_ascii(t)) by {
            assert forall|i: int| 0 <= i < t.len() implies #[trigger] t[i] <= '\u{7f}' by {
                assert(t[i] == s[i]);
            }
        }
        ascii_letters_are_kept(t);
        assert(s[s.len() - 1] <= '\u{7f}');
        if ascii_alnum(s.last()) {
            assert(s.filter(keep).map_values(lower) =~= t.filter(keep).map_values(lower) + seq![
                ascii_lower(s.last()),
            ]);
        }
    } else {
        assert(s.filter(keep).map_values(lower) =~= Seq::<char>::empty());
    }
}

/// The contents of named requests.
pub open spec fn requests(v: Seq<(String, String)>) -> Seq<(Seq<char>, Seq<char>)> {
    v.map_values(|p: (String, String)| (p.0@, p.1@))
}

/// A whole number is read back from how it is written, with its sign.
pub proof fn signed_round_trip(n: i64)
    ensures
        signed_value(signed_decimal(n as int)) == Some(n),
{
    if n < 0 {
        lemma_decimal((-n) as nat);
        let d = decimal((-n) as nat);
        let s = seq!['-'] + d;
        assert(s[0] == '-');
        assert(s.skip(1) =~= d);
    } else {
        lemma_decimal(n as nat);
        let d = decimal(n as nat);
        assert(is_digit(d[0]));
    }
}

/// Digits that do not start with a needless zero are how their value is
/// written.
pub proof fn digits_are_written_back(s: Seq<char>)
    requires
        all_digits(s),
        s.len() == 1 || (s.len() > 1 && s[0] != '0'),
    ensures
        decimal(digits_value(s) as nat) == s,
        digits_value(s) >= 0,
        s[0] != '0' ==> digits_value(s) > 0,
    decreases s.len(),
{
    assert(is_digit(s[s.len() - 1]));
    if s.len() == 1 {
        assert(digits_value(s.drop_last()) == 0);
        assert(decimal(digits_value(s) as nat) =~= s);
    } else {
        let t = s.drop_last();
        assert forall|i: int| 0 <= i < t.len() implies is_digit(#[trigger] t[i]) by {
            assert(t[i] == s[i]);
        }
        assert(t[0] == s[0]);
        digits_are_written_back(t);
        let v = digits_value(t);
        let c = s.last() as int - 48;
        assert(digits_value(s) == v * 10 + c);
        assert((v * 10 + c) / 10 == v && (v * 10 + c) % 10 == c);
        assert(decimal(digits_value(s) as nat) =~= s);
    }
}

/// What is read as a number that is not negative is digits, with a plus sign
/// before them or none, whose value fits; nothing else is.
pub proof fn only_digits_are_read(s: Seq<char>, digits: Seq<char>)
    ensures
        s == digits || s == seq!['+'] + digits ==> (digits.len() > 0 && all_digits(digits) ==> (
        if digits_value(digits) <= u64::MAX {
            unsigned_value(s) == Some(digits_value(digits) as u64)
        } else {
            unsigned_value(s) is None
        })),
        unsigned_value(s) is Some ==> s.len() > 0 && (all_digits(s) || (s[0] == '+' && s.len() > 1
            && all_digits(s.skip(1)))),
{
    if s == seq!['+'] + digits {
        assert(s.skip(1) =~= digits);
        assert(s[0] == '+');
    } else if s == digits && digits.len() > 0 && all_digits(digits) {
        assert(is_digit(s[0]));
    }
}

proof fn lemma_digit(d: int)
    requires
        0 <= d < 10,
    ensures
        is_digit(digit(d)),
        digit(d) as int == 48 + d,
{
}

proof fn lemma_two_digits(n: int)
    requires
        0 <= n < 100,
    ensures
        two_digits(n).len() == 2,
        all_digits(two_digits(n)),
        digits_value(two_digits(n)) == n,
{
    lemma_digit(n / 10);
    lemma_digit(n % 10);
    let s = two_digits(n);
    assert(s.drop_last() =~= seq![digit(n / 10)]);
    assert(s.drop_last().drop_last() =~= Seq::<char>::empty());
    assert(digits_value(s.drop_last().drop_last()) == 0);
    assert(digits_value(s.drop_last()) == n / 10);
}

proof fn lemma_three_digits(n: int)
    requires
        0 <= n < 1000,
    ensures
        three_digits(n).len() == 3,
        all_digits(three_digits(n)),
        digits_value(three_digits(n)) == n,
{
    lemma_digit(n / 100);
    lemma_digit((n / 10) % 10);
    lemma_digit(n % 10);
    let s = three_digits(n);
    assert(s.drop_last() =~= seq![digit(n / 100), digit((n / 10) % 10)]);
    assert(s.drop_last().drop_last() =~= seq![digit(n / 100)]);
    assert(s.drop_last().drop_last().drop_last() =~= Seq::<char>::empty());
    assert(digits_value(s.drop_last().drop_last().drop_last()) == 0);
    assert(digits_value(s.drop_last().drop_last()) == n / 100);
    assert(digits_value(s.drop_last()) == (n / 100) * 10 + (n / 10) % 10);
    assert((n / 100) * 10 + (n / 10) % 10 == n / 10);
}

/// The time of a day is written as hours, minutes, seconds and milliseconds,
/// of two, two, two and three digits, which add up to the moment but for whole
/// days.
pub proof fn time_adds_up(ms: int, days: int, h: int, m: int, s: int, milli: int)
    requires
        ms >= 0,
        0 <= h < 24,
        0 <= m < 60,
        0 <= s < 60,
        0 <= milli < 1000,
        ms == (((days * 24 + h) * 60 + m) * 60 + s) * 1000 + milli,
    ensures
        ({
            let t = time_of_day(ms);
            &&& t.len() == 12
            &&& t[2] == ':' && t[5] == ':' && t[8] == '.'
            &&& all_digits(t.take(2)) && digits_value(t.take(2)) == h
            &&& all_digits(t.subrange(3, 5)) && digits_value(t.subrange(3, 5)) == m
            &&& all_digits(t.subrange(6, 8)) && digits_value(t.subrange(6, 8)) == s
            &&& all_digits(t.skip(9)) && digits_value(t.skip(9)) == milli
        }),
{
    assert(ms % 1000 == milli);
    assert(ms / 1000 == ((days * 24 + h) * 60 + m) * 60 + s);
    assert((ms / 1000) % 60 == s);
    assert(ms / 60_000 == (days * 24 + h) * 60 + m);
    assert((ms / 60_000) % 60 == m);
    assert(ms / 3_600_000 == days * 24 + h);
    assert((ms / 3_600_000) % 24 == h);
    lemma_two_digits(h);
    lemma_two_digits(m);
    lemma_two_digits(s);
    lemma_three_digits(milli);
    let t = time_of_day(ms);
    assert(t.take(2) =~= two_digits(h));
    assert(t.subrange(3, 5) =~= two_digits(m));
    assert(t.subrange(6, 8) =~= two_digits(s));
    assert(t.skip(9) =~= three_digits(milli));
}

/// The value of a hexadecimal digit.
pub open spec fn hex_digit_value(c: char) -> int {
    if is_digit(c) {
        c as int - 48
    } else {
        c as int - 87
    }
}

/// Each byte is written as two hexadecimal digits in lower case, the higher
/// one first, whose value is the byte.
pub proof fn hexadecimal_tells_the_bytes(bytes: Seq<u8>, i: int)
    requires
        0 <= i < bytes.len(),
    ensures
        hex(bytes).len() == 2 * bytes.len(),
        16 * hex_digit_value(hex(bytes)[2 * i]) + hex_digit_value(hex(bytes)[2 * i + 1])
            == bytes[i],
        0 <= hex_digit_value(hex(bytes)[2 * i]) < 16,
        0 <= hex_digit_value(hex(bytes)[2 * i + 1]) < 16,
    decreases bytes.len(),
{
    let t = bytes.drop_last();
    if t.len() > 0 {
        hexadecimal_tells_the_bytes(t, if i < t.len() {
            i
        } else {
            0
        });
    } else {
        assert(hex(t) =~= Seq::<char>::empty());
    }
    if i < t.len() {
        assert(hex(bytes)[2 * i] == hex(t)[2 * i]);
        assert(hex(bytes)[2 * i + 1] == hex(t)[2 * i + 1]);
        assert(t[i] == bytes[i]);
    } else {
        let b = bytes.last() as int;
        assert(hex(bytes)[2 * i] == hex_digit(b / 16));
        assert(hex(bytes)[2 * i + 1] == hex_digit(b % 16));
    }
}

/// The letters of the English alphabet change their case by themselves: a
/// capital letter and its small one lie 32 apart. Every other character of
/// ASCII stays as it is.
pub proof fn ascii_case_is_that_of_letters(s: Seq<char>, i: int)
    requires
        all_ascii(s),
        0 <= i < s.len(),
    ensures
        text_lower(s).len() == s.len(),
        text_upper(s).len() == s.len(),
        'A' <= s[i] <= 'Z' ==> text_lower(s)[i] as int == s[i] as int + 32 && text_upper(s)[i]
            == s[i],
        'a' <= s[i] <= 'z' ==> text_upper(s)[i] as int == s[i] as int - 32 && text_lower(s)[i]
            == s[i],
        !('A' <= s[i] <= 'Z') && !('a' <= s[i] <= 'z') ==> text_lower(s)[i] == s[i]
            && text_upper(s)[i] == s[i],
{
    assert(s[i] <= '\u{7f}');
}

/// A text is blank exactly where nothing but space is in it, and the space of
/// ASCII is the space and the five controls from tabulator to carriage return.
pub proof fn blank_is_only_space(s: Seq<char>)
    requires
        all_ascii(s),
    ensures
        blank(s) <==> forall|i: int|
            0 <= i < s.len() ==> (#[trigger] s[i] == ' ' || 9 <= s[i] as int <= 13),
        s.len() == 0 ==> blank(s),
{
    assert forall|i: int| 0 <= i < s.len() implies (is_white(#[trigger] s[i]) <==> s[i] == ' ' || 9
        <= s[i] as int <= 13) by {
        assert(s[i] <= '\u{7f}');
    }
    if forall|i: int| 0 <= i < s.len() ==> (#[trigger] s[i] == ' ' || 9 <= s[i] as int <= 13) {
        assert forall|i: int| 0 <= i < s.len() implies is_white(#[trigger] s[i]) by {
            assert(s[i] == ' ' || 9 <= s[i] as int <= 13);
        }
    }
    if blank(s) {
        assert forall|i: int| 0 <= i < s.len() implies (#[trigger] s[i] == ' ' || 9 <= s[i] as int
            <= 13) by {
            assert(is_white(s[i]));
        }
    }
}

/// Whether characters spell a character inside a JSON string: by itself, where
/// it is no control, no quotation mark and no backslash; by a backslash and a
/// letter or the character; or, for the other controls, by its number in four
/// hexadecimal digits.
pub open spec fn spells(e: Seq<char>, c: char) -> bool {
    if c == '"' || c == '\\' {
        e.len() == 2 && e[0] == '\\' && e[1] == c
    } else if c as int == 8 || c as int == 9 || c as int == 10 || c as int == 12 || c as int == 13 {
        e.len() == 2 && e[0] == '\\' && e[1] == (if c as int == 8 {
            'b'
        } else if c as int == 9 {
            't'
        } else if c as int == 10 {
            'n'
        } else if c as int == 12 {
            'f'
        } else {
            'r'
        })
    } else if c as int >= 32 {
        e.len() == 1 && e[0] == c
    } else {
        &&& e.len() == 6
        &&& e[0] == '\\' && e[1] == 'u' && e[2] == '0' && e[3] == '0'
        &&& 16 * hex_digit_value(e[4]) + hex_digit_value(e[5]) == c as int
    }
}

/// A JSON string stands between quotation marks and spells the characters of
/// the text one after the other.
pub proof fn string_spells_its_characters(a: Seq<char>, b: Seq<char>, c: char)
    ensures
        spells(json_escaped(c), c),
        json_contents(Seq::empty()) == Seq::<char>::empty(),
        json_contents(seq![c]) == json_escaped(c),
        json_contents(a + b) == json_contents(a) + json_contents(b),
        json_string(a).len() == json_contents(a).len() + 2,
        json_string(a)[0] == '"',
        json_string(a).last() == '"',
        json_string(a).subrange(1, json_string(a).len() - 1) == json_contents(a),
    decreases b.len(),
{
    if (c as int) < 32 {
        let bytes = seq![c as u8];
        hexadecimal_tells_the_bytes(bytes, 0);
    }
    assert(seq![c].drop_last() =~= Seq::<char>::empty());
    assert(json_contents(seq![c].drop_last()) =~= Seq::<char>::empty());
    assert(json_contents(seq![c]) =~= json_escaped(c));
    assert(json_string(a).subrange(1, json_string(a).len() - 1) =~= json_contents(a));
    if b.len() == 0 {
        assert(a + b =~= a);
        assert(json_contents(a) + json_contents(b) =~= json_contents(a));
    } else {
        string_spells_its_characters(a, b.drop_last(), c);
        assert((a + b).drop_last() =~= a + b.drop_last());
        assert((a + b).last() == b.last());
        assert(json_contents(a + b) =~= json_contents(a) + json_contents(b));
    }
}

/// What is read as a number with a sign is digits, with a plus or a minus sign
/// before them or none, whose value fits; nothing else is.
pub proof fn only_signed_digits_are_read(s: Seq<char>, digits: Seq<char>)
    ensures
        digits.len() > 0 && all_digits(digits) ==> {
            &&& s == digits || s == seq!['+'] + digits ==> (if digits_value(digits) <= i64::MAX {
                signed_value(s) == Some(digits_value(digits) as i64)
            } else {
                signed_value(s) is None
            })
            &&& s == seq!['-'] + digits ==> (if -digits_value(digits) >= i64::MIN {
                signed_value(s) == Some((-digits_value(digits)) as i64)
            } else {
                signed_value(s) is None
            })
        },
        signed_value(s) is Some ==> s.len() > 0 && (all_digits(s) || ((s[0] == '+' || s[0] == '-')
            && s.len() > 1 && all_digits(s.skip(1)))),
{
    if digits.len() > 0 && all_digits(digits) {
        assert(digits.take(digits.len() as int) =~= digits);
        lemma_digits_value_monotone(digits, 0);
        assert(digits_value(digits) >= 0);
        if s == seq!['+'] + digits || s == seq!['-'] + digits {
            assert(s.skip(1) =~= digits);
        } else if s == digits {
            assert(is_digit(s[0]));
        }
    }
}

} // verus!
