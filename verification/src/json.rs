//! JSON values, as the messages of the exchanges hold them.
//!
//! Wherever a value can be taken for a double, it comes with a [`Reading`]:
//! the plain values that the library takes from that double.

use crate::num::Num;
use crate::num::NumView;
use crate::text::decimal;
use crate::text::json_string;
use crate::text::parse_signed;
use crate::text::quote;
use crate::text::same_text;
use crate::text::signed_decimal;
use crate::text::signed_text;
use crate::text::signed_value;
use crate::text::unsigned_text;
use vstd::prelude::*;

verus! {

/// What the library reads of a double.
#[derive(Debug)]
pub struct Reading {
    /// The double itself.
    pub num: Num,
    /// The double times a thousand, as an unsigned integer.
    pub millis: u64,
    /// The double as a signed integer.
    pub whole: i64,
    /// The double that its text to eight decimals spells.
    pub rounded: Num,
}

impl Clone for Reading {
    fn clone(&self) -> (r: Self)
        ensures
            r == *self,
    {
        Reading {
            num: self.num.clone(),
            millis: self.millis,
            whole: self.whole,
            rounded: self.rounded.clone(),
        }
    }
}

/// A text, and the double it spells, if it spells one.
#[derive(Debug)]
pub struct JsonText {
    pub text: String,
    pub reading: Option<Reading>,
}

/// The mathematical content of a [`JsonText`].
pub struct JsonTextView {
    pub text: Seq<char>,
    pub reading: Option<Reading>,
}

impl View for JsonText {
    type V = JsonTextView;

    open spec fn view(&self) -> JsonTextView {
        JsonTextView { text: self.text@, reading: self.reading }
    }
}

impl JsonTextView {
    /// The empty text, which spells no number.
    pub open spec fn empty() -> JsonTextView {
        JsonTextView { text: Seq::empty(), reading: None }
    }

    /// The number the text spells.
    pub open spec fn num(self) -> Option<Num> {
        match self.reading {
            Some(r) => Some(r.num),
            None => None,
        }
    }
}

impl Clone for JsonText {
    fn clone(&self) -> (r: Self)
        ensures
            r == *self,
    {
        JsonText {
            text: self.text.clone(),
            reading: match &self.reading {
                Some(r) => Some(r.clone()),
                None => None,
            },
        }
    }
}

impl JsonText {
    /// The empty text.
    pub fn empty() -> (r: JsonText)
        ensures
            r@ == JsonTextView::empty(),
    {
        JsonText { text: String::new(), reading: None }
    }

    /// The number the text spells, if any.
    pub fn num(&self) -> (r: Option<Num>)
        ensures
            r == self@.num(),
    {
        match &self.reading {
            Some(r) => Some(r.num.clone()),
            None => None,
        }
    }
}

/// The number, or zero where there is none.
pub open spec fn num_or_zero(n: Option<Num>) -> NumView {
    match n {
        Some(v) => v@,
        None => NumView { bits: 0, text: "0"@ },
    }
}

/// The number, or zero where there is none.
pub fn or_zero(n: Option<Num>) -> (r: Num)
    ensures
        r@ == num_or_zero(n),
{
    match n {
        Some(v) => v,
        None => Num::zero_value(),
    }
}

/// A JSON number.
#[derive(Debug)]
pub enum JsonNumber {
    /// An integer that is not negative.
    PosInt(u64, Reading),
    /// A negative integer.
    NegInt(i64, Reading),
    /// Any other number, and how JSON writes it.
    Float(Reading, String),
}

impl JsonNumber {
    /// The number as a double.
    pub open spec fn reading(self) -> Reading {
        match self {
            JsonNumber::PosInt(_, r) => r,
            JsonNumber::NegInt(_, r) => r,
            JsonNumber::Float(r, _) => r,
        }
    }

    /// The number as it prints.
    pub open spec fn printed(self) -> Seq<char> {
        match self {
            JsonNumber::PosInt(v, _) => decimal(v as nat),
            JsonNumber::NegInt(v, _) => signed_decimal(v as int),
            JsonNumber::Float(r, _) => r.num.text@,
        }
    }

    /// The number as JSON writes it.
    pub open spec fn literal(self) -> Seq<char> {
        match self {
            JsonNumber::PosInt(v, _) => decimal(v as nat),
            JsonNumber::NegInt(v, _) => signed_decimal(v as int),
            JsonNumber::Float(_, t) => t@,
        }
    }

    fn write(&self) -> (r: String)
        ensures
            r@ == self.literal(),
    {
        match self {
            JsonNumber::PosInt(v, _) => unsigned_text(*v),
            JsonNumber::NegInt(v, _) => signed_text(*v),
            JsonNumber::Float(_, t) => t.clone(),
        }
    }

    fn get_reading(&self) -> (r: &Reading)
        ensures
            *r == self.reading(),
    {
        match self {
            JsonNumber::PosInt(_, r) => r,
            JsonNumber::NegInt(_, r) => r,
            JsonNumber::Float(r, _) => r,
        }
    }

    fn print(&self) -> (r: String)
        ensures
            r@ == self.printed(),
    {
        match self {
            JsonNumber::PosInt(v, _) => unsigned_text(*v),
            JsonNumber::NegInt(v, _) => signed_text(*v),
            JsonNumber::Float(r, _) => r.num.text.clone(),
        }
    }
}

/// A JSON value.
#[derive(Debug)]
pub enum Json {
    Null,
    Bool(bool),
    Number(JsonNumber),
    Str(JsonText),
    Arr(Vec<Json>),
    Obj(Vec<(String, Json)>),
}

/// The value of the last entry with this name.
pub open spec fn entry(entries: Seq<(String, Json)>, name: Seq<char>) -> Option<Json>
    decreases entries.len(),
{
    if entries.len() == 0 {
        None
    } else if entries.last().0@ == name {
        Some(entries.last().1)
    } else {
        entry(entries.drop_last(), name)
    }
}

impl Json {
    /// The value at a name of an object.
    pub open spec fn at(self, name: Seq<char>) -> Option<Json> {
        match self {
            Json::Obj(entries) => entry(entries@, name),
            _ => None,
        }
    }

    /// The text, if the value is one.
    pub open spec fn text(self) -> Option<JsonText> {
        match self {
            Json::Str(t) => Some(t),
            _ => None,
        }
    }

    /// The double, if the value is a number.
    pub open spec fn double(self) -> Option<Num> {
        match self {
            Json::Number(n) => Some(n.reading().num),
            _ => None,
        }
    }

    /// The signed integer, if the value is an integer in range.
    pub open spec fn signed(self) -> Option<i64> {
        match self {
            Json::Number(JsonNumber::PosInt(v, _)) => if v <= i64::MAX {
                Some(v as i64)
            } else {
                None
            },
            Json::Number(JsonNumber::NegInt(v, _)) => Some(v),
            _ => None,
        }
    }

    /// The unsigned integer, if the value is an integer that is not negative.
    pub open spec fn unsigned(self) -> Option<u64> {
        match self {
            Json::Number(JsonNumber::PosInt(v, _)) => Some(v),
            _ => None,
        }
    }

    /// The value at a name of an object.
    pub fn get(&self, name: &str) -> (r: Option<&Json>)
        ensures
            r is Some <==> self.at(name@) is Some,
            r matches Some(v) ==> self.at(name@) == Some(*v),
    {
        match self {
            Json::Obj(entries) => {
                let mut i: usize = entries.len();
                assert(entries@.take(i as int) =~= entries@);
                while i > 0
                    invariant
                        i <= entries.len(),
                        self.at(name@) == entry(entries@.take(i as int), name@),
                    decreases i,
                {
                    assert(entries@.take(i as int).drop_last() =~= entries@.take(i - 1));
                    if same_text(entries[i - 1].0.as_str(), name) {
                        return Some(&entries[i - 1].1);
                    }
                    i -= 1;
                }
                None
            },
            _ => None,
        }
    }

    /// The double, if the value is a number.
    pub fn as_double(&self) -> (r: Option<Num>)
        ensures
            r == self.double(),
    {
        match self {
            Json::Number(n) => Some(n.get_reading().num.clone()),
            _ => None,
        }
    }

    /// The signed integer, if the value is an integer in range.
    pub fn as_signed(&self) -> (r: Option<i64>)
        ensures
            r == self.signed(),
    {
        match self {
            Json::Number(n) => match n {
                JsonNumber::PosInt(v, _) => if *v <= 0x7fff_ffff_ffff_ffff {
                    Some(*v as i64)
                } else {
                    None
                },
                JsonNumber::NegInt(v, _) => Some(*v),
                JsonNumber::Float(_, _) => None,
            },
            _ => None,
        }
    }

    /// The unsigned integer, if the value is an integer that is not negative.
    pub fn as_unsigned(&self) -> (r: Option<u64>)
        ensures
            r == self.unsigned(),
    {
        match self {
            Json::Number(n) => match n {
                JsonNumber::PosInt(v, _) => Some(*v),
                _ => None,
            },
            _ => None,
        }
    }
}

/// A value as JSON writes it, without spaces, the members of an object in the
/// order in which they stand. Of members with the same name only the last is
/// written.
pub open spec fn json_text(v: Json) -> Seq<char>
    decreases v, 0int,
{
    match v {
        Json::Null => "null"@,
        Json::Bool(b) => if b {
            "true"@
        } else {
            "false"@
        },
        Json::Number(n) => n.literal(),
        Json::Str(t) => json_string(t.text@),
        Json::Arr(a) => "["@ + elements_text(a@, a@.len() as int) + "]"@,
        Json::Obj(o) => "{"@ + members_text(o@, o@.len() as int) + "}"@,
    }
}

/// The first `n` values as JSON writes them, with commas between them.
pub open spec fn elements_text(a: Seq<Json>, n: int) -> Seq<char>
    decreases a, n,
{
    if n <= 0 || n > a.len() {
        Seq::empty()
    } else {
        listed(elements_text(a, n - 1), json_text(a[n - 1]))
    }
}

/// A list with one more entry, behind a comma where it is not the first.
pub open spec fn listed(list: Seq<char>, one: Seq<char>) -> Seq<char> {
    if list.len() == 0 {
        one
    } else {
        list + ","@ + one
    }
}

/// A member further on has the same name.
pub open spec fn is_superseded(o: Seq<(String, Json)>, i: int) -> bool {
    exists|j: int| i < j < o.len() && (#[trigger] o[j]).0@ == o[i].0@
}

/// The first `n` members as JSON writes them, with commas between them and
/// without those that have the name of a member further on.
pub open spec fn members_text(o: Seq<(String, Json)>, n: int) -> Seq<char>
    decreases o, n,
{
    if n <= 0 || n > o.len() {
        Seq::empty()
    } else if is_superseded(o, n - 1) {
        members_text(o, n - 1)
    } else {
        listed(
            members_text(o, n - 1),
            json_string(o[n - 1].0@) + ":"@ + json_text(o[n - 1].1),
        )
    }
}

fn check_superseded(o: &Vec<(String, Json)>, i: usize) -> (r: bool)
    requires
        i < o.len(),
    ensures
        r == is_superseded(o@, i as int),
{
    let mut j: usize = i + 1;
    while j < o.len()
        invariant
            i < j <= o.len(),
            forall|k: int| i < k < j ==> (#[trigger] o@[k]).0@ != o@[i as int].0@,
        decreases o.len() - j,
    {
        if same_text(o[j].0.as_str(), o[i].0.as_str()) {
            return true;
        }
        j += 1;
    }
    false
}

fn add_to_list(list: String, one: String) -> (r: String)
    ensures
        r@ == listed(list@, one@),
{
    if list.as_str().is_empty() {
        one
    } else {
        list.concat(",").concat(one.as_str())
    }
}

/// Writes a value as JSON.
pub fn write_json(v: &Json) -> (r: String)
    ensures
        r@ == json_text(*v),
    decreases v,
{
    match v {
        Json::Null => "null".to_owned(),
        Json::Bool(b) => if *b {
            "true".to_owned()
        } else {
            "false".to_owned()
        },
        Json::Number(n) => n.write(),
        Json::Str(t) => quote(t.text.as_str()),
        Json::Arr(a) => {
            let mut inner: String = String::new();
            let mut i: usize = 0;
            while i < a.len()
                invariant
                    i <= a.len(),
                    *v == Json::Arr(*a),
                    inner@ == elements_text(a@, i as int),
                decreases a.len() - i,
            {
                assert(decreases_to!(*v => v->Arr_0));
                assert(decreases_to!(v->Arr_0 => a@));
                assert(decreases_to!(a@ => a@[i as int]));
                inner = add_to_list(inner, write_json(&a[i]));
                i += 1;
            }
            "[".to_owned().concat(inner.as_str()).concat("]")
        },
        Json::Obj(o) => {
            let mut inner: String = String::new();
            let mut i: usize = 0;
            while i < o.len()
                invariant
                    i <= o.len(),
                    *v == Json::Obj(*o),
                    inner@ == members_text(o@, i as int),
                decreases o.len() - i,
            {
                assert(decreases_to!(*v => v->Obj_0));
                assert(decreases_to!(v->Obj_0 => o@));
                assert(decreases_to!(o@ => o@[i as int]));
                assert(decreases_to!(o@[i as int] => o@[i as int].1));
                if !check_superseded(o, i) {
                    let name: String = quote(o[i].0.as_str());
                    let value: String = write_json(&o[i].1);
                    inner = add_to_list(inner, name.concat(":").concat(value.as_str()));
                }
                i += 1;
            }
            "{".to_owned().concat(inner.as_str()).concat("}")
        },
    }
}

/// How many entries have this name.
pub open spec fn times_named(entries: Seq<(String, Json)>, name: Seq<char>) -> int
    decreases entries.len(),
{
    if entries.len() == 0 {
        0
    } else {
        times_named(entries.drop_last(), name) + if entries.last().0@ == name {
            1int
        } else {
            0int
        }
    }
}

/// A name stands at most once in the value.
pub open spec fn named_once(v: Json, name: Seq<char>) -> bool {
    v matches Json::Obj(entries) ==> times_named(entries@, name) <= 1
}

fn count_named(entries: &Vec<(String, Json)>, name: &str) -> (r: usize)
    ensures
        r == times_named(entries@, name@),
        r <= entries@.len(),
{
    let mut n: usize = 0;
    let mut i: usize = 0;
    assert(entries@.take(0) =~= Seq::<(String, Json)>::empty());
    while i < entries.len()
        invariant
            i <= entries.len(),
            n == times_named(entries@.take(i as int), name@),
            n <= i,
        decreases entries.len() - i,
    {
        assert(entries@.take(i + 1).drop_last() =~= entries@.take(i as int));
        if same_text(entries[i].0.as_str(), name) {
            n += 1;
        }
        i += 1;
    }
    assert(entries@.take(entries@.len() as int) =~= entries@);
    n
}

/// Whether a name stands at most once in the value.
pub fn check_named_once(v: &Json, name: &str) -> (r: bool)
    ensures
        r == named_once(*v, name@),
{
    match v {
        Json::Obj(entries) => count_named(entries, name) <= 1,
        _ => true,
    }
}

/// A record of `n` fields can be read from the value: it is an object, or an
/// array of at most `n` elements, which are then taken by position.
pub open spec fn is_record(v: Json, n: int) -> bool {
    match v {
        Json::Obj(_) => true,
        Json::Arr(a) => a@.len() <= n,
        _ => false,
    }
}

/// A field of a record: by name in an object, by position in an array.
pub open spec fn field(v: Json, name: Seq<char>, pos: int) -> Option<Json> {
    match v {
        Json::Obj(_) => v.at(name),
        Json::Arr(a) => if 0 <= pos < a@.len() {
            Some(a@[pos])
        } else {
            None
        },
        _ => None,
    }
}

/// Whether a record can be read from the value.
pub fn check_record(v: &Json, n: usize) -> (r: bool)
    ensures
        r == is_record(*v, n as int),
{
    match v {
        Json::Obj(_) => true,
        Json::Arr(a) => a.len() <= n,
        _ => false,
    }
}

/// A field of a record.
pub fn get_field<'a>(v: &'a Json, name: &str, pos: usize) -> (r: Option<&'a Json>)
    ensures
        r is Some <==> field(*v, name@, pos as int) is Some,
        r matches Some(f) ==> field(*v, name@, pos as int) == Some(*f),
{
    match v {
        Json::Obj(_) => v.get(name),
        Json::Arr(a) => if pos < a.len() {
            Some(&a[pos])
        } else {
            None
        },
        _ => None,
    }
}

/// A field that holds a text; absent, it is empty. Any other value is an error.
pub open spec fn text_field(f: Option<Json>) -> Option<JsonTextView> {
    match f {
        None => Some(JsonTextView::empty()),
        Some(Json::Str(t)) => Some(t@),
        Some(_) => None,
    }
}

/// Reads a text field.
pub fn read_text(f: Option<&Json>) -> (r: Option<JsonText>)
    ensures
        view_text(r) == text_field(deref(f)),
{
    match f {
        None => Some(JsonText::empty()),
        Some(v) => match v {
            Json::Str(t) => Some(t.clone()),
            _ => None,
        },
    }
}

/// The content of an optional text.
pub open spec fn view_text(t: Option<JsonText>) -> Option<JsonTextView> {
    match t {
        Some(v) => Some(v@),
        None => None,
    }
}

/// The value behind an optional reference.
pub open spec fn deref(f: Option<&Json>) -> Option<Json> {
    match f {
        Some(v) => Some(*v),
        None => None,
    }
}

/// A field that holds a text or a number, taken as text; absent, it is empty.
pub open spec fn number_or_text_field(f: Option<Json>) -> Option<JsonTextView> {
    match f {
        None => Some(JsonTextView::empty()),
        Some(Json::Str(t)) => Some(t@),
        Some(Json::Number(n)) => Some(
            JsonTextView { text: n.printed(), reading: Some(n.reading()) },
        ),
        Some(_) => None,
    }
}

/// Reads a field that holds a text or a number.
pub fn read_number_or_text(f: Option<&Json>) -> (r: Option<JsonText>)
    ensures
        view_text(r) == number_or_text_field(deref(f)),
{
    match f {
        None => Some(JsonText::empty()),
        Some(v) => match v {
            Json::Str(t) => Some(t.clone()),
            Json::Number(n) => Some(
                JsonText { text: n.print(), reading: Some(n.get_reading().clone()) },
            ),
            _ => None,
        },
    }
}

/// A 64-bit pattern as a signed integer, in two's complement.
pub open spec fn wrapped(v: u64) -> i64 {
    if v <= i64::MAX {
        v as i64
    } else {
        (v - 0x1_0000_0000_0000_0000) as i64
    }
}

/// A field that holds an integer, a number that is cut to one, or a text; a
/// text that spells no integer is zero, and so is an absent field.
pub open spec fn integer_or_zero_field(f: Option<Json>) -> Option<i64> {
    match f {
        None => Some(0),
        Some(Json::Number(JsonNumber::PosInt(v, _))) => Some(wrapped(v)),
        Some(Json::Number(JsonNumber::NegInt(v, _))) => Some(v),
        Some(Json::Number(JsonNumber::Float(r, _))) => Some(r.whole),
        Some(Json::Str(t)) => match signed_value(t.text@) {
            Some(v) => Some(v),
            None => Some(0),
        },
        Some(_) => None,
    }
}

fn wrap(v: u64) -> (r: i64)
    ensures
        r == wrapped(v),
{
    if v <= 0x7fff_ffff_ffff_ffff {
        v as i64
    } else {
        -((u64::MAX - v) as i64) - 1
    }
}

/// Reads a field that holds an integer, or something like one.
pub fn read_integer_or_zero(f: Option<&Json>) -> (r: Option<i64>)
    ensures
        r == integer_or_zero_field(deref(f)),
{
    match f {
        None => Some(0),
        Some(v) => match v {
            Json::Number(n) => match n {
                JsonNumber::PosInt(v, _) => Some(wrap(*v)),
                JsonNumber::NegInt(v, _) => Some(*v),
                JsonNumber::Float(r, _) => Some(r.whole),
            },
            Json::Str(t) => match parse_signed(t.text.as_str()) {
                Some(v) => Some(v),
                None => Some(0),
            },
            _ => None,
        },
    }
}

/// A field that holds an unsigned integer; absent, it is zero.
pub open spec fn unsigned_field(f: Option<Json>) -> Option<u64> {
    match f {
        None => Some(0),
        Some(v) => v.unsigned(),
    }
}

/// Reads an unsigned field.
pub fn read_unsigned(f: Option<&Json>) -> (r: Option<u64>)
    ensures
        r == unsigned_field(deref(f)),
{
    match f {
        None => Some(0),
        Some(v) => match v {
            Json::Number(n) => match n {
                JsonNumber::PosInt(v, _) => Some(*v),
                _ => None,
            },
            _ => None,
        },
    }
}

/// A field that may hold an unsigned integer; absent or null, it holds none.
pub open spec fn optional_unsigned_field(f: Option<Json>) -> Option<Option<u64>> {
    match f {
        None => Some(None),
        Some(Json::Null) => Some(None),
        Some(v) => match v.unsigned() {
            Some(n) => Some(Some(n)),
            None => None,
        },
    }
}

/// Reads a field that may hold an unsigned integer.
pub fn read_optional_unsigned(f: Option<&Json>) -> (r: Option<Option<u64>>)
    ensures
        r == optional_unsigned_field(deref(f)),
{
    match f {
        None => Some(None),
        Some(v) => match v {
            Json::Null => Some(None),
            Json::Number(n) => match n {
                JsonNumber::PosInt(v, _) => Some(Some(*v)),
                _ => None,
            },
            _ => None,
        },
    }
}

/// A field that holds a signed integer; absent, it is zero.
pub open spec fn signed_field(f: Option<Json>) -> Option<i64> {
    match f {
        None => Some(0),
        Some(v) => v.signed(),
    }
}

/// Reads a signed field.
pub fn read_signed(f: Option<&Json>) -> (r: Option<i64>)
    ensures
        r == signed_field(deref(f)),
{
    match f {
        None => Some(0),
        Some(v) => v.as_signed(),
    }
}

/// A field that holds a double; absent, it is zero.
pub open spec fn double_field(f: Option<Json>) -> Option<NumView> {
    match f {
        None => Some(NumView { bits: 0, text: "0"@ }),
        Some(Json::Number(n)) => Some(n.reading().num@),
        Some(_) => None,
    }
}

/// The content of an optional number.
pub open spec fn view_num(n: Option<Num>) -> Option<NumView> {
    match n {
        Some(v) => Some(v@),
        None => None,
    }
}

/// Reads a double.
pub fn read_double(f: Option<&Json>) -> (r: Option<Num>)
    ensures
        view_num(r) == double_field(deref(f)),
{
    match f {
        None => Some(Num::zero_value()),
        Some(v) => match v {
            Json::Number(n) => Some(n.get_reading().num.clone()),
            _ => None,
        },
    }
}

/// Every element from `i` on is a text.
pub open spec fn all_texts(a: Seq<Json>) -> bool {
    forall|i: int| 0 <= i < a.len() ==> #[trigger] a[i] is Str
}

/// The texts of an array.
pub open spec fn texts_of(a: Seq<Json>) -> Seq<JsonText> {
    a.map_values(|v: Json| v->Str_0)
}

/// Every element is an array of texts.
pub open spec fn all_text_rows(a: Seq<Json>) -> bool {
    forall|i: int| 0 <= i < a.len() ==> (#[trigger] a[i]) is Arr && all_texts(a[i]->Arr_0@)
}

/// A field that holds an array of arrays of texts; absent, it is empty.
pub open spec fn rows_field(f: Option<Json>) -> Option<Seq<Seq<JsonText>>> {
    match f {
        None => Some(Seq::empty()),
        Some(Json::Arr(a)) => if all_text_rows(a@) {
            Some(a@.map_values(|v: Json| texts_of(v->Arr_0@)))
        } else {
            None
        },
        Some(_) => None,
    }
}

/// The contents of rows of texts.
pub open spec fn rows_view(rows: Seq<Vec<JsonText>>) -> Seq<Seq<JsonText>> {
    rows.map_values(|row: Vec<JsonText>| row@)
}

/// The content of optional rows.
pub open spec fn view_rows(rows: Option<Vec<Vec<JsonText>>>) -> Option<Seq<Seq<JsonText>>> {
    match rows {
        Some(v) => Some(rows_view(v@)),
        None => None,
    }
}

fn read_row(v: &Json) -> (r: Option<Vec<JsonText>>)
    ensures
        r is Some <==> *v is Arr && all_texts(v->Arr_0@),
        r matches Some(row) ==> row@ == texts_of(v->Arr_0@),
{
    match v {
        Json::Arr(a) => {
            let mut out: Vec<JsonText> = Vec::new();
            let mut i: usize = 0;
            while i < a.len()
                invariant
                    i <= a.len(),
                    *v == Json::Arr(*a),
                    forall|j: int| 0 <= j < i ==> #[trigger] a@[j] is Str,
                    out@ == texts_of(a@.take(i as int)),
                decreases a.len() - i,
            {
                match &a[i] {
                    Json::Str(t) => {
                        out.push(t.clone());
                    },
                    _ => {
                        assert(!(a@[i as int] is Str));
                        return None;
                    },
                }
                assert(out@ =~= texts_of(a@.take(i + 1)));
                i += 1;
            }
            assert(a@.take(a@.len() as int) =~= a@);
            Some(out)
        },
        _ => None,
    }
}

/// Reads an array of arrays of texts.
pub fn read_rows(f: Option<&Json>) -> (r: Option<Vec<Vec<JsonText>>>)
    ensures
        view_rows(r) == rows_field(deref(f)),
{
    match f {
        None => {
            let none: Vec<Vec<JsonText>> = Vec::new();
            assert(rows_view(none@) =~= Seq::<Seq<JsonText>>::empty());
            Some(none)
        },
        Some(v) => match v {
            Json::Arr(a) => {
                let ghost rows = |v: Json| texts_of(v->Arr_0@);
                let mut out: Vec<Vec<JsonText>> = Vec::new();
                let mut i: usize = 0;
                while i < a.len()
                    invariant
                        i <= a.len(),
                        deref(f) == Some(Json::Arr(*a)),
                        rows == (|v: Json| texts_of(v->Arr_0@)),
                        forall|j: int|
                            0 <= j < i ==> (#[trigger] a@[j]) is Arr && all_texts(a@[j]->Arr_0@),
                        out@.len() == i,
                        forall|j: int|
                            0 <= j < i ==> (#[trigger] out@[j])@ == texts_of(a@[j]->Arr_0@),
                    decreases a.len() - i,
                {
                    match read_row(&a[i]) {
                        Some(row) => {
                            out.push(row);
                        },
                        None => {
                            assert(!(a@[i as int] is Arr && all_texts(a@[i as int]->Arr_0@)));
                            return None;
                        },
                    }
                    i += 1;
                }
                assert(rows_view(out@) =~= a@.map_values(rows));
                Some(out)
            },
            _ => None,
        },
    }
}

/// A field that may hold a text; absent or null, it holds none.
pub open spec fn optional_text_field(f: Option<Json>) -> Option<Option<Seq<char>>> {
    match f {
        None => Some(None),
        Some(Json::Null) => Some(None),
        Some(Json::Str(t)) => Some(Some(t.text@)),
        Some(_) => None,
    }
}

/// The content of an optional text slice.
pub open spec fn view_str(s: Option<&str>) -> Option<Seq<char>> {
    match s {
        Some(v) => Some(v@),
        None => None,
    }
}

/// The content of what was read from an optional text field.
pub open spec fn view_optional_str(s: Option<Option<&str>>) -> Option<Option<Seq<char>>> {
    match s {
        Some(v) => Some(view_str(v)),
        None => None,
    }
}

/// Reads a field that may hold a text.
pub fn read_optional_text<'a>(f: Option<&'a Json>) -> (r: Option<Option<&'a str>>)
    ensures
        view_optional_str(r) == optional_text_field(deref(f)),
{
    match f {
        None => Some(None),
        Some(v) => match v {
            Json::Null => Some(None),
            Json::Str(t) => Some(Some(t.text.as_str())),
            _ => None,
        },
    }
}

/// A field that may hold a truth value; absent or null, it holds none.
pub open spec fn optional_bool_field(f: Option<Json>) -> Option<Option<bool>> {
    match f {
        None => Some(None),
        Some(Json::Null) => Some(None),
        Some(Json::Bool(b)) => Some(Some(b)),
        Some(_) => None,
    }
}

/// Reads a field that may hold a truth value.
pub fn read_optional_bool(f: Option<&Json>) -> (r: Option<Option<bool>>)
    ensures
        r == optional_bool_field(deref(f)),
{
    match f {
        None => Some(None),
        Some(v) => match v {
            Json::Null => Some(None),
            Json::Bool(b) => Some(Some(*b)),
            _ => None,
        },
    }
}

/// A field that holds an array; absent, it is empty.
pub open spec fn array_field(f: Option<Json>) -> Option<Seq<Json>> {
    match f {
        None => Some(Seq::empty()),
        Some(Json::Arr(a)) => Some(a@),
        Some(_) => None,
    }
}

/// The elements of an array that may be absent.
pub open spec fn elements(a: Option<&Vec<Json>>) -> Seq<Json> {
    match a {
        Some(v) => v@,
        None => Seq::empty(),
    }
}

/// Reads an array.
pub fn read_array<'a>(f: Option<&'a Json>) -> (r: Option<Option<&'a Vec<Json>>>)
    ensures
        (match r {
            Some(a) => Some(elements(a)),
            None => None,
        }) == array_field(deref(f)),
{
    match f {
        None => Some(None),
        Some(v) => match v {
            Json::Arr(a) => Some(Some(a)),
            _ => None,
        },
    }
}

/// Whether an optional text is there and equal to another.
pub fn is_text(s: Option<&str>, t: &str) -> (r: bool)
    ensures
        r == (view_str(s) == Some(t@)),
{
    match s {
        Some(v) => same_text(v, t),
        None => false,
    }
}

/// A field that may hold any value; absent or null, it holds none.
pub open spec fn any_field(f: Option<Json>) -> Option<Json> {
    match f {
        Some(Json::Null) => None,
        _ => f,
    }
}

/// Reads a field that may hold any value.
pub fn read_any<'a>(f: Option<&'a Json>) -> (r: Option<&'a Json>)
    ensures
        deref(r) == any_field(deref(f)),
{
    match f {
        Some(v) => match v {
            Json::Null => None,
            _ => Some(v),
        },
        None => None,
    }
}

/// An array is written in brackets: its first element as that is written, and
/// each further one after a comma.
pub proof fn array_is_written_element_by_element(a: Seq<Json>, n: int)
    requires
        0 < n < a.len(),
        elements_text(a, n).len() > 0,
    ensures
        elements_text(a, 1) == json_text(a[0]),
        elements_text(a, n + 1) == elements_text(a, n) + ","@ + json_text(a[n]),
{
    assert(elements_text(a, 0) =~= Seq::<char>::empty());
    assert(elements_text(a, 1) == listed(elements_text(a, 0), json_text(a[0])));
    assert(elements_text(a, n + 1) == listed(elements_text(a, n), json_text(a[n])));
}

/// An object is written in braces: each member that no later one of its name
/// takes the place of, as its name, a colon and its value, and each but the
/// first after a comma.
pub proof fn object_is_written_member_by_member(o: Seq<(String, Json)>, n: int)
    requires
        0 <= n < o.len(),
    ensures
        (exists|j: int| n < j < o.len() && (#[trigger] o[j]).0@ == o[n].0@) ==> members_text(
            o,
            n + 1,
        ) == members_text(o, n),
        !(exists|j: int| n < j < o.len() && (#[trigger] o[j]).0@ == o[n].0@) && members_text(
            o,
            n,
        ).len() == 0 ==> members_text(o, n + 1) == json_string(o[n].0@) + ":"@ + json_text(o[n].1),
        !(exists|j: int| n < j < o.len() && (#[trigger] o[j]).0@ == o[n].0@) && members_text(
            o,
            n,
        ).len() > 0 ==> members_text(o, n + 1) == members_text(o, n) + ","@ + (json_string(o[n].0@)
            + ":"@ + json_text(o[n].1)),
        members_text(o, 0).len() == 0,
        members_text(o, n + 1).len() > 0 || is_superseded(o, n),
{
}

/// Values are written as JSON has it: the three words, an integer by its
/// digits, any other number as it was written, a text as a string, and arrays
/// and objects in their brackets.
pub proof fn value_is_written_by_its_kind(v: Json)
    ensures
        v is Null ==> json_text(v) == "null"@,
        v == Json::Bool(true) ==> json_text(v) == "true"@,
        v == Json::Bool(false) ==> json_text(v) == "false"@,
        v matches Json::Number(JsonNumber::PosInt(n, _)) ==> crate::text::unsigned_value(
            json_text(v),
        ) == Some(n),
        v matches Json::Number(JsonNumber::NegInt(n, _)) ==> crate::text::signed_value(
            json_text(v),
        ) == Some(n),
        v matches Json::Number(JsonNumber::Float(_, t)) ==> json_text(v) == t@,
        v matches Json::Str(t) ==> json_text(v) == json_string(t.text@),
        v matches Json::Arr(a) ==> json_text(v).len() == elements_text(a@, a@.len() as int).len()
            + 2 && json_text(v)[0] == '[' && json_text(v).last() == ']' && json_text(v).subrange(
            1,
            json_text(v).len() - 1,
        ) == elements_text(a@, a@.len() as int),
        v matches Json::Obj(o) ==> json_text(v).len() == members_text(o@, o@.len() as int).len() + 2
            && json_text(v)[0] == '{' && json_text(v).last() == '}' && json_text(v).subrange(
            1,
            json_text(v).len() - 1,
        ) == members_text(o@, o@.len() as int),
{
    reveal_strlit("[");
    reveal_strlit("]");
    reveal_strlit("{");
    reveal_strlit("}");
    match v {
        Json::Number(JsonNumber::PosInt(n, _)) => {
            crate::text::decimal_round_trip(n);
        },
        Json::Number(JsonNumber::NegInt(n, _)) => {
            crate::text::signed_round_trip(n);
        },
        Json::Arr(a) => {
            assert(json_text(v).subrange(1, json_text(v).len() - 1) =~= elements_text(
                a@,
                a@.len() as int,
            ));
        },
        Json::Obj(o) => {
            assert(json_text(v).subrange(1, json_text(v).len() - 1) =~= members_text(
                o@,
                o@.len() as int,
            ));
        },
        _ => {},
    }
}

/// A number is read as the integer or the double that it is, a text as that
/// text, and nothing is read as another kind. A number in a place for text is
/// printed so that an integer is read back.
pub proof fn value_is_read_by_its_kind(v: Json)
    ensures
        v.text() is Some <==> v is Str,
        v matches Json::Str(t) ==> v.text() == Some(t),
        v.double() is Some <==> v is Number,
        v matches Json::Number(n) ==> v.double() == Some(n.reading().num),
        v.unsigned() is Some <==> (v matches Json::Number(JsonNumber::PosInt(_, _))),
        v matches Json::Number(JsonNumber::PosInt(n, r)) ==> {
            &&& v.unsigned() == Some(n)
            &&& n <= i64::MAX ==> v.signed() is Some && v.signed()->0 == n
            &&& n > i64::MAX ==> v.signed() is None
            &&& v->Number_0.reading() == r
            &&& crate::text::unsigned_value(v->Number_0.printed()) == Some(n)
        },
        v matches Json::Number(JsonNumber::NegInt(n, r)) ==> {
            &&& v.signed() == Some(n)
            &&& v->Number_0.reading() == r
            &&& crate::text::signed_value(v->Number_0.printed()) == Some(n)
        },
        v matches Json::Number(JsonNumber::Float(r, _)) ==> {
            &&& v.signed() is None
            &&& v->Number_0.reading() == r
            &&& v->Number_0.printed() == r.num.text@
        },
        !(v is Number) ==> v.signed() is None,
{
    match v {
        Json::Number(JsonNumber::PosInt(n, _)) => {
            crate::text::decimal_round_trip(n);
        },
        Json::Number(JsonNumber::NegInt(n, _)) => {
            crate::text::signed_round_trip(n);
        },
        _ => {},
    }
}

} // verus!
