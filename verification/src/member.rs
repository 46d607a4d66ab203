//! What the members of JSON objects say.

use crate::json::any_field;
use crate::json::array_field;
use crate::json::double_field;
use crate::json::entry;
use crate::json::field;
use crate::json::integer_or_zero_field;
use crate::json::is_record;
use crate::json::named_once;
use crate::json::number_or_text_field;
use crate::json::optional_bool_field;
use crate::json::optional_text_field;
use crate::json::optional_unsigned_field;
use crate::json::rows_field;
use crate::json::signed_field;
use crate::json::text_field;
use crate::json::times_named;
use crate::json::unsigned_field;
use crate::json::Json;
use crate::json::JsonNumber;
use crate::json::JsonText;
use crate::json::JsonTextView;
use crate::num::NumView;
use crate::text::signed_value;
use vstd::prelude::*;

verus! {

/// Whether the entry at `i` is the last of its name.
pub open spec fn is_last_named(entries: Seq<(String, Json)>, i: int, name: Seq<char>) -> bool {
    &&& 0 <= i < entries.len()
    &&& entries[i].0@ == name
    &&& forall|j: int| i < j < entries.len() ==> (#[trigger] entries[j]).0@ != name
}

/// Whether no two entries have the name.
pub open spec fn is_named_at_most_once(entries: Seq<(String, Json)>, name: Seq<char>) -> bool {
    forall|i: int, j: int|
        0 <= i < j < entries.len() ==> !((#[trigger] entries[i]).0@ == name && (
        #[trigger] entries[j]).0@ == name)
}

proof fn lemma_times_named(entries: Seq<(String, Json)>, name: Seq<char>)
    ensures
        times_named(entries, name) >= 0,
        times_named(entries, name) == 0 <==> forall|i: int|
            0 <= i < entries.len() ==> (#[trigger] entries[i]).0@ != name,
        times_named(entries, name) <= 1 <==> is_named_at_most_once(entries, name),
    decreases entries.len(),
{
    if entries.len() > 0 {
        let t = entries.drop_last();
        lemma_times_named(t, name);
        assert(entries[entries.len() - 1] == entries.last());
        assert forall|i: int| 0 <= i < t.len() implies #[trigger] t[i] == entries[i] by {}
        if is_named_at_most_once(entries, name) {
            assert forall|i: int, j: int| 0 <= i < j < t.len() implies !((
            #[trigger] t[i]).0@ == name && (#[trigger] t[j]).0@ == name) by {
                assert(t[i] == entries[i] && t[j] == entries[j]);
            }
            if entries.last().0@ == name {
                assert forall|i: int| 0 <= i < t.len() implies (#[trigger] t[i]).0@ != name by {
                    assert(t[i] == entries[i]);
                }
            }
        }
        if times_named(entries, name) <= 1 {
            assert forall|i: int, j: int| 0 <= i < j < entries.len() implies !((
            #[trigger] entries[i]).0@ == name && (#[trigger] entries[j]).0@ == name) by {
                assert(t[i] == entries[i]);
                if j < t.len() {
                    assert(t[j] == entries[j]);
                }
            }
        }
        if times_named(entries, name) == 0 {
            assert forall|i: int| 0 <= i < entries.len() implies (
            #[trigger] entries[i]).0@ != name by {
                if i < t.len() {
                    assert(t[i] == entries[i]);
                }
            }
        }
        if forall|i: int| 0 <= i < entries.len() ==> (#[trigger] entries[i]).0@ != name {
            assert forall|i: int| 0 <= i < t.len() implies (#[trigger] t[i]).0@ != name by {
                assert(t[i] == entries[i]);
            }
        }
    }
}

/// The member of a name is the last that has it, and there is none where no
/// entry has it. What is no object has no members.
pub proof fn last_of_a_name_is_the_member(v: Json, name: Seq<char>)
    ensures
        v matches Json::Obj(o) ==> {
            &&& forall|i: int| #[trigger]
                is_last_named(o@, i, name) ==> v.at(name) == Some(o@[i].1)
            &&& (forall|i: int| 0 <= i < o@.len() ==> (#[trigger] o@[i]).0@ != name) ==> v.at(
                name,
            ) is None
            &&& named_once(v, name) <==> is_named_at_most_once(o@, name)
        },
        !(v is Obj) ==> v.at(name) is None && named_once(v, name),
{
    if v is Obj {
        let o = v->Obj_0@;
        lemma_times_named(o, name);
        assert forall|i: int| #[trigger] is_last_named(o, i, name) implies v.at(name) == Some(
            o[i].1,
        ) by {
            lemma_entry(o, i, name);
        }
        if forall|i: int| 0 <= i < o.len() ==> (#[trigger] o[i]).0@ != name {
            lemma_no_entry(o, name);
        }
    }
}

proof fn lemma_entry(o: Seq<(String, Json)>, i: int, name: Seq<char>)
    requires
        is_last_named(o, i, name),
    ensures
        entry(o, name) == Some(o[i].1),
    decreases o.len(),
{
    assert(o[o.len() - 1] == o.last());
    if i < o.len() - 1 {
        let t = o.drop_last();
        assert forall|j: int| i < j < t.len() implies (#[trigger] t[j]).0@ != name by {
            assert(t[j] == o[j]);
        }
        assert(t[i] == o[i]);
        lemma_entry(t, i, name);
    }
}

proof fn lemma_no_entry(o: Seq<(String, Json)>, name: Seq<char>)
    requires
        forall|i: int| 0 <= i < o.len() ==> (#[trigger] o[i]).0@ != name,
    ensures
        entry(o, name) is None,
    decreases o.len(),
{
    if o.len() > 0 {
        assert(o[o.len() - 1] == o.last());
        let t = o.drop_last();
        assert forall|j: int| 0 <= j < t.len() implies (#[trigger] t[j]).0@ != name by {
            assert(t[j] == o[j]);
        }
        lemma_no_entry(t, name);
    }
}

/// A record is an object, whose fields go by name, or an array of at most as
/// many elements as it has fields, which go by position.
pub proof fn records_are_objects_or_arrays(v: Json, name: Seq<char>, pos: int, n: int)
    ensures
        v is Obj ==> is_record(v, n) && field(v, name, pos) == v.at(name),
        v matches Json::Arr(a) ==> {
            &&& is_record(v, n) <==> a@.len() <= n
            &&& 0 <= pos < a@.len() ==> field(v, name, pos) == Some(a@[pos])
            &&& pos >= a@.len() ==> field(v, name, pos) is None
        },
        !(v is Obj) && !(v is Arr) ==> !is_record(v, n),
{
}

/// Whether a field is missing or null.
pub open spec fn is_absent(f: Option<Json>) -> bool {
    f is None || f->0 is Null
}

/// Whether a field is missing or a text.
pub open spec fn may_be_text(f: Option<Json>) -> bool {
    f is None || f->0 is Str
}

/// Whether a field is missing, null or a text.
pub open spec fn may_be_null_or_text(f: Option<Json>) -> bool {
    is_absent(f) || f->0 is Str
}

/// Whether a field says that text, or nothing.
pub open spec fn says_text(f: Option<Json>, got: Option<Seq<char>>) -> bool {
    if is_absent(f) {
        got is None
    } else {
        f->0 is Str && got == Some(f->0->Str_0.text@)
    }
}

/// Whether a field says that integer, or nothing.
pub open spec fn says_unsigned(f: Option<Json>, got: Option<u64>) -> bool {
    if is_absent(f) {
        got is None
    } else {
        f->0 is Number && f->0->Number_0 is PosInt && got == Some(f->0->Number_0->PosInt_0)
    }
}

/// Whether a field says that truth value, or nothing.
pub open spec fn says_flag(f: Option<Json>, got: Option<bool>) -> bool {
    if is_absent(f) {
        got is None
    } else {
        f->0 is Bool && got == Some(f->0->Bool_0)
    }
}

/// Whether a field says that text, and an empty one where it is missing.
pub open spec fn says_text_or_empty(f: Option<Json>, got: JsonTextView) -> bool {
    if f is None {
        got.text.len() == 0 && got.reading is None
    } else {
        f->0 is Str && got == f->0->Str_0@
    }
}

/// Whether a field is the text, which is empty where it is missing.
pub open spec fn says_plain_text(f: Option<Json>, got: Seq<char>) -> bool {
    if f is None {
        got.len() == 0
    } else {
        f->0 is Str && got == f->0->Str_0.text@
    }
}

/// Whether a field is an integer that is not negative.
pub open spec fn is_unsigned(f: Option<Json>) -> bool {
    f is Some && f->0 is Number && f->0->Number_0 is PosInt
}

/// The integer that a field is, if it is one.
pub open spec fn integer_said(f: Option<Json>) -> Option<int> {
    match f {
        Some(Json::Number(JsonNumber::PosInt(v, _))) => Some(v as int),
        Some(Json::Number(JsonNumber::NegInt(v, _))) => Some(v as int),
        _ => None,
    }
}

/// Whether a number is the one that the text is read as, and zero where it is
/// read as none.
pub open spec fn is_number_of(got: NumView, t: JsonTextView) -> bool {
    match t.reading {
        Some(r) => got.bits == r.num.bits && got.text == r.num.text@,
        None => got.bits == 0 && got.text == "0"@,
    }
}

/// Whether a field, a text or a number, is written as that text and read as
/// that number; a missing one is written as nothing.
pub open spec fn says_number_or_text(f: Option<Json>, got: JsonTextView) -> bool {
    if f is None {
        got.text.len() == 0 && got.reading is None
    } else if f->0 is Str {
        got == f->0->Str_0@
    } else {
        f->0 is Number && got.text == f->0->Number_0.printed() && got.reading == Some(
            f->0->Number_0.reading(),
        )
    }
}

/// Whether a field says that number, and zero where it is missing.
pub open spec fn says_double(f: Option<Json>, got: NumView) -> bool {
    if f is None {
        got.bits == 0 && got.text == "0"@
    } else {
        f->0 is Number && got == f->0->Number_0.reading().num@
    }
}

/// Whether a field says those elements, and none where it is missing.
pub open spec fn says_elements(f: Option<Json>, got: Seq<Json>) -> bool {
    if f is None {
        got.len() == 0
    } else {
        f->0 is Arr && got == f->0->Arr_0@
    }
}

/// Whether a field says those rows of texts, and none where it is missing.
pub open spec fn says_rows(f: Option<Json>, got: Seq<Seq<JsonText>>) -> bool {
    if f is None {
        got.len() == 0
    } else {
        &&& f->0 is Arr
        &&& got.len() == f->0->Arr_0@.len()
        &&& forall|i: int|
            0 <= i < got.len() ==> says_row(f->0->Arr_0@[i], #[trigger] got[i])
    }
}

/// Whether a value says that row of texts.
pub open spec fn says_row(v: Json, row: Seq<JsonText>) -> bool {
    &&& v is Arr
    &&& row.len() == v->Arr_0@.len()
    &&& forall|i: int| 0 <= i < row.len() ==> v->Arr_0@[i] == Json::Str(#[trigger] row[i])
}

/// Whether a field says that integer, zero where it is missing: an integer as
/// it is, wrapped round where it is too large; another number as its whole
/// part; a text as what it spells, or zero where it spells none.
pub open spec fn says_integer_or_zero(f: Option<Json>, got: i64) -> bool {
    if f is None {
        got == 0
    } else {
        match f->0 {
            Json::Number(JsonNumber::PosInt(v, _)) => got == v || got == v
                - 0x1_0000_0000_0000_0000,
            Json::Number(JsonNumber::NegInt(v, _)) => got == v,
            Json::Number(JsonNumber::Float(r, _)) => got == r.whole,
            Json::Str(t) => if signed_value(t.text@) is Some {
                Some(got) == signed_value(t.text@)
            } else {
                got == 0
            },
            _ => false,
        }
    }
}

/// Whether a field says that integer, and zero where it is missing.
pub open spec fn says_unsigned_or_zero(f: Option<Json>, got: u64) -> bool {
    if f is None {
        got == 0
    } else {
        f->0 is Number && f->0->Number_0 is PosInt && got == f->0->Number_0->PosInt_0
    }
}

/// Whether a field says that integer, and zero where it is missing.
pub open spec fn says_signed_or_zero(f: Option<Json>, got: i64) -> bool {
    if f is None {
        got == 0
    } else {
        f->0 is Number && ((f->0->Number_0 is PosInt && got == f->0->Number_0->PosInt_0) || (
        f->0->Number_0 is NegInt && got == f->0->Number_0->NegInt_0))
    }
}

/// A text, an integer or a truth value that may be missing or null is read as
/// what the field says, and is refused exactly where the field says none.
pub proof fn optional_fields_are_read(f: Option<Json>)
    ensures
        optional_text_field(f) is Some <==> is_absent(f) || f->0 is Str,
        optional_text_field(f) matches Some(got) ==> says_text(f, got),
        optional_unsigned_field(f) is Some <==> is_absent(f) || (f->0 is Number
            && f->0->Number_0 is PosInt),
        optional_unsigned_field(f) matches Some(got) ==> says_unsigned(f, got),
        optional_bool_field(f) is Some <==> is_absent(f) || f->0 is Bool,
        optional_bool_field(f) matches Some(got) ==> says_flag(f, got),
        any_field(f) == (if is_absent(f) {
            None
        } else {
            f
        }),
{
}

/// A field with a default is read as what it says, and is refused exactly
/// where it is of another kind.
pub proof fn fields_are_read(f: Option<Json>)
    ensures
        text_field(f) is Some <==> f is None || f->0 is Str,
        text_field(f) matches Some(got) ==> says_text_or_empty(f, got),
        number_or_text_field(f) is Some <==> f is None || f->0 is Str || f->0 is Number,
        number_or_text_field(f) matches Some(got) ==> says_number_or_text(f, got),
        double_field(f) is Some <==> f is None || f->0 is Number,
        double_field(f) matches Some(got) ==> says_double(f, got),
        array_field(f) is Some <==> f is None || f->0 is Arr,
        array_field(f) matches Some(got) ==> says_elements(f, got),
        integer_or_zero_field(f) is Some <==> f is None || f->0 is Number || f->0 is Str,
        integer_or_zero_field(f) matches Some(got) ==> says_integer_or_zero(f, got),
        unsigned_field(f) is Some <==> f is None || (f->0 is Number && f->0->Number_0 is PosInt),
        unsigned_field(f) matches Some(got) ==> says_unsigned_or_zero(f, got),
        signed_field(f) is Some <==> f is None || (f->0 is Number && (f->0->Number_0 is NegInt || (
        f->0->Number_0 is PosInt && f->0->Number_0->PosInt_0 <= i64::MAX))),
        signed_field(f) matches Some(got) ==> says_signed_or_zero(f, got),
{
}

/// Whether a value is an array of texts.
pub open spec fn is_row(v: Json) -> bool {
    v is Arr && forall|i: int| 0 <= i < v->Arr_0@.len() ==> #[trigger] v->Arr_0@[i] is Str
}

/// Rows of texts are read as what the field says, and are refused exactly
/// where the field is no array of arrays of texts.
pub proof fn rows_are_read(f: Option<Json>)
    ensures
        rows_field(f) is Some <==> f is None || (f->0 is Arr && forall|i: int|
            0 <= i < f->0->Arr_0@.len() ==> is_row(#[trigger] f->0->Arr_0@[i])),
        rows_field(f) matches Some(got) ==> says_rows(f, got),
{
    if f is Some && f->0 is Arr {
        let a = f->0->Arr_0@;
        if forall|i: int| 0 <= i < a.len() ==> is_row(#[trigger] a[i]) {
            assert(crate::json::all_text_rows(a));
        }
        if crate::json::all_text_rows(a) {
            assert forall|i: int| 0 <= i < a.len() implies is_row(#[trigger] a[i]) by {
                assert(crate::json::all_texts(a[i]->Arr_0@));
            }
            let got = rows_field(f)->0;
            assert forall|i: int| 0 <= i < got.len() implies says_row(a[i], #[trigger] got[i]) by {
                assert(is_row(a[i]));
            }
        }
    }
}

} // verus!
