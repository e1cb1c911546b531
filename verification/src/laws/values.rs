//! What the laws share.

use vstd::prelude::*;

use crate::appear_x::capabilities::{self, RecordView};
use crate::double::Double;
use crate::json::{self, Exact, JsonView, Number, Reading};

verus! {

/// A letter of a name as a number; zero where there is none.
pub open spec fn letter(name: Seq<char>, i: int) -> int {
    if 0 <= i < name.len() {
        name[i] as int
    } else {
        0
    }
}

/// A member of a value that may be absent.
pub open spec fn under(o: Option<JsonView>, key: Seq<char>) -> Option<JsonView> {
    match o {
        Some(JsonView::Object(m)) => if m.contains_key(key) {
            Some(m[key])
        } else {
            None
        },
        _ => None,
    }
}

/// The elements of an array; nothing of any other value.
pub open spec fn elements(o: Option<JsonView>) -> Seq<JsonView> {
    match o {
        Some(JsonView::Array(a)) => a,
        _ => Seq::empty(),
    }
}

/// A text, or the given one.
pub open spec fn text_or(o: Option<JsonView>, otherwise: Seq<char>) -> Seq<char> {
    match o {
        Some(JsonView::Text(s)) => s,
        _ => otherwise,
    }
}

/// A text, where there is one.
pub open spec fn text_in(o: Option<JsonView>) -> Option<Seq<char>> {
    match o {
        Some(JsonView::Text(s)) => Some(s),
        _ => None,
    }
}

/// A received number, where there is one.
pub open spec fn measured(o: Option<JsonView>) -> Option<Reading> {
    match o {
        Some(JsonView::Number(n)) => n.reading,
        _ => None,
    }
}

/// A whole number that is not negative.
pub open spec fn number(n: nat) -> JsonView {
    JsonView::Number(Number { exact: Exact::Unsigned(n as u64), reading: None })
}

/// What a measurement is written as: `null` where it is infinite or no number.
pub open spec fn written(d: Double) -> JsonView {
    if d.bits as int % 0x8000_0000_0000_0000 < 0x7ff0_0000_0000_0000 {
        JsonView::Number(Number { exact: Exact::Float(d), reading: None })
    } else {
        JsonView::Null
    }
}

/// What is written where there may be nothing.
pub open spec fn maybe_written(o: Option<Double>) -> Option<JsonView> {
    match o {
        Some(d) => Some(written(d)),
        None => None,
    }
}

/// A truth value where there may be none.
pub open spec fn maybe_bool(o: Option<bool>) -> Option<JsonView> {
    match o {
        Some(b) => Some(JsonView::Bool(b)),
        None => None,
    }
}

/// A text where there may be none.
pub open spec fn maybe_text(o: Option<Seq<char>>) -> Option<JsonView> {
    match o {
        Some(s) => Some(JsonView::Text(s)),
        None => None,
    }
}

/// Reading a member is taking it from the object.
pub proof fn lemma_under(o: Option<JsonView>, key: Seq<char>)
    ensures
        json::member_of(o, key) == under(o, key),
        json::value_in(o, key) == under(under(o, key), "value"@),
{
}

/// The record under a name is the one that has it, where only one does.
pub proof fn lemma_find_record(records: Seq<RecordView>, key: Seq<char>, k: int)
    ensures
        (0 <= k < records.len() && records[k].interface + "/"@ + records[k].module == key && (
        forall|j: int|
            0 <= j < records.len() && j != k ==> (#[trigger] records[j]).interface + "/"@
                + records[j].module != key)) ==> capabilities::find_record(records, key) == Some(
            records[k],
        ),
        (forall|j: int|
            0 <= j < records.len() ==> (#[trigger] records[j]).interface + "/"@ + records[j].module
                != key) ==> capabilities::find_record(records, key) is None,
    decreases records.len(),
{
    if records.len() > 0 {
        let rest = records.subrange(1, records.len() as int);
        lemma_find_record(rest, key, k - 1);
        assert forall|j: int| 0 <= j < rest.len() implies (#[trigger] rest[j]) == records[j + 1] by {}
        assert(records[0].key() == records[0].interface + "/"@ + records[0].module);
        if forall|j: int|
            0 <= j < records.len() ==> (#[trigger] records[j]).interface + "/"@ + records[j].module
                != key {
            assert forall|j: int| 0 <= j < rest.len() implies (#[trigger] rest[j]).interface + "/"@
                + rest[j].module != key by {
                assert(rest[j] == records[j + 1]);
            }
            assert(records[0].interface + "/"@ + records[0].module != key);
        }
        if 0 <= k < records.len() && (forall|j: int|
            0 <= j < records.len() && j != k ==> (#[trigger] records[j]).interface + "/"@
                + records[j].module != key) {
            if k > 0 {
                assert(records[0].interface + "/"@ + records[0].module != key);
                assert forall|j: int| 0 <= j < rest.len() && j != k - 1 implies (
                #[trigger] rest[j]).interface + "/"@ + rest[j].module != key by {
                    assert(rest[j] == records[j + 1]);
                }
                assert(rest[k - 1] == records[k]);
            }
        }
    }
}

} // verus!
