//! JSON values: what the unit answers, what the manager asks for and what the gateway sends.

use vstd::prelude::*;

use crate::double::Double;

verus! {

/// A number as it was written.
#[derive(Clone, Copy, Debug, PartialEq, Eq, Structural)]
pub enum Exact {
    /// A whole number that is not negative.
    Unsigned(u64),
    /// A whole number below zero.
    Negative(i64),
    /// Any other number.
    Float(Double),
}

/// A received number as a measurement.
#[derive(Clone, Copy, Debug, PartialEq, Eq, Structural)]
pub struct Reading {
    /// The number in double precision.
    pub value: Double,
    /// Ten times the decimal logarithm of the number: a power in milliwatts on the dBm scale. It
    /// has no meaning where the number is not positive.
    pub dbm: Double,
}

/// A JSON number.
#[derive(Clone, Copy, Debug, PartialEq, Eq, Structural)]
pub struct Number {
    pub exact: Exact,
    /// The number as a measurement, where it was received from outside.
    pub reading: Option<Reading>,
}

/// A JSON value.
#[derive(Debug)]
pub enum Json {
    Null,
    Bool(bool),
    Number(Number),
    Text(String),
    Array(Vec<Json>),
    Object(Object),
}

/// One member of an object.
#[derive(Debug)]
pub struct Member {
    pub key: String,
    pub value: Json,
}

/// A JSON object. Where a key occurs twice the last member counts.
#[derive(Debug)]
pub struct Object {
    pub members: Vec<Member>,
}

/// A JSON value without its representation.
pub enum JsonView {
    Null,
    Bool(bool),
    Number(Number),
    Text(Seq<char>),
    Array(Seq<JsonView>),
    Object(Map<Seq<char>, JsonView>),
}

/// What a JSON value stands for.
pub open spec fn json_view(j: Json) -> JsonView
    decreases j,
{
    match j {
        Json::Null => JsonView::Null,
        Json::Bool(b) => JsonView::Bool(b),
        Json::Number(n) => JsonView::Number(n),
        Json::Text(s) => JsonView::Text(s@),
        Json::Array(v) => JsonView::Array(items_view(v@)),
        Json::Object(o) => JsonView::Object(members_view(o.members@)),
    }
}

/// What a list of JSON values stands for.
pub open spec fn items_view(s: Seq<Json>) -> Seq<JsonView>
    decreases s,
{
    Seq::new(
        s.len(),
        |i: int|
            if 0 <= i < s.len() {
                json_view(s[i])
            } else {
                JsonView::Null
            },
    )
}

/// What a list of members stands for: the last member of a key counts.
pub open spec fn members_view(s: Seq<Member>) -> Map<Seq<char>, JsonView>
    decreases s,
{
    if s.len() == 0 {
        Map::empty()
    } else {
        let last = s[s.len() - 1];
        members_view(s.subrange(0, s.len() - 1)).insert(last.key@, json_view(last.value))
    }
}

impl View for Json {
    type V = JsonView;

    open spec fn view(&self) -> JsonView {
        json_view(*self)
    }
}

impl View for Object {
    type V = Map<Seq<char>, JsonView>;

    open spec fn view(&self) -> Map<Seq<char>, JsonView> {
        members_view(self.members@)
    }
}

/// The outside type that `serde_json` reads a text into.
#[verifier::external_type_specification]
#[verifier::external_body]
pub struct ExValue(serde_json::Value);

/// What `serde_json::from_str` reads in a text as a `serde_json::Value`; nothing where it fails.
pub uninterp spec fn parsed(text: Seq<char>) -> Option<JsonView>;

/// Takes the number in a `serde_json::Value` over with `as_u64`, `as_i64` and `as_f64`, in the kind in
/// which it is held: a whole number that is not negative, one below zero, or a double by its bits.
#[verifier::external_body]
fn exact_in(value: &serde_json::Value) -> Exact {
    match (value.as_u64(), value.as_i64()) {
        (Some(u), _) => Exact::Unsigned(u),
        (None, Some(i)) => Exact::Negative(i),
        (None, None) => Exact::Float(Double { bits: value.as_f64().map_or(0, |d| d.to_bits()) }),
    }
}

/// Takes a `serde_json::Value` over, variant by variant. Its numbers are no measurements.
#[verifier::external_body]
fn from_value(value: &serde_json::Value) -> Json {
    match value {
        serde_json::Value::Null => Json::Null,
        serde_json::Value::Bool(b) => Json::Bool(*b),
        serde_json::Value::Number(_) => {
            Json::Number(Number { exact: exact_in(value), reading: None })
        },
        serde_json::Value::String(s) => Json::Text(s.clone()),
        serde_json::Value::Array(a) => Json::Array(a.iter().map(from_value).collect()),
        serde_json::Value::Object(o) => Json::Object(Object {
            members: o.iter().map(|(k, v)| Member { key: k.clone(), value: from_value(v) }).collect(),
        }),
    }
}

/// Calls `serde_json::from_str` for a `serde_json::Value` and takes that value over. What is read
/// depends on the text alone and is known only by name. Why a text cannot be read is not said.
#[verifier::external_body]
pub(crate) fn parse(text: &str) -> (r: Option<Json>)
    ensures
        (match r {
            Some(j) => Some(j@),
            None => None,
        }) == parsed(text@),
{
    match serde_json::from_str::<serde_json::Value>(text) {
        Ok(value) => Some(from_value(&value)),
        Err(_) => None,
    }
}

/// What an optional reference stands for.
pub open spec fn option_view(o: Option<&Json>) -> Option<JsonView> {
    match o {
        Some(j) => Some(j@),
        None => None,
    }
}

/// What an optional text stands for.
pub open spec fn text_view(o: Option<&str>) -> Option<Seq<char>> {
    match o {
        Some(s) => Some(s@),
        None => None,
    }
}

/// What an optional owned text stands for.
pub open spec fn string_view(o: Option<String>) -> Option<Seq<char>> {
    match o {
        Some(s) => Some(s@),
        None => None,
    }
}

/// What a list of texts stands for.
pub open spec fn strings_view(v: Seq<String>) -> Seq<Seq<char>> {
    v.map_values(|s: String| s@)
}

impl JsonView {
    /// The member of an object under a key. Other values have no members.
    pub open spec fn get(self, key: Seq<char>) -> Option<JsonView> {
        match self {
            JsonView::Object(m) => if m.contains_key(key) {
                Some(m[key])
            } else {
                None
            },
            _ => None,
        }
    }

    /// The text, where the value is one.
    pub open spec fn text(self) -> Option<Seq<char>> {
        match self {
            JsonView::Text(s) => Some(s),
            _ => None,
        }
    }

    /// The truth value, where the value is one.
    pub open spec fn truth(self) -> Option<bool> {
        match self {
            JsonView::Bool(b) => Some(b),
            _ => None,
        }
    }

    /// The elements, where the value is an array.
    pub open spec fn items(self) -> Option<Seq<JsonView>> {
        match self {
            JsonView::Array(a) => Some(a),
            _ => None,
        }
    }

    /// The elements of an array; nothing of any other value.
    pub open spec fn items_or_none(self) -> Seq<JsonView> {
        match self {
            JsonView::Array(a) => a,
            _ => Seq::empty(),
        }
    }

    /// The number as an unsigned whole number, where it was written as one.
    pub open spec fn unsigned(self) -> Option<u64> {
        match self {
            JsonView::Number(n) => match n.exact {
                Exact::Unsigned(u) => Some(u),
                _ => None,
            },
            _ => None,
        }
    }

    /// The number as a signed whole number, where it was written as one that fits.
    pub open spec fn signed(self) -> Option<i64> {
        match self {
            JsonView::Number(n) => match n.exact {
                Exact::Unsigned(u) => if u <= i64::MAX {
                    Some(u as i64)
                } else {
                    None
                },
                Exact::Negative(i) => Some(i),
                Exact::Float(_) => None,
            },
            _ => None,
        }
    }

    /// The number in double precision, where it was not written as a whole number.
    pub open spec fn double(self) -> Option<Double> {
        match self {
            JsonView::Number(n) => match n.exact {
                Exact::Float(d) => Some(d),
                _ => None,
            },
            _ => None,
        }
    }

    /// The number as a measurement, where the value is a received number.
    pub open spec fn reading(self) -> Option<Reading> {
        match self {
            JsonView::Number(n) => n.reading,
            _ => None,
        }
    }

    /// Whether the value is an object without members.
    pub open spec fn empty_object(self) -> bool {
        self == JsonView::Object(Map::empty())
    }

    /// The number that a whole number is written as.
    pub open spec fn of_unsigned(n: nat) -> JsonView {
        JsonView::Number(Number { exact: Exact::Unsigned(n as u64), reading: None })
    }

    /// What a measurement is written as. JSON has no infinity.
    pub open spec fn of_double(d: Double) -> JsonView {
        if d.finite() {
            JsonView::Number(Number { exact: Exact::Float(d), reading: None })
        } else {
            JsonView::Null
        }
    }

    /// What a signed whole number is written as.
    pub open spec fn of_signed(i: i64) -> JsonView {
        if i < 0 {
            JsonView::Number(Number { exact: Exact::Negative(i), reading: None })
        } else {
            JsonView::of_unsigned(i as nat)
        }
    }

    /// What a text that may be absent is written as.
    pub open spec fn of_text(o: Option<Seq<char>>) -> JsonView {
        match o {
            Some(s) => JsonView::Text(s),
            None => JsonView::Null,
        }
    }
}

/// The member under a key of a value that may be absent.
pub open spec fn member_of(o: Option<JsonView>, key: Seq<char>) -> Option<JsonView> {
    match o {
        Some(j) => j.get(key),
        None => None,
    }
}

/// What the member under a key holds as its own member `value`.
pub open spec fn value_in(o: Option<JsonView>, key: Seq<char>) -> Option<JsonView> {
    member_of(member_of(o, key), "value"@)
}

/// The text of a value that may be absent.
pub open spec fn text_of(o: Option<JsonView>) -> Option<Seq<char>> {
    match o {
        Some(j) => j.text(),
        None => None,
    }
}

/// The elements of a value that may be absent.
pub open spec fn items_of(o: Option<JsonView>) -> Option<Seq<JsonView>> {
    match o {
        Some(j) => j.items(),
        None => None,
    }
}

/// A text, or the given one where it is absent.
pub open spec fn text_or(o: Option<Seq<char>>, otherwise: Seq<char>) -> Seq<char> {
    match o {
        Some(s) => s,
        None => otherwise,
    }
}

/// A value, or the given one where it is absent.
pub open spec fn value_or(o: Option<JsonView>, otherwise: JsonView) -> JsonView {
    match o {
        Some(j) => j,
        None => otherwise,
    }
}

/// The object without members.
pub open spec fn no_members() -> JsonView {
    JsonView::Object(Map::empty())
}

/// The array without elements.
pub open spec fn no_items() -> JsonView {
    JsonView::Array(Seq::empty())
}

impl Object {
    /// An object without members.
    pub fn new() -> (r: Object)
        ensures
            r@ == Map::<Seq<char>, JsonView>::empty(),
    {
        Object { members: Vec::new() }
    }

    /// Puts a member under a key, in place of the one that stood there.
    pub fn set(&mut self, key: &str, value: Json)
        ensures
            final(self)@ == old(self)@.insert(key@, value@),
    {
        let ghost before = self.members@;
        self.members.push(Member { key: key.to_owned(), value });
        assert(self.members@.subrange(0, self.members@.len() - 1) == before);
    }

    /// Takes the member under a key away.
    pub fn remove(&mut self, key: &str)
        ensures
            final(self)@ == old(self)@.remove(key@),
    {
        let wanted = key.to_owned();
        let mut rest: Vec<Member> = Vec::new();
        std::mem::swap(&mut rest, &mut self.members);
        let ghost all = rest@;
        assert(members_view(Seq::<Member>::empty()) == members_view(all.take(0)).remove(key@));
        for m in it: rest
            invariant
                it.seq() == all,
                wanted@ == key@,
                members_view(self.members@) == members_view(all.take(it.index())).remove(key@),
        {
            let ghost i = it.index();
            let ghost cur = all.take(i + 1);
            assert(cur.subrange(0, cur.len() - 1) == all.take(i));
            if m.key != wanted {
                let ghost before = self.members@;
                self.members.push(m);
                assert(self.members@.subrange(0, self.members@.len() - 1) == before);
            }
            assert(members_view(self.members@) == members_view(cur).remove(key@));
        }
        assert(all.take(all.len() as int) == all);
    }

    /// The member under a key.
    pub fn get(&self, key: &str) -> (r: Option<&Json>)
        ensures
            option_view(r) == JsonView::Object(self@).get(key@),
    {
        let wanted = key.to_owned();
        let mut i: usize = self.members.len();
        assert(self.members@.subrange(0, i as int) == self.members@);
        while i > 0
            invariant
                i <= self.members@.len(),
                wanted@ == key@,
                JsonView::Object(members_view(self.members@.subrange(0, i as int))).get(key@)
                    == JsonView::Object(self@).get(key@),
            decreases i,
        {
            let ghost cur = self.members@.subrange(0, i as int);
            assert(cur.subrange(0, cur.len() - 1) == self.members@.subrange(0, i - 1));
            i = i - 1;
            if self.members[i].key == wanted {
                return Some(&self.members[i].value);
            }
        }
        None
    }

    /// Whether the object has no members.
    pub fn is_empty(&self) -> (r: bool)
        ensures
            r == (self@ == Map::<Seq<char>, JsonView>::empty()),
    {
        proof {
            if self.members@.len() > 0 {
                let last = self.members@[self.members@.len() - 1];
                assert(self@.contains_key(last.key@));
            }
        }
        self.members.len() == 0
    }

    /// The same object again.
    pub fn copy(&self) -> (r: Object)
        ensures
            r@ == self@,
        decreases self,
    {
        let mut out: Vec<Member> = Vec::new();
        for i in 0..self.members.len()
            invariant
                members_view(out@) == members_view(self.members@.subrange(0, i as int)),
        {
            let ghost before = out@;
            let m = &self.members[i];
            assert(decreases_to!(self => self.members@[i as int].value)) by {
                assert(decreases_to!(self => self.members));
                assert(decreases_to!(self.members => self.members@));
                assert(decreases_to!(self.members@ => self.members@[i as int]));
                assert(decreases_to!(self.members@[i as int] => self.members@[i as int].value));
            }
            out.push(Member { key: m.key.clone(), value: m.value.copy() });
            assert(out@.subrange(0, out@.len() - 1) == before);
            let ghost cur = self.members@.subrange(0, i + 1);
            assert(cur.subrange(0, cur.len() - 1) == self.members@.subrange(0, i as int));
        }
        assert(self.members@.subrange(0, self.members@.len() as int) == self.members@);
        Object { members: out }
    }
}

impl Json {
    /// The same value again.
    pub fn copy(&self) -> (r: Json)
        ensures
            r@ == self@,
        decreases self,
    {
        match self {
            Json::Null => Json::Null,
            Json::Bool(b) => Json::Bool(*b),
            Json::Number(n) => Json::Number(*n),
            Json::Text(s) => Json::Text(s.clone()),
            Json::Array(v) => {
                let mut out: Vec<Json> = Vec::new();
                for i in 0..v.len()
                    invariant
                        *self == Json::Array(*v),
                        out@.len() == i,
                        forall|k: int| 0 <= k < i ==> (#[trigger] out@[k])@ == v@[k]@,
                {
                    assert(decreases_to!(self => v@[i as int])) by {
                        assert(decreases_to!(self => self->Array_0));
                        assert(decreases_to!(*v => v@));
                        assert(decreases_to!(v@ => v@[i as int]));
                    }
                    out.push(v[i].copy());
                }
                assert(items_view(out@) == items_view(v@));
                Json::Array(out)
            },
            Json::Object(o) => {
                Json::Object(o.copy())
            },
        }
    }

    /// The member of an object under a key.
    pub fn get(&self, key: &str) -> (r: Option<&Json>)
        ensures
            option_view(r) == self@.get(key@),
    {
        match self {
            Json::Object(o) => o.get(key),
            _ => None,
        }
    }

    /// The text, where the value is one.
    pub fn as_str(&self) -> (r: Option<&str>)
        ensures
            text_view(r) == self@.text(),
    {
        match self {
            Json::Text(s) => Some(s.as_str()),
            _ => None,
        }
    }

    /// The truth value, where the value is one.
    pub fn as_bool(&self) -> (r: Option<bool>)
        ensures
            r == self@.truth(),
    {
        match self {
            Json::Bool(b) => Some(*b),
            _ => None,
        }
    }

    /// The number as an unsigned whole number.
    pub fn as_u64(&self) -> (r: Option<u64>)
        ensures
            r == self@.unsigned(),
    {
        match self {
            Json::Number(n) => match n.exact {
                Exact::Unsigned(u) => Some(u),
                _ => None,
            },
            _ => None,
        }
    }

    /// The number as a signed whole number.
    pub fn as_i64(&self) -> (r: Option<i64>)
        ensures
            r == self@.signed(),
    {
        match self {
            Json::Number(n) => match n.exact {
                Exact::Unsigned(u) => if u <= i64::MAX as u64 {
                    Some(u as i64)
                } else {
                    None
                },
                Exact::Negative(i) => Some(i),
                Exact::Float(_) => None,
            },
            _ => None,
        }
    }

    /// The measurement that the gateway wrote, where the value is one.
    pub fn as_double(&self) -> (r: Option<Double>)
        ensures
            r == self@.double(),
    {
        match self {
            Json::Number(n) => match n.exact {
                Exact::Float(d) => Some(d),
                _ => None,
            },
            _ => None,
        }
    }

    /// The number as a measurement.
    pub fn as_reading(&self) -> (r: Option<Reading>)
        ensures
            r == self@.reading(),
    {
        match self {
            Json::Number(n) => n.reading,
            _ => None,
        }
    }

    /// The elements, where the value is an array.
    pub fn as_array(&self) -> (r: Option<&Vec<Json>>)
        ensures
            match r {
                Some(v) => self@.items() == Some(items_view(v@)),
                None => self@.items() is None,
            },
    {
        match self {
            Json::Array(v) => Some(v),
            _ => None,
        }
    }

    /// Whether the value is an object without members.
    pub fn is_empty_object(&self) -> (r: bool)
        ensures
            r == self@.empty_object(),
    {
        match self {
            Json::Object(o) => o.is_empty(),
            _ => false,
        }
    }

    /// The elements of an array; nothing of any other value.
    pub fn into_items(self) -> (r: Vec<Json>)
        ensures
            items_view(r@) == self@.items_or_none(),
    {
        match self {
            Json::Array(v) => v,
            _ => {
                let none: Vec<Json> = Vec::new();
                assert(items_view(none@) == Seq::<JsonView>::empty());
                none
            },
        }
    }

    /// A text.
    pub fn from_text(s: &str) -> (r: Json)
        ensures
            r@ == JsonView::Text(s@),
    {
        Json::Text(s.to_owned())
    }

    /// A whole number.
    pub fn from_u64(n: u64) -> (r: Json)
        ensures
            r@ == JsonView::of_unsigned(n as nat),
    {
        Json::Number(Number { exact: Exact::Unsigned(n), reading: None })
    }

    /// A measurement.
    pub fn from_double(d: Double) -> (r: Json)
        ensures
            r@ == JsonView::of_double(d),
    {
        if d.is_finite() {
            Json::Number(Number { exact: Exact::Float(d), reading: None })
        } else {
            Json::Null
        }
    }

    /// A signed whole number.
    pub fn from_i64(i: i64) -> (r: Json)
        ensures
            r@ == JsonView::of_signed(i),
    {
        if i < 0 {
            Json::Number(Number { exact: Exact::Negative(i), reading: None })
        } else {
            Json::from_u64(i as u64)
        }
    }

    /// A text that may be absent.
    pub fn from_option(o: Option<&String>) -> (r: Json)
        ensures
            r@ == JsonView::of_text(
                match o {
                    Some(s) => Some(s@),
                    None => None,
                },
            ),
    {
        match o {
            Some(s) => Json::from_text(s.as_str()),
            None => Json::Null,
        }
    }

    /// The object without members.
    pub fn empty() -> (r: Json)
        ensures
            r@ == no_members(),
    {
        Json::Object(Object::new())
    }

    /// The array without elements.
    pub fn nothing() -> (r: Json)
        ensures
            r@ == no_items(),
    {
        let none: Vec<Json> = Vec::new();
        assert(items_view(none@) == Seq::<JsonView>::empty());
        Json::Array(none)
    }
}

/// The member under a key of a value that may be absent.
pub fn get_in<'a>(o: Option<&'a Json>, key: &str) -> (r: Option<&'a Json>)
    ensures
        option_view(r) == member_of(option_view(o), key@),
{
    match o {
        Some(j) => j.get(key),
        None => None,
    }
}

/// What the member under a key holds as its own member `value`.
pub fn get_value_in<'a>(o: Option<&'a Json>, key: &str) -> (r: Option<&'a Json>)
    ensures
        option_view(r) == value_in(option_view(o), key@),
{
    get_in(get_in(o, key), "value")
}

/// The text of a value that may be absent.
pub fn str_in<'a>(o: Option<&'a Json>) -> (r: Option<&'a str>)
    ensures
        text_view(r) == text_of(option_view(o)),
{
    match o {
        Some(j) => j.as_str(),
        None => None,
    }
}

/// The owned text of a value that may be absent.
pub fn string_in(o: Option<&Json>) -> (r: Option<String>)
    ensures
        string_view(r) == text_of(option_view(o)),
{
    match str_in(o) {
        Some(s) => Some(s.to_owned()),
        None => None,
    }
}

/// The text of a value that may be absent, or the given one.
pub fn string_or(o: Option<&Json>, otherwise: &str) -> (r: String)
    ensures
        r@ == text_or(text_of(option_view(o)), otherwise@),
{
    match str_in(o) {
        Some(s) => s.to_owned(),
        None => otherwise.to_owned(),
    }
}

/// A value again, or the given one where it is absent.
pub fn copy_or(o: Option<&Json>, otherwise: Json) -> (r: Json)
    ensures
        r@ == value_or(option_view(o), otherwise@),
{
    match o {
        Some(j) => j.copy(),
        None => otherwise,
    }
}

/// The same list of values again.
pub fn copy_items(v: &Vec<Json>) -> (r: Vec<Json>)
    ensures
        items_view(r@) == items_view(v@),
{
    let mut out: Vec<Json> = Vec::new();
    for i in 0..v.len()
        invariant
            out@.len() == i,
            forall|k: int| 0 <= k < i ==> (#[trigger] out@[k])@ == v@[k]@,
    {
        out.push(v[i].copy());
    }
    assert(items_view(out@) == items_view(v@));
    out
}

} // verus!
