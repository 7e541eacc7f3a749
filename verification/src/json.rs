//! JSON values: the executable type the protocol logic works on, its
//! mathematical model, and the accessors the handlers read requests with
//! (keyed lookup, positional lookup, and the string and integer views of a value).
use vstd::prelude::*;

verus! {

/// A JSON number, held the way a JSON value model holds it: a non-negative
/// integer, a negative integer, or a finite float carried by its IEEE-754 bits.
/// Numbers built by this library keep `NegInt` for negative values only.
#[derive(Clone, Copy, Debug, PartialEq, Eq, Structural)]
pub enum Number {
    PosInt(u64),
    NegInt(i64),
    Float(u64),
}

/// An executable JSON value. Object entries are kept as a list of key/value
/// pairs; a key that occurs more than once is bound to its last value.
#[derive(Debug, PartialEq)]
pub enum Json {
    Null,
    Bool(bool),
    Number(Number),
    Str(String),
    Array(Vec<Json>),
    Object(Vec<(String, Json)>),
}

/// The mathematical model of a JSON value.
pub enum SpecJson {
    Null,
    Bool(bool),
    Number(Number),
    Str(Seq<char>),
    Array(Seq<SpecJson>),
    Object(Seq<(Seq<char>, SpecJson)>),
}

/// The model of an executable JSON value.
pub open spec fn model(j: &Json) -> SpecJson
    decreases j,
{
    match j {
        Json::Null => SpecJson::Null,
        Json::Bool(b) => SpecJson::Bool(*b),
        Json::Number(n) => SpecJson::Number(*n),
        Json::Str(s) => SpecJson::Str(s@),
        Json::Array(items) => SpecJson::Array(
            Seq::new(
                items.len() as nat,
                |i: int|
                    if 0 <= i < items.len() {
                        model(&items[i])
                    } else {
                        SpecJson::Null
                    },
            ),
        ),
        Json::Object(entries) => SpecJson::Object(
            Seq::new(
                entries.len() as nat,
                |i: int|
                    if 0 <= i < entries.len() {
                        (entries[i].0@, model(&entries[i].1))
                    } else {
                        (Seq::empty(), SpecJson::Null)
                    },
            ),
        ),
    }
}

impl View for Json {
    type V = SpecJson;

    open spec fn view(&self) -> SpecJson {
        model(self)
    }
}

/// The value bound to `key` among `entries`: the last binding of the key,
/// as inserting the entries in order into a map would leave it.
pub open spec fn lookup(entries: Seq<(Seq<char>, SpecJson)>, key: Seq<char>) -> Option<SpecJson>
    decreases entries.len(),
{
    if entries.len() == 0 {
        None
    } else if entries.last().0 == key {
        Some(entries.last().1)
    } else {
        lookup(entries.drop_last(), key)
    }
}

/// The number that an `i64` becomes in a JSON value.
pub open spec fn number_of_i64(n: i64) -> Number {
    if n < 0 {
        Number::NegInt(n)
    } else {
        Number::PosInt(n as u64)
    }
}

impl SpecJson {
    /// The value under `key` of an object; nothing for any other value.
    pub open spec fn get(self, key: Seq<char>) -> Option<SpecJson> {
        match self {
            SpecJson::Object(entries) => lookup(entries, key),
            _ => None,
        }
    }

    /// Indexing by a key: the value under `key`, or null where there is none.
    pub open spec fn field(self, key: Seq<char>) -> SpecJson {
        match self.get(key) {
            Some(v) => v,
            None => SpecJson::Null,
        }
    }

    /// Indexing by a position: the array element at `i`, or null where there is none.
    pub open spec fn item(self, i: int) -> SpecJson {
        match self {
            SpecJson::Array(items) => if 0 <= i < items.len() {
                items[i]
            } else {
                SpecJson::Null
            },
            _ => SpecJson::Null,
        }
    }

    /// The text of a string value.
    pub open spec fn as_str(self) -> Option<Seq<char>> {
        match self {
            SpecJson::Str(s) => Some(s),
            _ => None,
        }
    }

    /// The value as an `i64`, for an integer that fits in one.
    pub open spec fn as_i64(self) -> Option<i64> {
        match self {
            SpecJson::Number(Number::PosInt(n)) => if n <= i64::MAX {
                Some(n as i64)
            } else {
                None
            },
            SpecJson::Number(Number::NegInt(n)) => Some(n),
            _ => None,
        }
    }

    /// The value as a `u64`, for a non-negative integer.
    pub open spec fn as_u64(self) -> Option<u64> {
        match self {
            SpecJson::Number(Number::PosInt(n)) => Some(n),
            _ => None,
        }
    }
}

/// Whether two strings hold the same text.
pub fn same_text(a: &str, b: &str) -> (r: bool)
    ensures
        r == (a@ == b@),
{
    let a = String::from_str(a);
    let b = String::from_str(b);
    a == b
}

impl Json {
    /// A string value with the text of `s`.
    pub fn text(s: &str) -> (r: Json)
        ensures
            r@ == SpecJson::Str(s@),
    {
        Json::Str(String::from_str(s))
    }

    /// The JSON number for an `i64`.
    pub fn from_i64(n: i64) -> (r: Json)
        ensures
            r@ == SpecJson::Number(number_of_i64(n)),
    {
        if n < 0 {
            Json::Number(Number::NegInt(n))
        } else {
            Json::Number(Number::PosInt(n as u64))
        }
    }

    /// The JSON number for a `u64`.
    pub fn from_u64(n: u64) -> (r: Json)
        ensures
            r@ == SpecJson::Number(Number::PosInt(n)),
    {
        Json::Number(Number::PosInt(n))
    }

    /// A copy of the value, element by element.
    #[verifier::loop_isolation(false)]
    pub fn deep_copy(&self) -> (r: Json)
        ensures
            r@ == self@,
        decreases self,
    {
        match self {
            Json::Null => Json::Null,
            Json::Bool(b) => Json::Bool(*b),
            Json::Number(n) => Json::Number(*n),
            Json::Str(s) => Json::Str(s.clone()),
            Json::Array(items) => {
                let mut out: Vec<Json> = Vec::new();
                let mut i: usize = 0;
                while i < items.len()
                    invariant
                        i <= items.len(),
                        out.len() == i,
                        forall|k: int| 0 <= k < i ==> #[trigger] out[k]@ == items[k]@,
                    decreases items.len() - i,
                {
                    let ghost before = out@;
                    out.push(items[i].deep_copy());
                    assert forall|k: int| 0 <= k <= i implies #[trigger] out[k]@ == items[k]@ by {
                        if k < i {
                            assert(out[k] == before[k]);
                        }
                    }
                    i = i + 1;
                }
                let r = Json::Array(out);
                assert(r@ == self@) by {
                    let a = model(&r)->Array_0;
                    let b = model(self)->Array_0;
                    assert(a.len() == b.len());
                    assert forall|k: int| 0 <= k < a.len() implies a[k] == b[k] by {
                        assert(out[k]@ == items[k]@);
                    }
                    assert(a =~= b);
                }
                r
            },
            Json::Object(entries) => {
                let mut out: Vec<(String, Json)> = Vec::new();
                let mut i: usize = 0;
                while i < entries.len()
                    invariant
                        i <= entries.len(),
                        out.len() == i,
                        forall|k: int|
                            0 <= k < i ==> #[trigger] out@[k].0@ == entries@[k].0@ && out@[k].1@
                                == entries@[k].1@,
                    decreases entries.len() - i,
                {
                    let key = entries[i].0.clone();
                    let value = entries[i].1.deep_copy();
                    let ghost before = out@;
                    out.push((key, value));
                    assert forall|k: int| 0 <= k <= i implies #[trigger] out@[k].0@ == entries@[k].0@
                        && out@[k].1@ == entries@[k].1@ by {
                        if k < i {
                            assert(out@[k] == before[k]);
                            assert(before[k].0@ == entries@[k].0@);
                            assert(before[k].1@ == entries@[k].1@);
                        } else {
                            assert(out@[k].0@ == entries@[k].0@);
                            assert(out@[k].1@ == entries@[k].1@);
                        }
                    }
                    i = i + 1;
                }
                let r = Json::Object(out);
                assert(r@ == self@) by {
                    assert(model(&r)->Object_0 =~= model(self)->Object_0);
                }
                r
            },
        }
    }

    /// The value under `key`, where `self` is an object that binds it.
    #[verifier::loop_isolation(false)]
    pub fn get(&self, key: &str) -> (r: Option<&Json>)
        ensures
            match r {
                Some(v) => self@.get(key@) == Some(v@),
                None => self@.get(key@) is None,
            },
    {
        match self {
            Json::Object(entries) => {
                let ghost es = self@->Object_0;
                let mut i: usize = entries.len();
                assert(es.take(i as int) =~= es);
                while i > 0
                    invariant
                        i <= entries.len(),
                        lookup(es, key@) == lookup(es.take(i as int), key@),
                    decreases i,
                {
                    assert(es.take(i as int).drop_last() =~= es.take(i - 1));
                    if same_text(entries[i - 1].0.as_str(), key) {
                        return Some(&entries[i - 1].1);
                    }
                    i = i - 1;
                }
                None
            },
            _ => None,
        }
    }

    /// The element at position `i`, where `self` is an array that long.
    pub fn item(&self, i: usize) -> (r: Option<&Json>)
        ensures
            match r {
                Some(v) => self@ is Array && i < self@->Array_0.len() && self@.item(i as int) == v@,
                None => self@.item(i as int) == SpecJson::Null && !(self@ is Array && i < self@->Array_0.len()),
            },
    {
        match self {
            Json::Array(items) => {
                if i < items.len() {
                    Some(&items[i])
                } else {
                    None
                }
            },
            _ => None,
        }
    }

    /// The text of a string value.
    pub fn as_str(&self) -> (r: Option<&str>)
        ensures
            match r {
                Some(s) => self@.as_str() == Some(s@),
                None => self@.as_str() is None,
            },
    {
        match self {
            Json::Str(s) => Some(s.as_str()),
            _ => None,
        }
    }

    /// The value as an `i64`, for an integer that fits in one.
    pub fn as_i64(&self) -> (r: Option<i64>)
        ensures
            r == self@.as_i64(),
    {
        match self {
            Json::Number(Number::PosInt(n)) => {
                if *n <= 9223372036854775807u64 {
                    Some(*n as i64)
                } else {
                    None
                }
            },
            Json::Number(Number::NegInt(n)) => Some(*n),
            _ => None,
        }
    }

    /// The value as a `u64`, for a non-negative integer.
    pub fn as_u64(&self) -> (r: Option<u64>)
        ensures
            r == self@.as_u64(),
    {
        match self {
            Json::Number(Number::PosInt(n)) => Some(*n),
            _ => None,
        }
    }
}

/// Keyed lookup finds the value bound last: a key bound at the end of an
/// object's entries reads as that value, a binding of another key leaves the
/// lookup as it was, and no entries bind nothing.
pub proof fn lemma_lookup_last_binding(entries: Seq<(Seq<char>, SpecJson)>, key: Seq<char>, other: Seq<char>, v: SpecJson)
    ensures
        lookup(entries.push((key, v)), key) == Some(v),
        other != key ==> lookup(entries.push((other, v)), key) == lookup(entries, key),
        lookup(Seq::<(Seq<char>, SpecJson)>::empty(), key) is None,
        SpecJson::Object(entries.push((key, v))).field(key) == v,
{
    assert(entries.push((key, v)).drop_last() =~= entries);
    assert(entries.push((other, v)).drop_last() =~= entries);
}

/// A value bound under a key is found by it; a value that is not an object has no keys.
pub proof fn lemma_lookup_finds_bound_key(entries: Seq<(Seq<char>, SpecJson)>, key: Seq<char>, i: int, v: SpecJson)
    requires
        0 <= i < entries.len(),
        entries[i] == (key, v),
        forall|j: int| i < j < entries.len() ==> (#[trigger] entries[j]).0 != key,
    ensures
        lookup(entries, key) == Some(v),
        SpecJson::Null.get(key) is None,
        SpecJson::Array(Seq::empty()).get(key) is None,
    decreases entries.len(),
{
    if i < entries.len() - 1 {
        assert(entries.last() == entries[entries.len() - 1]);
        lemma_lookup_finds_bound_key(entries.drop_last(), key, i, v);
    }
}

/// The integer views of a number give back the integer it was made from:
/// an `i64` reads back as itself, and as a `u64` exactly when it is not
/// negative; a `u64` reads back as itself, and as an `i64` exactly when it fits.
pub proof fn lemma_number_views(x: i64, n: u64)
    ensures
        SpecJson::Number(number_of_i64(x)).as_i64() == Some(x),
        x >= 0 ==> SpecJson::Number(number_of_i64(x)).as_u64() == Some(x as u64),
        x < 0 ==> SpecJson::Number(number_of_i64(x)).as_u64() is None,
        SpecJson::Number(Number::PosInt(n)).as_u64() == Some(n),
        n <= i64::MAX ==> SpecJson::Number(Number::PosInt(n)).as_i64() == Some(n as i64),
        n > i64::MAX ==> SpecJson::Number(Number::PosInt(n)).as_i64() is None,
        SpecJson::Number(Number::Float(n)).as_i64() is None,
        SpecJson::Number(Number::Float(n)).as_u64() is None,
{
}

/// Positional lookup gives the element at that place of an array, and null
/// past its end or in anything that is not an array.
pub proof fn lemma_item_positions(items: Seq<SpecJson>, i: int, v: SpecJson)
    ensures
        0 <= i < items.len() ==> SpecJson::Array(items).item(i) == items[i],
        SpecJson::Array(items.push(v)).item(items.len() as int) == v,
        SpecJson::Array(items).item(items.len() as int) == SpecJson::Null,
        SpecJson::Null.item(i) == SpecJson::Null,
        SpecJson::Str(Seq::empty()).item(i) == SpecJson::Null,
{
}

/// The model keeps each scalar as it is and each array element in its place.
pub proof fn lemma_model_keeps_values(b: bool, n: Number, s: String, items: Vec<Json>, i: int)
    ensures
        model(&Json::Null) == SpecJson::Null,
        model(&Json::Bool(b)) == SpecJson::Bool(b),
        model(&Json::Number(n)) == SpecJson::Number(n),
        model(&Json::Str(s)) == SpecJson::Str(s@),
        model(&Json::Array(items))->Array_0.len() == items.len(),
        0 <= i < items.len() ==> model(&Json::Array(items))->Array_0[i] == model(&items[i]),
{
}

} // verus!
