//! JSON values as the protocol messages use them, with their mathematical
//! model, construction helpers and lookups.
use vstd::prelude::*;
use crate::text::str_eq;

verus! {

/// A JSON value. Integers are held as `i64`; other numbers are carried as
/// their JSON text.
#[derive(Debug)]
pub enum Json {
    Null,
    Bool(bool),
    Int(i64),
    Decimal(String),
    Str(String),
    Array(Vec<Json>),
    Object(Vec<(String, Json)>),
}

/// The model of a JSON value: strings as character sequences, objects as
/// sequences of (key, value) entries in order.
pub enum JsonV {
    Null,
    Bool(bool),
    Int(int),
    Decimal(Seq<char>),
    Str(Seq<char>),
    Array(Seq<JsonV>),
    Object(Seq<(Seq<char>, JsonV)>),
}

/// The model of a value.
pub open spec fn json_view(j: Json) -> JsonV
    decreases j, 0nat,
{
    match j {
        Json::Null => JsonV::Null,
        Json::Bool(b) => JsonV::Bool(b),
        Json::Int(i) => JsonV::Int(i as int),
        Json::Decimal(t) => JsonV::Decimal(t@),
        Json::Str(s) => JsonV::Str(s@),
        Json::Array(v) => JsonV::Array(json_views(v@)),
        Json::Object(v) => JsonV::Object(entry_views(v@)),
    }
}

/// The models of a sequence of values.
pub open spec fn json_views(s: Seq<Json>) -> Seq<JsonV>
    decreases s, s.len(),
{
    if s.len() == 0 {
        Seq::empty()
    } else {
        json_views(s.drop_last()).push(json_view(s.last()))
    }
}

/// The models of a sequence of object entries.
pub open spec fn entry_views(s: Seq<(String, Json)>) -> Seq<(Seq<char>, JsonV)>
    decreases s, s.len(),
{
    if s.len() == 0 {
        Seq::empty()
    } else {
        entry_views(s.drop_last()).push((s.last().0@, json_view(s.last().1)))
    }
}

impl View for Json {
    type V = JsonV;

    open spec fn view(&self) -> JsonV {
        json_view(*self)
    }
}

/// The value of the first entry with `key`.
pub open spec fn lookup(entries: Seq<(Seq<char>, JsonV)>, key: Seq<char>) -> Option<JsonV>
    decreases entries.len(),
{
    if entries.len() == 0 {
        None
    } else if entries[0].0 == key {
        Some(entries[0].1)
    } else {
        lookup(entries.drop_first(), key)
    }
}

/// The member `key` of an object; `None` for other values.
pub open spec fn member(j: JsonV, key: Seq<char>) -> Option<JsonV> {
    match j {
        JsonV::Object(entries) => lookup(entries, key),
        _ => None,
    }
}

/// The text of a string value; `None` for other values.
pub open spec fn string_of(j: Option<JsonV>) -> Option<Seq<char>> {
    match j {
        Some(JsonV::Str(s)) => Some(s),
        _ => None,
    }
}

/// The member `key` of `j` as a string, if it is one.
pub open spec fn string_member(j: JsonV, key: Seq<char>) -> Option<Seq<char>> {
    string_of(member(j, key))
}

/// An object value.
pub open spec fn is_object(j: Option<JsonV>) -> bool {
    j matches Some(JsonV::Object(_))
}

/// Looking a key up in two runs of entries: the first run's entry wins.
pub proof fn lemma_lookup_append(a: Seq<(Seq<char>, JsonV)>, b: Seq<(Seq<char>, JsonV)>, key: Seq<char>)
    ensures
        lookup(a + b, key) == match lookup(a, key) {
            Some(v) => Some(v),
            None => lookup(b, key),
        },
    decreases a.len(),
{
    if a.len() > 0 {
        assert((a + b).drop_first() =~= a.drop_first() + b);
        lemma_lookup_append(a.drop_first(), b, key);
    } else {
        assert(a + b =~= b);
    }
}

/// Looking a key up in a single entry.
pub proof fn lemma_lookup_single(k: Seq<char>, v: JsonV, key: Seq<char>)
    ensures
        lookup(seq![(k, v)], key) == if k == key {
            Some(v)
        } else {
            None
        },
{
    let s = seq![(k, v)];
    assert(s[0] == (k, v));
    assert(s.drop_first() =~= Seq::empty());
    assert(lookup(s.drop_first(), key) is None);
}

/// The models of a sequence of values, one by one.
pub proof fn lemma_json_views(s: Seq<Json>)
    ensures
        json_views(s).len() == s.len(),
        forall|i: int| 0 <= i < s.len() ==> #[trigger] json_views(s)[i] == json_view(s[i]),
    decreases s.len(),
{
    if s.len() > 0 {
        lemma_json_views(s.drop_last());
    }
}

/// The models of a sequence of entries, one by one.
pub proof fn lemma_entry_views(s: Seq<(String, Json)>)
    ensures
        entry_views(s).len() == s.len(),
        forall|i: int|
            0 <= i < s.len() ==> #[trigger] entry_views(s)[i] == (s[i].0@, json_view(s[i].1)),
    decreases s.len(),
{
    if s.len() > 0 {
        lemma_entry_views(s.drop_last());
    }
}

impl Json {
    /// A string value.
    pub fn string(s: &str) -> (j: Json)
        ensures
            j@ == JsonV::Str(s@),
    {
        Json::Str(s.to_owned())
    }

    /// An integer value.
    pub fn integer(i: i64) -> (j: Json)
        ensures
            j@ == JsonV::Int(i as int),
    {
        Json::Int(i)
    }

    /// An empty object.
    pub fn object() -> (j: Json)
        ensures
            j@ == JsonV::Object(Seq::empty()),
    {
        let v: Vec<(String, Json)> = Vec::new();
        let j = Json::Object(v);
        assert(entry_views(v@) =~= Seq::empty());
        j
    }

    /// An empty array.
    pub fn array() -> (j: Json)
        ensures
            j@ == JsonV::Array(Seq::empty()),
    {
        let v: Vec<Json> = Vec::new();
        let j = Json::Array(v);
        assert(json_views(v@) =~= Seq::empty());
        j
    }

    /// The object with one more entry, `key` set to `value`, at its end.
    pub fn with(self, key: &str, value: Json) -> (j: Json)
        requires
            self@ is Object,
        ensures
            j@ == JsonV::Object(self@->Object_0.push((key@, value@))),
    {
        match self {
            Json::Object(mut entries) => {
                let ghost before = entries@;
                entries.push((key.to_owned(), value));
                proof {
                    assert(entries@.drop_last() =~= before);
                }
                Json::Object(entries)
            },
            _ => {
                proof {
                    assert(false);
                }
                Json::Null
            },
        }
    }

    /// The array with `value` added at its end.
    pub fn with_item(self, value: Json) -> (j: Json)
        requires
            self@ is Array,
        ensures
            j@ == JsonV::Array(self@->Array_0.push(value@)),
    {
        match self {
            Json::Array(mut items) => {
                let ghost before = items@;
                items.push(value);
                proof {
                    assert(items@.drop_last() =~= before);
                }
                Json::Array(items)
            },
            _ => {
                proof {
                    assert(false);
                }
                Json::Null
            },
        }
    }

    /// The member `key` of an object (its first entry with that key); `None`
    /// for other values.
    pub fn get(&self, key: &str) -> (r: Option<&Json>)
        ensures
            match r {
                Some(v) => member(self@, key@) == Some(v@),
                None => member(self@, key@) is None,
            },
    {
        match self {
            Json::Object(entries) => {
                let ghost es = entry_views(entries@);
                proof {
                    assert(self@ == JsonV::Object(es));
                    lemma_entry_views(entries@);
                    assert(es.skip(0) =~= es);
                }
                let mut i: usize = 0;
                while i < entries.len()
                    invariant
                        i <= entries@.len(),
                        self@ == JsonV::Object(es),
                        es == entry_views(entries@),
                        es.len() == entries@.len(),
                        forall|k: int|
                            0 <= k < entries@.len() ==> #[trigger] es[k] == (
                                entries@[k].0@,
                                json_view(entries@[k].1),
                            ),
                        lookup(es, key@) == lookup(es.skip(i as int), key@),
                    decreases entries@.len() - i,
                {
                    let entry = &entries[i];
                    assert(es.skip(i as int)[0] == es[i as int]);
                    if str_eq(entry.0.as_str(), key) {
                        assert(es.skip(i as int).len() > 0);
                        assert(es.skip(i as int)[0].0 == key@);
                        assert(lookup(es.skip(i as int), key@) == Some(es.skip(i as int)[0].1));
                        assert(member(self@, key@) == Some(json_view(entries@[i as int].1)));
                        return Some(&entry.1);
                    }
                    assert(es.skip(i as int).drop_first() =~= es.skip(i + 1));
                    i = i + 1;
                }
                None
            },
            _ => None,
        }
    }

    /// The text of a string value.
    pub fn as_str(&self) -> (r: Option<&str>)
        ensures
            match r {
                Some(s) => self@ == JsonV::Str(s@),
                None => !(self@ is Str),
            },
    {
        match self {
            Json::Str(s) => Some(s.as_str()),
            _ => None,
        }
    }

    /// The value of an integer.
    pub fn as_i64(&self) -> (r: Option<i64>)
        ensures
            match r {
                Some(i) => self@ == JsonV::Int(i as int),
                None => !(self@ is Int),
            },
    {
        match self {
            Json::Int(i) => Some(*i),
            _ => None,
        }
    }

    /// Whether the value is an object.
    pub fn is_object(&self) -> (b: bool)
        ensures
            b == (self@ is Object),
    {
        match self {
            Json::Object(_) => true,
            _ => false,
        }
    }

    /// Whether the value is null.
    pub fn is_null(&self) -> (b: bool)
        ensures
            b == (self@ is Null),
    {
        match self {
            Json::Null => true,
            _ => false,
        }
    }

    /// A copy of the value.
    pub fn duplicate(&self) -> (j: Json)
        ensures
            j@ == self@,
        decreases self,
    {
        match self {
            Json::Null => Json::Null,
            Json::Bool(b) => Json::Bool(*b),
            Json::Int(i) => Json::Int(*i),
            Json::Decimal(t) => Json::Decimal(t.clone()),
            Json::Str(s) => Json::Str(s.clone()),
            Json::Array(items) => {
                let mut out: Vec<Json> = Vec::new();
                let mut i: usize = 0;
                proof {
                    lemma_json_views(items@);
                }
                while i < items.len()
                    invariant
                        *self == Json::Array(*items),
                        i <= items@.len(),
                        out@.len() == i,
                        json_views(items@).len() == items@.len(),
                        forall|k: int| 0 <= k < items@.len() ==> #[trigger] json_views(items@)[k]
                            == json_view(items@[k]),
                        forall|k: int| 0 <= k < i ==> json_view(#[trigger] out@[k]) == json_view(
                            items@[k],
                        ),
                    decreases items@.len() - i,
                {
                    proof {
                        assert(decreases_to!(*self => (*self)->Array_0));
                        assert((*self)->Array_0 == *items);
                        assert(decreases_to!(*items => items@));
                        assert(decreases_to!(items@ => items@[i as int]));
                    }
                    out.push(items[i].duplicate());
                    i = i + 1;
                }
                proof {
                    lemma_json_views(out@);
                    assert(json_views(out@) =~= json_views(items@));
                }
                Json::Array(out)
            },
            Json::Object(entries) => {
                let mut out: Vec<(String, Json)> = Vec::new();
                let mut i: usize = 0;
                proof {
                    lemma_entry_views(entries@);
                }
                while i < entries.len()
                    invariant
                        *self == Json::Object(*entries),
                        i <= entries@.len(),
                        out@.len() == i,
                        entry_views(entries@).len() == entries@.len(),
                        forall|k: int| 0 <= k < entries@.len() ==> #[trigger] entry_views(
                            entries@,
                        )[k] == (entries@[k].0@, json_view(entries@[k].1)),
                        forall|k: int|
                            0 <= k < i ==> (#[trigger] out@[k]).0@ == entries@[k].0@
                                && json_view(out@[k].1) == json_view(entries@[k].1),
                    decreases entries@.len() - i,
                {
                    let entry = &entries[i];
                    proof {
                        assert(decreases_to!(*self => (*self)->Object_0));
                        assert((*self)->Object_0 == *entries);
                        assert(decreases_to!(*entries => entries@));
                        assert(decreases_to!(entries@ => entries@[i as int]));
                        assert(decreases_to!(entries@[i as int] => entries@[i as int].1));
                    }
                    let value = entry.1.duplicate();
                    out.push((entry.0.clone(), value));
                    i = i + 1;
                }
                proof {
                    lemma_entry_views(out@);
                    assert(entry_views(out@) =~= entry_views(entries@));
                }
                Json::Object(out)
            },
        }
    }
}

impl Clone for Json {
    /// A copy of the value.
    fn clone(&self) -> (j: Json)
        ensures
            j@ == self@,
    {
        self.duplicate()
    }
}

} // verus!
