//! A JSON document as plain data, with the reads that ingestion makes of it.

use vstd::prelude::*;
use crate::text::{decimal, decimal_i64, decimal_u64, same_text, signed_decimal};

verus! {

/// A JSON number: an integer where it is one, else its decimal text.
#[derive(Debug)]
pub enum JsonNumber {
    /// An integer that is not negative.
    PosInt(u64),
    /// A negative integer.
    NegInt(i64),
    /// A number with a fraction or an exponent, as the text that stands for it.
    Real(String),
}

/// A member of a JSON object.
#[derive(Debug)]
pub struct Member {
    pub name: String,
    pub value: Json,
}

/// A JSON value. An object keeps its members in order; where a name occurs more
/// than once, the first member of that name is the one that reads find.
#[derive(Debug)]
pub enum Json {
    Null,
    Bool(bool),
    Number(JsonNumber),
    Str(String),
    Array(Vec<Json>),
    Object(Vec<Member>),
}

pub enum NumberView {
    PosInt(u64),
    NegInt(i64),
    Real(Seq<char>),
}

pub enum JsonView {
    Null,
    Bool(bool),
    Number(NumberView),
    Str(Seq<char>),
    Array(Seq<JsonView>),
    Object(Seq<(Seq<char>, JsonView)>),
}

impl NumberView {
    /// The number as it is written.
    pub open spec fn text(self) -> Seq<char> {
        match self {
            NumberView::PosInt(n) => decimal(n as nat),
            NumberView::NegInt(n) => signed_decimal(n as int),
            NumberView::Real(t) => t,
        }
    }

    /// The number as a signed 64-bit integer, where it is one.
    pub open spec fn as_i64(self) -> Option<i64> {
        match self {
            NumberView::PosInt(n) => if n <= i64::MAX {
                Some(n as i64)
            } else {
                None
            },
            NumberView::NegInt(n) => Some(n),
            NumberView::Real(_) => None,
        }
    }
}

/// The value of the first member called `key`.
pub open spec fn lookup(members: Seq<(Seq<char>, JsonView)>, key: Seq<char>) -> Option<JsonView>
    decreases members.len(),
{
    if members.len() == 0 {
        None
    } else if members[0].0 == key {
        Some(members[0].1)
    } else {
        lookup(members.skip(1), key)
    }
}

/// The members with `key` set to `value`: in place of the first member of that
/// name, or at the end where there is none.
pub open spec fn put(
    members: Seq<(Seq<char>, JsonView)>,
    key: Seq<char>,
    value: JsonView,
) -> Seq<(Seq<char>, JsonView)>
    decreases members.len(),
{
    if members.len() == 0 {
        seq![(key, value)]
    } else if members[0].0 == key {
        members.update(0, (key, value))
    } else {
        seq![members[0]] + put(members.skip(1), key, value)
    }
}

impl JsonView {
    /// The member called `key`, where the value is an object that has one.
    pub open spec fn get(self, key: Seq<char>) -> Option<JsonView> {
        match self {
            JsonView::Object(members) => lookup(members, key),
            _ => None,
        }
    }

    /// An object with `key` set to `value`; any other value as it is.
    pub open spec fn with_member(self, key: Seq<char>, value: JsonView) -> JsonView {
        match self {
            JsonView::Object(members) => JsonView::Object(put(members, key, value)),
            _ => self,
        }
    }
}

impl View for JsonNumber {
    type V = NumberView;

    open spec fn view(&self) -> NumberView {
        match self {
            JsonNumber::PosInt(n) => NumberView::PosInt(*n),
            JsonNumber::NegInt(n) => NumberView::NegInt(*n),
            JsonNumber::Real(t) => NumberView::Real(t@),
        }
    }
}

/// What a value holds, as mathematics.
pub open spec fn json_view(value: Json) -> JsonView
    decreases value,
{
    match value {
        Json::Null => JsonView::Null,
        Json::Bool(b) => JsonView::Bool(b),
        Json::Number(n) => JsonView::Number(n@),
        Json::Str(s) => JsonView::Str(s@),
        Json::Array(items) => JsonView::Array(
            Seq::new(
                items.len() as nat,
                |i: int|
                    if 0 <= i < items.len() {
                        json_view(items[i])
                    } else {
                        JsonView::Null
                    },
            ),
        ),
        Json::Object(members) => JsonView::Object(
            Seq::new(
                members.len() as nat,
                |i: int|
                    if 0 <= i < members.len() {
                        (members[i].name@, json_view(members[i].value))
                    } else {
                        (Seq::empty(), JsonView::Null)
                    },
            ),
        ),
    }
}

impl View for Json {
    type V = JsonView;

    open spec fn view(&self) -> JsonView {
        json_view(*self)
    }
}

/// The values of an array, each by its view.
pub open spec fn items_view(items: Seq<Json>) -> Seq<JsonView> {
    Seq::new(items.len(), |i: int| items[i]@)
}

/// The members of an object, each as its name and the view of its value.
pub open spec fn members_view(members: Seq<Member>) -> Seq<(Seq<char>, JsonView)> {
    Seq::new(members.len(), |i: int| (members[i].name@, members[i].value@))
}

/// The view of an array is the array of the views.
pub proof fn lemma_array_view(items: Vec<Json>)
    ensures
        Json::Array(items)@ == JsonView::Array(items_view(items@)),
{
    let elements = Json::Array(items)@->Array_0;
    assert(Json::Array(items)@ is Array);
    assert(elements.len() == items@.len());
    assert forall|i: int| 0 <= i < elements.len() implies elements[i] == items_view(items@)[i] by {
        assert(elements[i] == items[i]@);
    }
    assert(elements =~= items_view(items@));
}

/// The view of an object is the object of the members' views.
pub proof fn lemma_object_view(members: Vec<Member>)
    ensures
        Json::Object(members)@ == JsonView::Object(members_view(members@)),
{
    let pairs = Json::Object(members)@->Object_0;
    assert(pairs.len() == members@.len());
    assert forall|i: int| 0 <= i < pairs.len() implies pairs[i] == members_view(members@)[i] by {
        assert(pairs[i] == (members[i].name@, members[i].value@));
    }
    assert(pairs =~= members_view(members@));
}

proof fn lemma_put_then_lookup(members: Seq<(Seq<char>, JsonView)>, key: Seq<char>, value: JsonView)
    ensures
        lookup(put(members, key, value), key) == Some(value),
    decreases members.len(),
{
    if members.len() > 0 && members[0].0 != key {
        lemma_put_then_lookup(members.skip(1), key, value);
        assert(put(members, key, value).skip(1) =~= put(members.skip(1), key, value));
    }
}

proof fn lemma_put_keeps_others(
    members: Seq<(Seq<char>, JsonView)>,
    key: Seq<char>,
    value: JsonView,
    other: Seq<char>,
)
    requires
        other != key,
    ensures
        lookup(put(members, key, value), other) == lookup(members, other),
    decreases members.len(),
{
    let after = put(members, key, value);
    if members.len() == 0 {
        assert(after.skip(1) =~= members);
    } else if members[0].0 == key {
        assert(after[0].0 == key);
        assert(after.skip(1) =~= members.skip(1));
    } else {
        lemma_put_keeps_others(members.skip(1), key, value, other);
        assert(after[0] == members[0]);
        assert(after.skip(1) =~= put(members.skip(1), key, value));
    }
}

/// A member that was set on an object reads as the value it was set to, and
/// every other member reads as before.
pub proof fn law_member_set_is_read(
    object: JsonView,
    key: Seq<char>,
    value: JsonView,
    other: Seq<char>,
)
    requires
        object is Object,
    ensures
        object.with_member(key, value).get(key) == Some(value),
        other != key ==> object.with_member(key, value).get(other) == object.get(other),
{
    lemma_put_then_lookup(object->Object_0, key, value);
    if other != key {
        lemma_put_keeps_others(object->Object_0, key, value, other);
    }
}

proof fn lemma_lookup_skips(members: Seq<(Seq<char>, JsonView)>, key: Seq<char>, n: int)
    requires
        0 <= n <= members.len(),
        forall|j: int| 0 <= j < n ==> (#[trigger] members[j]).0 != key,
    ensures
        lookup(members, key) == lookup(members.skip(n), key),
    decreases n,
{
    if n == 0 {
        assert(members.skip(0) =~= members);
    } else {
        let rest = members.skip(1);
        assert forall|j: int| 0 <= j < n - 1 implies (#[trigger] rest[j]).0 != key by {
            assert(rest[j] == members[j + 1]);
        }
        lemma_lookup_skips(rest, key, n - 1);
        assert(rest.skip(n - 1) =~= members.skip(n));
    }
}

proof fn lemma_put_at(
    members: Seq<(Seq<char>, JsonView)>,
    key: Seq<char>,
    value: JsonView,
    n: int,
)
    requires
        0 <= n <= members.len(),
        forall|j: int| 0 <= j < n ==> (#[trigger] members[j]).0 != key,
        n < members.len() ==> members[n].0 == key,
    ensures
        put(members, key, value) == if n < members.len() {
            members.update(n, (key, value))
        } else {
            members.push((key, value))
        },
    decreases n,
{
    if n == 0 {
        if members.len() == 0 {
            assert(seq![(key, value)] =~= members.push((key, value)));
        }
    } else {
        let rest = members.skip(1);
        assert forall|j: int| 0 <= j < n - 1 implies (#[trigger] rest[j]).0 != key by {
            assert(rest[j] == members[j + 1]);
        }
        assert(n < members.len() ==> rest[n - 1] == members[n]);
        lemma_put_at(rest, key, value, n - 1);
        if n < members.len() {
            assert(seq![members[0]] + rest.update(n - 1, (key, value)) =~= members.update(
                n,
                (key, value),
            ));
        } else {
            assert(seq![members[0]] + rest.push((key, value)) =~= members.push((key, value)));
        }
    }
}

impl JsonNumber {
    /// The number as it is written.
    pub fn text(&self) -> (s: String)
        ensures
            s@ == self@.text(),
    {
        match self {
            JsonNumber::PosInt(n) => decimal_u64(*n),
            JsonNumber::NegInt(n) => decimal_i64(*n),
            JsonNumber::Real(t) => t.clone(),
        }
    }

    /// The number as a signed 64-bit integer, where it is one.
    pub fn as_i64(&self) -> (n: Option<i64>)
        ensures
            n == self@.as_i64(),
    {
        match self {
            JsonNumber::PosInt(n) => if *n <= 0x7fff_ffff_ffff_ffffu64 {
                Some(*n as i64)
            } else {
                None
            },
            JsonNumber::NegInt(n) => Some(*n),
            JsonNumber::Real(_) => None,
        }
    }
}

impl Json {
    /// The member called `key`, where the value is an object that has one.
    pub fn get(&self, key: &str) -> (found: Option<&Json>)
        ensures
            match found {
                Some(value) => self@.get(key@) == Some(value@),
                None => self@.get(key@) is None,
            },
    {
        match self {
            Json::Object(members) => {
                proof {
                    lemma_object_view(*members);
                }
                let ghost all = members_view(members@);
                let mut i: usize = 0;
                while i < members.len()
                    invariant
                        i <= members.len(),
                        all == members_view(members@),
                        self@ == JsonView::Object(all),
                        forall|j: int| 0 <= j < i ==> (#[trigger] all[j]).0 != key@,
                    decreases members.len() - i,
                {
                    if same_text(members[i].name.as_str(), key) {
                        proof {
                            lemma_lookup_skips(all, key@, i as int);
                            assert(all.skip(i as int)[0] == all[i as int]);
                        }
                        return Some(&members[i].value);
                    }
                    i = i + 1;
                }
                proof {
                    lemma_lookup_skips(all, key@, i as int);
                }
                None
            },
            _ => None,
        }
    }

    /// The text of a string value.
    pub fn as_str(&self) -> (text: Option<&str>)
        ensures
            match text {
                Some(t) => self@ == JsonView::Str(t@),
                None => !(self@ is Str),
            },
    {
        match self {
            Json::Str(s) => Some(s.as_str()),
            _ => None,
        }
    }

    /// Whether the value is a number.
    pub fn is_number(&self) -> (b: bool)
        ensures
            b == (self@ is Number),
    {
        match self {
            Json::Number(_) => true,
            _ => false,
        }
    }

    /// Whether the value is an object.
    pub fn is_object(&self) -> (b: bool)
        ensures
            b == (self@ is Object),
    {
        match self {
            Json::Object(_) => true,
            _ => false,
        }
    }

    /// The value as a signed 64-bit integer, where it is such a number.
    pub fn as_i64(&self) -> (n: Option<i64>)
        ensures
            n == match self@ {
                JsonView::Number(number) => number.as_i64(),
                _ => None,
            },
    {
        match self {
            Json::Number(number) => number.as_i64(),
            _ => None,
        }
    }

    /// An object with `name` set to `value`, in place of the first member of that
    /// name or at the end; any other value as it is.
    pub fn with_member(self, name: String, value: Json) -> (out: Json)
        ensures
            out@ == self@.with_member(name@, value@),
    {
        match self {
            Json::Object(mut members) => {
                proof {
                    lemma_object_view(members);
                }
                let ghost before = members_view(members@);
                let mut i: usize = 0;
                while i < members.len() && !same_text(members[i].name.as_str(), name.as_str())
                    invariant
                        i <= members.len(),
                        before == members_view(members@),
                        forall|j: int| 0 <= j < i ==> (#[trigger] before[j]).0 != name@,
                    decreases members.len() - i,
                {
                    i = i + 1;
                }
                proof {
                    lemma_put_at(before, name@, value@, i as int);
                }
                if i < members.len() {
                    members.set(i, Member { name, value });
                    proof {
                        assert(members_view(members@) =~= before.update(i as int, (name@, value@)));
                    }
                } else {
                    members.push(Member { name, value });
                    proof {
                        assert(members_view(members@) =~= before.push((name@, value@)));
                    }
                }
                proof {
                    lemma_object_view(members);
                }
                Json::Object(members)
            },
            other => other,
        }
    }
}

} // verus!
