//! JSON documents as plain data.
//!
//! `Json` is what the rest of the library reads and builds. The printing
//! and parsing of JSON text, and the tree that goes with it, are those of
//! `serde_json`; this module converts between the two trees node by node.

use serde_json::{Number, Value};
use vstd::prelude::*;

use crate::text;

verus! {

/// A number of `serde_json`, carried through unread.
#[verifier::external_type_specification]
#[verifier::external_body]
pub struct ExNumber(serde_json::Number);

/// The document tree of `serde_json`.
#[verifier::external_type_specification]
#[verifier::external_body]
pub struct ExValue(serde_json::Value);

/// `Value::clone`: the copy holds what the tree holds.
pub assume_specification[ <serde_json::Value as Clone>::clone ](v: &serde_json::Value) -> (r:
    serde_json::Value)
    ensures
        value_view(r) == value_view(*v),
;

/// A JSON document.
#[derive(Debug, PartialEq)]
pub enum Json {
    Null,
    Bool(bool),
    /// A non-negative integer.
    UInt(u64),
    /// An integer that may be negative.
    Int(i64),
    /// Any other number, carried as it is.
    Number(Fraction),
    Text(String),
    Array(Vec<Json>),
    Object(JsonObject),
}

/// A number that is no integer of 64 bits, as the tree of `serde_json` holds
/// it.
#[derive(Debug, PartialEq)]
pub struct Fraction {
    leaf: Value,
}

/// One member of an object.
#[derive(Debug, PartialEq)]
pub struct JsonMember {
    pub key: String,
    pub value: Json,
}

/// The members of an object, in ascending order of their keys, each key
/// once.
#[derive(Debug, PartialEq)]
pub struct JsonObject {
    members: Vec<JsonMember>,
}

/// What a JSON document holds.
pub enum JsonView {
    Null,
    Bool(bool),
    Int(int),
    Number(Number),
    Text(Seq<char>),
    Array(Seq<JsonView>),
    Object(Seq<(Seq<char>, JsonView)>),
}

/// What the member at hand holds.
pub open spec fn member_view(m: JsonMember) -> (Seq<char>, JsonView)
    decreases m,
{
    (m.key@, json_view(m.value))
}

/// What a document holds.
pub open spec fn json_view(j: Json) -> JsonView
    decreases j,
{
    match j {
        Json::Null => JsonView::Null,
        Json::Bool(b) => JsonView::Bool(b),
        Json::UInt(n) => JsonView::Int(n as int),
        Json::Int(n) => JsonView::Int(n as int),
        Json::Number(f) => JsonView::Number(f@),
        Json::Text(s) => JsonView::Text(s@),
        Json::Array(items) => JsonView::Array(
            Seq::new(
                items@.len(),
                |i: int|
                    if 0 <= i < items@.len() {
                        json_view(items@[i])
                    } else {
                        JsonView::Null
                    },
            ),
        ),
        Json::Object(o) => JsonView::Object(object_view(o)),
    }
}

/// What an object holds, member by member.
pub closed spec fn object_view(o: JsonObject) -> Seq<(Seq<char>, JsonView)>
    decreases o,
{
    Seq::new(
        o.members@.len(),
        |i: int|
            if 0 <= i < o.members@.len() {
                member_view(o.members@[i])
            } else {
                (Seq::empty(), JsonView::Null)
            },
    )
}

impl View for Fraction {
    type V = Number;

    closed spec fn view(&self) -> Number {
        value_view(self.leaf)->Number_0
    }
}

impl Fraction {
    #[verifier::type_invariant]
    spec fn is_fraction(self) -> bool {
        value_view(self.leaf) is Number
    }

    /// The tree that is the number alone.
    fn value(&self) -> (v: Value)
        ensures
            value_view(v) == JsonView::Number(self@),
    {
        proof {
            use_type_invariant(self);
        }
        self.leaf.clone()
    }

    /// The same number once more.
    pub fn clone(&self) -> (f: Fraction)
        ensures
            f@ == self@,
    {
        proof {
            use_type_invariant(self);
        }
        Fraction { leaf: self.leaf.clone() }
    }
}

impl View for Json {
    type V = JsonView;

    open spec fn view(&self) -> JsonView {
        json_view(*self)
    }
}

impl View for JsonObject {
    type V = Seq<(Seq<char>, JsonView)>;

    open spec fn view(&self) -> Seq<(Seq<char>, JsonView)> {
        object_view(*self)
    }
}

/// Keys in strictly ascending order.
pub open spec fn keys_ascend(members: Seq<(Seq<char>, JsonView)>) -> bool {
    forall|i: int, j: int|
        0 <= i < j < members.len() ==> text::text_lt(
            (#[trigger] members[i]).0,
            (#[trigger] members[j]).0,
        )
}

/// The value of the first member with the given key.
pub open spec fn lookup(members: Seq<(Seq<char>, JsonView)>, key: Seq<char>) -> Option<JsonView>
    decreases members.len(),
{
    if members.len() == 0 {
        None
    } else if members[0].0 == key {
        Some(members[0].1)
    } else {
        lookup(members.drop_first(), key)
    }
}

/// The members with `key` set to `value`, in its place in the order.
pub open spec fn with_member(
    members: Seq<(Seq<char>, JsonView)>,
    key: Seq<char>,
    value: JsonView,
) -> Seq<(Seq<char>, JsonView)>
    decreases members.len(),
{
    if members.len() == 0 {
        seq![(key, value)]
    } else if members[0].0 == key {
        seq![(key, value)] + members.drop_first()
    } else if text::text_lt(key, members[0].0) {
        seq![(key, value)] + members
    } else {
        seq![members[0]] + with_member(members.drop_first(), key, value)
    }
}

/// The member of a document with the given key, where it is an object that
/// has one.
pub open spec fn member(v: JsonView, key: Seq<char>) -> Option<JsonView> {
    match v {
        JsonView::Object(members) => lookup(members, key),
        _ => None,
    }
}

/// The text of a document that is a string.
pub open spec fn as_text(v: JsonView) -> Option<Seq<char>> {
    match v {
        JsonView::Text(s) => Some(s),
        _ => None,
    }
}

/// The text of the member with the given key, where it is a string.
pub open spec fn member_text(v: JsonView, key: Seq<char>) -> Option<Seq<char>> {
    match member(v, key) {
        Some(m) => as_text(m),
        None => None,
    }
}

/// The text of the member with the given key, or `other`.
pub open spec fn member_text_or(v: JsonView, key: Seq<char>, other: Seq<char>) -> Seq<char> {
    match member_text(v, key) {
        Some(s) => s,
        None => other,
    }
}

/// The non-negative integer under the given key.
pub open spec fn member_uint(v: JsonView, key: Seq<char>) -> Option<u64> {
    match member(v, key) {
        Some(JsonView::Int(n)) if 0 <= n <= u64::MAX => Some(n as u64),
        _ => None,
    }
}

/// The elements of a document that is an array.
pub open spec fn as_items(v: JsonView) -> Option<Seq<JsonView>> {
    match v {
        JsonView::Array(items) => Some(items),
        _ => None,
    }
}

/// The views of a sequence of documents.
pub open spec fn views(items: Seq<Json>) -> Seq<JsonView> {
    Seq::new(items.len(), |i: int| json_view(items[i]))
}

/// The view of a document that may be absent.
pub open spec fn opt_view(j: Option<Json>) -> Option<JsonView> {
    match j {
        Some(v) => Some(v@),
        None => None,
    }
}

impl JsonObject {
    #[verifier::type_invariant]
    spec fn ordered(self) -> bool {
        keys_ascend(object_view(self))
    }

    /// An object without members.
    pub fn new() -> (o: JsonObject)
        ensures
            o@ == Seq::<(Seq<char>, JsonView)>::empty(),
    {
        let members: Vec<JsonMember> = Vec::new();
        assert(object_view(JsonObject { members }) =~= Seq::empty());
        JsonObject { members }
    }

    /// How many members the object has.
    pub fn len(&self) -> (n: usize)
        ensures
            n == self@.len(),
    {
        self.members.len()
    }

    /// The member at position `i`.
    pub fn at(&self, i: usize) -> (m: &JsonMember)
        requires
            i < self@.len(),
        ensures
            member_view(*m) == self@[i as int],
    {
        &self.members[i]
    }

    /// The value under `key`.
    pub fn get(&self, key: &str) -> (r: Option<&Json>)
        ensures
            match r {
                Some(v) => lookup(self@, key@) == Some(v@),
                None => lookup(self@, key@) is None,
            },
    {
        let mut i: usize = 0;
        assert(self@.skip(0) =~= self@);
        while i < self.members.len()
            invariant
                i <= self.members.len(),
                self@.len() == self.members@.len(),
                lookup(self@, key@) == lookup(self@.skip(i as int), key@),
            decreases self.members.len() - i,
        {
            assert(self@.skip(i as int).drop_first() =~= self@.skip(i + 1));
            assert(self@[i as int] == member_view(self.members@[i as int]));
            if text::same(self.members[i].key.as_str(), key) {
                return Some(&self.members[i].value);
            }
            i = i + 1;
        }
        None
    }

    /// Sets `key` to `value`, in place of what it had before.
    pub fn insert(&mut self, key: String, value: Json)
        ensures
            final(self)@ == with_member(old(self)@, key@, value@),
            lookup(final(self)@, key@) == Some(value@),
    {
        proof {
            use_type_invariant(&*self);
            lemma_lookup_with_member(self@, key@, value@, key@);
        }
        let ghost before = self@;
        let mut ms: Vec<JsonMember> = Vec::new();
        std::mem::swap(&mut ms, &mut self.members);
        let mut i: usize = 0;
        while i < ms.len() && text::comes_before(ms[i].key.as_str(), key.as_str())
            invariant
                i <= ms.len(),
                before == object_view(JsonObject { members: ms }),
                forall|k: int| 0 <= k < i ==> text::text_lt((#[trigger] before[k]).0, key@),
            decreases ms.len() - i,
        {
            assert(before[i as int] == member_view(ms@[i as int]));
            i = i + 1;
        }
        proof {
            if i < ms@.len() {
                assert(before[i as int] == member_view(ms@[i as int]));
                text::lemma_text_order_total(before[i as int].0, key@);
            }
            lemma_with_member_at(before, key@, value@, i as int);
            lemma_with_member_ascends(before, key@, value@);
        }
        let ghost kv = (key@, value@);
        if i < ms.len() && text::same(ms[i].key.as_str(), key.as_str()) {
            ms.set(i, JsonMember { key, value });
            assert(object_view(JsonObject { members: ms }) =~= before.update(i as int, kv));
        } else {
            ms.insert(i, JsonMember { key, value });
            assert(object_view(JsonObject { members: ms }) =~= before.insert(i as int, kv));
        }
        self.members = ms;
    }
}

proof fn lemma_with_member_at(
    members: Seq<(Seq<char>, JsonView)>,
    key: Seq<char>,
    value: JsonView,
    i: int,
)
    requires
        0 <= i <= members.len(),
        forall|k: int| 0 <= k < i ==> text::text_lt((#[trigger] members[k]).0, key),
        i < members.len() ==> members[i].0 == key || text::text_lt(key, members[i].0),
    ensures
        with_member(members, key, value) == if i < members.len() && members[i].0 == key {
            members.update(i, (key, value))
        } else {
            members.insert(i, (key, value))
        },
    decreases members.len(),
{
    if members.len() > 0 && i > 0 {
        let rest = members.drop_first();
        assert forall|k: int| 0 <= k < i - 1 implies text::text_lt((#[trigger] rest[k]).0, key) by {
            assert(rest[k] == members[k + 1]);
        }
        lemma_with_member_at(rest, key, value, i - 1);
        text::lemma_text_order_total(members[0].0, key);
        if i < members.len() && members[i].0 == key {
            assert(seq![members[0]] + rest.update(i - 1, (key, value)) =~= members.update(
                i,
                (key, value),
            ));
        } else {
            assert(seq![members[0]] + rest.insert(i - 1, (key, value)) =~= members.insert(
                i,
                (key, value),
            ));
        }
    } else if members.len() > 0 {
        if members[0].0 == key {
            assert(seq![(key, value)] + members.drop_first() =~= members.update(0, (key, value)));
        } else {
            assert(seq![(key, value)] + members =~= members.insert(0, (key, value)));
        }
    } else {
        assert(seq![(key, value)] =~= members.insert(0, (key, value)));
    }
}

/// Setting a member keeps the keys in order.
proof fn lemma_with_member_ascends(
    members: Seq<(Seq<char>, JsonView)>,
    key: Seq<char>,
    value: JsonView,
)
    requires
        keys_ascend(members),
    ensures
        keys_ascend(with_member(members, key, value)),
        forall|k: int|
            0 <= k < with_member(members, key, value).len() ==> (#[trigger] with_member(
                members,
                key,
                value,
            )[k]).0 == key || exists|m: int|
                0 <= m < members.len() && members[m].0 == with_member(members, key, value)[k].0,
    decreases members.len(),
{
    let out = with_member(members, key, value);
    if members.len() == 0 {
    } else if members[0].0 == key {
        assert forall|k: int| 0 <= k < out.len() implies (#[trigger] out[k]).0 == key || exists|
            m: int,
        | 0 <= m < members.len() && members[m].0 == out[k].0 by {
            assert(out[k].0 == members[k].0);
        }
        assert forall|a: int, b: int| 0 <= a < b < out.len() implies text::text_lt(
            (#[trigger] out[a]).0,
            (#[trigger] out[b]).0,
        ) by {
            assert(out[a].0 == members[a].0 && out[b].0 == members[b].0);
        }
    } else if text::text_lt(key, members[0].0) {
        assert forall|k: int| 0 <= k < out.len() implies (#[trigger] out[k]).0 == key || exists|
            m: int,
        | 0 <= m < members.len() && members[m].0 == out[k].0 by {
            if k > 0 {
                assert(out[k].0 == members[k - 1].0);
            }
        }
        assert forall|a: int, b: int| 0 <= a < b < out.len() implies text::text_lt(
            (#[trigger] out[a]).0,
            (#[trigger] out[b]).0,
        ) by {
            assert(out[b] == members[b - 1]);
            if a > 0 {
                assert(out[a] == members[a - 1]);
            } else if b > 1 {
                assert(text::text_lt(members[0].0, members[b - 1].0));
                text::lemma_text_order_transitive(key, members[0].0, members[b - 1].0);
            }
        }
    } else {
        let rest = members.drop_first();
        assert forall|a: int, b: int| 0 <= a < b < rest.len() implies text::text_lt(
            (#[trigger] rest[a]).0,
            (#[trigger] rest[b]).0,
        ) by {
            assert(rest[a] == members[a + 1] && rest[b] == members[b + 1]);
        }
        lemma_with_member_ascends(rest, key, value);
        let tail = with_member(rest, key, value);
        text::lemma_text_order_total(key, members[0].0);
        assert forall|k: int| 0 <= k < out.len() implies (#[trigger] out[k]).0 == key || exists|
            m: int,
        | 0 <= m < members.len() && members[m].0 == out[k].0 by {
            if k > 0 {
                assert(out[k] == tail[k - 1]);
                if tail[k - 1].0 != key {
                    let m = choose|m: int| 0 <= m < rest.len() && rest[m].0 == tail[k - 1].0;
                    assert(members[m + 1] == rest[m]);
                }
            } else {
                assert(members[0].0 == out[0].0);
            }
        }
        assert forall|a: int, b: int| 0 <= a < b < out.len() implies text::text_lt(
            (#[trigger] out[a]).0,
            (#[trigger] out[b]).0,
        ) by {
            assert(out[b] == tail[b - 1]);
            if a > 0 {
                assert(out[a] == tail[a - 1]);
            } else if tail[b - 1].0 != key {
                let m = choose|m: int| 0 <= m < rest.len() && rest[m].0 == tail[b - 1].0;
                assert(members[m + 1] == rest[m]);
                assert(text::text_lt(members[0].0, members[m + 1].0));
            }
        }
    }
}

/// What was set under a key is found there, and every other key keeps what
/// it had.
pub proof fn lemma_lookup_with_member(
    members: Seq<(Seq<char>, JsonView)>,
    key: Seq<char>,
    value: JsonView,
    other: Seq<char>,
)
    requires
        keys_ascend(members),
    ensures
        lookup(with_member(members, key, value), key) == Some(value),
        other != key ==> lookup(with_member(members, key, value), other) == lookup(members, other),
    decreases members.len(),
{
    let out = with_member(members, key, value);
    if members.len() == 0 {
        assert(out.drop_first() =~= members);
    } else if members[0].0 == key {
        assert(out.drop_first() =~= members.drop_first());
    } else if text::text_lt(key, members[0].0) {
        assert(out.drop_first() =~= members);
    } else {
        let rest = members.drop_first();
        assert forall|a: int, b: int| 0 <= a < b < rest.len() implies text::text_lt(
            (#[trigger] rest[a]).0,
            (#[trigger] rest[b]).0,
        ) by {
            assert(rest[a] == members[a + 1] && rest[b] == members[b + 1]);
        }
        lemma_lookup_with_member(rest, key, value, other);
        assert(out.drop_first() =~= with_member(rest, key, value));
    }
}

/// Setting a member keeps the keys in order, and a lookup finds what was set
/// under its key and under every other key what was there before.
pub proof fn lemma_member_set(
    members: Seq<(Seq<char>, JsonView)>,
    key: Seq<char>,
    value: JsonView,
)
    requires
        keys_ascend(members),
    ensures
        keys_ascend(with_member(members, key, value)),
        forall|other: Seq<char>| #[trigger]
            lookup(with_member(members, key, value), other) == if other == key {
                Some(value)
            } else {
                lookup(members, other)
            },
{
    lemma_with_member_ascends(members, key, value);
    assert forall|other: Seq<char>| #[trigger]
        lookup(with_member(members, key, value), other) == if other == key {
            Some(value)
        } else {
            lookup(members, other)
        } by {
        lemma_lookup_with_member(members, key, value, other);
    }
}

impl Json {
    /// The member with the given key, where this is an object that has one.
    pub fn get(&self, key: &str) -> (r: Option<&Json>)
        ensures
            match r {
                Some(v) => member(self@, key@) == Some(v@),
                None => member(self@, key@) is None,
            },
    {
        match self {
            Json::Object(o) => o.get(key),
            _ => None,
        }
    }

    /// The text of a string.
    pub fn as_str(&self) -> (r: Option<&str>)
        ensures
            match r {
                Some(s) => as_text(self@) == Some(s@),
                None => as_text(self@) is None,
            },
    {
        match self {
            Json::Text(s) => Some(s.as_str()),
            _ => None,
        }
    }

    /// The text of the member with the given key.
    pub fn get_str(&self, key: &str) -> (r: Option<&str>)
        ensures
            match r {
                Some(s) => member_text(self@, key@) == Some(s@),
                None => member_text(self@, key@) is None,
            },
    {
        match self.get(key) {
            Some(v) => v.as_str(),
            None => None,
        }
    }

    /// The text of the member with the given key, or `other`.
    pub fn get_str_or<'a>(&'a self, key: &str, other: &'a str) -> (r: &'a str)
        ensures
            r@ == member_text_or(self@, key@, other@),
    {
        match self.get_str(key) {
            Some(s) => s,
            None => other,
        }
    }

    /// The non-negative integer under the given key.
    pub fn get_u64(&self, key: &str) -> (r: Option<u64>)
        ensures
            r == member_uint(self@, key@),
    {
        match self.get(key) {
            Some(Json::UInt(n)) => Some(*n),
            Some(Json::Int(n)) if *n >= 0 => Some(*n as u64),
            _ => None,
        }
    }

    /// The elements of an array.
    pub fn as_array(&self) -> (r: Option<&Vec<Json>>)
        ensures
            match r {
                Some(items) => as_items(self@) == Some(views(items@)),
                None => as_items(self@) is None,
            },
    {
        match self {
            Json::Array(items) => {
                assert(as_items(self@)->0 =~= views(items@));
                Some(items)
            },
            _ => None,
        }
    }

    /// Whether this is `null`.
    pub fn is_null(&self) -> (r: bool)
        ensures
            r == (self@ == JsonView::Null),
    {
        match self {
            Json::Null => true,
            _ => false,
        }
    }
}

// ---------------------------------------------------------------------
// Copies
// ---------------------------------------------------------------------

impl Clone for Json {
    fn clone(&self) -> (r: Json)
        ensures
            r@ == self@,
        decreases self,
    {
        match self {
            Json::Null => Json::Null,
            Json::Bool(b) => Json::Bool(*b),
            Json::UInt(n) => Json::UInt(*n),
            Json::Int(n) => Json::Int(*n),
            Json::Number(n) => Json::Number(n.clone()),
            Json::Text(s) => Json::Text(s.clone()),
            Json::Array(items) => {
                let mut out: Vec<Json> = Vec::new();
                let mut i: usize = 0;
                while i < items.len()
                    invariant
                        i <= items.len(),
                        out.len() == i,
                        *self == Json::Array(*items),
                        forall|k: int|
                            0 <= k < i ==> json_view(#[trigger] out@[k]) == json_view(items@[k]),
                    decreases items.len() - i,
                {
                    assert(decreases_to!(self => self->Array_0));
                    assert(decreases_to!(items => items@));
                    assert(decreases_to!(items@ => items@[i as int]));
                    out.push(items[i].clone());
                    i = i + 1;
                }
                let r = Json::Array(out);
                assert(r@->Array_0 =~= self@->Array_0);
                r
            },
            Json::Object(o) => {
                let mut out: Vec<JsonMember> = Vec::new();
                let mut i: usize = 0;
                while i < o.members.len()
                    invariant
                        i <= o.members.len(),
                        out.len() == i,
                        *self == Json::Object(*o),
                        forall|k: int|
                            0 <= k < i ==> member_view(#[trigger] out@[k]) == member_view(
                                o.members@[k],
                            ),
                    decreases o.members.len() - i,
                {
                    assert(decreases_to!(self => self->Object_0));
                    assert(decreases_to!(o => o.members));
                    assert(decreases_to!(o.members => o.members@));
                    assert(decreases_to!(o.members@ => o.members@[i as int]));
                    assert(decreases_to!(o.members@[i as int] => o.members@[i as int].value));
                    out.push(
                        JsonMember {
                            key: o.members[i].key.clone(),
                            value: o.members[i].value.clone(),
                        },
                    );
                    i = i + 1;
                }
                proof {
                    use_type_invariant(o);
                    assert(object_view(JsonObject { members: out }) =~= object_view(*o));
                }
                Json::Object(JsonObject { members: out })
            },
        }
    }
}

/// A copy of an optional document.
pub fn clone_opt(j: &Option<Json>) -> (r: Option<Json>)
    ensures
        opt_view(r) == opt_view(*j),
{
    match j {
        Some(v) => Some(v.clone()),
        None => None,
    }
}

/// A copy of a sequence of documents.
pub fn clone_all(items: &Vec<Json>) -> (r: Vec<Json>)
    ensures
        views(r@) == views(items@),
{
    let mut out: Vec<Json> = Vec::new();
    let mut i: usize = 0;
    while i < items.len()
        invariant
            i <= items.len(),
            out.len() == i,
            forall|k: int| 0 <= k < i ==> json_view(#[trigger] out@[k]) == json_view(items@[k]),
        decreases items.len() - i,
    {
        out.push(items[i].clone());
        i = i + 1;
    }
    assert(views(out@) =~= views(items@));
    out
}

// ---------------------------------------------------------------------
// The tree of serde_json
// ---------------------------------------------------------------------

/// What a `serde_json` tree holds. Its objects come in the ascending key
/// order in which the crate keeps them.
pub uninterp spec fn value_view(v: serde_json::Value) -> JsonView;

/// The top node of a `serde_json` tree, its parts borrowed.
pub enum Node<'a> {
    Null,
    Bool(bool),
    UInt(u64),
    Int(i64),
    Number(&'a Number),
    Text(&'a String),
    Array(&'a Vec<Value>),
    Object(Vec<(&'a String, &'a Value)>),
}

/// The parts of which a `serde_json` node is made. A number among them is an
/// integer: any other is copied with the tree that holds it.
pub enum Parts {
    Null,
    Bool(bool),
    UInt(u64),
    Int(i64),
    Text(String),
    Array(Vec<Value>),
    Object(Vec<(String, Value)>),
}

/// What a borrowed node holds.
pub open spec fn node_view(n: Node) -> JsonView {
    match n {
        Node::Null => JsonView::Null,
        Node::Bool(b) => JsonView::Bool(b),
        Node::UInt(n) => JsonView::Int(n as int),
        Node::Int(n) => JsonView::Int(n as int),
        Node::Number(n) => JsonView::Number(*n),
        Node::Text(s) => JsonView::Text(s@),
        Node::Array(items) => JsonView::Array(
            Seq::new(items@.len(), |i: int| value_view(items@[i])),
        ),
        Node::Object(ms) => JsonView::Object(
            Seq::new(ms@.len(), |i: int| (ms@[i].0@, value_view(*ms@[i].1))),
        ),
    }
}

/// What the parts of a node hold.
pub open spec fn parts_view(p: Parts) -> JsonView {
    match p {
        Parts::Null => JsonView::Null,
        Parts::Bool(b) => JsonView::Bool(b),
        Parts::UInt(n) => JsonView::Int(n as int),
        Parts::Int(n) => JsonView::Int(n as int),
        Parts::Text(s) => JsonView::Text(s@),
        Parts::Array(items) => JsonView::Array(
            Seq::new(items@.len(), |i: int| value_view(items@[i])),
        ),
        Parts::Object(ms) => JsonView::Object(
            Seq::new(ms@.len(), |i: int| (ms@[i].0@, value_view(ms@[i].1))),
        ),
    }
}

/// The variants of `serde_json::Value`, told apart: the node holds what the
/// tree holds. A number is given as an integer where `Number::as_u64` or
/// `Number::as_i64` has one; the members of an object come in the ascending
/// key order of the crate's map.
#[verifier::external_body]
pub(crate) fn open_value(v: &Value) -> (n: Node<'_>)
    ensures
        node_view(n) == value_view(*v),
        node_view(n) matches JsonView::Object(members) ==> keys_ascend(members),
{
    match v {
        Value::Null => Node::Null,
        Value::Bool(b) => Node::Bool(*b),
        Value::Number(n) => match (n.as_u64(), n.as_i64()) {
            (Some(u), _) => Node::UInt(u),
            (None, Some(i)) => Node::Int(i),
            (None, None) => Node::Number(n),
        },
        Value::String(s) => Node::Text(s),
        Value::Array(items) => Node::Array(items),
        Value::Object(members) => Node::Object(members.iter().collect()),
    }
}

/// The constructors of `serde_json::Value`: the tree made of the parts holds
/// what the parts hold. The crate's map keeps members in ascending key
/// order, so they are asked for in that order.
#[verifier::external_body]
pub(crate) fn close_value(p: Parts) -> (v: Value)
    requires
        parts_view(p) matches JsonView::Object(members) ==> keys_ascend(members),
    ensures
        value_view(v) == parts_view(p),
{
    match p {
        Parts::Null => Value::Null,
        Parts::Bool(b) => Value::Bool(b),
        Parts::UInt(n) => Value::Number(Number::from(n)),
        Parts::Int(n) => Value::Number(Number::from(n)),
        Parts::Text(s) => Value::String(s),
        Parts::Array(items) => Value::Array(items),
        Parts::Object(members) => Value::Object(members.into_iter().collect()),
    }
}

/// The document that a `serde_json` tree holds.
pub fn from_value(v: &Value) -> (j: Json)
    ensures
        j@ == value_view(*v),
    decreases value_view(*v),
{
    match open_value(v) {
        Node::Null => Json::Null,
        Node::Bool(b) => Json::Bool(b),
        Node::UInt(n) => Json::UInt(n),
        Node::Int(n) => Json::Int(n),
        Node::Number(_) => Json::Number(Fraction { leaf: v.clone() }),
        Node::Text(s) => Json::Text(s.clone()),
        Node::Array(items) => {
            let ghost elements = value_view(*v)->Array_0;
            let mut out: Vec<Json> = Vec::new();
            let mut i: usize = 0;
            while i < items.len()
                invariant
                    i <= items.len(),
                    out.len() == i,
                    value_view(*v) == JsonView::Array(elements),
                    elements =~= Seq::new(items@.len(), |i: int| value_view(items@[i])),
                    forall|k: int| 0 <= k < i ==> json_view(#[trigger] out@[k]) == elements[k],
                decreases items.len() - i,
            {
                assert(elements[i as int] == value_view(items@[i as int]));
                assert(decreases_to!(value_view(*v) => value_view(*v)->Array_0));
                assert(decreases_to!(elements => elements[i as int]));
                out.push(from_value(&items[i]));
                i = i + 1;
            }
            let r = Json::Array(out);
            assert(r@->Array_0 =~= elements);
            r
        },
        Node::Object(ms) => {
            let ghost elements = value_view(*v)->Object_0;
            let mut out: Vec<JsonMember> = Vec::new();
            let mut i: usize = 0;
            while i < ms.len()
                invariant
                    i <= ms.len(),
                    out.len() == i,
                    value_view(*v) == JsonView::Object(elements),
                    elements =~= Seq::new(ms@.len(), |i: int| (ms@[i].0@, value_view(*ms@[i].1))),
                    forall|k: int| 0 <= k < i ==> member_view(#[trigger] out@[k]) == elements[k],
                decreases ms.len() - i,
            {
                assert(elements[i as int] == (ms@[i as int].0@, value_view(*ms@[i as int].1)));
                assert(decreases_to!(value_view(*v) => value_view(*v)->Object_0));
                assert(decreases_to!(elements => elements[i as int]));
                assert(decreases_to!(elements[i as int] => elements[i as int].1));
                out.push(JsonMember { key: ms[i].0.clone(), value: from_value(ms[i].1) });
                i = i + 1;
            }
            assert(object_view(JsonObject { members: out }) =~= elements);
            Json::Object(JsonObject { members: out })
        },
    }
}

/// The `serde_json` tree that holds a document.
pub fn to_value(j: &Json) -> (v: Value)
    ensures
        value_view(v) == j@,
    decreases j,
{
    match j {
        Json::Null => close_value(Parts::Null),
        Json::Bool(b) => close_value(Parts::Bool(*b)),
        Json::UInt(n) => close_value(Parts::UInt(*n)),
        Json::Int(n) => close_value(Parts::Int(*n)),
        Json::Number(f) => f.value(),
        Json::Text(s) => close_value(Parts::Text(s.clone())),
        Json::Array(items) => {
            let mut out: Vec<Value> = Vec::new();
            let mut i: usize = 0;
            while i < items.len()
                invariant
                    i <= items.len(),
                    out.len() == i,
                    *j == Json::Array(*items),
                    forall|k: int|
                        0 <= k < i ==> value_view(#[trigger] out@[k]) == json_view(items@[k]),
                decreases items.len() - i,
            {
                assert(decreases_to!(j => j->Array_0));
                assert(decreases_to!(items => items@));
                assert(decreases_to!(items@ => items@[i as int]));
                out.push(to_value(&items[i]));
                i = i + 1;
            }
            let p = Parts::Array(out);
            assert(parts_view(p)->Array_0 =~= j@->Array_0);
            close_value(p)
        },
        Json::Object(o) => {
            let mut out: Vec<(String, Value)> = Vec::new();
            let mut i: usize = 0;
            while i < o.members.len()
                invariant
                    i <= o.members.len(),
                    out.len() == i,
                    *j == Json::Object(*o),
                    forall|k: int|
                        0 <= k < i ==> (#[trigger] out@[k]).0@ == o.members@[k].key@ && value_view(
                            out@[k].1,
                        ) == json_view(o.members@[k].value),
                decreases o.members.len() - i,
            {
                assert(decreases_to!(j => j->Object_0));
                assert(decreases_to!(o => o.members));
                assert(decreases_to!(o.members => o.members@));
                assert(decreases_to!(o.members@ => o.members@[i as int]));
                assert(decreases_to!(o.members@[i as int] => o.members@[i as int].value));
                out.push((o.members[i].key.clone(), to_value(&o.members[i].value)));
                i = i + 1;
            }
            let p = Parts::Object(out);
            proof {
                use_type_invariant(o);
                assert(parts_view(p)->Object_0 =~= object_view(*o));
            }
            close_value(p)
        },
    }
}

// ---------------------------------------------------------------------
// JSON text
// ---------------------------------------------------------------------

/// What `serde_json::from_str` reads in a text: a document, or else the
/// message of its error.
pub uninterp spec fn json_outcome(s: Seq<char>) -> Result<JsonView, Seq<char>>;

/// The document that a text spells, where it spells one.
pub open spec fn json_parse(s: Seq<char>) -> Option<JsonView> {
    match json_outcome(s) {
        Ok(v) => Some(v),
        Err(_) => None,
    }
}

/// What `serde_json::to_string` writes for a document.
pub uninterp spec fn json_text(v: JsonView) -> Seq<char>;

/// What `serde_json::to_string_pretty` writes for a document.
pub uninterp spec fn pretty_text(v: JsonView) -> Seq<char>;

/// How deep a document may be nested for `serde_json` to read it back.
pub const MAX_DEPTH: u64 = 127;

/// The key that `serde_json` keeps for itself: an object that begins with it
/// is not read as an object.
pub const RAW_KEY: &'static str = "$serde_json::private::RawValue";

/// A document without fractional numbers, nested at most `depth` deep, in
/// which no object begins with the key that `serde_json` keeps for itself.
pub open spec fn plain_within(v: JsonView, depth: nat) -> bool
    decreases depth,
{
    match v {
        JsonView::Number(_) => false,
        JsonView::Array(items) => depth > 0 && forall|i: int|
            0 <= i < items.len() ==> plain_within(#[trigger] items[i], (depth - 1) as nat),
        JsonView::Object(members) => depth > 0 && (members.len() > 0 ==> members[0].0 != RAW_KEY@)
            && forall|i: int|
            0 <= i < members.len() ==> plain_within(
                (#[trigger] members[i]).1,
                (depth - 1) as nat,
            ),
        _ => true,
    }
}

/// A document that comes back from its JSON text as it was: no fractional
/// number in it, no object that the parser takes for something else, and no
/// deeper than the parser goes.
pub open spec fn plain(v: JsonView) -> bool {
    plain_within(v, MAX_DEPTH as nat)
}

/// `serde_json::from_str` for a tree: what it reads, and the message of the
/// error where it reads nothing, depend on the text alone.
#[verifier::external_body]
pub(crate) fn value_from_str(s: &str) -> (r: Result<Value, String>)
    ensures
        match r {
            Ok(v) => json_outcome(s@) == Ok::<JsonView, Seq<char>>(value_view(v)),
            Err(e) => json_outcome(s@) == Err::<JsonView, Seq<char>>(e@),
        },
{
    match serde_json::from_str(s) {
        Ok(v) => Ok(v),
        Err(e) => Err(e.to_string()),
    }
}

/// `serde_json::to_string` of a tree: it always gives a text, because the
/// keys of a tree are strings and nothing else could be refused. The text
/// depends on what the tree holds alone, and a tree without fractional
/// numbers that is not too deep for the parser is read back from it. Of a
/// fractional number nothing is said: the parser may give one that differs
/// in the last place. Nor is anything said of an object that begins with
/// `RAW_KEY`, whose value the parser reads as a JSON text of its own.
#[verifier::external_body]
pub(crate) fn value_to_text(v: &Value) -> (r: Option<String>)
    ensures
        text::opt_text(r) == Some(json_text(value_view(*v))),
        plain(value_view(*v)) ==> (r matches Some(t) ==> json_parse(t@) == Some(value_view(*v))),
{
    serde_json::to_string(v).ok()
}

/// `serde_json::to_string_pretty` of a tree: it always gives a text, for the
/// same reason, and the text depends on what the tree holds alone.
#[verifier::external_body]
pub(crate) fn value_to_pretty(v: &Value) -> (r: Option<String>)
    ensures
        text::opt_text(r) == Some(pretty_text(value_view(*v))),
{
    serde_json::to_string_pretty(v).ok()
}

/// What a document that was read holds, or what was wrong with its text.
pub open spec fn read_view(r: Result<Json, String>) -> Result<JsonView, Seq<char>> {
    match r {
        Ok(j) => Ok(j@),
        Err(e) => Err(e@),
    }
}

/// The document that a JSON text spells, or else what is wrong with the text.
pub fn read(s: &str) -> (r: Result<Json, String>)
    ensures
        read_view(r) == json_outcome(s@),
{
    match value_from_str(s) {
        Ok(v) => Ok(from_value(&v)),
        Err(e) => Err(e),
    }
}

/// The document that a JSON text spells, where it spells one.
pub fn parse(s: &str) -> (r: Option<Json>)
    ensures
        opt_view(r) == json_parse(s@),
{
    match read(s) {
        Ok(j) => Some(j),
        Err(_) => None,
    }
}

/// The compact JSON text of a document.
pub fn to_text(j: &Json) -> (r: String)
    ensures
        r@ == json_text(j@),
        plain(j@) ==> json_parse(r@) == Some(j@),
{
    match value_to_text(&to_value(j)) {
        Some(t) => t,
        None => String::new(),
    }
}

/// The indented JSON text of a document.
pub fn to_pretty(j: &Json) -> (r: String)
    ensures
        r@ == pretty_text(j@),
{
    match value_to_pretty(&to_value(j)) {
        Some(t) => t,
        None => String::new(),
    }
}

/// What is read under a key: a text where the member is one, a number where it
/// is one that is not negative and not too large, the elements of an array. A
/// member that is missing or of another kind counts as none.
pub proof fn lemma_members_are_read(v: JsonView, key: Seq<char>, other: Seq<char>, s: Seq<char>, n: int)
    ensures
        member(v, key) == Some(JsonView::Text(s)) ==> member_text(v, key) == Some(s)
            && member_text_or(v, key, other) == s,
        !(member(v, key) matches Some(JsonView::Text(_))) ==> member_text(v, key) is None
            && member_text_or(v, key, other) == other,
        member(v, key) == Some(JsonView::Int(n)) && 0 <= n <= u64::MAX ==> member_uint(v, key)
            == Some(n as u64),
        !(member(v, key) matches Some(JsonView::Int(_))) ==> member_uint(v, key) is None,
        member(v, key) == Some(JsonView::Int(n)) && n < 0 ==> member_uint(v, key) is None,
        !(v is Object) ==> member(v, key) is None,
{
}

} // verus!
