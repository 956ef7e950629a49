//! JSON values as plain data, and the text form that `serde_json` gives them.
use crate::text::{
    lemma_text_le_total, lemma_text_le_transitive, text_eq, text_le,
};
use serde_json::Value;
use vstd::prelude::*;
use vstd::string::*;

verus! {

/// A JSON number.
#[derive(Debug, PartialEq)]
pub enum JsonNumber {
    /// An integer that is not negative.
    Unsigned(u64),
    /// A negative integer.
    Negative(i64),
    /// Any other number: its text, and its value cut off behind the point.
    Float { text: String, truncated: i32 },
}

/// A JSON value.
#[derive(Debug, PartialEq)]
pub enum Json {
    Null,
    Bool(bool),
    Number(JsonNumber),
    Text(String),
    List(Vec<Json>),
    Object(Vec<(String, Json)>),
}

/// A JSON number by its contents.
pub enum JsonNumberV {
    Unsigned(u64),
    Negative(i64),
    Float { text: Seq<char>, truncated: i32 },
}

/// A JSON value by its contents.
#[verifier::ext_equal]
pub enum JsonV {
    Null,
    Bool(bool),
    Number(JsonNumberV),
    Text(Seq<char>),
    List(Seq<JsonV>),
    Object(Seq<(Seq<char>, JsonV)>),
}

impl View for JsonNumber {
    type V = JsonNumberV;

    open spec fn view(&self) -> JsonNumberV {
        match self {
            JsonNumber::Unsigned(n) => JsonNumberV::Unsigned(*n),
            JsonNumber::Negative(n) => JsonNumberV::Negative(*n),
            JsonNumber::Float { text, truncated } => JsonNumberV::Float {
                text: text@,
                truncated: *truncated,
            },
        }
    }
}

/// A JSON value by its contents.
pub open spec fn json_view(j: Json) -> JsonV
    decreases j,
{
    match j {
        Json::Null => JsonV::Null,
        Json::Bool(b) => JsonV::Bool(b),
        Json::Number(n) => JsonV::Number(n@),
        Json::Text(s) => JsonV::Text(s@),
        Json::List(v) => JsonV::List(
            Seq::new(
                v@.len(),
                |i: int|
                    if 0 <= i < v@.len() {
                        json_view(v@[i])
                    } else {
                        JsonV::Null
                    },
            ),
        ),
        Json::Object(m) => JsonV::Object(
            Seq::new(
                m@.len(),
                |i: int|
                    if 0 <= i < m@.len() {
                        (m@[i].0@, json_view(m@[i].1))
                    } else {
                        (Seq::empty(), JsonV::Null)
                    },
            ),
        ),
    }
}

impl View for Json {
    type V = JsonV;

    open spec fn view(&self) -> JsonV {
        json_view(*self)
    }
}

/// The first member of that name.
pub open spec fn find_member(members: Seq<(Seq<char>, JsonV)>, key: Seq<char>) -> Option<JsonV>
    decreases members.len(),
{
    if members.len() == 0 {
        None
    } else if members[0].0 == key {
        Some(members[0].1)
    } else {
        find_member(members.drop_first(), key)
    }
}

impl JsonV {
    /// The member of that name; only an object has members.
    pub open spec fn get(self, key: Seq<char>) -> Option<JsonV> {
        match self {
            JsonV::Object(members) => find_member(members, key),
            _ => None,
        }
    }

    /// The text, if the value is one.
    pub open spec fn as_text(self) -> Option<Seq<char>> {
        match self {
            JsonV::Text(s) => Some(s),
            _ => None,
        }
    }

    /// The truth value, if the value is one.
    pub open spec fn as_bool(self) -> Option<bool> {
        match self {
            JsonV::Bool(b) => Some(b),
            _ => None,
        }
    }

    /// The integer, if the value is one that is not negative.
    pub open spec fn as_u64(self) -> Option<u64> {
        match self {
            JsonV::Number(JsonNumberV::Unsigned(n)) => Some(n),
            _ => None,
        }
    }

    /// The integer, if the value is one that fits.
    pub open spec fn as_i64(self) -> Option<i64> {
        match self {
            JsonV::Number(JsonNumberV::Unsigned(n)) => if n <= i64::MAX {
                Some(n as i64)
            } else {
                None
            },
            JsonV::Number(JsonNumberV::Negative(n)) => Some(n),
            _ => None,
        }
    }

    /// The number cut off behind the point and held to the range of `i32`.
    pub open spec fn as_i32(self) -> Option<i32> {
        match self {
            JsonV::Number(JsonNumberV::Unsigned(n)) => if n <= i32::MAX {
                Some(n as i32)
            } else {
                Some(i32::MAX)
            },
            JsonV::Number(JsonNumberV::Negative(n)) => if n >= i32::MIN {
                Some(n as i32)
            } else {
                Some(i32::MIN)
            },
            JsonV::Number(JsonNumberV::Float { truncated, .. }) => Some(truncated),
            _ => None,
        }
    }

    /// The items, if the value is a list.
    pub open spec fn as_list(self) -> Option<Seq<JsonV>> {
        match self {
            JsonV::List(items) => Some(items),
            _ => None,
        }
    }

    /// The object with one member more.
    pub open spec fn with(self, key: Seq<char>, value: JsonV) -> JsonV {
        match self {
            JsonV::Object(members) => JsonV::Object(members.push((key, value))),
            _ => self,
        }
    }

    /// The object without members.
    pub open spec fn object() -> JsonV {
        JsonV::Object(Seq::empty())
    }
}

/// The member of that name of a value that may be missing.
pub open spec fn within(o: Option<JsonV>, key: Seq<char>) -> Option<JsonV> {
    match o {
        Some(j) => j.get(key),
        None => None,
    }
}

/// The text of a value that may be missing.
pub open spec fn text_within(o: Option<JsonV>) -> Option<Seq<char>> {
    match o {
        Some(j) => j.as_text(),
        None => None,
    }
}

/// The integer of a value that may be missing.
pub open spec fn u64_within(o: Option<JsonV>) -> Option<u64> {
    match o {
        Some(j) => j.as_u64(),
        None => None,
    }
}

/// `first` if it is there, else `second`.
pub open spec fn or_else(first: Option<JsonV>, second: Option<JsonV>) -> Option<JsonV> {
    if first is Some {
        first
    } else {
        second
    }
}

/// A borrowed value that may be missing, by its contents.
pub open spec fn opt_json(o: Option<&Json>) -> Option<JsonV> {
    match o {
        Some(j) => Some(j@),
        None => None,
    }
}

/// A borrowed text that may be missing, by its characters.
pub open spec fn opt_str(o: Option<&str>) -> Option<Seq<char>> {
    match o {
        Some(s) => Some(s@),
        None => None,
    }
}

/// The items of a list by their contents.
pub open spec fn json_list(v: Seq<Json>) -> Seq<JsonV> {
    v.map_values(|j: Json| j@)
}

/// Adding a member keeps the first member of a name, and is found where there
/// was none.
pub proof fn lemma_find_push(
    members: Seq<(Seq<char>, JsonV)>,
    key: Seq<char>,
    value: JsonV,
    wanted: Seq<char>,
)
    ensures
        find_member(members.push((key, value)), wanted) == (if find_member(members, wanted) is Some {
            find_member(members, wanted)
        } else if key == wanted {
            Some(value)
        } else {
            None
        }),
    decreases members.len(),
{
    reveal_with_fuel(find_member, 2);
    let more = members.push((key, value));
    if members.len() == 0 {
        assert(more.drop_first() == Seq::<(Seq<char>, JsonV)>::empty());
    } else {
        assert(more.drop_first() == members.drop_first().push((key, value)));
        lemma_find_push(members.drop_first(), key, value, wanted);
    }
}

impl Json {
    /// The member of that name; only an object has members.
    pub fn get<'a>(&'a self, key: &str) -> (r: Option<&'a Json>)
        ensures
            opt_json(r) == self@.get(key@),
    {
        match self {
            Json::Object(members) => {
                let ghost all = self@->Object_0;
                assert(all.skip(0) == all);
                for i in 0..members.len()
                    invariant
                        self@ is Object,
                        all == self@->Object_0,
                        all.len() == members@.len(),
                        forall|k: int|
                            0 <= k < members@.len() ==> #[trigger] all[k] == (
                                members@[k].0@,
                                members@[k].1@,
                            ),
                        find_member(all, key@) == find_member(all.skip(i as int), key@),
                {
                    assert(all[i as int] == (members@[i as int].0@, members@[i as int].1@));
                    if text_eq(members[i].0.as_str(), key) {
                        return Some(&members[i].1);
                    }
                    assert(all.skip(i as int).drop_first() == all.skip(i + 1));
                }
                None
            },
            _ => None,
        }
    }

    /// The text, if the value is one.
    pub fn as_text<'a>(&'a self) -> (r: Option<&'a str>)
        ensures
            opt_str(r) == self@.as_text(),
    {
        match self {
            Json::Text(s) => Some(s.as_str()),
            _ => None,
        }
    }

    /// The truth value, if the value is one.
    pub fn as_bool(&self) -> (r: Option<bool>)
        ensures
            r == self@.as_bool(),
    {
        match self {
            Json::Bool(b) => Some(*b),
            _ => None,
        }
    }

    /// The integer, if the value is one that is not negative.
    pub fn as_u64(&self) -> (r: Option<u64>)
        ensures
            r == self@.as_u64(),
    {
        match self {
            Json::Number(JsonNumber::Unsigned(n)) => Some(*n),
            _ => None,
        }
    }

    /// The integer, if the value is one that fits.
    pub fn as_i64(&self) -> (r: Option<i64>)
        ensures
            r == self@.as_i64(),
    {
        match self {
            Json::Number(JsonNumber::Unsigned(n)) => if *n <= i64::MAX as u64 {
                Some(*n as i64)
            } else {
                None
            },
            Json::Number(JsonNumber::Negative(n)) => Some(*n),
            _ => None,
        }
    }

    /// The number cut off behind the point and held to the range of `i32`.
    pub fn as_i32(&self) -> (r: Option<i32>)
        ensures
            r == self@.as_i32(),
    {
        match self {
            Json::Number(JsonNumber::Unsigned(n)) => if *n <= i32::MAX as u64 {
                Some(*n as i32)
            } else {
                Some(i32::MAX)
            },
            Json::Number(JsonNumber::Negative(n)) => if *n >= i32::MIN as i64 {
                Some(*n as i32)
            } else {
                Some(i32::MIN)
            },
            Json::Number(JsonNumber::Float { text: _, truncated }) => Some(*truncated),
            _ => None,
        }
    }

    /// The items, if the value is a list.
    pub fn as_list<'a>(&'a self) -> (r: Option<&'a Vec<Json>>)
        ensures
            match r {
                Some(items) => self@.as_list() == Some(json_list(items@)),
                None => self@.as_list() is None,
            },
    {
        match self {
            Json::List(items) => {
                assert(self@->List_0 == json_list(items@));
                Some(items)
            },
            _ => None,
        }
    }

    /// The object without members.
    pub fn object() -> (r: Json)
        ensures
            r@ == JsonV::object(),
    {
        let r: Json = Json::Object(Vec::new());
        assert(r@->Object_0 == Seq::<(Seq<char>, JsonV)>::empty());
        r
    }

    /// The object with one member more; any other value is left as it is.
    pub fn with(self, key: &str, value: Json) -> (r: Json)
        ensures
            r@ == self@.with(key@, value@),
    {
        match self {
            Json::Object(members) => {
                let ghost before = Json::Object(members)@->Object_0;
                let mut members: Vec<(String, Json)> = members;
                members.push((key.to_owned(), value));
                let r: Json = Json::Object(members);
                assert(r@->Object_0 == before.push((key@, value@)));
                r
            },
            other => other,
        }
    }

    /// A text value.
    pub fn text(s: &str) -> (r: Json)
        ensures
            r@ == JsonV::Text(s@),
    {
        Json::Text(s.to_owned())
    }

    /// A number value.
    pub fn unsigned(n: u64) -> (r: Json)
        ensures
            r@ == JsonV::Number(JsonNumberV::Unsigned(n)),
    {
        Json::Number(JsonNumber::Unsigned(n))
    }

    /// A number value.
    pub fn signed(n: i64) -> (r: Json)
        ensures
            r@ == integer_json(n as int),
    {
        if n >= 0 {
            Json::Number(JsonNumber::Unsigned(n as u64))
        } else {
            Json::Number(JsonNumber::Negative(n))
        }
    }

    /// A list value.
    pub fn list(items: Vec<Json>) -> (r: Json)
        ensures
            r@ == JsonV::List(json_list(items@)),
    {
        let ghost all = json_list(items@);
        let r: Json = Json::List(items);
        assert(r@->List_0 == all);
        r
    }
}

/// The number value of an integer.
pub open spec fn integer_json(n: int) -> JsonV {
    if n >= 0 {
        JsonV::Number(JsonNumberV::Unsigned(n as u64))
    } else {
        JsonV::Number(JsonNumberV::Negative(n as i64))
    }
}

/// The member of that name of a value that may be missing.
pub fn member<'a>(o: Option<&'a Json>, key: &str) -> (r: Option<&'a Json>)
    ensures
        opt_json(r) == within(opt_json(o), key@),
{
    match o {
        Some(j) => j.get(key),
        None => None,
    }
}

/// The text of a value that may be missing.
pub fn text_of<'a>(o: Option<&'a Json>) -> (r: Option<&'a str>)
    ensures
        opt_str(r) == text_within(opt_json(o)),
{
    match o {
        Some(j) => j.as_text(),
        None => None,
    }
}

/// The integer of a value that may be missing.
pub fn u64_of(o: Option<&Json>) -> (r: Option<u64>)
    ensures
        r == u64_within(opt_json(o)),
{
    match o {
        Some(j) => j.as_u64(),
        None => None,
    }
}

/// `first` if it is there, else `second`.
pub fn either<'a>(first: Option<&'a Json>, second: Option<&'a Json>) -> (r: Option<&'a Json>)
    ensures
        opt_json(r) == or_else(opt_json(first), opt_json(second)),
{
    match first {
        Some(j) => Some(j),
        None => second,
    }
}

/// An owned copy of a borrowed text that may be missing.
pub fn owned(o: Option<&str>) -> (r: Option<String>)
    ensures
        crate::text::opt_text(r) == opt_str(o),
{
    match o {
        Some(s) => Some(s.to_owned()),
        None => None,
    }
}

// ── Text form ───────────────────────────────────────────────────────────────

#[verifier::external_type_specification]
#[verifier::external_body]
pub struct ExJsonValue(serde_json::Value);

#[verifier::external_type_specification]
#[verifier::external_body]
pub struct ExJsonError(serde_json::Error);

/// What a `serde_json::Value` holds, the members of an object in the order in
/// which its map yields them.
pub uninterp spec fn json_contents(value: Value) -> JsonV;

/// What `serde_json::from_str` reads from a text, if it is JSON.
pub uninterp spec fn json_parsed(text: Seq<char>) -> Option<JsonV>;

/// The text over several lines that `serde_json` prints for these contents.
pub uninterp spec fn json_pretty(j: JsonV) -> Seq<char>;

/// The text that `serde_json` prints for these contents.
pub uninterp spec fn json_rendered(j: JsonV) -> Seq<char>;

/// One level of a `serde_json::Value`.
enum JsonShape<'a> {
    Null,
    Bool(bool),
    Unsigned(u64),
    Negative(i64),
    Float { text: String, truncated: i32 },
    Text(&'a str),
    List(Vec<&'a Value>),
    Object(Vec<(&'a str, &'a Value)>),
}

/// What one level holds with all below it.
spec fn shape_contents(shape: JsonShape) -> JsonV {
    match shape {
        JsonShape::Null => JsonV::Null,
        JsonShape::Bool(b) => JsonV::Bool(b),
        JsonShape::Unsigned(n) => JsonV::Number(JsonNumberV::Unsigned(n)),
        JsonShape::Negative(n) => JsonV::Number(JsonNumberV::Negative(n)),
        JsonShape::Float { text, truncated } => JsonV::Number(
            JsonNumberV::Float { text: text@, truncated },
        ),
        JsonShape::Text(s) => JsonV::Text(s@),
        JsonShape::List(items) => JsonV::List(
            items@.map_values(|v: &Value| json_contents(*v)),
        ),
        JsonShape::Object(members) => JsonV::Object(
            members@.map_values(|m: (&str, &Value)| (m.0@, json_contents(*m.1))),
        ),
    }
}

/// A value that is to be built, its parts built already.
enum JsonParts<'a> {
    Null,
    Bool(bool),
    Unsigned(u64),
    Signed(i64),
    Text(&'a str),
    List(Vec<Value>),
    Object(Vec<(&'a str, Value)>),
}

/// Puts a member where its key belongs among ascending keys; one with the same
/// key gives way.
pub open spec fn insert_member(
    members: Seq<(Seq<char>, JsonV)>,
    member: (Seq<char>, JsonV),
) -> Seq<(Seq<char>, JsonV)>
    decreases members.len(),
{
    if members.len() == 0 {
        seq![member]
    } else if members.last().0 == member.0 {
        members.drop_last().push(member)
    } else if text_le(members.last().0, member.0) {
        members.push(member)
    } else {
        insert_member(members.drop_last(), member).push(members.last())
    }
}

/// The members by ascending keys, the last of those with one key.
pub open spec fn sorted_members(members: Seq<(Seq<char>, JsonV)>) -> Seq<(Seq<char>, JsonV)>
    decreases members.len(),
{
    if members.len() == 0 {
        members
    } else {
        insert_member(sorted_members(members.drop_last()), members.last())
    }
}

/// What a value that is built of these parts holds.
spec fn parts_contents(parts: JsonParts) -> JsonV {
    match parts {
        JsonParts::Null => JsonV::Null,
        JsonParts::Bool(b) => JsonV::Bool(b),
        JsonParts::Unsigned(n) => integer_json(n as int),
        JsonParts::Signed(n) => integer_json(n as int),
        JsonParts::Text(s) => JsonV::Text(s@),
        JsonParts::List(items) => JsonV::List(
            items@.map_values(|v: Value| json_contents(v)),
        ),
        JsonParts::Object(members) => JsonV::Object(
            sorted_members(
                members@.map_values(|m: (&str, Value)| (m.0@, json_contents(m.1))),
            ),
        ),
    }
}

/// Contents as a `serde_json::Value` holds them: the members of each object by
/// ascending keys, an integer by its sign, another number as its text is read.
pub open spec fn json_stored(j: JsonV) -> JsonV
    decreases j,
{
    match j {
        JsonV::Number(JsonNumberV::Negative(n)) => integer_json(n as int),
        JsonV::Number(JsonNumberV::Float { text, .. }) => match json_parsed(text) {
            Some(read) => read,
            None => JsonV::Null,
        },
        JsonV::List(items) => JsonV::List(stored_items(items)),
        JsonV::Object(members) => JsonV::Object(sorted_members(stored_members(members))),
        _ => j,
    }
}

/// The items of a list as they are stored.
pub open spec fn stored_items(items: Seq<JsonV>) -> Seq<JsonV>
    decreases items,
{
    if items.len() == 0 {
        items
    } else {
        stored_items(items.drop_last()).push(json_stored(items.last()))
    }
}

/// Each item is stored in its place.
pub proof fn lemma_stored_items(items: Seq<JsonV>)
    ensures
        stored_items(items).len() == items.len(),
        forall|i: int|
            0 <= i < items.len() ==> #[trigger] stored_items(items)[i] == json_stored(items[i]),
    decreases items.len(),
{
    if items.len() > 0 {
        lemma_stored_items(items.drop_last());
    }
}

/// The members of an object, each value as it is stored.
pub open spec fn stored_members(members: Seq<(Seq<char>, JsonV)>) -> Seq<(Seq<char>, JsonV)>
    decreases members,
{
    if members.len() == 0 {
        members
    } else {
        stored_members(members.drop_last()).push(
            (members.last().0, json_stored(members.last().1)),
        )
    }
}

/// Each member is stored in its place.
pub proof fn lemma_stored_members(members: Seq<(Seq<char>, JsonV)>)
    ensures
        stored_members(members).len() == members.len(),
        forall|i: int|
            0 <= i < members.len() ==> #[trigger] stored_members(members)[i] == (
                members[i].0,
                json_stored(members[i].1),
            ),
    decreases members.len(),
{
    if members.len() > 0 {
        lemma_stored_members(members.drop_last());
    }
}

/// Contents that a `serde_json::Value` holds as they are: integers are split by
/// sign, keys ascend strictly, and nothing is nested deeper than `limit`. A
/// number with a fraction is left out.
pub open spec fn json_plain(j: JsonV, limit: nat) -> bool
    decreases limit,
{
    match j {
        JsonV::Null => true,
        JsonV::Bool(_) => true,
        JsonV::Text(_) => true,
        JsonV::Number(JsonNumberV::Unsigned(_)) => true,
        JsonV::Number(JsonNumberV::Negative(n)) => n < 0,
        JsonV::Number(JsonNumberV::Float { .. }) => false,
        JsonV::List(items) => limit > 0 && forall|i: int|
            0 <= i < items.len() ==> json_plain(#[trigger] items[i], (limit - 1) as nat),
        JsonV::Object(members) => {
            &&& limit > 0
            &&& forall|i: int|
                0 <= i < members.len() ==> json_plain(
                    (#[trigger] members[i]).1,
                    (limit - 1) as nat,
                )
            &&& keys_ascend(members)
        },
    }
}

/// The keys ascend strictly.
pub open spec fn keys_ascend(members: Seq<(Seq<char>, JsonV)>) -> bool {
    forall|i: int, k: int|
        #![trigger members[i], members[k]]
        0 <= i < k < members.len() ==> text_le(members[i].0, members[k].0) && members[i].0
            != members[k].0
}

proof fn lemma_ascending_is_sorted(members: Seq<(Seq<char>, JsonV)>)
    requires
        keys_ascend(members),
    ensures
        sorted_members(members) == members,
    decreases members.len(),
{
    if members.len() > 0 {
        let rest = members.drop_last();
        assert(keys_ascend(rest)) by {
            assert forall|i: int, k: int|
                #![trigger rest[i], rest[k]]
                0 <= i < k < rest.len() implies text_le(rest[i].0, rest[k].0) && rest[i].0
                != rest[k].0 by {
                assert(rest[i] == members[i] && rest[k] == members[k]);
            }
        }
        lemma_ascending_is_sorted(rest);
        if rest.len() > 0 {
            assert(rest.last() == members[members.len() - 2]);
            assert(members.last() == members[members.len() - 1]);
        }
        assert(rest.push(members.last()) =~= members);
        if rest.len() == 0 {
            assert(seq![members.last()] =~= members);
        }
    }
}

proof fn lemma_plain_is_stored(j: JsonV, limit: nat)
    requires
        json_plain(j, limit),
    ensures
        json_stored(j) == j,
    decreases limit,
{
    match j {
        JsonV::List(items) => {
            assert forall|i: int| 0 <= i < items.len() implies json_stored(#[trigger] items[i])
                == items[i] by {
                lemma_plain_is_stored(items[i], (limit - 1) as nat);
            }
            lemma_stored_items(items);
            assert(stored_items(items) =~= items);
        },
        JsonV::Object(members) => {
            assert forall|i: int| 0 <= i < members.len() implies json_stored(
                (#[trigger] members[i]).1,
            ) == members[i].1 by {
                lemma_plain_is_stored(members[i].1, (limit - 1) as nat);
            }
            lemma_stored_members(members);
            assert(stored_members(members) =~= members);
            lemma_ascending_is_sorted(members);
        },
        _ => {},
    }
}

/// The last member of that name.
pub open spec fn last_member(members: Seq<(Seq<char>, JsonV)>, key: Seq<char>) -> Option<JsonV>
    decreases members.len(),
{
    if members.len() == 0 {
        None
    } else if members.last().0 == key {
        Some(members.last().1)
    } else {
        last_member(members.drop_last(), key)
    }
}

proof fn lemma_missing_member(members: Seq<(Seq<char>, JsonV)>, key: Seq<char>)
    ensures
        find_member(members, key) is None <==> forall|i: int|
            0 <= i < members.len() ==> (#[trigger] members[i]).0 != key,
    decreases members.len(),
{
    if members.len() > 0 && members[0].0 != key {
        let rest = members.drop_first();
        lemma_missing_member(rest, key);
        assert forall|i: int| 0 <= i < rest.len() implies #[trigger] rest[i] == members[i + 1] by {}
        if find_member(members, key) is None {
            assert forall|i: int| 0 <= i < members.len() implies (#[trigger] members[i]).0
                != key by {
                if i > 0 {
                    assert(rest[i - 1] == members[i]);
                }
            }
        }
    }
}

/// Putting a member among ascending keys keeps them ascending, brings in no other
/// key, and changes what is found under its own key only.
proof fn lemma_insert_member(
    members: Seq<(Seq<char>, JsonV)>,
    member: (Seq<char>, JsonV),
    key: Seq<char>,
)
    requires
        keys_ascend(members),
    ensures
        keys_ascend(insert_member(members, member)),
        forall|i: int|
            0 <= i < insert_member(members, member).len() ==> (#[trigger] insert_member(
                members,
                member,
            )[i]) == member || members.contains(insert_member(members, member)[i]),
        find_member(insert_member(members, member), key) == (if key == member.0 {
            Some(member.1)
        } else {
            find_member(members, key)
        }),
    decreases members.len(),
{
    let result = insert_member(members, member);
    if members.len() == 0 {
        reveal_with_fuel(find_member, 2);
        assert(result.drop_first() =~= Seq::<(Seq<char>, JsonV)>::empty());
    } else {
        let rest = members.drop_last();
        let last = members.last();
        assert(rest.push(last) =~= members);
        assert forall|i: int| 0 <= i < rest.len() implies #[trigger] rest[i] == members[i] by {}
        assert(keys_ascend(rest)) by {
            assert forall|i: int, k: int|
                #![trigger rest[i], rest[k]]
                0 <= i < k < rest.len() implies text_le(rest[i].0, rest[k].0) && rest[i].0
                != rest[k].0 by {
                assert(rest[i] == members[i] && rest[k] == members[k]);
            }
        }
        lemma_find_push(rest, last.0, last.1, key);
        lemma_missing_member(rest, key);
        if last.0 == member.0 {
            lemma_find_push(rest, member.0, member.1, key);
            assert forall|i: int, k: int|
                #![trigger result[i], result[k]]
                0 <= i < k < result.len() implies text_le(result[i].0, result[k].0) && result[i].0
                != result[k].0 by {
                assert(result[i].0 == members[i].0 && result[k].0 == members[k].0);
            }
            if key == member.0 {
                assert forall|i: int| 0 <= i < rest.len() implies (#[trigger] rest[i]).0 != key by {
                    assert(members[members.len() - 1] == last);
                    assert(rest[i] == members[i]);
                }
            }
            assert forall|i: int| 0 <= i < result.len() implies (#[trigger] result[i]) == member
                || members.contains(result[i]) by {
                if i < rest.len() {
                    assert(result[i] == members[i]);
                }
            }
        } else if text_le(last.0, member.0) {
            lemma_find_push(members, member.0, member.1, key);
            assert forall|i: int| 0 <= i < members.len() implies text_le(
                (#[trigger] members[i]).0,
                member.0,
            ) && members[i].0 != member.0 by {
                assert(members[members.len() - 1] == last);
                if i < members.len() - 1 {
                    lemma_text_le_transitive(members[i].0, last.0, member.0);
                    lemma_text_le_total(members[i].0, last.0);
                }
            }
            assert forall|i: int, k: int|
                #![trigger result[i], result[k]]
                0 <= i < k < result.len() implies text_le(result[i].0, result[k].0) && result[i].0
                != result[k].0 by {
                assert(result[i] == members[i]);
                if k < members.len() {
                    assert(result[k] == members[k]);
                }
            }
            lemma_missing_member(members, key);
            assert forall|i: int| 0 <= i < result.len() implies (#[trigger] result[i]) == member
                || members.contains(result[i]) by {
                if i < members.len() {
                    assert(result[i] == members[i]);
                }
            }
        } else {
            lemma_insert_member(rest, member, key);
            lemma_text_le_total(last.0, member.0);
            let inner = insert_member(rest, member);
            lemma_find_push(inner, last.0, last.1, key);
            assert forall|i: int| 0 <= i < inner.len() implies text_le(
                (#[trigger] inner[i]).0,
                last.0,
            ) && inner[i].0 != last.0 by {
                assert(inner[i] == member || rest.contains(inner[i]));
                if inner[i] != member {
                    let k = choose|k: int| 0 <= k < rest.len() && rest[k] == inner[i];
                    assert(members[k] == rest[k] && members[members.len() - 1] == last);
                }
            }
            assert forall|i: int, k: int|
                #![trigger result[i], result[k]]
                0 <= i < k < result.len() implies text_le(result[i].0, result[k].0) && result[i].0
                != result[k].0 by {
                assert(result[i] == inner[i]);
                if k < inner.len() {
                    assert(result[k] == inner[k]);
                }
            }
            assert forall|i: int| 0 <= i < result.len() implies (#[trigger] result[i]) == member
                || members.contains(result[i]) by {
                if i < inner.len() {
                    assert(result[i] == inner[i]);
                    if inner[i] != member {
                        let k = choose|k: int| 0 <= k < rest.len() && rest[k] == inner[i];
                        assert(members[k] == inner[i]);
                    }
                } else {
                    assert(members[members.len() - 1] == result[i]);
                }
            }
        }
    }
}

/// Sorted members are members, and what is found among them is the last of its
/// name.
pub proof fn lemma_sorted_members(members: Seq<(Seq<char>, JsonV)>, key: Seq<char>)
    ensures
        keys_ascend(sorted_members(members)),
        forall|i: int|
            0 <= i < sorted_members(members).len() ==> members.contains(
                #[trigger] sorted_members(members)[i],
            ),
        find_member(sorted_members(members), key) == last_member(members, key),
    decreases members.len(),
{
    if members.len() > 0 {
        let rest = members.drop_last();
        lemma_sorted_members(rest, key);
        lemma_insert_member(sorted_members(rest), members.last(), key);
        let sorted = sorted_members(members);
        assert forall|i: int| 0 <= i < sorted.len() implies members.contains(
            #[trigger] sorted[i],
        ) by {
            if sorted[i] == members.last() {
                assert(members[members.len() - 1] == sorted[i]);
            } else {
                let k = choose|k: int|
                    0 <= k < sorted_members(rest).len() && sorted_members(rest)[k] == sorted[i];
                assert(rest.contains(sorted_members(rest)[k]));
                let n = choose|n: int| 0 <= n < rest.len() && rest[n] == sorted[i];
                assert(members[n] == sorted[i]);
            }
        }
    }
}

/// What is stored under a name is the last of the members of that name.
pub proof fn lemma_stored_get(members: Seq<(Seq<char>, JsonV)>, key: Seq<char>)
    ensures
        json_stored(JsonV::Object(members)).get(key) == (match last_member(members, key) {
            Some(j) => Some(json_stored(j)),
            None => None,
        }),
{
    lemma_sorted_members(stored_members(members), key);
    lemma_stored_last(members, key);
}

proof fn lemma_stored_last(members: Seq<(Seq<char>, JsonV)>, key: Seq<char>)
    ensures
        last_member(stored_members(members), key) == (match last_member(members, key) {
            Some(j) => Some(json_stored(j)),
            None => None,
        }),
    decreases members.len(),
{
    if members.len() > 0 {
        lemma_stored_last(members.drop_last(), key);
        assert(stored_members(members).drop_last() =~= stored_members(members.drop_last()));
    }
}

/// Nesting that `serde_json` reads back; it refuses text nested deeper than 127.
pub open spec fn json_nesting() -> nat {
    100
}

/// Calls `serde_json::from_str` for a `Value`. Claimed of it: whether a text is
/// JSON, and what it then holds, is a function of the text.
#[verifier::external_body]
fn value_from_str(text: &str) -> (r: Result<Value, serde_json::Error>)
    ensures
        match r {
            Ok(value) => json_parsed(text@) == Some(json_contents(value)),
            Err(_) => json_parsed(text@) is None,
        },
{
    serde_json::from_str(text)
}

/// Tells the variants of a `serde_json::Value` apart, and those of its number by
/// `Number::as_u64` and `as_i64`. Claimed: the result is the value's top level.
#[verifier::external_body]
fn shape_of_value<'a>(value: &'a Value) -> (r: JsonShape<'a>)
    ensures
        shape_contents(r) == json_contents(*value),
{
    match value {
        Value::Null => JsonShape::Null,
        Value::Bool(b) => JsonShape::Bool(*b),
        Value::Number(n) => match (n.as_u64(), n.as_i64()) {
            (Some(u), _) => JsonShape::Unsigned(u),
            (_, Some(i)) => JsonShape::Negative(i),
            _ => JsonShape::Float {
                text: n.to_string(),
                truncated: n.as_f64().unwrap_or_default() as i32,
            },
        },
        Value::String(s) => JsonShape::Text(s),
        Value::Array(a) => JsonShape::List(a.iter().collect()),
        Value::Object(m) => JsonShape::Object(m.iter().map(|(k, v)| (k.as_str(), v)).collect()),
    }
}

/// Builds a `serde_json::Value`, its map collected from the members. Claimed: it
/// holds its parts, the members by ascending keys, since the map is a `BTreeMap`.
#[verifier::external_body]
fn value_of_parts(parts: JsonParts) -> (r: Value)
    ensures
        json_contents(r) == parts_contents(parts),
{
    match parts {
        JsonParts::Null => Value::Null,
        JsonParts::Bool(b) => Value::Bool(b),
        JsonParts::Unsigned(n) => n.into(),
        JsonParts::Signed(n) => n.into(),
        JsonParts::Text(s) => s.into(),
        JsonParts::List(items) => Value::Array(items),
        JsonParts::Object(members) => members.into_iter().collect(),
    }
}

/// Calls `Value::to_string`, the compact form that `serde_json::to_string` gives
/// too. Claimed of it: the text is a function of what the value holds, has no
/// line break in it, and is read back as the same contents where they are plain.
#[verifier::external_body]
fn value_to_string(value: &Value) -> (r: String)
    ensures
        r@ == json_rendered(json_contents(*value)),
        !r@.contains('\n'),
        json_plain(json_contents(*value), json_nesting()) ==> json_parsed(r@) == Some(
            json_contents(*value),
        ),
{
    value.to_string()
}

/// Prints a `Value` in the alternate form of its `Display`, which is the form of
/// `serde_json::to_string_pretty`. Claimed of it: the text is a function of what
/// the value holds.
#[verifier::external_body]
fn value_to_pretty(value: &Value) -> (r: String)
    ensures
        r@ == json_pretty(json_contents(*value)),
{
    format!("{value:#}")
}

fn json_of_value(value: &Value) -> (r: Json)
    ensures
        r@ == json_contents(*value),
    decreases json_contents(*value),
{
    match shape_of_value(value) {
        JsonShape::Null => Json::Null,
        JsonShape::Bool(b) => Json::Bool(b),
        JsonShape::Unsigned(n) => Json::Number(JsonNumber::Unsigned(n)),
        JsonShape::Negative(n) => Json::Number(JsonNumber::Negative(n)),
        JsonShape::Float { text, truncated } => Json::Number(
            JsonNumber::Float { text, truncated },
        ),
        JsonShape::Text(s) => Json::Text(s.to_owned()),
        JsonShape::List(items) => {
            let ghost held = json_contents(*value)->List_0;
            let mut list: Vec<Json> = Vec::new();
            let mut i: usize = 0;
            while i < items.len()
                invariant
                    i <= items.len(),
                    list.len() == i,
                    json_contents(*value) == JsonV::List(held),
                    held == items@.map_values(|v: &Value| json_contents(*v)),
                    forall|k: int| 0 <= k < i ==> (#[trigger] list@[k])@ == held[k],
                decreases items.len() - i,
            {
                assert(held[i as int] == json_contents(*items@[i as int]));
                assert(decreases_to!(json_contents(*value) => json_contents(*value)->List_0[i as int]));
                list.push(json_of_value(items[i]));
                i = i + 1;
            }
            let r = Json::List(list);
            assert(r@->List_0 =~= held);
            r
        },
        JsonShape::Object(members) => {
            let ghost held = json_contents(*value)->Object_0;
            let mut list: Vec<(String, Json)> = Vec::new();
            let mut i: usize = 0;
            while i < members.len()
                invariant
                    i <= members.len(),
                    list.len() == i,
                    json_contents(*value) == JsonV::Object(held),
                    held == members@.map_values(
                        |m: (&str, &Value)| (m.0@, json_contents(*m.1)),
                    ),
                    forall|k: int|
                        0 <= k < i ==> (#[trigger] list@[k]).0@ == held[k].0 && list@[k].1@
                            == held[k].1,
                decreases members.len() - i,
            {
                assert(held[i as int] == (members@[i as int].0@, json_contents(
                    *members@[i as int].1,
                )));
                assert(decreases_to!(json_contents(*value) => json_contents(*value)->Object_0[i as int].1));
                list.push((members[i].0.to_owned(), json_of_value(members[i].1)));
                i = i + 1;
            }
            let r = Json::Object(list);
            assert(r@->Object_0 =~= held);
            r
        },
    }
}

pub(crate) fn value_of_json(j: &Json) -> (r: Value)
    ensures
        json_contents(r) == json_stored(j@),
    decreases j,
{
    match j {
        Json::Null => value_of_parts(JsonParts::Null),
        Json::Bool(b) => value_of_parts(JsonParts::Bool(*b)),
        Json::Number(JsonNumber::Unsigned(n)) => value_of_parts(JsonParts::Unsigned(*n)),
        Json::Number(JsonNumber::Negative(n)) => value_of_parts(JsonParts::Signed(*n)),
        Json::Number(JsonNumber::Float { text, .. }) => match value_from_str(text.as_str()) {
            Ok(value) => value,
            Err(_) => value_of_parts(JsonParts::Null),
        },
        Json::Text(s) => value_of_parts(JsonParts::Text(s.as_str())),
        Json::List(items) => {
            let ghost held = j@->List_0;
            let mut list: Vec<Value> = Vec::new();
            let mut i: usize = 0;
            while i < items.len()
                invariant
                    i <= items.len(),
                    list.len() == i,
                    *j == Json::List(*items),
                    j@ == JsonV::List(held),
                    held.len() == items.len(),
                    forall|k: int| 0 <= k < items.len() ==> held[k] == (#[trigger] items@[k])@,
                    forall|k: int|
                        0 <= k < i ==> json_contents(#[trigger] list@[k]) == json_stored(held[k]),
                decreases items.len() - i,
            {
                assert(decreases_to!(j => items@[i as int]));
                list.push(value_of_json(&items[i]));
                i = i + 1;
            }
            proof {
                lemma_stored_items(held);
                assert(list@.map_values(|v: Value| json_contents(v)) =~= stored_items(
                    held,
                ));
            }
            value_of_parts(JsonParts::List(list))
        },
        Json::Object(members) => {
            let ghost held = j@->Object_0;
            let mut list: Vec<(&str, Value)> = Vec::new();
            let mut i: usize = 0;
            while i < members.len()
                invariant
                    i <= members.len(),
                    list.len() == i,
                    *j == Json::Object(*members),
                    j@ == JsonV::Object(held),
                    held.len() == members.len(),
                    forall|k: int|
                        0 <= k < members.len() ==> held[k] == ((#[trigger] members@[k]).0@,
                            members@[k].1@),
                    forall|k: int|
                        0 <= k < i ==> (#[trigger] list@[k]).0@ == held[k].0 && json_contents(
                            list@[k].1,
                        ) == json_stored(held[k].1),
                decreases members.len() - i,
            {
                assert(decreases_to!(j => members@[i as int].1));
                list.push((members[i].0.as_str(), value_of_json(&members[i].1)));
                i = i + 1;
            }
            proof {
                lemma_stored_members(held);
                assert(list@.map_values(|m: (&str, Value)| (m.0@, json_contents(m.1)))
                    =~= stored_members(held));
            }
            value_of_parts(JsonParts::Object(list))
        },
    }
}

/// Reads a JSON value; `None` where the text is not JSON.
pub fn parse_json(text: &str) -> (r: Option<Json>)
    ensures
        match r {
            Some(j) => json_parsed(text@) == Some(j@),
            None => json_parsed(text@) is None,
        },
{
    match value_from_str(text) {
        Ok(value) => Some(json_of_value(&value)),
        Err(_) => None,
    }
}

/// Prints a JSON value on one line. Plain contents are read back as they were.
pub fn render_json(j: &Json) -> (r: String)
    ensures
        r@ == json_rendered(json_stored(j@)),
        !r@.contains('\n'),
        json_plain(j@, json_nesting()) ==> r@ == json_rendered(j@) && json_parsed(r@) == Some(j@),
{
    let value: Value = value_of_json(j);
    proof {
        if json_plain(j@, json_nesting()) {
            lemma_plain_is_stored(j@, json_nesting());
        }
    }
    value_to_string(&value)
}

/// Prints a JSON value over several lines.
pub fn render_json_pretty(j: &Json) -> (r: String)
    ensures
        r@ == json_pretty(json_stored(j@)),
{
    let value: Value = value_of_json(j);
    value_to_pretty(&value)
}

// ── Laws of reading ─────────────────────────────────────────────────────────

/// The value that a path of names leads to, from member to member.
pub open spec fn at_path(j: JsonV, path: Seq<Seq<char>>) -> Option<JsonV>
    decreases path.len(),
{
    if path.len() == 0 {
        Some(j)
    } else {
        match j.get(path[0]) {
            Some(inner) => at_path(inner, path.skip(1)),
            None => None,
        }
    }
}

/// Whether a path leads to this text.
pub open spec fn says(j: JsonV, path: Seq<Seq<char>>, text: Seq<char>) -> bool {
    at_path(j, path) == Some(JsonV::Text(text))
}

/// Whether a path leads to no text.
pub open spec fn says_nothing(j: JsonV, path: Seq<Seq<char>>) -> bool {
    !(at_path(j, path) matches Some(JsonV::Text(_)))
}

/// Whether a path leads to this number.
pub open spec fn counts(j: JsonV, path: Seq<Seq<char>>, n: u64) -> bool {
    at_path(j, path) == Some(JsonV::Number(JsonNumberV::Unsigned(n)))
}

/// Whether a path leads to no number that counts.
pub open spec fn counts_nothing(j: JsonV, path: Seq<Seq<char>>) -> bool {
    !(at_path(j, path) matches Some(JsonV::Number(JsonNumberV::Unsigned(_))))
}

/// Paths of up to four names, unrolled.
pub proof fn lemma_at_path(j: JsonV, a: Seq<char>, b: Seq<char>, c: Seq<char>, d: Seq<char>)
    ensures
        at_path(j, seq![a]) == j.get(a),
        at_path(j, seq![a, b]) == within(j.get(a), b),
        at_path(j, seq![a, b, c]) == within(within(j.get(a), b), c),
        at_path(j, seq![a, b, c, d]) == within(within(within(j.get(a), b), c), d),
{
    reveal_with_fuel(at_path, 5);
    assert(seq![a].skip(1) =~= Seq::<Seq<char>>::empty());
    assert(seq![b].skip(1) =~= Seq::<Seq<char>>::empty());
    assert(seq![c].skip(1) =~= Seq::<Seq<char>>::empty());
    assert(seq![d].skip(1) =~= Seq::<Seq<char>>::empty());
    assert(seq![a, b].skip(1) =~= seq![b]);
    assert(seq![b, c].skip(1) =~= seq![c]);
    assert(seq![c, d].skip(1) =~= seq![d]);
    assert(seq![a, b, c].skip(1) =~= seq![b, c]);
    assert(seq![b, c, d].skip(1) =~= seq![c, d]);
    assert(seq![a, b, c, d].skip(1) =~= seq![b, c, d]);
}

/// A member is found under its name and under no other: what is found is what the
/// first member of that name holds, and nothing is found where no member has it.
pub proof fn law_members_are_found_by_name(members: Seq<(Seq<char>, JsonV)>, key: Seq<char>)
    ensures
        JsonV::Object(members).get(key) is None <==> forall|i: int|
            0 <= i < members.len() ==> (#[trigger] members[i]).0 != key,
        JsonV::Object(members).get(key) matches Some(value) ==> exists|i: int|
            0 <= i < members.len() && #[trigger] members[i] == (key, value) && forall|k: int|
                0 <= k < i ==> (#[trigger] members[k]).0 != key,
    decreases members.len(),
{
    lemma_missing_member(members, key);
    if members.len() > 0 {
        let rest = members.drop_first();
        law_members_are_found_by_name(rest, key);
        if members[0].0 == key {
            assert(members[0] == (key, members[0].1));
        } else if JsonV::Object(members).get(key) is Some {
            let value = JsonV::Object(members).get(key)->0;
            let i = choose|i: int|
                0 <= i < rest.len() && #[trigger] rest[i] == (key, value) && forall|k: int|
                    0 <= k < i ==> (#[trigger] rest[k]).0 != key;
            assert(members[i + 1] == (key, value));
            assert forall|k: int| 0 <= k < i + 1 implies (#[trigger] members[k]).0 != key by {
                if k > 0 {
                    assert(rest[k - 1] == members[k]);
                }
            }
        }
    }
}

/// Only an object has members, and each kind of value is read as that kind only: a
/// text as its characters, a truth value as itself, a list as its items, a whole number
/// as itself where it fits.
pub proof fn law_values_are_read_as_their_kind(j: JsonV, key: Seq<char>)
    ensures
        !(j is Object) ==> j.get(key) is None,
        j.as_text() is Some <==> j is Text,
        j matches JsonV::Text(s) ==> j.as_text() == Some(s),
        j.as_bool() is Some <==> j is Bool,
        j matches JsonV::Bool(b) ==> j.as_bool() == Some(b),
        j.as_list() is Some <==> j is List,
        j matches JsonV::List(items) ==> j.as_list() == Some(items),
        j matches JsonV::Number(JsonNumberV::Unsigned(n)) ==> j.as_u64() == Some(n) && (n
            <= i64::MAX ==> j.as_i64() == Some(n as i64)) && (n > i64::MAX ==> j.as_i64() is None)
            && j.as_i32() == Some(
            if n <= i32::MAX {
                n as i32
            } else {
                i32::MAX
            },
        ),
        j matches JsonV::Number(JsonNumberV::Negative(n)) ==> j.as_u64() is None && j.as_i64()
            == Some(n) && j.as_i32() == Some(
            if n >= i32::MIN {
                n as i32
            } else {
                i32::MIN
            },
        ),
        j matches JsonV::Number(JsonNumberV::Float { truncated, .. }) ==> j.as_u64() is None
            && j.as_i64() is None && j.as_i32() == Some(truncated),
        !(j is Number) ==> j.as_u64() is None && j.as_i64() is None && j.as_i32() is None,
{
}

/// An object with a member more holds that member under its name where the name was
/// free, and all else as before.
pub proof fn law_added_members_are_found(
    members: Seq<(Seq<char>, JsonV)>,
    key: Seq<char>,
    value: JsonV,
    wanted: Seq<char>,
)
    ensures
        JsonV::Object(members).get(key) is None ==> JsonV::Object(members).with(key, value).get(
            key,
        ) == Some(value),
        wanted != key ==> JsonV::Object(members).with(key, value).get(wanted) == JsonV::Object(
            members,
        ).get(wanted),
        JsonV::object().get(wanted) is None,
{
    lemma_find_push(members, key, value, wanted);
    lemma_find_push(members, key, value, key);
}

/// What is stored of an object under a name is what was put there last under it.
pub proof fn law_the_last_member_is_stored(o: JsonV, key: Seq<char>, value: JsonV, wanted: Seq<char>)
    requires
        o is Object,
    ensures
        json_stored(o.with(key, value)).get(key) == Some(json_stored(value)),
        wanted != key ==> json_stored(o.with(key, value)).get(wanted) == json_stored(o).get(wanted),
        json_stored(JsonV::object()).get(wanted) is None,
{
    let members = o->Object_0;
    let more = members.push((key, value));
    assert(more.drop_last() =~= members);
    lemma_stored_get(more, key);
    lemma_stored_get(more, wanted);
    lemma_stored_get(members, wanted);
    lemma_stored_get(Seq::empty(), wanted);
}

/// Texts, truth values, nothing and whole numbers are stored as they are, and a list
/// item by item.
pub proof fn law_plain_values_are_stored(s: Seq<char>, b: bool, n: u64, items: Seq<JsonV>, i: int)
    ensures
        json_stored(JsonV::Text(s)) == JsonV::Text(s),
        json_stored(JsonV::Bool(b)) == JsonV::Bool(b),
        json_stored(JsonV::Null) == JsonV::Null,
        json_stored(JsonV::Number(JsonNumberV::Unsigned(n))) == JsonV::Number(
            JsonNumberV::Unsigned(n),
        ),
        json_stored(JsonV::List(items)) is List,
        json_stored(JsonV::List(items))->List_0.len() == items.len(),
        0 <= i < items.len() ==> json_stored(JsonV::List(items))->List_0[i] == json_stored(items[i]),
{
    lemma_stored_items(items);
}

} // verus!
