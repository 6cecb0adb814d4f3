//! JSON values: reading, building and writing them.

use vstd::prelude::*;
use vstd::string::*;

use crate::score::{nearest_double, Score};
use crate::string_map::{in_order, StringMap};
use crate::text::{decimal, decimal_text, same_text, text_before, text_lt};
use crate::views::{lemma_take_next, lemma_views_push, opt_view, views, Duplicate};

verus! {

/// A JSON number: its value as an unsigned integer where it is one, the double nearest to it, and
/// how it is written.
#[derive(Clone, Debug, PartialEq)]
pub struct Number {
    pub unsigned: Option<u64>,
    pub double: Score,
    pub text: String,
}

/// The view of a [`Number`].
pub struct NumberView {
    pub unsigned: Option<u64>,
    pub double: Score,
    pub text: Seq<char>,
}

impl View for Number {
    type V = NumberView;

    open spec fn view(&self) -> NumberView {
        NumberView { unsigned: self.unsigned, double: self.double, text: self.text@ }
    }
}

impl Duplicate for Number {
    fn duplicate(&self) -> (r: Self) {
        Number { unsigned: self.unsigned, double: self.double, text: self.text.clone() }
    }
}

/// A JSON value. An object lists its members in the order in which they are written.
#[derive(Debug, PartialEq)]
pub enum Json {
    Null,
    Bool(bool),
    Number(Number),
    Text(String),
    Array(Vec<Json>),
    Object(Vec<(String, Json)>),
}

/// The view of a [`Json`] value.
pub enum JsonView {
    Null,
    Bool(bool),
    Number(NumberView),
    Text(Seq<char>),
    Array(Seq<JsonView>),
    Object(Seq<(Seq<char>, JsonView)>),
}

impl Json {
    /// The value as a tree of plain values.
    pub open spec fn tree(self) -> JsonView
        decreases self,
    {
        match self {
            Json::Null => JsonView::Null,
            Json::Bool(b) => JsonView::Bool(b),
            Json::Number(n) => JsonView::Number(n@),
            Json::Text(s) => JsonView::Text(s@),
            Json::Array(items) => JsonView::Array(
                Seq::new(
                    items@.len(),
                    |i: int|
                        if 0 <= i < items@.len() {
                            items@[i].tree()
                        } else {
                            JsonView::Null
                        },
                ),
            ),
            Json::Object(members) => JsonView::Object(
                Seq::new(
                    members@.len(),
                    |i: int|
                        if 0 <= i < members@.len() {
                            (members@[i].0@, members@[i].1.tree())
                        } else {
                            (Seq::empty(), JsonView::Null)
                        },
                ),
            ),
        }
    }
}

impl View for Json {
    type V = JsonView;

    open spec fn view(&self) -> JsonView {
        self.tree()
    }
}

/// The names and values of members.
pub open spec fn member_views(members: Seq<(String, Json)>) -> Seq<(Seq<char>, JsonView)> {
    Seq::new(members.len(), |i: int| (members[i].0@, members[i].1@))
}

proof fn lemma_member_views_push(members: Seq<(String, Json)>, m: (String, Json))
    ensures
        member_views(members.push(m)) == member_views(members).push((m.0@, m.1@)),
{
    assert(member_views(members.push(m)) =~= member_views(members).push((m.0@, m.1@)));
}

/// An object's tree holds the views of its members.
pub proof fn lemma_object_tree(members: Vec<(String, Json)>)
    ensures
        Json::Object(members).tree() == JsonView::Object(member_views(members@)),
{
    assert(Json::Object(members).tree()->Object_0 =~= member_views(members@));
}

/// An array's tree holds the views of its items.
pub proof fn lemma_array_tree(items: Vec<Json>)
    ensures
        Json::Array(items).tree() == JsonView::Array(views(items@)),
{
    assert(Json::Array(items).tree()->Array_0 =~= views(items@));
}

/// The number `n` written in decimal.
pub open spec fn unsigned_number(n: nat) -> JsonView {
    JsonView::Number(
        NumberView {
            unsigned: Some(n as u64),
            double: Score { bits: nearest_double(n) as u64 },
            text: decimal(n),
        },
    )
}

/// The number whose value is `double` and which is written `text`; null where `double` is infinite
/// or not a number, for which JSON has no form.
pub open spec fn double_number(double: Score, text: Seq<char>) -> JsonView {
    if double.finite() {
        JsonView::Number(NumberView { unsigned: None, double, text })
    } else {
        JsonView::Null
    }
}

/// The text, or null.
pub open spec fn optional_text(text: Option<Seq<char>>) -> JsonView {
    match text {
        Some(t) => JsonView::Text(t),
        None => JsonView::Null,
    }
}

/// The value, or null.
pub open spec fn or_null(value: Option<JsonView>) -> JsonView {
    match value {
        Some(v) => v,
        None => JsonView::Null,
    }
}

/// The array of texts.
pub open spec fn text_array(texts: Seq<Seq<char>>) -> JsonView {
    JsonView::Array(texts.map_values(|t: Seq<char>| JsonView::Text(t)))
}

/// The value of the first member with the name `key`.
pub open spec fn lookup(members: Seq<(Seq<char>, JsonView)>, key: Seq<char>) -> Option<JsonView>
    decreases members.len(),
{
    if members.len() == 0 {
        None
    } else if members[0].0 == key {
        Some(members[0].1)
    } else {
        lookup(members.drop_first(), key)
    }
}

/// The member of an object with the name `key`.
pub open spec fn member(value: JsonView, key: Seq<char>) -> Option<JsonView> {
    match value {
        JsonView::Object(members) => lookup(members, key),
        _ => None,
    }
}

/// The members with `value` in the place of the first member with the name `key`.
pub open spec fn with_replaced(
    members: Seq<(Seq<char>, JsonView)>,
    key: Seq<char>,
    value: JsonView,
) -> Seq<(Seq<char>, JsonView)>
    decreases members.len(),
{
    if members.len() == 0 {
        members
    } else if members[0].0 == key {
        seq![(key, value)] + members.drop_first()
    } else {
        seq![members[0]] + with_replaced(members.drop_first(), key, value)
    }
}

/// The members with a member put before the first with a greater name.
pub open spec fn with_inserted(
    members: Seq<(Seq<char>, JsonView)>,
    key: Seq<char>,
    value: JsonView,
) -> Seq<(Seq<char>, JsonView)>
    decreases members.len(),
{
    if members.len() == 0 || text_lt(key, members[0].0) {
        seq![(key, value)] + members
    } else {
        seq![members[0]] + with_inserted(members.drop_first(), key, value)
    }
}

/// The members with `value` put at `key`: in the place of the member of that name, or else before
/// the first member with a greater name.
pub open spec fn with_member(
    members: Seq<(Seq<char>, JsonView)>,
    key: Seq<char>,
    value: JsonView,
) -> Seq<(Seq<char>, JsonView)> {
    if lookup(members, key) is Some {
        with_replaced(members, key, value)
    } else {
        with_inserted(members, key, value)
    }
}

/// What is put at a name is found there, and what other names have stays.
pub proof fn put_members_are_found(
    members: Seq<(Seq<char>, JsonView)>,
    key: Seq<char>,
    value: JsonView,
    other: Seq<char>,
)
    ensures
        lookup(with_member(members, key, value), key) == Some(value),
        other != key ==> lookup(with_member(members, key, value), other) == lookup(members, other),
{
    lemma_replaced(members, key, value, other);
    lemma_inserted(members, key, value, other);
}

proof fn lemma_replaced(
    members: Seq<(Seq<char>, JsonView)>,
    key: Seq<char>,
    value: JsonView,
    other: Seq<char>,
)
    ensures
        lookup(members, key) is Some ==> lookup(with_replaced(members, key, value), key) == Some(
            value,
        ),
        other != key ==> lookup(with_replaced(members, key, value), other) == lookup(
            members,
            other,
        ),
    decreases members.len(),
{
    if members.len() > 0 {
        let rest = members.drop_first();
        lemma_replaced(rest, key, value, other);
        assert((seq![(key, value)] + rest).drop_first() =~= rest);
        let after = with_replaced(rest, key, value);
        assert((seq![members[0]] + after).drop_first() =~= after);
    }
}

proof fn lemma_inserted(
    members: Seq<(Seq<char>, JsonView)>,
    key: Seq<char>,
    value: JsonView,
    other: Seq<char>,
)
    ensures
        lookup(members, key) is None ==> lookup(with_inserted(members, key, value), key) == Some(
            value,
        ),
        other != key ==> lookup(with_inserted(members, key, value), other) == lookup(
            members,
            other,
        ),
    decreases members.len(),
{
    assert((seq![(key, value)] + members).drop_first() =~= members);
    if members.len() > 0 {
        let rest = members.drop_first();
        lemma_inserted(rest, key, value, other);
        let after = with_inserted(rest, key, value);
        assert((seq![members[0]] + after).drop_first() =~= after);
    }
}

/// The object of a map's entries, in the order of the keys.
pub open spec fn object_of(entries: Map<Seq<char>, JsonView>) -> JsonView {
    let keys = in_order(entries.dom());
    JsonView::Object(Seq::new(keys.len(), |i: int| (keys[i], entries[keys[i]])))
}

/// The member with the name `key` of an optional value.
pub open spec fn opt_member(value: Option<JsonView>, key: Seq<char>) -> Option<JsonView> {
    match value {
        Some(v) => member(v, key),
        None => None,
    }
}

/// The text of a JSON string.
pub open spec fn text_of(value: Option<JsonView>) -> Option<Seq<char>> {
    match value {
        Some(JsonView::Text(s)) => Some(s),
        _ => None,
    }
}

/// The items of a JSON array.
pub open spec fn items_of(value: Option<JsonView>) -> Option<Seq<JsonView>> {
    match value {
        Some(JsonView::Array(items)) => Some(items),
        _ => None,
    }
}

/// The number as an unsigned integer, where it is one.
pub open spec fn unsigned_of(value: Option<JsonView>) -> Option<u64> {
    match value {
        Some(JsonView::Number(n)) => n.unsigned,
        _ => None,
    }
}

/// The number as a double.
pub open spec fn double_of(value: Option<JsonView>) -> Option<Score> {
    match value {
        Some(JsonView::Number(n)) => Some(n.double),
        _ => None,
    }
}

/// The view of an optional reference to a value.
pub open spec fn json_view(value: Option<&Json>) -> Option<JsonView> {
    match value {
        Some(v) => Some(v@),
        None => None,
    }
}

/// The member with the name `key` of an optional value.
pub fn get_in<'a>(value: Option<&'a Json>, key: &str) -> (r: Option<&'a Json>)
    ensures
        json_view(r) == opt_member(json_view(value), key@),
{
    match value {
        Some(v) => v.get(key),
        None => None,
    }
}

/// The text of an optional JSON string.
pub fn str_in<'a>(value: Option<&'a Json>) -> (r: Option<&'a String>)
    ensures
        match r {
            Some(s) => text_of(json_view(value)) == Some(s@),
            None => text_of(json_view(value)) is None,
        },
{
    match value {
        Some(v) => v.as_str(),
        None => None,
    }
}

impl Json {
    /// A JSON string.
    pub fn text(s: &str) -> (r: Json)
        ensures
            r@ == JsonView::Text(s@),
    {
        Json::Text(s.to_string())
    }

    /// A JSON string, or null.
    pub fn optional(s: &Option<String>) -> (r: Json)
        ensures
            r@ == optional_text(opt_view(*s)),
    {
        match s {
            Some(t) => Json::text(t.as_str()),
            None => Json::Null,
        }
    }

    /// A JSON number.
    pub fn unsigned(n: u64) -> (r: Json)
        ensures
            r@ == unsigned_number(n as nat),
    {
        Json::Number(
            Number { unsigned: Some(n), double: Score::from_u64(n), text: decimal_text(n) },
        )
    }

    /// The JSON number of a double whose decimal form is `text`.
    pub fn double(double: Score, text: &str) -> (r: Json)
        ensures
            r@ == double_number(double, text@),
    {
        if double.is_finite() {
            Json::Number(Number { unsigned: None, double, text: text.to_string() })
        } else {
            Json::Null
        }
    }

    /// A JSON array.
    pub fn array(items: Vec<Json>) -> (r: Json)
        ensures
            r@ == JsonView::Array(views(items@)),
    {
        proof {
            lemma_array_tree(items);
        }
        Json::Array(items)
    }

    /// A JSON object.
    pub fn object(members: Vec<(String, Json)>) -> (r: Json)
        ensures
            r@ == JsonView::Object(member_views(members@)),
    {
        proof {
            lemma_object_tree(members);
        }
        Json::Object(members)
    }

    /// The object of a map's entries.
    pub fn of_map(entries: &StringMap<Json>) -> (r: Json)
        ensures
            r@ == object_of(entries@),
    {
        let n: usize = entries.len();
        let ghost keys = in_order(entries@.dom());
        let ghost whole = Seq::new(keys.len(), |i: int| (keys[i], entries@[keys[i]]));
        let mut members: Vec<(String, Json)> = Vec::new();
        let mut i: usize = 0;
        while i < n
            invariant
                i <= n,
                n == keys.len(),
                keys == in_order(entries@.dom()),
                whole == Seq::new(keys.len(), |i: int| (keys[i], entries@[keys[i]])),
                member_views(members@) == whole.take(i as int),
            decreases n - i,
        {
            let key: String = entries.key_at(i).clone();
            let value: Json = entries.value_at(i).copy();
            proof {
                lemma_member_views_push(members@, (key, value));
                lemma_take_next(whole, i as int);
            }
            members.push((key, value));
            i = i + 1;
        }
        assert(whole.take(n as int) =~= whole);
        Json::object(members)
    }

    /// The member of an object with the name `key`.
    pub fn get(&self, key: &str) -> (r: Option<&Json>)
        ensures
            json_view(r) == member(self@, key@),
    {
        match self {
            Json::Object(members) => {
                proof {
                    lemma_object_tree(*members);
                }
                find_member(members, key)
            },
            _ => None,
        }
    }

    /// The text of a JSON string.
    pub fn as_str(&self) -> (r: Option<&String>)
        ensures
            match r {
                Some(s) => text_of(Some(self@)) == Some(s@),
                None => text_of(Some(self@)) is None,
            },
    {
        match self {
            Json::Text(s) => Some(s),
            _ => None,
        }
    }

    /// The items of a JSON array.
    pub fn as_array(&self) -> (r: Option<&Vec<Json>>)
        ensures
            match r {
                Some(items) => items_of(Some(self@)) == Some(views(items@)),
                None => items_of(Some(self@)) is None,
            },
    {
        match self {
            Json::Array(items) => {
                proof {
                    lemma_array_tree(*items);
                }
                Some(items)
            },
            _ => None,
        }
    }

    /// The number as an unsigned integer, where it is one.
    pub fn as_u64(&self) -> (r: Option<u64>)
        ensures
            r == unsigned_of(Some(self@)),
    {
        match self {
            Json::Number(n) => n.unsigned,
            _ => None,
        }
    }

    /// The number as a double.
    pub fn as_f64(&self) -> (r: Option<Score>)
        ensures
            r == double_of(Some(self@)),
    {
        match self {
            Json::Number(n) => Some(n.double),
            _ => None,
        }
    }

    /// Whether the value is null.
    pub fn is_null(&self) -> (r: bool)
        ensures
            r == (self@ == JsonView::Null),
    {
        match self {
            Json::Null => true,
            _ => false,
        }
    }

    /// A copy of the value.
    pub fn copy(&self) -> (r: Json)
        ensures
            r@ == self@,
        decreases *self,
    {
        match self {
            Json::Null => Json::Null,
            Json::Bool(b) => Json::Bool(*b),
            Json::Number(n) => Json::Number(n.duplicate()),
            Json::Text(s) => Json::Text(s.clone()),
            Json::Array(items) => {
                let mut copies: Vec<Json> = Vec::new();
                let mut i: usize = 0;
                while i < items.len()
                    invariant
                        i <= items@.len(),
                        decreases_to!(*self => *items),
                        views(copies@) == views(items@).take(i as int),
                    decreases items@.len() - i,
                {
                    assert(decreases_to!(*items => items@));
                    assert(decreases_to!(items@ => items@[i as int]));
                    let item: Json = items[i].copy();
                    proof {
                        lemma_views_push(copies@, item);
                        lemma_take_next(views(items@), i as int);
                    }
                    copies.push(item);
                    i = i + 1;
                }
                proof {
                    assert(views(items@).take(i as int) =~= views(items@));
                    lemma_array_tree(*items);
                }
                Json::array(copies)
            },
            Json::Object(members) => {
                let mut copies: Vec<(String, Json)> = Vec::new();
                let mut i: usize = 0;
                while i < members.len()
                    invariant
                        i <= members@.len(),
                        decreases_to!(*self => *members),
                        member_views(copies@) == member_views(members@).take(i as int),
                    decreases members@.len() - i,
                {
                    assert(decreases_to!(*members => members@));
                    assert(decreases_to!(members@ => members@[i as int]));
                    assert(decreases_to!(members@[i as int] => members@[i as int].1));
                    let copy: (String, Json) = (members[i].0.clone(), members[i].1.copy());
                    proof {
                        lemma_member_views_push(copies@, copy);
                        lemma_take_next(member_views(members@), i as int);
                    }
                    copies.push(copy);
                    i = i + 1;
                }
                proof {
                    assert(member_views(members@).take(i as int) =~= member_views(members@));
                    lemma_object_tree(*members);
                }
                Json::object(copies)
            },
        }
    }
}

impl Duplicate for Json {
    fn duplicate(&self) -> (r: Self) {
        self.copy()
    }
}

impl Clone for Json {
    fn clone(&self) -> (r: Self)
        ensures
            r@ == self@,
    {
        self.copy()
    }
}

/// The array of texts.
pub fn json_texts(texts: &Vec<String>) -> (r: Json)
    ensures
        r@ == text_array(views(texts@)),
{
    let mut items: Vec<Json> = Vec::new();
    let ghost whole = views(texts@).map_values(|t: Seq<char>| JsonView::Text(t));
    let mut i: usize = 0;
    while i < texts.len()
        invariant
            i <= texts@.len(),
            whole == views(texts@).map_values(|t: Seq<char>| JsonView::Text(t)),
            views(items@) == whole.take(i as int),
        decreases texts@.len() - i,
    {
        let item: Json = Json::text(texts[i].as_str());
        proof {
            lemma_views_push(items@, item);
            lemma_take_next(whole, i as int);
        }
        items.push(item);
        i = i + 1;
    }
    assert(whole.take(i as int) =~= whole);
    Json::array(items)
}

/// The value of the first member with the name `key`.
pub fn find_member<'a>(members: &'a Vec<(String, Json)>, key: &str) -> (r: Option<&'a Json>)
    ensures
        json_view(r) == lookup(member_views(members@), key@),
{
    let ghost all = member_views(members@);
    let mut i: usize = 0;
    assert(all.skip(0) =~= all);
    while i < members.len()
        invariant
            i <= members@.len(),
            all == member_views(members@),
            lookup(all.skip(i as int), key@) == lookup(all, key@),
        decreases members@.len() - i,
    {
        assert(all.skip(i as int)[0] == all[i as int]);
        if same_text(members[i].0.as_str(), key) {
            return Some(&members[i].1);
        }
        assert(all.skip(i as int).drop_first() =~= all.skip(i + 1));
        i = i + 1;
    }
    None
}

/// Adds a member behind the others.
pub fn add_member(members: &mut Vec<(String, Json)>, key: &str, value: Json)
    ensures
        member_views(final(members)@) == member_views(old(members)@).push((key@, value@)),
{
    let member: (String, Json) = (key.to_string(), value);
    proof {
        lemma_member_views_push(members@, member);
    }
    members.push(member);
}

/// Puts `value` at `key`.
#[verifier::spinoff_prover]
#[verifier::rlimit(60)]
pub fn put_member(members: &mut Vec<(String, Json)>, key: &str, value: Json)
    ensures
        member_views(final(members)@) == with_member(member_views(old(members)@), key@, value@),
{
    let ghost all = member_views(members@);
    let ghost v = value@;
    let mut i: usize = 0;
    proof {
        assert(all.skip(0) =~= all);
        assert(all.take(0) + with_replaced(all, key@, v) =~= with_replaced(all, key@, v));
    }
    while i < members.len() && !same_text(members[i].0.as_str(), key)
        invariant
            i <= members@.len(),
            all == member_views(members@),
            lookup(all, key@) == lookup(all.skip(i as int), key@),
            with_replaced(all, key@, v) == all.take(i as int) + with_replaced(
                all.skip(i as int),
                key@,
                v,
            ),
        decreases members@.len() - i,
    {
        proof {
            let rest = all.skip(i as int);
            assert(rest[0] == all[i as int]);
            assert(rest.drop_first() =~= all.skip(i + 1));
            assert(all.take(i as int) + (seq![all[i as int]] + with_replaced(
                all.skip(i + 1),
                key@,
                v,
            )) =~= all.take(i + 1) + with_replaced(all.skip(i + 1), key@, v));
        }
        i = i + 1;
    }
    if i < members.len() {
        proof {
            let rest = all.skip(i as int);
            assert(rest[0] == all[i as int]);
            assert(rest.drop_first() =~= all.skip(i + 1));
        }
        let name: String = members[i].0.clone();
        members.set(i, (name, value));
        assert(member_views(members@) =~= all.take(i as int) + (seq![(key@, v)] + all.skip(
            i + 1,
        )));
    } else {
        let mut k: usize = 0;
        proof {
            assert(all.take(0) + with_inserted(all, key@, v) =~= with_inserted(all, key@, v));
        }
        while k < members.len() && !text_before(key, members[k].0.as_str())
            invariant
                k <= members@.len(),
                all == member_views(members@),
                with_inserted(all, key@, v) == all.take(k as int) + with_inserted(
                    all.skip(k as int),
                    key@,
                    v,
                ),
            decreases members@.len() - k,
        {
            proof {
                let rest = all.skip(k as int);
                assert(rest[0] == all[k as int]);
                assert(rest.drop_first() =~= all.skip(k + 1));
                assert(all.take(k as int) + (seq![all[k as int]] + with_inserted(
                    all.skip(k + 1),
                    key@,
                    v,
                )) =~= all.take(k + 1) + with_inserted(all.skip(k + 1), key@, v));
            }
            k = k + 1;
        }
        proof {
            let rest = all.skip(k as int);
            if k < all.len() {
                assert(rest[0] == all[k as int]);
            }
        }
        members.insert(k, (key.to_string(), value));
        assert(member_views(members@) =~= all.take(k as int) + (seq![(key@, v)] + all.skip(
            k as int,
        )));
    }
}

/// The members with `value` at `key`: in the place of the member of that name, or else last.
pub open spec fn with_last(
    members: Seq<(Seq<char>, JsonView)>,
    key: Seq<char>,
    value: JsonView,
) -> Seq<(Seq<char>, JsonView)> {
    if lookup(members, key) is Some {
        with_replaced(members, key, value)
    } else {
        members.push((key, value))
    }
}

/// What a `serde_json::Value` keeps of a value: of a number what is read from its text, which is
/// null where nothing is, and of members of one name the last value in the place of the first.
pub open spec fn held(v: JsonView) -> JsonView
    decreases v,
{
    match v {
        JsonView::Number(n) => match read_text(n.text) {
            Ok(number) => number,
            Err(_) => JsonView::Null,
        },
        JsonView::Array(items) => JsonView::Array(held_items(items)),
        JsonView::Object(members) => JsonView::Object(held_members(members)),
        _ => v,
    }
}

/// What is kept of the items of an array.
pub open spec fn held_items(items: Seq<JsonView>) -> Seq<JsonView>
    decreases items,
{
    if items.len() == 0 {
        Seq::empty()
    } else {
        held_items(items.drop_last()).push(held(items.last()))
    }
}

/// What is kept of the members of an object.
pub open spec fn held_members(members: Seq<(Seq<char>, JsonView)>) -> Seq<(Seq<char>, JsonView)>
    decreases members,
{
    if members.len() == 0 {
        Seq::empty()
    } else {
        with_last(held_members(members.drop_last()), members.last().0, held(members.last().1))
    }
}

/// The value with the members of every object in the order of their names.
pub open spec fn key_ordered(v: JsonView) -> JsonView
    decreases v,
{
    match v {
        JsonView::Array(items) => JsonView::Array(key_ordered_items(items)),
        JsonView::Object(members) => JsonView::Object(key_ordered_members(members)),
        _ => v,
    }
}

/// The items of an array, each with the members of its objects in order.
pub open spec fn key_ordered_items(items: Seq<JsonView>) -> Seq<JsonView>
    decreases items,
{
    if items.len() == 0 {
        Seq::empty()
    } else {
        key_ordered_items(items.drop_last()).push(key_ordered(items.last()))
    }
}

/// The members of an object in the order of their names.
pub open spec fn key_ordered_members(members: Seq<(Seq<char>, JsonView)>) -> Seq<
    (Seq<char>, JsonView),
>
    decreases members,
{
    if members.len() == 0 {
        Seq::empty()
    } else {
        with_member(
            key_ordered_members(members.drop_last()),
            members.last().0,
            key_ordered(members.last().1),
        )
    }
}

/// A JSON value of `serde_json`.
#[verifier::external_type_specification]
#[verifier::external_body]
pub struct ExValue(serde_json::Value);

/// What a `serde_json::Value` holds: its own variants, the members of an object in the order in
/// which its map is walked, and of a number what `as_u64`, `as_f64` and `to_string` give.
pub uninterp spec fn value_tree(value: serde_json::Value) -> JsonView;

/// What `serde_json::from_str` makes of a text: the value that the text writes, or the message of
/// the error.
pub uninterp spec fn read_text(text: Seq<char>) -> Result<JsonView, Seq<char>>;

/// What `serde_json::from_slice` makes of bytes: the value that they write, or the message of the
/// error.
pub uninterp spec fn read_bytes(bytes: Seq<u8>) -> Result<JsonView, Seq<char>>;

/// How `serde_json::to_string` writes what a value holds.
pub uninterp spec fn compact_text(tree: JsonView) -> Seq<char>;

/// How `serde_json::to_string_pretty` writes what a value holds.
pub uninterp spec fn pretty_text(tree: JsonView) -> Seq<char>;

/// `serde_json::from_str` into a `serde_json::Value`: the outcome is determined by the text.
#[verifier::external_body]
fn value_of_text(text: &str) -> (r: Result<serde_json::Value, String>)
    ensures
        match r {
            Ok(value) => read_text(text@) == Ok::<JsonView, Seq<char>>(value_tree(value)),
            Err(message) => read_text(text@) == Err::<JsonView, Seq<char>>(message@),
        },
{
    serde_json::from_str(text).map_err(|error| error.to_string())
}

/// `serde_json::from_slice` into a `serde_json::Value`: the outcome is determined by the bytes.
#[verifier::external_body]
fn value_of_bytes(bytes: &[u8]) -> (r: Result<serde_json::Value, String>)
    ensures
        match r {
            Ok(value) => read_bytes(bytes@) == Ok::<JsonView, Seq<char>>(value_tree(value)),
            Err(message) => read_bytes(bytes@) == Err::<JsonView, Seq<char>>(message@),
        },
{
    serde_json::from_slice(bytes).map_err(|error| error.to_string())
}

/// `serde_json::to_string` of a `serde_json::Value`: the text is determined by what the value
/// holds. Writing to memory does not fail.
#[verifier::external_body]
fn compact_of_value(value: &serde_json::Value) -> (r: String)
    ensures
        r@ == compact_text(value_tree(*value)),
{
    serde_json::to_string(value).unwrap_or_default()
}

/// `serde_json::to_string_pretty` of a `serde_json::Value`: the text is determined by what the
/// value holds. Writing to memory does not fail.
#[verifier::external_body]
fn pretty_of_value(value: &serde_json::Value) -> (r: String)
    ensures
        r@ == pretty_text(value_tree(*value)),
{
    serde_json::to_string_pretty(value).unwrap_or_default()
}

/// Takes a `serde_json::Value` apart, variant by variant: the result holds what the value holds.
#[verifier::external_body]
fn json_of_value(value: serde_json::Value) -> (r: Json)
    ensures
        r@ == value_tree(value),
{
    match value {
        serde_json::Value::Null => Json::Null,
        serde_json::Value::Bool(b) => Json::Bool(b),
        serde_json::Value::Number(n) => Json::Number(Number {
            unsigned: n.as_u64(),
            double: Score { bits: n.as_f64().map(|x| x.to_bits()).unwrap_or_default() },
            text: n.to_string(),
        }),
        serde_json::Value::String(s) => Json::Text(s),
        serde_json::Value::Array(a) => Json::Array(a.into_iter().map(json_of_value).collect()),
        serde_json::Value::Object(m) =>
            Json::Object(m.into_iter().map(|(k, v)| (k, json_of_value(v))).collect()),
    }
}

/// Makes a `serde_json::Value`, variant by variant. A number is read from its text by
/// `serde_json::from_str`, and the members of an object go into a `serde_json::Map` one after the
/// other: a name that is there already keeps its place and gets the new value, and any other goes
/// behind the last.
#[verifier::external_body]
fn value_of_json(json: &Json) -> (r: serde_json::Value)
    ensures
        value_tree(r) == held(json@),
{
    match json {
        Json::Null => serde_json::Value::Null,
        Json::Bool(b) => serde_json::Value::Bool(*b),
        Json::Number(n) => serde_json::from_str(&n.text).unwrap_or_default(),
        Json::Text(s) => serde_json::Value::String(s.clone()),
        Json::Array(a) => serde_json::Value::Array(a.iter().map(value_of_json).collect()),
        Json::Object(m) => serde_json::Value::Object(
            m.iter().map(|(k, v)| (k.clone(), value_of_json(v))).collect(),
        ),
    }
}

/// A value written without white space.
pub open spec fn compact(v: JsonView) -> Seq<char> {
    compact_text(held(v))
}

/// A value written over several lines, what it holds being indented.
pub open spec fn pretty(v: JsonView) -> Seq<char> {
    pretty_text(held(v))
}

impl Json {
    /// Writes the value without white space.
    pub fn to_compact(&self) -> (r: String)
        ensures
            r@ == compact(self@),
    {
        compact_of_value(&value_of_json(self))
    }

    /// Writes the value over several lines, what it holds being indented.
    pub fn to_pretty(&self) -> (r: String)
        ensures
            r@ == pretty(self@),
    {
        pretty_of_value(&value_of_json(self))
    }

    /// The value with the members of every object in the order of their names.
    pub fn in_key_order(&self) -> (r: Json)
        ensures
            r@ == key_ordered(self@),
        decreases *self,
    {
        match self {
            Json::Array(items) => {
                let ghost all = views(items@);
                let mut ordered: Vec<Json> = Vec::new();
                let mut i: usize = 0;
                assert(views(ordered@) =~= key_ordered_items(all.take(0)));
                while i < items.len()
                    invariant
                        i <= items@.len(),
                        decreases_to!(*self => *items),
                        all == views(items@),
                        views(ordered@) == key_ordered_items(all.take(i as int)),
                    decreases items@.len() - i,
                {
                    assert(decreases_to!(*items => items@));
                    assert(decreases_to!(items@ => items@[i as int]));
                    let item: Json = items[i].in_key_order();
                    proof {
                        lemma_views_push(ordered@, item);
                        assert(all.take(i + 1).drop_last() =~= all.take(i as int));
                    }
                    ordered.push(item);
                    i = i + 1;
                }
                proof {
                    assert(all.take(i as int) =~= all);
                    lemma_array_tree(*items);
                }
                Json::array(ordered)
            },
            Json::Object(members) => {
                let ghost all = member_views(members@);
                let mut ordered: Vec<(String, Json)> = Vec::new();
                let mut i: usize = 0;
                assert(member_views(ordered@) =~= key_ordered_members(all.take(0)));
                while i < members.len()
                    invariant
                        i <= members@.len(),
                        decreases_to!(*self => *members),
                        all == member_views(members@),
                        member_views(ordered@) == key_ordered_members(all.take(i as int)),
                    decreases members@.len() - i,
                {
                    assert(decreases_to!(*members => members@));
                    assert(decreases_to!(members@ => members@[i as int]));
                    assert(decreases_to!(members@[i as int] => members@[i as int].1));
                    let value: Json = members[i].1.in_key_order();
                    proof {
                        assert(all.take(i + 1).drop_last() =~= all.take(i as int));
                    }
                    put_member(&mut ordered, members[i].0.as_str(), value);
                    i = i + 1;
                }
                proof {
                    assert(all.take(i as int) =~= all);
                    lemma_object_tree(*members);
                }
                Json::object(ordered)
            },
            _ => self.copy(),
        }
    }
}

/// The value that a text writes, with the members of its objects in order; or the message of the
/// parser.
pub open spec fn parsed(text: Seq<char>) -> Result<JsonView, Seq<char>> {
    match read_text(text) {
        Ok(value) => Ok(key_ordered(value)),
        Err(message) => Err(message),
    }
}

/// The value that bytes write, with the members of its objects in order; or the message of the
/// parser.
pub open spec fn parsed_bytes(bytes: Seq<u8>) -> Result<JsonView, Seq<char>> {
    match read_bytes(bytes) {
        Ok(value) => Ok(key_ordered(value)),
        Err(message) => Err(message),
    }
}

/// Reads a JSON value from text; the error is the message of the parser.
pub fn parse_json(text: &str) -> (r: Result<Json, String>)
    ensures
        match r {
            Ok(value) => parsed(text@) == Ok::<JsonView, Seq<char>>(value@),
            Err(message) => parsed(text@) == Err::<JsonView, Seq<char>>(message@),
        },
{
    match value_of_text(text) {
        Ok(value) => Ok(json_of_value(value).in_key_order()),
        Err(message) => Err(message),
    }
}

/// Reads a JSON value from bytes; the error is the message of the parser.
pub fn parse_json_bytes(bytes: &[u8]) -> (r: Result<Json, String>)
    ensures
        match r {
            Ok(value) => parsed_bytes(bytes@) == Ok::<JsonView, Seq<char>>(value@),
            Err(message) => parsed_bytes(bytes@) == Err::<JsonView, Seq<char>>(message@),
        },
{
    match value_of_bytes(bytes) {
        Ok(value) => Ok(json_of_value(value).in_key_order()),
        Err(message) => Err(message),
    }
}

} // verus!
