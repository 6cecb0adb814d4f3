//! Laws of JSON values.

use vstd::prelude::*;

use crate::json::{
    held, held_items, held_members, key_ordered, key_ordered_items, key_ordered_members, lookup,
    put_members_are_found, with_inserted, with_last, with_member, with_replaced, JsonView,
};
use crate::text::{lemma_text_lt_total, lemma_text_lt_transitive, text_lt};

verus! {

/// Whether the names of members stand in order, each once.
pub open spec fn names_in_order(members: Seq<(Seq<char>, JsonView)>) -> bool {
    forall|i: int, j: int|
        0 <= i < j < members.len() ==> text_lt((#[trigger] members[i]).0, (#[trigger]
        members[j]).0)
}

/// A name has a value exactly where a member has the name: that of the first such member.
pub proof fn names_have_the_value_of_their_first_member(
    members: Seq<(Seq<char>, JsonView)>,
    name: Seq<char>,
)
    ensures
        lookup(members, name) is None <==> forall|i: int|
            0 <= i < members.len() ==> (#[trigger] members[i]).0 != name,
        lookup(members, name) matches Some(value) ==> exists|i: int|
            0 <= i < members.len() && (#[trigger] members[i]) == (name, value) && forall|j: int|
                0 <= j < i ==> (#[trigger] members[j]).0 != name,
    decreases members.len(),
{
    if members.len() > 0 {
        let rest = members.drop_first();
        names_have_the_value_of_their_first_member(rest, name);
        if members[0].0 != name {
            if lookup(rest, name) is None {
                assert forall|i: int| 0 <= i < members.len() implies (#[trigger] members[i]).0
                    != name by {
                    if i > 0 {
                        assert(rest[i - 1] == members[i]);
                    }
                }
            } else {
                let value = lookup(rest, name)->0;
                let i = choose|i: int|
                    0 <= i < rest.len() && (#[trigger] rest[i]) == (name, value) && forall|j: int|
                        0 <= j < i ==> (#[trigger] rest[j]).0 != name;
                assert(members[i + 1] == (name, value));
                assert forall|j: int| 0 <= j < i + 1 implies (#[trigger] members[j]).0 != name by {
                    if j > 0 {
                        assert(members[j] == rest[j - 1]);
                    }
                }
            }
        } else {
            assert(members[0] == (name, members[0].1));
        }
    }
}

/// Putting a member into members in order keeps them in order.
pub proof fn members_stay_in_order(
    members: Seq<(Seq<char>, JsonView)>,
    key: Seq<char>,
    value: JsonView,
)
    requires
        names_in_order(members),
    ensures
        names_in_order(with_member(members, key, value)),
        with_member(members, key, value).len() == members.len() + if lookup(members, key)
            is None {
            1int
        } else {
            0
        },
{
    if lookup(members, key) is Some {
        lemma_replaced_order(members, key, value);
    } else {
        lemma_inserted_order(members, key, value);
    }
}

proof fn lemma_replaced_order(
    members: Seq<(Seq<char>, JsonView)>,
    key: Seq<char>,
    value: JsonView,
)
    ensures
        with_replaced(members, key, value).len() == members.len(),
        forall|i: int|
            0 <= i < members.len() ==> (#[trigger] with_replaced(members, key, value)[i]).0
                == members[i].0,
        names_in_order(members) ==> names_in_order(with_replaced(members, key, value)),
    decreases members.len(),
{
    if members.len() > 0 {
        lemma_replaced_order(members.drop_first(), key, value);
    }
    let after = with_replaced(members, key, value);
    if names_in_order(members) {
        assert forall|i: int, j: int| 0 <= i < j < after.len() implies text_lt(
            (#[trigger] after[i]).0,
            (#[trigger] after[j]).0,
        ) by {
            assert(text_lt(members[i].0, members[j].0));
        }
    }
}

proof fn lemma_inserted_order(
    members: Seq<(Seq<char>, JsonView)>,
    key: Seq<char>,
    value: JsonView,
)
    requires
        names_in_order(members),
        lookup(members, key) is None,
    ensures
        with_inserted(members, key, value).len() == members.len() + 1,
        names_in_order(with_inserted(members, key, value)),
        forall|i: int|
            0 <= i < with_inserted(members, key, value).len() ==> (#[trigger] with_inserted(
                members,
                key,
                value,
            )[i]).0 == key || exists|j: int|
                0 <= j < members.len() && (#[trigger] members[j]).0 == with_inserted(
                    members,
                    key,
                    value,
                )[i].0,
    decreases members.len(),
{
    let after = with_inserted(members, key, value);
    if members.len() == 0 || text_lt(key, members[0].0) {
        assert forall|i: int, j: int| 0 <= i < j < after.len() implies text_lt(
            (#[trigger] after[i]).0,
            (#[trigger] after[j]).0,
        ) by {
            assert(after[j] == members[j - 1]);
            if i == 0 {
                if j > 1 {
                    assert(text_lt(members[0].0, members[j - 1].0));
                    lemma_text_lt_transitive(key, members[0].0, members[j - 1].0);
                }
            } else {
                assert(after[i] == members[i - 1]);
            }
        }
        assert forall|i: int| 0 <= i < after.len() implies (#[trigger] after[i]).0 == key || exists|
            j: int,
        |
            0 <= j < members.len() && (#[trigger] members[j]).0 == after[i].0 by {
            if i > 0 {
                assert(members[i - 1].0 == after[i].0);
            }
        }
    } else {
        let rest = members.drop_first();
        assert(names_in_order(rest)) by {
            assert forall|i: int, j: int| 0 <= i < j < rest.len() implies text_lt(
                (#[trigger] rest[i]).0,
                (#[trigger] rest[j]).0,
            ) by {
                assert(rest[i] == members[i + 1] && rest[j] == members[j + 1]);
            }
        }
        lemma_inserted_order(rest, key, value);
        let part = with_inserted(rest, key, value);
        assert(members[0].0 != key);
        lemma_text_lt_total(key, members[0].0);
        assert forall|i: int, j: int| 0 <= i < j < after.len() implies text_lt(
            (#[trigger] after[i]).0,
            (#[trigger] after[j]).0,
        ) by {
            assert(after[j] == part[j - 1]);
            if i == 0 {
                if part[j - 1].0 != key {
                    let k = choose|k: int|
                        0 <= k < rest.len() && (#[trigger] rest[k]).0 == part[j - 1].0;
                    assert(rest[k] == members[k + 1]);
                    assert(text_lt(members[0].0, members[k + 1].0));
                }
            } else {
                assert(after[i] == part[i - 1]);
            }
        }
        assert forall|i: int| 0 <= i < after.len() implies (#[trigger] after[i]).0 == key || exists|
            j: int,
        |
            0 <= j < members.len() && (#[trigger] members[j]).0 == after[i].0 by {
            if i == 0 {
                assert(members[0].0 == after[0].0);
            } else {
                assert(after[i] == part[i - 1]);
                if part[i - 1].0 != key {
                    let k = choose|k: int|
                        0 <= k < rest.len() && (#[trigger] rest[k]).0 == part[i - 1].0;
                    assert(members[k + 1].0 == after[i].0);
                }
            }
        }
    }
}

/// An object in key order has its names in order, and under each the last value that the object
/// has under it, in key order too. The items of an array stay in their places.
pub proof fn key_order_keeps_the_last_values(
    members: Seq<(Seq<char>, JsonView)>,
    items: Seq<JsonView>,
    at: int,
    place: int,
)
    requires
        0 <= at < members.len(),
        forall|j: int| at < j < members.len() ==> (#[trigger] members[j]).0 != members[at].0,
        0 <= place < items.len(),
    ensures
        key_ordered(JsonView::Object(members)) matches JsonView::Object(ordered)
            && names_in_order(ordered) && lookup(ordered, members[at].0) == Some(
            key_ordered(members[at].1),
        ),
        key_ordered(JsonView::Array(items)) matches JsonView::Array(all) && all.len()
            == items.len() && all[place] == key_ordered(items[place]),
{
    lemma_ordered_names(members);
    lemma_ordered_value(members, at);
    lemma_ordered_items(items, place);
}

proof fn lemma_ordered_names(members: Seq<(Seq<char>, JsonView)>)
    ensures
        names_in_order(key_ordered_members(members)),
    decreases members.len(),
{
    if members.len() > 0 {
        lemma_ordered_names(members.drop_last());
        members_stay_in_order(
            key_ordered_members(members.drop_last()),
            members.last().0,
            key_ordered(members.last().1),
        );
    }
}

proof fn lemma_ordered_value(members: Seq<(Seq<char>, JsonView)>, at: int)
    requires
        0 <= at < members.len(),
        forall|j: int| at < j < members.len() ==> (#[trigger] members[j]).0 != members[at].0,
    ensures
        lookup(key_ordered_members(members), members[at].0) == Some(key_ordered(members[at].1)),
    decreases members.len(),
{
    let before = members.drop_last();
    put_members_are_found(
        key_ordered_members(before),
        members.last().0,
        key_ordered(members.last().1),
        members[at].0,
    );
    if at < members.len() - 1 {
        assert(before[at] == members[at]);
        assert forall|j: int| at < j < before.len() implies (#[trigger] before[j]).0
            != before[at].0 by {
            assert(before[j] == members[j]);
        }
        assert(members[members.len() - 1].0 != members[at].0);
        lemma_ordered_value(before, at);
    }
}

proof fn lemma_ordered_items(items: Seq<JsonView>, place: int)
    requires
        0 <= place < items.len(),
    ensures
        key_ordered_items(items).len() == items.len(),
        key_ordered_items(items)[place] == key_ordered(items[place]),
    decreases items.len(),
{
    reveal_with_fuel(key_ordered_items, 2);
    let before = items.drop_last();
    if before.len() > 0 {
        lemma_ordered_items(
            before,
            if place < before.len() {
                place
            } else {
                0
            },
        );
    }
}

/// What is kept of an object has under each name what is kept of the last value that the object
/// has under it; and of an array, what is kept of each item in its place.
pub proof fn the_last_values_are_kept(
    members: Seq<(Seq<char>, JsonView)>,
    items: Seq<JsonView>,
    at: int,
    place: int,
)
    requires
        0 <= at < members.len(),
        forall|j: int| at < j < members.len() ==> (#[trigger] members[j]).0 != members[at].0,
        0 <= place < items.len(),
    ensures
        held(JsonView::Object(members)) matches JsonView::Object(kept) && lookup(
            kept,
            members[at].0,
        ) == Some(held(members[at].1)),
        held(JsonView::Array(items)) matches JsonView::Array(all) && all.len() == items.len()
            && all[place] == held(items[place]),
{
    lemma_held_value(members, at);
    lemma_held_items(items, place);
}

proof fn lemma_held_value(members: Seq<(Seq<char>, JsonView)>, at: int)
    requires
        0 <= at < members.len(),
        forall|j: int| at < j < members.len() ==> (#[trigger] members[j]).0 != members[at].0,
    ensures
        lookup(held_members(members), members[at].0) == Some(held(members[at].1)),
    decreases members.len(),
{
    let before = members.drop_last();
    let kept = held_members(before);
    let last = members.last();
    lemma_with_last(kept, last.0, held(last.1), members[at].0);
    if at < members.len() - 1 {
        assert(before[at] == members[at]);
        assert forall|j: int| at < j < before.len() implies (#[trigger] before[j]).0
            != before[at].0 by {
            assert(before[j] == members[j]);
        }
        assert(members[members.len() - 1].0 != members[at].0);
        lemma_held_value(before, at);
    }
}

proof fn lemma_with_last(
    members: Seq<(Seq<char>, JsonView)>,
    key: Seq<char>,
    value: JsonView,
    other: Seq<char>,
)
    ensures
        lookup(with_last(members, key, value), key) == Some(value),
        other != key ==> lookup(with_last(members, key, value), other) == lookup(members, other),
{
    if lookup(members, key) is Some {
        put_members_are_found(members, key, value, other);
    } else {
        lemma_pushed(members, key, value, other);
        lemma_pushed(members, key, value, key);
    }
}

proof fn lemma_pushed(
    members: Seq<(Seq<char>, JsonView)>,
    key: Seq<char>,
    value: JsonView,
    other: Seq<char>,
)
    ensures
        lookup(members.push((key, value)), other) == match lookup(members, other) {
            Some(found) => Some(found),
            None => if other == key {
                Some(value)
            } else {
                None
            },
        },
    decreases members.len(),
{
    reveal_with_fuel(lookup, 2);
    let all = members.push((key, value));
    if members.len() > 0 {
        lemma_pushed(members.drop_first(), key, value, other);
        assert(all.drop_first() =~= members.drop_first().push((key, value)));
    } else {
        assert(all.drop_first() =~= Seq::empty());
    }
}

proof fn lemma_held_items(items: Seq<JsonView>, place: int)
    requires
        0 <= place < items.len(),
    ensures
        held_items(items).len() == items.len(),
        held_items(items)[place] == held(items[place]),
    decreases items.len(),
{
    reveal_with_fuel(held_items, 2);
    let before = items.drop_last();
    if before.len() > 0 {
        lemma_held_items(
            before,
            if place < before.len() {
                place
            } else {
                0
            },
        );
    }
}

} // verus!
