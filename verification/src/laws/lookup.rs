//! Looking up members of JSON objects.

use crate::inventory::keys_ascend;
use crate::json::{field, is_plain, member, JsonView};
use crate::text::{lemma_text_lt_irreflexive, text_lt};
use vstd::prelude::*;

verus! {

/// What stands under a key is found under it, where no key occurs twice.
pub proof fn law_member_is_found(members: Seq<(Seq<char>, JsonView)>, i: int)
    requires
        0 <= i < members.len(),
        keys_ascend(members),
    ensures
        member(members, members[i].0) == Some(members[i].1),
        field(JsonView::Object(members), members[i].0) == Some(members[i].1),
    decreases i,
{
    if i > 0 {
        let rest = members.drop_first();
        assert forall|a: int, b: int| 0 <= a < b < rest.len() implies text_lt(
            #[trigger] rest[a].0,
            #[trigger] rest[b].0,
        ) by {
            assert(rest[a] == members[a + 1] && rest[b] == members[b + 1]);
        }
        assert(text_lt(members[0].0, members[i].0));
        lemma_text_lt_irreflexive(members[0].0);
        assert(rest[i - 1] == members[i]);
        law_member_is_found(rest, i - 1);
    }
}

/// What is found under a key stands under it, and nothing is found under a key
/// that is not there.
pub proof fn law_found_member_is_there(members: Seq<(Seq<char>, JsonView)>, key: Seq<char>)
    ensures
        match member(members, key) {
            Some(value) => exists|i: int|
                0 <= i < members.len() && #[trigger] members[i] == (key, value),
            None => forall|i: int| 0 <= i < members.len() ==> (#[trigger] members[i]).0 != key,
        },
    decreases members.len(),
{
    if members.len() > 0 {
        if members[0].0 == key {
            assert(members[0] == (key, members[0].1));
        } else {
            let rest = members.drop_first();
            law_found_member_is_there(rest, key);
            match member(rest, key) {
                Some(value) => {
                    let i = choose|i: int| 0 <= i < rest.len() && #[trigger] rest[i] == (key, value);
                    assert(members[i + 1] == (key, value));
                },
                None => {
                    assert forall|i: int| 0 <= i < members.len() implies (
                    #[trigger] members[i]).0 != key by {
                        if i > 0 {
                            assert(members[i] == rest[i - 1]);
                        }
                    }
                },
            }
        }
    }
}

/// A member of a plain object is found under its key.
pub proof fn lemma_plain_member(value: JsonView, depth: nat, i: int)
    requires
        value is Object,
        is_plain(value, depth),
        0 <= i < value->Object_0.len(),
    ensures
        field(value, value->Object_0[i].0) == Some(value->Object_0[i].1),
        is_plain(value->Object_0[i].1, (depth - 1) as nat),
{
    law_member_is_found(value->Object_0, i);
}

} // verus!
