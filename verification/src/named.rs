//! Values under names, in a list: the first under a name is the one that
//! counts.

use vstd::prelude::*;

verus! {

/// Position of the first member under `key`, or the number of members if
/// there is none.
pub open spec fn position<V>(members: Seq<(Seq<char>, V)>, key: Seq<char>) -> int
    decreases members.len(),
{
    if members.len() == 0 || members[0].0 == key {
        0
    } else {
        1 + position(members.drop_first(), key)
    }
}

/// The value of the first member under `key`.
pub open spec fn member<V>(members: Seq<(Seq<char>, V)>, key: Seq<char>) -> Option<V> {
    let at = position(members, key);
    if 0 <= at < members.len() {
        Some(members[at].1)
    } else {
        None
    }
}

/// `position` finds a member under the key, and none stands before it.
pub proof fn lemma_position<V>(members: Seq<(Seq<char>, V)>, key: Seq<char>)
    ensures
        0 <= position(members, key) <= members.len(),
        position(members, key) < members.len() ==> members[position(members, key)].0 == key,
        forall|k: int| 0 <= k < position(members, key) ==> (#[trigger] members[k]).0 != key,
    decreases members.len(),
{
    if members.len() == 0 || members[0].0 == key {
    } else {
        let rest = members.drop_first();
        lemma_position(rest, key);
        assert forall|k: int| 0 <= k < position(members, key) implies (#[trigger] members[k]).0
            != key by {
            if k > 0 {
                assert(members[k] == rest[k - 1]);
            }
        }
    }
}

/// The first member under a key is the one that no other under that key
/// precedes.
pub proof fn lemma_position_at<V>(members: Seq<(Seq<char>, V)>, key: Seq<char>, at: int)
    requires
        0 <= at < members.len(),
        members[at].0 == key,
        forall|k: int| 0 <= k < at ==> (#[trigger] members[k]).0 != key,
    ensures
        position(members, key) == at,
        member(members, key) == Some(members[at].1),
    decreases at,
{
    if at > 0 {
        let rest = members.drop_first();
        assert(members[0].0 != key);
        assert forall|k: int| 0 <= k < at - 1 implies (#[trigger] rest[k]).0 != key by {
            assert(rest[k] == members[k + 1]);
        }
        lemma_position_at(rest, key, at - 1);
    }
}

} // verus!
