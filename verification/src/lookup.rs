use vstd::prelude::*;

use crate::project::{ClipView, MediaAsset, SequenceView, TrackView};

verus! {

/// Records that carry an identifier.
pub trait Keyed {
    spec fn key(&self) -> u128;
}

impl Keyed for SequenceView {
    open spec fn key(&self) -> u128 {
        self.id
    }
}

impl Keyed for TrackView {
    open spec fn key(&self) -> u128 {
        self.id
    }
}

impl Keyed for ClipView {
    open spec fn key(&self) -> u128 {
        self.id
    }
}

impl Keyed for MediaAsset {
    open spec fn key(&self) -> u128 {
        self.id
    }
}

/// Position of the first record with the identifier, if any.
pub open spec fn find_id<A: Keyed>(s: Seq<A>, id: u128) -> Option<int>
    decreases s.len(),
{
    if s.len() == 0 {
        None
    } else if s[0].key() == id {
        Some(0)
    } else {
        match find_id(s.drop_first(), id) {
            Some(k) => Some(k + 1),
            None => None,
        }
    }
}

/// The records without those that carry the identifier, order kept.
pub open spec fn drop_id<A: Keyed>(s: Seq<A>, id: u128) -> Seq<A>
    decreases s.len(),
{
    if s.len() == 0 {
        s
    } else if s[0].key() == id {
        drop_id(s.drop_first(), id)
    } else {
        seq![s[0]] + drop_id(s.drop_first(), id)
    }
}

/// What `find_id` returns: the first match, or none at all.
pub proof fn lemma_find_id<A: Keyed>(s: Seq<A>, id: u128)
    ensures
        match find_id(s, id) {
            Some(k) => 0 <= k < s.len() && s[k].key() == id && forall|j: int| 0 <= j < k ==> s[j].key() != id,
            None => forall|j: int| 0 <= j < s.len() ==> s[j].key() != id,
        },
    decreases s.len(),
{
    if s.len() > 0 && s[0].key() != id {
        lemma_find_id(s.drop_first(), id);
        assert forall|j: int| 1 <= j < s.len() implies s.drop_first()[j - 1] == s[j] by {}
    }
}

/// A position with the identifier, preceded by none, is what `find_id` returns.
pub proof fn lemma_find_id_at<A: Keyed>(s: Seq<A>, id: u128, i: int)
    requires
        0 <= i < s.len(),
        s[i].key() == id,
        forall|j: int| 0 <= j < i ==> s[j].key() != id,
    ensures
        find_id(s, id) == Some(i),
{
    lemma_find_id(s, id);
}

/// No record with the identifier means `find_id` finds none.
pub proof fn lemma_find_id_none<A: Keyed>(s: Seq<A>, id: u128)
    requires
        forall|j: int| 0 <= j < s.len() ==> s[j].key() != id,
    ensures
        find_id(s, id) is None,
{
    lemma_find_id(s, id);
}

/// Dropping an identifier after appending a record that carries it removes that record.
pub proof fn lemma_drop_pushed<A: Keyed>(s: Seq<A>, x: A)
    requires
        forall|j: int| 0 <= j < s.len() ==> s[j].key() != x.key(),
    ensures
        drop_id(s.push(x), x.key()) == s,
    decreases s.len(),
{
    if s.len() == 0 {
        assert(s.push(x).drop_first() =~= Seq::<A>::empty());
        assert(drop_id(Seq::<A>::empty(), x.key()) == Seq::<A>::empty());
        assert(s =~= Seq::<A>::empty());
    } else {
        let t = s.drop_first();
        assert(s.push(x).drop_first() =~= t.push(x));
        assert forall|j: int| 0 <= j < t.len() implies t[j].key() != x.key() by {
            assert(t[j] == s[j + 1]);
        }
        lemma_drop_pushed(t, x);
        assert(seq![s[0]] + t =~= s);
    }
}

} // verus!

verus! {

/// Dropping an identifier keeps only records that were there.
pub proof fn lemma_drop_subset<A: Keyed>(s: Seq<A>, id: u128)
    ensures
        forall|i: int| 0 <= i < drop_id(s, id).len() ==> s.contains(#[trigger] drop_id(s, id)[i]),
    decreases s.len(),
{
    if s.len() > 0 {
        let t = s.drop_first();
        lemma_drop_subset(t, id);
        assert forall|i: int| 0 <= i < drop_id(s, id).len() implies s.contains(#[trigger] drop_id(s, id)[i]) by {
            if s[0].key() == id {
                let k = choose|k: int| 0 <= k < t.len() && t[k] == drop_id(t, id)[i];
                assert(s[k + 1] == t[k]);
            } else if i == 0 {
                assert(s[0] == drop_id(s, id)[0]);
            } else {
                assert(drop_id(s, id)[i] == drop_id(t, id)[i - 1]);
                let k = choose|k: int| 0 <= k < t.len() && t[k] == drop_id(t, id)[i - 1];
                assert(s[k + 1] == t[k]);
            }
        }
    }
}

} // verus!
