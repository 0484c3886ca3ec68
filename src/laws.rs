use vstd::prelude::*;
use crate::tour::{
    check_step, records_of, redeem_record, redeem_result, redeem_step, register_step, TourError,
    TourState,
};
use crate::table::{keys_distinct, lemma_pairs_map_at, lemma_pairs_map_dom, pairs_map};

verus! {

/// A session with nothing pending, or no session at all, is refused with
/// `Unauthorized` on redemption, and nothing changes.
pub proof fn lemma_redeem_without_check(s: TourState, session: Option<Seq<char>>, ts: Seq<char>)
    requires
        match session {
            Some(id) => !s.pending.contains_key(id),
            None => true,
        },
    ensures
        redeem_result(s, session) == Err::<Seq<char>, TourError>(TourError::Unauthorized),
        redeem_step(s, session, ts) == s,
{
}

/// Neither a registration nor a redemption ever makes an entry pending: only
/// a visit does.
pub proof fn lemma_only_check_makes_pending(
    s: TourState,
    session: Option<Seq<char>>,
    id: Seq<char>,
    name: Seq<char>,
    ts: Seq<char>,
    other: Seq<char>,
)
    requires
        !s.pending.contains_key(other),
    ensures
        !redeem_step(s, session, ts).pending.contains_key(other),
        !register_step(s, id, name).pending.contains_key(other),
{
}

/// A pending entry is redeemed at most once: the first redemption succeeds
/// and appends one record to its checkpoint, the next one is refused with
/// `Unauthorized`, and the history ends with exactly that one record more.
pub proof fn lemma_redeem_at_most_once(s: TourState, id: Seq<char>, ts1: Seq<char>, ts2: Seq<char>)
    requires
        s.pending.contains_key(id),
        s.pending[id].len() > 0,
    ensures
        ({
            let stamp = s.pending[id];
            let s1 = redeem_step(s, Some(id), ts1);
            let s2 = redeem_step(s1, Some(id), ts2);
            &&& redeem_result(s, Some(id)) == Ok::<Seq<char>, TourError>(stamp)
            &&& redeem_result(s1, Some(id)) == Err::<Seq<char>, TourError>(TourError::Unauthorized)
            &&& s2 == s1
            &&& s2.history == s.history.insert(
                stamp,
                records_of(s.history, stamp).push(redeem_record(s, id, ts1)),
            )
        }),
{
}

/// A visit of a known checkpoint by a known session, followed by one
/// redemption, succeeds and appends exactly one record to that checkpoint's
/// history; a second redemption right after is refused with `Unauthorized`.
pub proof fn lemma_check_then_redeem(
    s: TourState,
    id: Seq<char>,
    stamp: Seq<char>,
    ts1: Seq<char>,
    ts2: Seq<char>,
)
    requires
        s.users.contains_key(id),
        s.catalog.contains(stamp),
        stamp.len() > 0,
    ensures
        ({
            let s1 = check_step(s, Some(id), stamp);
            let s2 = redeem_step(s1, Some(id), ts1);
            &&& redeem_result(s1, Some(id)) == Ok::<Seq<char>, TourError>(stamp)
            &&& s2.history == s.history.insert(
                stamp,
                records_of(s.history, stamp).push(redeem_record(s, id, ts1)),
            )
            &&& redeem_result(s2, Some(id)) == Err::<Seq<char>, TourError>(TourError::Unauthorized)
            &&& redeem_step(s2, Some(id), ts2) == s2
        }),
{
    let s1 = check_step(s, Some(id), stamp);
    lemma_redeem_at_most_once(s1, id, ts1, ts2);
}

/// Two visits by one session, of checkpoints `a` then `b`, followed by one
/// redemption: the last visit wins, `b` gains one record and `a` none.
pub proof fn lemma_last_check_wins(
    s: TourState,
    id: Seq<char>,
    a: Seq<char>,
    b: Seq<char>,
    ts: Seq<char>,
)
    requires
        s.users.contains_key(id),
        s.catalog.contains(a),
        s.catalog.contains(b),
        b.len() > 0,
    ensures
        ({
            let s2 = check_step(check_step(s, Some(id), a), Some(id), b);
            let s3 = redeem_step(s2, Some(id), ts);
            &&& redeem_result(s2, Some(id)) == Ok::<Seq<char>, TourError>(b)
            &&& s3.history == s.history.insert(
                b,
                records_of(s.history, b).push(redeem_record(s, id, ts)),
            )
            &&& a != b ==> records_of(s3.history, a) == records_of(s.history, a)
        }),
{
}

/// Two registrations in a row, each under an id not taken before it, keep
/// both names and end with two distinct ids.
pub proof fn lemma_registered_ids_distinct(
    s: TourState,
    id1: Seq<char>,
    name1: Seq<char>,
    id2: Seq<char>,
    name2: Seq<char>,
)
    requires
        !s.users.contains_key(id1),
        !register_step(s, id1, name1).users.contains_key(id2),
    ensures
        ({
            let s2 = register_step(register_step(s, id1, name1), id2, name2);
            &&& id1 != id2
            &&& s2.users[id1] == name1
            &&& s2.users[id2] == name2
        }),
{
}

/// Stored tables come back whole: two lists of pairs with distinct keys that
/// hold the same pairs, in whatever order, denote the same map.
pub proof fn lemma_reload_any_order<V: View>(p: Seq<(String, V)>, q: Seq<(String, V)>)
    requires
        keys_distinct(p),
        keys_distinct(q),
        forall|i: int|
            0 <= i < p.len() ==> exists|j: int|
                0 <= j < q.len() && #[trigger] q[j].0@ == #[trigger] p[i].0@ && q[j].1@ == p[i].1@,
        forall|j: int|
            0 <= j < q.len() ==> exists|i: int|
                0 <= i < p.len() && #[trigger] p[i].0@ == #[trigger] q[j].0@ && p[i].1@ == q[j].1@,
    ensures
        pairs_map(p) == pairs_map(q),
{
    assert forall|k: Seq<char>| pairs_map(p).contains_key(k) == pairs_map(q).contains_key(k) by {
        lemma_pairs_map_dom(p, k);
        lemma_pairs_map_dom(q, k);
        if pairs_map(p).contains_key(k) {
            let i = choose|i: int| 0 <= i < p.len() && p[i].0@ == k;
            let j = choose|j: int| 0 <= j < q.len() && q[j].0@ == p[i].0@ && q[j].1@ == p[i].1@;
        }
        if pairs_map(q).contains_key(k) {
            let j = choose|j: int| 0 <= j < q.len() && q[j].0@ == k;
            let i = choose|i: int| 0 <= i < p.len() && p[i].0@ == q[j].0@ && p[i].1@ == q[j].1@;
        }
    }
    assert forall|k: Seq<char>| pairs_map(p).contains_key(k) implies pairs_map(p)[k]
        == pairs_map(q)[k] by {
        lemma_pairs_map_dom(p, k);
        let i = choose|i: int| 0 <= i < p.len() && p[i].0@ == k;
        let j = choose|j: int| 0 <= j < q.len() && q[j].0@ == p[i].0@ && q[j].1@ == p[i].1@;
        lemma_pairs_map_at(p, i);
        lemma_pairs_map_at(q, j);
    }
    assert(pairs_map(p) =~= pairs_map(q));
}

} // verus!
