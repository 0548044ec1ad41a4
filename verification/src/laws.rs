//! The store's governing laws, proved once over the mutation model:
//! revision monotonicity, exclusivity of concurrent mutations, and fan-out
//! completeness.

use vstd::prelude::*;

use crate::assoc::{concat_all, lemma_concat_all_membership, lemma_concat_all_no_duplicates};
use crate::store::{entity_metadata, fanout_sessions, recipients, user_sessions, DatabaseView};
use crate::types::{EntityId, Revision, SessionId, UserId};

verus! {

/// The live revision after a sequence of mutation attempts, each carrying the
/// revision its submitter expected: an attempt is accepted exactly when its
/// expectation meets the live value (and the counter can still advance), and
/// each accepted attempt moves the counter up by exactly one.
pub open spec fn rev_after(r0: Revision, attempts: Seq<Revision>) -> Revision
    decreases attempts.len(),
{
    if attempts.len() == 0 {
        r0
    } else {
        let r = rev_after(r0, attempts.drop_last());
        if attempts.last() == r && r < u32::MAX {
            (r + 1) as Revision
        } else {
            r
        }
    }
}

/// Whether the attempt at one position is accepted.
pub open spec fn accepted(r0: Revision, attempts: Seq<Revision>, i: int) -> bool {
    attempts[i] == rev_after(r0, attempts.take(i)) && rev_after(r0, attempts.take(i)) < u32::MAX
}

/// How many of the attempts are accepted.
pub open spec fn num_accepted(r0: Revision, attempts: Seq<Revision>) -> int
    decreases attempts.len(),
{
    if attempts.len() == 0 {
        0int
    } else {
        num_accepted(r0, attempts.drop_last()) + if accepted(
            r0,
            attempts,
            attempts.len() - 1,
        ) {
            1int
        } else {
            0int
        }
    }
}

/// Revision monotonicity: the live revision never moves down, each accepted
/// attempt moves it up by exactly one, and a rejected attempt leaves it
/// untouched — the counter after any run of attempts is the starting value
/// plus the number of accepted ones.
pub proof fn law_revision_monotonic(r0: Revision, attempts: Seq<Revision>)
    ensures
        0 <= num_accepted(r0, attempts),
        rev_after(r0, attempts) == r0 + num_accepted(r0, attempts),
        forall|i: int|
            0 <= i <= attempts.len() ==> r0 <= rev_after(r0, #[trigger] attempts.take(i))
                <= rev_after(r0, attempts),
        forall|i: int|
            0 <= i < attempts.len() ==> rev_after(r0, #[trigger] attempts.take(i + 1)) == if
                accepted(r0, attempts, i) {
                rev_after(r0, attempts.take(i)) + 1
            } else {
                rev_after(r0, attempts.take(i)) as int
            },
    decreases attempts.len(),
{
    if attempts.len() == 0 {
        assert(attempts.take(0) =~= attempts);
    } else {
        let pre = attempts.drop_last();
        law_revision_monotonic(r0, pre);
        assert(attempts.take(attempts.len() - 1) =~= pre);
        assert(attempts.take(attempts.len() as int) =~= attempts);
        assert forall|i: int| 0 <= i <= attempts.len() implies r0 <= rev_after(
            r0,
            #[trigger] attempts.take(i),
        ) <= rev_after(r0, attempts) by {
            if i < attempts.len() {
                assert(attempts.take(i) =~= pre.take(i));
            }
        }
        assert forall|i: int| 0 <= i < attempts.len() implies rev_after(
            r0,
            #[trigger] attempts.take(i + 1),
        ) == if accepted(r0, attempts, i) {
            rev_after(r0, attempts.take(i)) + 1
        } else {
            rev_after(r0, attempts.take(i)) as int
        } by {
            if i < attempts.len() - 1 {
                assert(attempts.take(i) =~= pre.take(i));
                assert(attempts.take(i + 1) =~= pre.take(i + 1));
                assert(attempts[i] == pre[i]);
            }
        }
    }
}

/// Concurrent-mutation exclusivity: no two attempts are both accepted against
/// the same expected revision — whatever the interleaving, the k-th accepted
/// attempt is exactly the one expecting the k-th revision value.
pub proof fn law_mutation_exclusive(r0: Revision, attempts: Seq<Revision>, i: int, j: int)
    requires
        0 <= i < j < attempts.len(),
        accepted(r0, attempts, i),
        accepted(r0, attempts, j),
    ensures
        attempts[i] != attempts[j],
{
    law_revision_monotonic(r0, attempts);
    assert(rev_after(r0, attempts.take(i + 1)) == rev_after(r0, attempts.take(i)) + 1);
    lemma_rev_after_monotone(r0, attempts, i + 1, j);
    assert(attempts[i] == rev_after(r0, attempts.take(i)));
    assert(attempts[j] == rev_after(r0, attempts.take(j)));
}

/// The live revision never moves down between two points of the run.
pub proof fn lemma_rev_after_monotone(r0: Revision, attempts: Seq<Revision>, a: int, b: int)
    requires
        0 <= a <= b <= attempts.len(),
    ensures
        rev_after(r0, attempts.take(a)) <= rev_after(r0, attempts.take(b)),
    decreases b - a,
{
    if a < b {
        lemma_rev_after_monotone(r0, attempts, a, b - 1);
        law_revision_monotonic(r0, attempts);
        assert(rev_after(r0, attempts.take(b - 1 + 1)) >= rev_after(
            r0,
            attempts.take(b - 1),
        ));
    }
}

/// Fan-out completeness: when the target resolves, its recipients are
/// pairwise distinct, and no session is shared between two users or repeated
/// inside one user, then the fan-out list holds every live session of every
/// recipient exactly once — and nothing else.
pub proof fn law_fanout_complete(dbv: DatabaseView, id: EntityId)
    requires
        entity_metadata(dbv, id) is Some,
        recipients(entity_metadata(dbv, id).unwrap()).no_duplicates(),
        forall|u: UserId, v: UserId, s: SessionId|
            #![trigger user_sessions(dbv, u).contains(s), user_sessions(dbv, v).contains(s)]
            u != v ==> !(user_sessions(dbv, u).contains(s) && user_sessions(dbv, v).contains(s)),
        forall|u: UserId| (#[trigger] user_sessions(dbv, u)).no_duplicates(),
    ensures
        fanout_sessions(dbv, id).no_duplicates(),
        forall|s: SessionId|
            fanout_sessions(dbv, id).contains(s) <==> exists|k: int|
                0 <= k < recipients(entity_metadata(dbv, id).unwrap()).len() && user_sessions(
                    dbv,
                    #[trigger] recipients(entity_metadata(dbv, id).unwrap())[k],
                ).contains(s),
{
    let md = entity_metadata(dbv, id).unwrap();
    let rcpt = recipients(md);
    let lists = rcpt.map_values(|u: UserId| user_sessions(dbv, u));
    lemma_concat_all_membership(lists);
    assert forall|s: SessionId|
        fanout_sessions(dbv, id).contains(s) <==> exists|k: int|
            0 <= k < rcpt.len() && user_sessions(dbv, #[trigger] rcpt[k]).contains(s) by {
        if fanout_sessions(dbv, id).contains(s) {
            let k = choose|k: int| 0 <= k < lists.len() && (#[trigger] lists[k]).contains(s);
            assert(lists[k] == user_sessions(dbv, rcpt[k]));
            assert(user_sessions(dbv, rcpt[k]).contains(s));
        }
        if exists|k: int| 0 <= k < rcpt.len() && user_sessions(dbv, #[trigger] rcpt[k]).contains(
            s,
        ) {
            let k = choose|k: int|
                0 <= k < rcpt.len() && user_sessions(dbv, #[trigger] rcpt[k]).contains(s);
            assert(lists[k].contains(s));
        }
    }
    assert forall|a: int| 0 <= a < lists.len() implies (#[trigger] lists[a]).no_duplicates() by {
        assert(lists[a] == user_sessions(dbv, rcpt[a]));
    }
    assert forall|a: int, b: int, s: SessionId|
        #![trigger lists[a].contains(s), lists[b].contains(s)]
        0 <= a < b < lists.len() implies !(lists[a].contains(s) && lists[b].contains(s)) by {
        assert(lists[a] == user_sessions(dbv, rcpt[a]));
        assert(lists[b] == user_sessions(dbv, rcpt[b]));
        assert(rcpt[a] != rcpt[b]);
    }
    lemma_concat_all_no_duplicates(lists);
}

} // verus!
