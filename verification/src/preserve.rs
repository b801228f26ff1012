//! Every call keeps the pallet's invariant.
use vstd::prelude::*;
use vstd::set_lib::lemma_len_subset;
use crate::model::{
    add_alternatives_step, add_subject_step, approval_count, approvers,
    create_proposal_step, initial_state, lens_sum, next_proposal_id, proposal_valid,
    quorum_add_voters_step, register_voter_step, stop_proposal_step, valid,
    vote_step, VotingState,
};
use crate::types::{AccountId, Config, H256, Origin};

verus! {

/// The approvers of `new` for proposal `id` are finitely many members of the
/// proposal, and none where the proposal does not exist.
pub proof fn lemma_approvers_are_members(s: VotingState, id: u32, new: AccountId)
    requires
        valid(s),
    ensures
        approvers(s.status_voted_new_voter, id, new).finite(),
        s.proposals.contains_key(id) ==> approvers(s.status_voted_new_voter, id, new).subset_of(
            s.proposals[id].who.to_set(),
        ),
        s.proposals.contains_key(id) ==> approvers(s.status_voted_new_voter, id, new).len()
            <= s.proposals[id].who.len(),
        !s.proposals.contains_key(id) ==> approvers(s.status_voted_new_voter, id, new)
            =~= Set::<AccountId>::empty(),
{
    let a = approvers(s.status_voted_new_voter, id, new);
    if s.proposals.contains_key(id) {
        let who = s.proposals[id].who;
        assert forall|w: AccountId| a.contains(w) implies who.to_set().contains(w) by {
            assert(s.status_voted_new_voter.contains_key((id, w, new)));
        }
        broadcast use vstd::seq_lib::seq_to_set_is_finite;
        lemma_len_subset(a, who.to_set());
        who.unique_seq_to_set();
    } else {
        assert forall|w: AccountId| !a.contains(w) by {
            if a.contains(w) {
                assert(s.status_voted_new_voter.contains_key((id, w, new)));
            }
        }
        assert(a =~= Set::<AccountId>::empty());
    }
}

/// A member who has not approved `new` leaves room for one more approval:
/// the count stays below the number of members.
pub proof fn lemma_approval_below_members(s: VotingState, id: u32, who: AccountId, new: AccountId)
    requires
        valid(s),
        s.proposals.contains_key(id),
        s.proposals[id].who.contains(who),
        !s.status_voted_new_voter.contains_key((id, who, new)),
    ensures
        approval_count(s.number_quorum_for_new_voter, id, new) < s.proposals[id].who.len(),
{
    let a = approvers(s.status_voted_new_voter, id, new);
    let members = s.proposals[id].who.to_set();
    lemma_approvers_are_members(s, id, new);
    broadcast use vstd::seq_lib::seq_to_set_is_finite;
    assert(members.contains(who));
    assert(a.subset_of(members.remove(who)));
    lemma_len_subset(a, members.remove(who));
    s.proposals[id].who.unique_seq_to_set();
}

/// The state of a freshly set up pallet satisfies the invariant.
pub proof fn lemma_initial_valid(config: Config)
    ensures
        valid(initial_state(config)),
{
    let s = initial_state(config);
    assert forall|id: u32, new: AccountId| #[trigger]
        approvers(s.status_voted_new_voter, id, new).len() == approval_count(
            s.number_quorum_for_new_voter,
            id,
            new,
        ) by {
        assert(approvers(s.status_voted_new_voter, id, new) =~= Set::<AccountId>::empty());
    }
}

/// Registering a voter keeps the invariant.
pub proof fn lemma_register_voter_valid(s: VotingState, origin: Origin, who: AccountId)
    requires
        valid(s),
    ensures
        valid(register_voter_step(s, origin, who).0),
{
    let t = register_voter_step(s, origin, who).0;
    assert forall|id: u32| #[trigger] t.proposals.contains_key(id) implies proposal_valid(
        t,
        id,
        t.proposals[id],
    ) by {
        assert(proposal_valid(s, id, s.proposals[id]));
    }
}

/// Creating a proposal keeps the invariant; the new id was free.
pub proof fn lemma_create_proposal_valid(s: VotingState, origin: Origin, text: H256)
    requires
        valid(s),
    ensures
        valid(create_proposal_step(s, origin, text).0),
        create_proposal_step(s, origin, text).1 is Ok ==> !s.proposals.contains_key(
            next_proposal_id(s),
        ),
{
    let t = create_proposal_step(s, origin, text).0;
    let nid = next_proposal_id(s);
    if s.proposals.contains_key(nid) {
        assert(proposal_valid(s, nid, s.proposals[nid]));
    }
    if create_proposal_step(s, origin, text).1 is Ok {
        assert forall|id: u32| #[trigger] t.proposals.contains_key(id) implies proposal_valid(
            t,
            id,
            t.proposals[id],
        ) by {
            if id != nid {
                assert(proposal_valid(s, id, s.proposals[id]));
            } else {
                let p = t.proposals[id];
                assert(p.who =~= seq![p.who[0]]);
                assert(p.who.no_duplicates());
            }
        }
        assert forall|k: (u32, AccountId, AccountId)| #[trigger]
            t.status_voted_new_voter.contains_key(k) implies {
            &&& t.proposals.contains_key(k.0)
            &&& t.proposals[k.0].who.contains(k.1)
            &&& t.status_voted_new_voter[k] == 1
        } by {
            assert(s.proposals.contains_key(k.0));
        }
        assert forall|k: (u32, AccountId)| #[trigger] t.vote_by_quorum.contains_key(k) implies {
            &&& t.proposals.contains_key(k.0)
            &&& t.proposals[k.0].who.contains(k.1)
        } by {
            assert(s.proposals.contains_key(k.0));
        }
    }
}

/// Approving a new member keeps the invariant, and the count it writes fits a `u32`.
pub proof fn lemma_quorum_add_voters_valid(s: VotingState, origin: Origin, id: u32, new: AccountId)
    requires
        valid(s),
    ensures
        valid(quorum_add_voters_step(s, origin, id, new).0),
{
    let (t, r) = quorum_add_voters_step(s, origin, id, new);
    if t != s {
        let who = origin->Signed_0;
        let p = s.proposals[id];
        let st = s.status_voted_new_voter;
        let qt = s.number_quorum_for_new_voter;
        lemma_approval_below_members(s, id, who, new);
        lemma_approvers_are_members(s, id, new);
        assert(proposal_valid(s, id, p));
        let count: int = if qt.contains_key((id, new)) {
            qt[(id, new)] + 1
        } else {
            1
        };
        assert(count == approval_count(qt, id, new) + 1);
        assert(approvers(st, id, new).insert(who) =~= approvers(
            t.status_voted_new_voter,
            id,
            new,
        ));
        assert(!approvers(st, id, new).contains(who));
        assert forall|i: u32, n: AccountId| #[trigger]
            approvers(t.status_voted_new_voter, i, n).len() == approval_count(
                t.number_quorum_for_new_voter,
                i,
                n,
            ) by {
            if i != id || n != new {
                assert(approvers(t.status_voted_new_voter, i, n) =~= approvers(st, i, n));
                assert(approval_count(t.number_quorum_for_new_voter, i, n) == approval_count(
                    qt,
                    i,
                    n,
                ));
            }
        }
        assert forall|i: u32| #[trigger] t.proposals.contains_key(i) implies proposal_valid(
            t,
            i,
            t.proposals[i],
        ) by {
            assert(proposal_valid(s, i, s.proposals[i]));
            if i == id && t.proposals[i] != p {
                let q = t.proposals[i];
                assert(q.who == p.who.push(new));
                assert forall|a: int, b: int|
                    0 <= a < q.who.len() && 0 <= b < q.who.len() && a != b implies q.who[a]
                    != q.who[b] by {
                    if a == p.who.len() {
                        assert(p.who[b] == q.who[b]);
                    } else if b == p.who.len() {
                        assert(p.who[a] == q.who[a]);
                    }
                }
            }
        }
        assert forall|k: (u32, AccountId, AccountId)| #[trigger]
            t.status_voted_new_voter.contains_key(k) implies {
            &&& t.proposals.contains_key(k.0)
            &&& t.proposals[k.0].who.contains(k.1)
            &&& t.status_voted_new_voter[k] == 1
        } by {
            if k != (id, who, new) {
                assert(st.contains_key(k));
                if k.0 == id && t.proposals[id] != p {
                    let j = choose|j: int| 0 <= j < p.who.len() && p.who[j] == k.1;
                    assert(t.proposals[id].who[j] == k.1);
                }
            } else if t.proposals[id] != p {
                let j = choose|j: int| 0 <= j < p.who.len() && p.who[j] == who;
                assert(t.proposals[id].who[j] == who);
            }
        }
        assert forall|k: (u32, AccountId)| #[trigger] t.vote_by_quorum.contains_key(k) implies {
            &&& t.proposals.contains_key(k.0)
            &&& t.proposals[k.0].who.contains(k.1)
        } by {
            assert(s.vote_by_quorum.contains_key(k));
            if k.0 == id && t.proposals[id] != p {
                let j = choose|j: int| 0 <= j < p.who.len() && s.proposals[id].who[j] == k.1;
                assert(t.proposals[id].who[j] == k.1);
            }
        }
    }
}

/// Adding a subject keeps the invariant.
pub proof fn lemma_add_subject_valid(s: VotingState, origin: Origin, id: u32, text: H256)
    requires
        valid(s),
    ensures
        valid(add_subject_step(s, origin, id, text).0),
{
    let t = add_subject_step(s, origin, id, text).0;
    if t != s {
        lemma_same_members_valid(s, t, id);
    }
}

/// Adding an alternative keeps the invariant.
pub proof fn lemma_add_alternatives_valid(
    s: VotingState,
    origin: Origin,
    id: u32,
    num_sub: u32,
    text: H256,
)
    requires
        valid(s),
    ensures
        valid(add_alternatives_step(s, origin, id, num_sub, text).0),
{
    let t = add_alternatives_step(s, origin, id, num_sub, text).0;
    if t != s {
        lemma_same_members_valid(s, t, id);
    }
}

/// Casting a ballot keeps the invariant.
pub proof fn lemma_vote_valid(s: VotingState, origin: Origin, id: u32, ballot: Seq<Seq<u32>>)
    requires
        valid(s),
    ensures
        valid(vote_step(s, origin, id, ballot).0),
{
    let t = vote_step(s, origin, id, ballot).0;
    assert forall|i: u32| #[trigger] t.proposals.contains_key(i) implies proposal_valid(
        t,
        i,
        t.proposals[i],
    ) by {
        assert(proposal_valid(s, i, s.proposals[i]));
    }
}

/// Finishing a proposal keeps the invariant.
pub proof fn lemma_stop_proposal_valid(s: VotingState, origin: Origin, id: u32)
    requires
        valid(s),
    ensures
        valid(stop_proposal_step(s, origin, id).0),
{
    let t = stop_proposal_step(s, origin, id).0;
    if t != s {
        assert(proposal_valid(s, id, s.proposals[id]));
        assert(t.proposals =~= s.proposals.insert(id, t.proposals[id]));
        assert(t =~= (VotingState { proposals: s.proposals.insert(id, t.proposals[id]), events: t.events, ..s }));
        lemma_same_members_valid(s, t, id);
    }
}

/// A state that differs from a valid one only in the events and in proposal
/// `id`, where that proposal keeps its id, members and quorum, stays within
/// the bounds and keeps one list of alternatives per subject, is valid.
proof fn lemma_same_members_valid(s: VotingState, t: VotingState, id: u32)
    requires
        valid(s),
        s.proposals.contains_key(id),
        t == (VotingState { proposals: s.proposals.insert(id, t.proposals[id]), events: t.events, ..s }),
        t.proposals[id].id == s.proposals[id].id,
        t.proposals[id].who == s.proposals[id].who,
        t.proposals[id].percentage_quorum == s.proposals[id].percentage_quorum,
        t.proposals[id].subjects.len() <= s.max_subjects,
        t.proposals[id].alternatives.len() == t.proposals[id].subjects.len(),
        forall|i: int|
            0 <= i < t.proposals[id].alternatives.len() ==> #[trigger] t.proposals[id].alternatives[i].len()
                <= s.max_subjects,
    ensures
        valid(t),
{
    assert forall|i: u32| #[trigger] t.proposals.contains_key(i) implies proposal_valid(
        t,
        i,
        t.proposals[i],
    ) by {
        assert(proposal_valid(s, i, s.proposals[i]));
    }
    assert forall|k: (u32, AccountId, AccountId)| #[trigger]
        t.status_voted_new_voter.contains_key(k) implies {
        &&& t.proposals.contains_key(k.0)
        &&& t.proposals[k.0].who.contains(k.1)
        &&& t.status_voted_new_voter[k] == 1
    } by {
        assert(s.status_voted_new_voter.contains_key(k));
    }
    assert forall|k: (u32, AccountId)| #[trigger] t.vote_by_quorum.contains_key(k) implies {
        &&& t.proposals.contains_key(k.0)
        &&& t.proposals[k.0].who.contains(k.1)
    } by {
        assert(s.vote_by_quorum.contains_key(k));
    }
}

/// Rows of at most `bound` entries each: the first `n` hold at most `n * bound` in all.
pub proof fn lemma_lens_sum_bound<T>(rows: Seq<Seq<T>>, n: nat, bound: nat)
    requires
        n <= rows.len(),
        forall|i: int| 0 <= i < n ==> #[trigger] rows[i].len() <= bound,
    ensures
        lens_sum(rows, n) <= n * bound,
    decreases n,
{
    if n > 0 {
        lemma_lens_sum_bound(rows, (n - 1) as nat, bound);
        assert(rows[n - 1].len() <= bound);
        assert((n - 1) * bound + bound == n * bound) by (nonlinear_arith);
    }
}

} // verus!
