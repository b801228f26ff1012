//! What holds of the pallet over all calls and all states.
use vstd::prelude::*;
use crate::model::{
    add_alternatives_step, add_subject_step, approval_count, approvers, bad_origin, call_allowed,
    create_proposal_step, fresh_proposal, lens_sum, next_proposal_id,
    proposal_valid, quorum_add_voters_step, quorum_reached, refuse, register_voter_step, step,
    stop_proposal_step, valid, vote_step, Call, VotingState,
};
use crate::preserve::{
    lemma_add_alternatives_valid, lemma_add_subject_valid, lemma_approval_below_members,
    lemma_approvers_are_members,
    lemma_create_proposal_valid, lemma_quorum_add_voters_valid, lemma_register_voter_valid,
    lemma_stop_proposal_valid, lemma_vote_valid,
};
use crate::types::{
    signer, AccountId, Alternative, ArithmeticError, DispatchError, Error, Event, H256, Origin, ProposalStatus,
    Subject,
};

verus! {

/// Every call that can be made keeps the pallet's invariant.
pub proof fn law_calls_keep_valid(s: VotingState, call: Call)
    requires
        valid(s),
        call_allowed(s, call),
    ensures
        valid(step(s, call).0),
{
    match call {
        Call::RegisterVoter { origin, who } => lemma_register_voter_valid(s, origin, who),
        Call::CreateProposal { origin, text } => lemma_create_proposal_valid(s, origin, text),
        Call::QuorumAddVoters { origin, id, new } => lemma_quorum_add_voters_valid(
            s,
            origin,
            id,
            new,
        ),
        Call::AddSubject { origin, id, text } => lemma_add_subject_valid(s, origin, id, text),
        Call::AddAlternatives { origin, id, num_sub, text } => lemma_add_alternatives_valid(
            s,
            origin,
            id,
            num_sub,
            text,
        ),
        Call::Vote { origin, id, ballot } => lemma_vote_valid(s, origin, id, ballot),
        Call::StopProposal { origin, id } => lemma_stop_proposal_valid(s, origin, id),
    }
}

/// A call that fails changes nothing: no storage item is written and no
/// event is deposited.
pub proof fn law_failed_call_changes_nothing(s: VotingState, call: Call)
    ensures
        step(s, call).1 is Err ==> step(s, call).0 == s,
{
}

/// Only root registers voters and finishes proposals; any other origin is
/// refused with `BadOrigin` and changes nothing.
pub proof fn law_root_only(s: VotingState, origin: Origin, who: AccountId, id: u32)
    requires
        origin != Origin::Root,
    ensures
        register_voter_step(s, origin, who) == (s, bad_origin()),
        stop_proposal_step(s, origin, id) == (s, bad_origin()),
{
}

/// A call that is not signed is refused with `BadOrigin` by every call that
/// needs a signer.
pub proof fn law_signed_only(
    s: VotingState,
    origin: Origin,
    id: u32,
    new: AccountId,
    num_sub: u32,
    text: H256,
    ballot: Seq<Seq<u32>>,
)
    requires
        signer(origin) is None,
    ensures
        create_proposal_step(s, origin, text) == (s, bad_origin()),
        quorum_add_voters_step(s, origin, id, new) == (s, bad_origin()),
        add_subject_step(s, origin, id, text) == (s, bad_origin()),
        add_alternatives_step(s, origin, id, num_sub, text) == (s, bad_origin()),
        vote_step(s, origin, id, ballot) == (s, bad_origin()),
{
}

/// A signer that root has not registered is refused with `NotRegistered` by
/// every signed call.
pub proof fn law_registered_only(
    s: VotingState,
    who: AccountId,
    id: u32,
    new: AccountId,
    num_sub: u32,
    text: H256,
    ballot: Seq<Seq<u32>>,
)
    requires
        !s.registered_voters.contains(who),
    ensures
        create_proposal_step(s, Origin::Signed(who), text) == (s, refuse(Error::NotRegistered)),
        quorum_add_voters_step(s, Origin::Signed(who), id, new) == (s, refuse(Error::NotRegistered)),
        add_subject_step(s, Origin::Signed(who), id, text) == (s, refuse(Error::NotRegistered)),
        add_alternatives_step(s, Origin::Signed(who), id, num_sub, text) == (s, refuse(
            Error::NotRegistered,
        )),
        vote_step(s, Origin::Signed(who), id, ballot) == (s, refuse(Error::NotRegistered)),
{
}

/// A registered voter who is not a member of an existing proposal is refused
/// with `NotInTheQuorum` by every call on that proposal.
pub proof fn law_members_only(
    s: VotingState,
    who: AccountId,
    id: u32,
    new: AccountId,
    num_sub: u32,
    text: H256,
    ballot: Seq<Seq<u32>>,
)
    requires
        s.registered_voters.contains(who),
        s.proposals.contains_key(id),
        !s.proposals[id].who.contains(who),
    ensures
        quorum_add_voters_step(s, Origin::Signed(who), id, new) == (s, refuse(
            Error::NotInTheQuorum,
        )),
        add_subject_step(s, Origin::Signed(who), id, text) == (s, refuse(Error::NotInTheQuorum)),
        add_alternatives_step(s, Origin::Signed(who), id, num_sub, text) == (s, refuse(
            Error::NotInTheQuorum,
        )),
        vote_step(s, Origin::Signed(who), id, ballot) == (s, refuse(Error::NotInTheQuorum)),
{
}

/// A finished proposal takes no further subject while it has room for one,
/// and no ballot: a registered member is refused with `ProposalFinished`
/// and nothing changes.
pub proof fn law_finished_proposal_closed(
    s: VotingState,
    who: AccountId,
    id: u32,
    text: H256,
    ballot: Seq<Seq<u32>>,
)
    requires
        s.registered_voters.contains(who),
        s.proposals.contains_key(id),
        s.proposals[id].who.contains(who),
        s.proposals[id].progress == ProposalStatus::Finished,
    ensures
        s.proposals[id].subjects.len() < s.max_subjects ==> add_subject_step(
            s,
            Origin::Signed(who),
            id,
            text,
        ) == (s, refuse(Error::ProposalFinished)),
        vote_step(s, Origin::Signed(who), id, ballot) == (s, refuse(Error::ProposalFinished)),
{
}

/// Once the last id is `u32::MAX`, creating a proposal by a registered voter
/// fails with an overflow and changes nothing: no id wraps around and no
/// stored proposal is replaced.
pub proof fn law_proposal_ids_never_wrap(s: VotingState, author: AccountId, text: H256)
    requires
        s.registered_voters.contains(author),
        s.id_proposal == Some(u32::MAX),
    ensures
        create_proposal_step(s, Origin::Signed(author), text) == (s, Err::<(), DispatchError>(
            DispatchError::Arithmetic(ArithmeticError::Overflow),
        )),
{
}

/// The first proposal gets id 1 and each later one the id after the last;
/// a new proposal never replaces a stored one, and its author is its only member.
pub proof fn law_proposal_ids(s: VotingState, author: AccountId, text: H256)
    requires
        valid(s),
        create_proposal_step(s, Origin::Signed(author), text).1 is Ok,
    ensures
        ({
            let t = create_proposal_step(s, Origin::Signed(author), text).0;
            let id = next_proposal_id(s);
            &&& id == (match s.id_proposal {
                None => 1,
                Some(last) => last + 1,
            })
            &&& t.id_proposal == Some(id)
            &&& !s.proposals.contains_key(id)
            &&& t.proposals == s.proposals.insert(id, fresh_proposal(text, id, author))
            &&& t.proposals[id].who == seq![author]
        }),
{
    lemma_create_proposal_valid(s, Origin::Signed(author), text);
}

/// Nothing stored is ever lost: registered voters stay registered, proposals
/// stay with their id, text and quorum, members stay members in the order they
/// joined, subjects stay, a finished proposal stays finished, approvals and
/// cast ballots stay as they were, the last id only grows, and events are only
/// appended.
pub proof fn law_history_kept(s: VotingState, call: Call)
    requires
        valid(s),
        call_allowed(s, call),
    ensures
        ({
            let t = step(s, call).0;
            &&& s.registered_voters.subset_of(t.registered_voters)
            &&& forall|id: u32| #[trigger]
                s.proposals.contains_key(id) ==> {
                    &&& t.proposals.contains_key(id)
                    &&& t.proposals[id].id == s.proposals[id].id
                    &&& t.proposals[id].text == s.proposals[id].text
                    &&& t.proposals[id].percentage_quorum == s.proposals[id].percentage_quorum
                    &&& s.proposals[id].who.is_prefix_of(t.proposals[id].who)
                    &&& s.proposals[id].subjects.is_prefix_of(t.proposals[id].subjects)
                    &&& s.proposals[id].alternatives.len() <= t.proposals[id].alternatives.len()
                    &&& forall|i: int|
                        0 <= i < s.proposals[id].alternatives.len() ==> #[trigger] s.proposals[id].alternatives[i].is_prefix_of(
                            t.proposals[id].alternatives[i],
                        )
                    &&& (s.proposals[id].progress == ProposalStatus::Finished
                        ==> t.proposals[id].progress == ProposalStatus::Finished)
                }
            &&& forall|k: (u32, AccountId, AccountId)| #[trigger]
                s.status_voted_new_voter.contains_key(k) ==> t.status_voted_new_voter.contains_key(
                    k,
                )
            &&& forall|k: (u32, AccountId)| #[trigger]
                s.vote_by_quorum.contains_key(k) ==> t.vote_by_quorum.contains_key(k)
                    && t.vote_by_quorum[k] == s.vote_by_quorum[k]
            &&& (s.id_proposal matches Some(last) ==> (t.id_proposal matches Some(now) && last
                <= now))
            &&& s.events.is_prefix_of(t.events)
        }),
{
    let t = step(s, call).0;
    assert(s.events.is_prefix_of(t.events)) by {
        if t.events.len() > s.events.len() {
            assert(s.events =~= t.events.subrange(0, s.events.len() as int));
        } else {
            assert(s.events =~= t.events.subrange(0, s.events.len() as int));
        }
    }
    assert forall|id: u32| #[trigger] s.proposals.contains_key(id) implies {
        &&& t.proposals.contains_key(id)
        &&& t.proposals[id].id == s.proposals[id].id
        &&& t.proposals[id].text == s.proposals[id].text
        &&& t.proposals[id].percentage_quorum == s.proposals[id].percentage_quorum
        &&& s.proposals[id].who.is_prefix_of(t.proposals[id].who)
        &&& s.proposals[id].subjects.is_prefix_of(t.proposals[id].subjects)
        &&& s.proposals[id].alternatives.len() <= t.proposals[id].alternatives.len()
        &&& forall|i: int|
            0 <= i < s.proposals[id].alternatives.len() ==> #[trigger] s.proposals[id].alternatives[i].is_prefix_of(
                t.proposals[id].alternatives[i],
            )
        &&& (s.proposals[id].progress == ProposalStatus::Finished ==> t.proposals[id].progress
            == ProposalStatus::Finished)
    } by {
        assert(proposal_valid(s, id, s.proposals[id]));
        let p = s.proposals[id];
        let q = t.proposals[id];
        if let Call::CreateProposal { origin, text } = call {
            lemma_create_proposal_valid(s, origin, text);
        }
        assert(p.who =~= q.who.subrange(0, p.who.len() as int));
        assert(p.subjects =~= q.subjects.subrange(0, p.subjects.len() as int));
        assert forall|i: int| 0 <= i < p.alternatives.len() implies #[trigger] p.alternatives[i].is_prefix_of(
            q.alternatives[i],
        ) by {
            assert(p.alternatives[i] =~= q.alternatives[i].subrange(0, p.alternatives[i].len() as int));
        }
    }
}

/// Each member's approval of a new member counts once: approving again
/// changes nothing.
pub proof fn law_approval_counts_once(s: VotingState, origin: Origin, id: u32, new: AccountId)
    requires
        valid(s),
        quorum_add_voters_step(s, origin, id, new).1 is Ok,
    ensures
        ({
            let t = quorum_add_voters_step(s, origin, id, new).0;
            quorum_add_voters_step(t, origin, id, new).0 == t
        }),
{
}

/// The approvals counted for a new member of a proposal are exactly the
/// members who have approved them, each once.
pub proof fn law_count_is_distinct_approvers(s: VotingState, id: u32, new: AccountId)
    requires
        valid(s),
    ensures
        approval_count(s.number_quorum_for_new_voter, id, new) == approvers(
            s.status_voted_new_voter,
            id,
            new,
        ).len(),
        s.proposals.contains_key(id) ==> approvers(s.status_voted_new_voter, id, new).subset_of(
            s.proposals[id].who.to_set(),
        ),
{
    lemma_approvers_are_members(s, id, new);
}

/// With the quorum of 50 percent that every proposal has, a new member is
/// admitted once more than half of the members have approved them.
pub proof fn law_quorum_is_majority(s: VotingState, id: u32, count: int, members: int)
    requires
        valid(s),
        s.proposals.contains_key(id),
    ensures
        quorum_reached(count, members, s.proposals[id].percentage_quorum as int) <==> 2 * count
            > members,
{
    assert(proposal_valid(s, id, s.proposals[id]));
}

/// A member's first accepted ballot is the one kept: a later ballot, of any
/// shape, changes nothing.
pub proof fn law_first_ballot_kept(
    s: VotingState,
    origin: Origin,
    id: u32,
    first: Seq<Seq<u32>>,
    later: Seq<Seq<u32>>,
)
    requires
        valid(s),
        vote_step(s, origin, id, first).1 is Ok,
    ensures
        ({
            let t = vote_step(s, origin, id, first).0;
            let key = (id, signer(origin)->0);
            &&& t.vote_by_quorum.contains_key(key)
            &&& t.vote_by_quorum[key] == (if s.vote_by_quorum.contains_key(key) {
                s.vote_by_quorum[key]
            } else {
                first
            })
            &&& vote_step(t, origin, id, later).0 == t
        }),
{
}

/// A call that succeeds deposits one event where it registers a voter,
/// creates a proposal or finishes one, and none otherwise.
pub proof fn law_events_of_calls(s: VotingState, call: Call)
    requires
        step(s, call).1 is Ok,
    ensures
        step(s, call).0.events == s.events + match call {
            Call::RegisterVoter { origin, who } => seq![Event::NewVoter { who }],
            Call::CreateProposal { origin, text } => seq![
                Event::NewProposal { text, author: signer(origin)->0, id: next_proposal_id(s) },
            ],
            Call::StopProposal { origin, id } => seq![Event::ProposalFinished { id }],
            _ => Seq::<Event>::empty(),
        },
{
    let t = step(s, call).0;
    match call {
        Call::RegisterVoter { origin, who } => {
            assert(t.events =~= s.events + seq![Event::NewVoter { who }]);
        },
        Call::CreateProposal { origin, text } => {
            assert(t.events =~= s.events + seq![
                Event::NewProposal { text, author: signer(origin)->0, id: next_proposal_id(s) },
            ]);
        },
        Call::StopProposal { origin, id } => {
            assert(t.events =~= s.events + seq![Event::ProposalFinished { id }]);
        },
        _ => {
            assert(t.events =~= s.events + Seq::<Event>::empty());
        },
    }
}

/// Every stored proposal has one list of alternatives per subject, at most
/// `max_votes` members, none twice, and the quorum of 50 percent.
pub proof fn law_proposal_shape(s: VotingState, id: u32)
    requires
        valid(s),
        s.proposals.contains_key(id),
    ensures
        s.proposals[id].id == id,
        s.proposals[id].alternatives.len() == s.proposals[id].subjects.len(),
        s.proposals[id].who.len() <= s.max_votes,
        s.proposals[id].who.no_duplicates(),
        s.proposals[id].percentage_quorum == 50,
{
    assert(proposal_valid(s, id, s.proposals[id]));
}

/// Approving a newcomer: a registered member's first approval of `new`, who
/// is not yet a member, succeeds; the count of approvals goes up by one. When
/// the count then exceeds the quorum's share of the members (`count * 100 >
/// members * percentage + 1`) and the member list has room, `new` is appended
/// to the members; below the quorum the members stay as they were.
pub proof fn law_quorum_admission(s: VotingState, who: AccountId, id: u32, new: AccountId)
    requires
        valid(s),
        s.registered_voters.contains(who),
        s.proposals.contains_key(id),
        s.proposals[id].who.contains(who),
        !s.proposals[id].who.contains(new),
        !s.status_voted_new_voter.contains_key((id, who, new)),
    ensures
        ({
            let p = s.proposals[id];
            let (t, r) = quorum_add_voters_step(s, Origin::Signed(who), id, new);
            let count = approval_count(s.number_quorum_for_new_voter, id, new) + 1;
            let reached = count * 100 > p.who.len() * p.percentage_quorum + 1;
            &&& (reached && p.who.len() < s.max_votes) || !reached ==> {
                &&& r == Ok::<(), DispatchError>(())
                &&& t.status_voted_new_voter.contains_key((id, who, new))
                &&& approval_count(t.number_quorum_for_new_voter, id, new) == count
                &&& t.proposals.contains_key(id)
                &&& t.proposals[id].who == (if reached {
                    p.who.push(new)
                } else {
                    p.who
                })
                &&& t.proposals[id].subjects == p.subjects
                &&& t.proposals[id].alternatives == p.alternatives
                &&& t.proposals[id].progress == p.progress
            }
            &&& reached && p.who.len() >= s.max_votes ==> (t, r) == (s, refuse(
                Error::OutBounded,
            ))
        }),
{
    lemma_approval_below_members(s, id, who, new);
    assert(proposal_valid(s, id, s.proposals[id]));
}

/// A ballot that is kept has one row per subject of the proposal, and as many
/// entries in all as the proposal has alternatives in all; a ballot of the
/// right length whose entries do not add up to that total is refused with
/// `VoteFailed` and changes nothing; a ballot that does add up is kept for a
/// member who has not voted yet.
pub proof fn law_ballot_matches_alternatives(
    s: VotingState,
    who: AccountId,
    id: u32,
    ballot: Seq<Seq<u32>>,
)
    requires
        valid(s),
        s.registered_voters.contains(who),
        s.proposals.contains_key(id),
        s.proposals[id].who.contains(who),
        s.proposals[id].progress == ProposalStatus::Inprogress,
    ensures
        ({
            let p = s.proposals[id];
            let (t, r) = vote_step(s, Origin::Signed(who), id, ballot);
            let alternatives_total = lens_sum(p.alternatives, p.alternatives.len());
            let entries_total = lens_sum(ballot, ballot.len());
            &&& ballot.len() == p.subjects.len() && entries_total != alternatives_total ==> (t, r)
                == (s, refuse(Error::VoteFailed))
            &&& ballot.len() != p.subjects.len() ==> (t, r) == (s, refuse(Error::VoteFailed))
            &&& ballot.len() == p.subjects.len() && entries_total == alternatives_total ==> {
                &&& r == Ok::<(), DispatchError>(())
                &&& t.vote_by_quorum.contains_key((id, who))
                &&& !s.vote_by_quorum.contains_key((id, who)) ==> t.vote_by_quorum[(id, who)]
                    == ballot
            }
            &&& t.vote_by_quorum.contains_key((id, who)) && !s.vote_by_quorum.contains_key(
                (id, who),
            ) ==> {
                &&& t.vote_by_quorum[(id, who)].len() == p.subjects.len()
                &&& lens_sum(t.vote_by_quorum[(id, who)], p.subjects.len()) == alternatives_total
            }
        }),
{
    assert(proposal_valid(s, id, s.proposals[id]));
}

/// Adding an alternative: a member's call on an existing subject whose row
/// holds fewer than `max_subjects` alternatives succeeds, appends `text` to
/// that row, and leaves the other rows, the subjects and the members as they were.
pub proof fn law_alternative_appended(
    s: VotingState,
    who: AccountId,
    id: u32,
    num_sub: u32,
    text: H256,
)
    requires
        valid(s),
        s.registered_voters.contains(who),
        s.proposals.contains_key(id),
        s.proposals[id].who.contains(who),
        num_sub < s.proposals[id].subjects.len(),
        s.proposals[id].alternatives[num_sub as int].len() < s.max_subjects,
    ensures
        ({
            let p = s.proposals[id];
            let (t, r) = add_alternatives_step(s, Origin::Signed(who), id, num_sub, text);
            let q = t.proposals[id];
            &&& r == Ok::<(), DispatchError>(())
            &&& t.proposals.contains_key(id)
            &&& q.alternatives.len() == p.alternatives.len()
            &&& q.alternatives[num_sub as int] == p.alternatives[num_sub as int].push(
                Alternative { text },
            )
            &&& forall|i: int|
                0 <= i < p.alternatives.len() && i != num_sub ==> #[trigger] q.alternatives[i]
                    == p.alternatives[i]
            &&& q.subjects == p.subjects
            &&& q.who == p.who
            &&& q.progress == p.progress
            &&& forall|k: u32| k != id ==> #[trigger] t.proposals.get(k) == s.proposals.get(k)
        }),
{
    assert(proposal_valid(s, id, s.proposals[id]));
}

/// Adding a subject: it succeeds for a member of a proposal in progress with
/// room for a subject, appends the subject, and gives it an empty list of
/// alternatives after the existing ones, which stay as they were.
pub proof fn law_subject_appended(s: VotingState, who: AccountId, id: u32, text: H256)
    requires
        valid(s),
    ensures
        ({
            let (t, r) = add_subject_step(s, Origin::Signed(who), id, text);
            let p = s.proposals[id];
            let q = t.proposals[id];
            &&& (s.registered_voters.contains(who) && s.proposals.contains_key(id)
                && p.who.contains(who) && p.subjects.len() < s.max_subjects && p.progress
                == ProposalStatus::Inprogress) ==> r == Ok::<(), DispatchError>(())
            &&& r is Ok ==> {
                &&& t.proposals.contains_key(id)
                &&& q.subjects.len() == p.subjects.len() + 1
                &&& q.subjects.last() == (Subject { text })
                &&& q.subjects.drop_last() == p.subjects
                &&& q.alternatives.len() == p.alternatives.len() + 1
                &&& q.alternatives.last() == Seq::<Alternative>::empty()
                &&& q.alternatives.drop_last() == p.alternatives
                &&& q.who == p.who
                &&& forall|k: u32| k != id ==> #[trigger] t.proposals.get(k) == s.proposals.get(k)
            }
        }),
{
    let (t, r) = add_subject_step(s, Origin::Signed(who), id, text);
    if s.proposals.contains_key(id) {
        assert(proposal_valid(s, id, s.proposals[id]));
    }
    if r is Ok {
        let p = s.proposals[id];
        let q = t.proposals[id];
        assert(q.subjects.drop_last() =~= p.subjects);
        assert(q.alternatives.drop_last() =~= p.alternatives);
    }
}

/// Finishing a proposal: root's call on an existing proposal succeeds and
/// changes only its progress, to finished; its text, id, quorum, members,
/// subjects and alternatives stay, and so do all other proposals.
pub proof fn law_stop_only_finishes(s: VotingState, id: u32)
    requires
        valid(s),
        s.proposals.contains_key(id),
    ensures
        ({
            let p = s.proposals[id];
            let (t, r) = stop_proposal_step(s, Origin::Root, id);
            let q = t.proposals[id];
            &&& r == Ok::<(), DispatchError>(())
            &&& t.proposals.dom() == s.proposals.dom()
            &&& q.progress == ProposalStatus::Finished
            &&& q.text == p.text
            &&& q.id == p.id
            &&& q.percentage_quorum == p.percentage_quorum
            &&& q.who == p.who
            &&& q.subjects == p.subjects
            &&& q.alternatives == p.alternatives
            &&& forall|k: u32| k != id ==> #[trigger] t.proposals.get(k) == s.proposals.get(k)
        }),
{
    assert(proposal_valid(s, id, s.proposals[id]));
    let t = stop_proposal_step(s, Origin::Root, id).0;
    assert(t.proposals.dom() =~= s.proposals.dom());
}

/// Registering: root's call always succeeds, and afterwards exactly the
/// voters registered before and `who` are registered.
pub proof fn law_register_adds_voter(s: VotingState, who: AccountId)
    ensures
        ({
            let (t, r) = register_voter_step(s, Origin::Root, who);
            &&& r == Ok::<(), DispatchError>(())
            &&& t.registered_voters.contains(who)
            &&& forall|a: AccountId| a != who ==> (#[trigger] t.registered_voters.contains(a)
                <==> s.registered_voters.contains(a))
            &&& t.proposals == s.proposals
        }),
{
}

/// Creating a proposal succeeds for a registered signer while an id is left
/// and a member fits; the new proposal holds the text, is in progress, has
/// the author as its only member and no subject, and no other proposal changes.
pub proof fn law_create_succeeds(s: VotingState, author: AccountId, text: H256)
    requires
        valid(s),
        s.registered_voters.contains(author),
        s.id_proposal != Some(u32::MAX),
        s.max_votes > 0,
    ensures
        ({
            let (t, r) = create_proposal_step(s, Origin::Signed(author), text);
            let id = t.id_proposal->0;
            &&& r == Ok::<(), DispatchError>(())
            &&& t.id_proposal is Some
            &&& id as int == (match s.id_proposal {
                None => 1int,
                Some(last) => last + 1,
            })
            &&& !s.proposals.contains_key(id)
            &&& t.proposals.contains_key(id)
            &&& t.proposals[id].text == text
            &&& t.proposals[id].id == id
            &&& t.proposals[id].progress == ProposalStatus::Inprogress
            &&& t.proposals[id].who == seq![author]
            &&& t.proposals[id].subjects.len() == 0
            &&& t.proposals[id].alternatives.len() == 0
            &&& forall|k: u32| k != id ==> #[trigger] t.proposals.get(k) == s.proposals.get(k)
        }),
{
    lemma_create_proposal_valid(s, Origin::Signed(author), text);
}

/// Adding an alternative to a subject that does not exist is refused with
/// `NotInTheQuorum`, and to a full row with `OutBounded`; neither changes anything.
pub proof fn law_alternative_refusals(
    s: VotingState,
    who: AccountId,
    id: u32,
    num_sub: u32,
    text: H256,
)
    requires
        valid(s),
        s.registered_voters.contains(who),
        s.proposals.contains_key(id),
        s.proposals[id].who.contains(who),
    ensures
        num_sub >= s.proposals[id].subjects.len() ==> add_alternatives_step(
            s,
            Origin::Signed(who),
            id,
            num_sub,
            text,
        ) == (s, refuse(Error::NotInTheQuorum)),
        num_sub < s.proposals[id].subjects.len() && s.proposals[id].alternatives[num_sub as int].len()
            >= s.max_subjects ==> add_alternatives_step(s, Origin::Signed(who), id, num_sub, text)
            == (s, refuse(Error::OutBounded)),
{
}

/// Approving someone who is a member already is refused with
/// `EverInTheProposal` and changes nothing; a member repeating an approval
/// of a non-member succeeds and changes nothing.
pub proof fn law_approval_of_member_or_repeat(
    s: VotingState,
    who: AccountId,
    id: u32,
    new: AccountId,
)
    requires
        s.registered_voters.contains(who),
        s.proposals.contains_key(id),
        s.proposals[id].who.contains(who),
    ensures
        s.proposals[id].who.contains(new) ==> quorum_add_voters_step(s, Origin::Signed(who), id, new)
            == (s, refuse(Error::EverInTheProposal)),
        !s.proposals[id].who.contains(new) && s.status_voted_new_voter.contains_key((id, who, new))
            ==> quorum_add_voters_step(s, Origin::Signed(who), id, new) == (s, Ok::<
            (),
            DispatchError,
        >(())),
{
}

} // verus!
