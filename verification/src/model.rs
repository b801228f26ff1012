//! The pallet's state as a mathematical value, and what each call does to it.
//!
//! A call that fails leaves the whole state as it was: no storage item is
//! written and no event is deposited.
use vstd::prelude::*;
use crate::types::{
    signer, AccountId, ArithmeticError, Alternative, Config, DispatchError, DispatchResult, Error, Event, H256, Origin,
    ProposalStatus, ProposalView, Subject,
};

verus! {

/// Everything the pallet stores, together with the limits it was configured with.
#[verifier::ext_equal]
pub struct VotingState {
    /// The configured bound on members, ballots and ballot rows.
    pub max_votes: u32,
    /// The configured bound on subjects and on the alternatives of each subject.
    pub max_subjects: u32,
    /// The accounts that root has registered.
    pub registered_voters: Set<AccountId>,
    /// The proposals, by id.
    pub proposals: Map<u32, ProposalView>,
    /// The id of the last proposal created, if any was.
    pub id_proposal: Option<u32>,
    /// `(id, who, new)` is present once member `who` of proposal `id` has approved `new`.
    pub status_voted_new_voter: Map<(u32, AccountId, AccountId), u32>,
    /// `(id, new)`: how many members of proposal `id` have approved `new`.
    pub number_quorum_for_new_voter: Map<(u32, AccountId), u32>,
    /// `(id, who)`: the ballot that member `who` cast on proposal `id`.
    pub vote_by_quorum: Map<(u32, AccountId), Seq<Seq<u32>>>,
    /// The events deposited so far, oldest first.
    pub events: Seq<Event>,
}

/// The state of a pallet that has just been set up with `config`.
pub open spec fn initial_state(config: Config) -> VotingState {
    VotingState {
        max_votes: config.max_votes,
        max_subjects: config.max_subjects,
        registered_voters: Set::empty(),
        proposals: Map::empty(),
        id_proposal: None,
        status_voted_new_voter: Map::empty(),
        number_quorum_for_new_voter: Map::empty(),
        vote_by_quorum: Map::empty(),
        events: Seq::empty(),
    }
}

/// The outcome of a refusal by the pallet.
pub open spec fn refuse(e: Error) -> DispatchResult {
    Err(DispatchError::Module(e))
}

/// The outcome of a call from an origin that may not make it.
pub open spec fn bad_origin() -> DispatchResult {
    Err(DispatchError::BadOrigin)
}

/// Registering `who`: root only; registering twice changes nothing but the events.
pub open spec fn register_voter_step(s: VotingState, origin: Origin, who: AccountId) -> (
    VotingState,
    DispatchResult,
) {
    if origin != Origin::Root {
        (s, bad_origin())
    } else {
        (
            VotingState {
                registered_voters: s.registered_voters.insert(who),
                events: s.events.push(Event::NewVoter { who }),
                ..s
            },
            Ok(()),
        )
    }
}

/// The id that the next proposal gets: one more than the last, starting at 1.
pub open spec fn next_proposal_id(s: VotingState) -> u32 {
    match s.id_proposal {
        None => 1u32,
        Some(last) => (last + 1) as u32,
    }
}

/// A proposal just created by `author`: in progress, a quorum of 50 percent,
/// the author its only member, and no subject yet.
pub open spec fn fresh_proposal(text: H256, id: u32, author: AccountId) -> ProposalView {
    ProposalView {
        text,
        id,
        percentage_quorum: 50,
        progress: ProposalStatus::Inprogress,
        who: seq![author],
        subjects: Seq::empty(),
        alternatives: Seq::empty(),
    }
}

/// Creating a proposal with the text `text`. Where the last id is `u32::MAX`
/// no further id exists, and the call fails with an overflow.
pub open spec fn create_proposal_step(s: VotingState, origin: Origin, text: H256) -> (
    VotingState,
    DispatchResult,
) {
    match signer(origin) {
        None => (s, bad_origin()),
        Some(author) => if !s.registered_voters.contains(author) {
            (s, refuse(Error::NotRegistered))
        } else if s.id_proposal == Some(u32::MAX) {
            (s, Err(DispatchError::Arithmetic(ArithmeticError::Overflow)))
        } else if s.max_votes == 0 {
            // the author does not fit into the member list
            (s, refuse(Error::OutBounded))
        } else {
            let id = next_proposal_id(s);
            (
                VotingState {
                    id_proposal: Some(id),
                    proposals: s.proposals.insert(id, fresh_proposal(text, id, author)),
                    events: s.events.push(Event::NewProposal { text, author, id }),
                    ..s
                },
                Ok(()),
            )
        },
    }
}

/// Whether `count` approvals out of `members` members reach the quorum `percentage`.
pub open spec fn quorum_reached(count: int, members: int, percentage: int) -> bool {
    count * 100 > members * percentage + 1
}

/// Member `signer` of proposal `id` approving `new` as a further member.
/// Each member's approval of `new` counts once; when the approvals reach the
/// quorum, `new` joins the proposal.
pub open spec fn quorum_add_voters_step(
    s: VotingState,
    origin: Origin,
    id: u32,
    new: AccountId,
) -> (VotingState, DispatchResult) {
    match signer(origin) {
        None => (s, bad_origin()),
        Some(who) => if !s.registered_voters.contains(who) {
            (s, refuse(Error::NotRegistered))
        } else if !s.proposals.contains_key(id) {
            (s, refuse(Error::ProposalNotExist))
        } else if !s.proposals[id].who.contains(who) {
            (s, refuse(Error::NotInTheQuorum))
        } else if s.proposals[id].who.contains(new) {
            (s, refuse(Error::EverInTheProposal))
        } else if s.status_voted_new_voter.contains_key((id, who, new)) {
            (s, Ok(()))
        } else {
            let p = s.proposals[id];
            let count: int = if s.number_quorum_for_new_voter.contains_key((id, new)) {
                s.number_quorum_for_new_voter[(id, new)] + 1
            } else {
                1
            };
            let counted = VotingState {
                status_voted_new_voter: s.status_voted_new_voter.insert((id, who, new), 1),
                number_quorum_for_new_voter: s.number_quorum_for_new_voter.insert(
                    (id, new),
                    count as u32,
                ),
                ..s
            };
            if quorum_reached(count, p.who.len() as int, p.percentage_quorum as int) {
                if p.who.len() < s.max_votes {
                    (
                        VotingState {
                            proposals: s.proposals.insert(id, ProposalView { who: p.who.push(new), ..p }),
                            ..counted
                        },
                        Ok(()),
                    )
                } else {
                    (s, refuse(Error::OutBounded))
                }
            } else {
                (counted, Ok(()))
            }
        },
    }
}

/// The checks that every call on proposal `id` by a signer makes first:
/// a signed origin, a registered signer, an existing proposal of which the
/// signer is a member. `None` when they all pass.
pub open spec fn member_check(s: VotingState, origin: Origin, id: u32) -> Option<DispatchResult> {
    match signer(origin) {
        None => Some(bad_origin()),
        Some(who) => if !s.registered_voters.contains(who) {
            Some(refuse(Error::NotRegistered))
        } else if !s.proposals.contains_key(id) {
            Some(refuse(Error::ProposalNotExist))
        } else if !s.proposals[id].who.contains(who) {
            Some(refuse(Error::NotInTheQuorum))
        } else {
            None
        },
    }
}

/// A member adding the subject `text` to proposal `id`; the subject starts
/// with no alternative. A finished proposal with room for a subject refuses it.
pub open spec fn add_subject_step(s: VotingState, origin: Origin, id: u32, text: H256) -> (
    VotingState,
    DispatchResult,
) {
    match member_check(s, origin, id) {
        Some(r) => (s, r),
        None => {
            let p = s.proposals[id];
            if p.subjects.len() >= s.max_subjects {
                (s, refuse(Error::OutBounded))
            } else if p.progress != ProposalStatus::Inprogress {
                (s, refuse(Error::ProposalFinished))
            } else if p.alternatives.len() >= s.max_subjects {
                (s, refuse(Error::OutBounded))
            } else {
                let q = ProposalView {
                    subjects: p.subjects.push(Subject { text }),
                    alternatives: p.alternatives.push(Seq::empty()),
                    ..p
                };
                (VotingState { proposals: s.proposals.insert(id, q), ..s }, Ok(()))
            }
        },
    }
}

/// A member adding the alternative `text` to subject `num_sub` (counted from 0)
/// of proposal `id`.
pub open spec fn add_alternatives_step(
    s: VotingState,
    origin: Origin,
    id: u32,
    num_sub: u32,
    text: H256,
) -> (VotingState, DispatchResult) {
    match member_check(s, origin, id) {
        Some(r) => (s, r),
        None => {
            let p = s.proposals[id];
            if p.subjects.len() <= num_sub {
                (s, refuse(Error::NotInTheQuorum))
            } else if p.alternatives[num_sub as int].len() >= s.max_subjects {
                (s, refuse(Error::OutBounded))
            } else {
                let q = ProposalView {
                    alternatives: p.alternatives.update(
                        num_sub as int,
                        p.alternatives[num_sub as int].push(Alternative { text }),
                    ),
                    ..p
                };
                (VotingState { proposals: s.proposals.insert(id, q), ..s }, Ok(()))
            }
        },
    }
}

/// The total length of the first `n` rows of `rows`.
pub open spec fn lens_sum<T>(rows: Seq<Seq<T>>, n: nat) -> nat
    decreases n,
{
    if n == 0 {
        0
    } else {
        lens_sum(rows, (n - 1) as nat) + rows[n - 1].len()
    }
}

/// A ballot fits the configured bounds: at most `max_votes` rows of at most
/// `max_votes` entries each.
pub open spec fn ballot_fits(s: VotingState, ballot: Seq<Seq<u32>>) -> bool {
    &&& ballot.len() <= s.max_votes
    &&& forall|i: int| 0 <= i < ballot.len() ==> #[trigger] ballot[i].len() <= s.max_votes
}

/// A member casting `ballot` on proposal `id`, which must be in progress:
/// one row per subject, and as many
/// entries in all as the subjects have alternatives in all. A member's first
/// ballot is kept; later ones are accepted and change nothing.
pub open spec fn vote_step(s: VotingState, origin: Origin, id: u32, ballot: Seq<Seq<u32>>) -> (
    VotingState,
    DispatchResult,
) {
    match member_check(s, origin, id) {
        Some(r) => (s, r),
        None => {
            let who = signer(origin)->0;
            let p = s.proposals[id];
            let n = p.subjects.len();
            if p.progress != ProposalStatus::Inprogress {
                (s, refuse(Error::ProposalFinished))
            } else if n != ballot.len() {
                (s, refuse(Error::VoteFailed))
            } else if lens_sum(p.alternatives, n) != lens_sum(ballot, n) {
                (s, refuse(Error::VoteFailed))
            } else if s.vote_by_quorum.contains_key((id, who)) {
                (s, Ok(()))
            } else {
                (
                    VotingState { vote_by_quorum: s.vote_by_quorum.insert((id, who), ballot), ..s },
                    Ok(()),
                )
            }
        },
    }
}

/// Root finishing proposal `id`.
pub open spec fn stop_proposal_step(s: VotingState, origin: Origin, id: u32) -> (
    VotingState,
    DispatchResult,
) {
    if origin != Origin::Root {
        (s, bad_origin())
    } else if !s.proposals.contains_key(id) {
        (s, refuse(Error::ProposalNotExist))
    } else {
        let p = s.proposals[id];
        let finished = ProposalView { progress: ProposalStatus::Finished, ..p };
        (
            VotingState {
                proposals: s.proposals.remove(p.id).insert(p.id, finished),
                events: s.events.push(Event::ProposalFinished { id }),
                ..s
            },
            Ok(()),
        )
    }
}

/// A call to the pallet, with its arguments.
pub enum Call {
    RegisterVoter { origin: Origin, who: AccountId },
    CreateProposal { origin: Origin, text: H256 },
    QuorumAddVoters { origin: Origin, id: u32, new: AccountId },
    AddSubject { origin: Origin, id: u32, text: H256 },
    AddAlternatives { origin: Origin, id: u32, num_sub: u32, text: H256 },
    Vote { origin: Origin, id: u32, ballot: Seq<Seq<u32>> },
    StopProposal { origin: Origin, id: u32 },
}

/// What `call` does to `s`.
pub open spec fn step(s: VotingState, call: Call) -> (VotingState, DispatchResult) {
    match call {
        Call::RegisterVoter { origin, who } => register_voter_step(s, origin, who),
        Call::CreateProposal { origin, text } => create_proposal_step(s, origin, text),
        Call::QuorumAddVoters { origin, id, new } => quorum_add_voters_step(s, origin, id, new),
        Call::AddSubject { origin, id, text } => add_subject_step(s, origin, id, text),
        Call::AddAlternatives { origin, id, num_sub, text } => add_alternatives_step(
            s,
            origin,
            id,
            num_sub,
            text,
        ),
        Call::Vote { origin, id, ballot } => vote_step(s, origin, id, ballot),
        Call::StopProposal { origin, id } => stop_proposal_step(s, origin, id),
    }
}

/// `call` can be made on `s`: a ballot fits the bounds.
pub open spec fn call_allowed(s: VotingState, call: Call) -> bool {
    match call {
        Call::Vote { origin, id, ballot } => ballot_fits(s, ballot),
        _ => true,
    }
}

/// The members who have approved `new` for proposal `id`.
pub open spec fn approvers(
    status: Map<(u32, AccountId, AccountId), u32>,
    id: u32,
    new: AccountId,
) -> Set<AccountId> {
    Set::new(|w: AccountId| status.contains_key((id, w, new)))
}

/// The approvals of `new` for proposal `id` as counted, 0 where none was.
pub open spec fn approval_count(count: Map<(u32, AccountId), u32>, id: u32, new: AccountId) -> nat {
    if count.contains_key((id, new)) {
        count[(id, new)] as nat
    } else {
        0
    }
}

/// What holds of each stored proposal.
pub open spec fn proposal_valid(s: VotingState, id: u32, p: ProposalView) -> bool {
    &&& p.id == id
    &&& 1 <= id
    &&& (match s.id_proposal {
        Some(last) => id <= last,
        None => false,
    })
    &&& p.percentage_quorum == 50
    &&& p.who.len() <= s.max_votes
    &&& p.who.no_duplicates()
    &&& p.subjects.len() <= s.max_subjects
    &&& p.alternatives.len() == p.subjects.len()
    &&& forall|i: int| 0 <= i < p.alternatives.len() ==> #[trigger] p.alternatives[i].len() <= s.max_subjects
}

/// The invariant of the pallet's state.
pub open spec fn valid(s: VotingState) -> bool {
    &&& forall|id: u32| #[trigger]
        s.proposals.contains_key(id) ==> proposal_valid(s, id, s.proposals[id])
    &&& forall|k: (u32, AccountId, AccountId)| #[trigger]
        s.status_voted_new_voter.contains_key(k) ==> {
            &&& s.proposals.contains_key(k.0)
            &&& s.proposals[k.0].who.contains(k.1)
            &&& s.status_voted_new_voter[k] == 1
        }
    &&& forall|id: u32, new: AccountId| #[trigger]
        approvers(s.status_voted_new_voter, id, new).len() == approval_count(
            s.number_quorum_for_new_voter,
            id,
            new,
        )
    &&& forall|k: (u32, AccountId)| #[trigger]
        s.vote_by_quorum.contains_key(k) ==> {
            &&& s.proposals.contains_key(k.0)
            &&& s.proposals[k.0].who.contains(k.1)
        }
}

} // verus!
