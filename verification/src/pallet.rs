//! The voting pallet: its storage and its calls.
use vstd::prelude::*;
use crate::bounded::{contains_account, copy_nested, copy_proposal, copy_vec, try_push};
use crate::keymap::KeyMap;
use crate::model::{
    add_alternatives_step, add_subject_step, ballot_fits, create_proposal_step, initial_state,
    lens_sum, next_proposal_id, proposal_valid, quorum_add_voters_step,
    register_voter_step, stop_proposal_step, valid, vote_step, VotingState,
};
use crate::preserve::{
    lemma_add_alternatives_valid, lemma_add_subject_valid, lemma_approval_below_members,
    lemma_create_proposal_valid, lemma_initial_valid, lemma_lens_sum_bound, lemma_quorum_add_voters_valid,
    lemma_register_voter_valid, lemma_stop_proposal_valid, lemma_vote_valid,
};
use crate::types::{
    ensure_root, ensure_signed, nested, AccountId, Alternative, ArithmeticError, Config, DispatchError,
    DispatchResult, Error, Event, H256, Origin, Proposal, ProposalStatus, ProposalView, Subject,
};

verus! {

/// The views of the stored proposals.
pub open spec fn proposal_views(m: Map<u32, Proposal>) -> Map<u32, ProposalView> {
    m.map_values(|p: Proposal| p@)
}

/// The contents of the stored ballots.
pub open spec fn ballot_views(m: Map<(u32, AccountId), Vec<Vec<u32>>>) -> Map<
    (u32, AccountId),
    Seq<Seq<u32>>,
> {
    m.map_values(|b: Vec<Vec<u32>>| nested(b@))
}

/// The voting pallet: registered voters, proposals with their quorum and
/// subjects, the approvals of new members, the ballots, and the events.
pub struct Pallet {
    config: Config,
    registered_voters: KeyMap<AccountId, ()>,
    proposals: KeyMap<u32, Proposal>,
    id_proposal: Option<u32>,
    status_voted_new_voter: KeyMap<(u32, AccountId, AccountId), u32>,
    number_quorum_for_new_voter: KeyMap<(u32, AccountId), u32>,
    vote_by_quorum: KeyMap<(u32, AccountId), Vec<Vec<u32>>>,
    events: Vec<Event>,
}

impl View for Pallet {
    type V = VotingState;

    closed spec fn view(&self) -> VotingState {
        VotingState {
            max_votes: self.config.max_votes,
            max_subjects: self.config.max_subjects,
            registered_voters: self.registered_voters@.dom(),
            proposals: proposal_views(self.proposals@),
            id_proposal: self.id_proposal,
            status_voted_new_voter: self.status_voted_new_voter@,
            number_quorum_for_new_voter: self.number_quorum_for_new_voter@,
            vote_by_quorum: ballot_views(self.vote_by_quorum@),
            events: self.events@,
        }
    }
}

impl Pallet {
    /// The pallet's invariant: its state is valid.
    pub closed spec fn inv(&self) -> bool {
        &&& self.registered_voters.wf()
        &&& self.proposals.wf()
        &&& self.status_voted_new_voter.wf()
        &&& self.number_quorum_for_new_voter.wf()
        &&& self.vote_by_quorum.wf()
        &&& valid(self@)
    }

    /// The invariant of a pallet is that of its state.
    pub proof fn lemma_inv_valid(&self)
        requires
            self.inv(),
        ensures
            valid(self@),
    {
    }

    /// A pallet configured with `config`, with nothing stored yet.
    pub fn new(config: Config) -> (p: Pallet)
        ensures
            p.inv(),
            p@ == initial_state(config),
    {
        let p = Pallet {
            config,
            registered_voters: KeyMap::new(),
            proposals: KeyMap::new(),
            id_proposal: None,
            status_voted_new_voter: KeyMap::new(),
            number_quorum_for_new_voter: KeyMap::new(),
            vote_by_quorum: KeyMap::new(),
            events: Vec::new(),
        };
        proof {
            assert(p@.registered_voters =~= Set::<AccountId>::empty());
            assert(p@.proposals =~= Map::<u32, ProposalView>::empty());
            assert(p@.vote_by_quorum =~= Map::<(u32, AccountId), Seq<Seq<u32>>>::empty());
            assert(p@ =~= initial_state(config));
            lemma_initial_valid(config);
        }
        p
    }

    /// Root registers `who` as a voter.
    pub fn register_voter(&mut self, origin: Origin, who: AccountId) -> (r: DispatchResult)
        requires
            old(self).inv(),
        ensures
            final(self).inv(),
            final(self)@ == register_voter_step(old(self)@, origin, who).0,
            r == register_voter_step(old(self)@, origin, who).1,
    {
        let ghost s = self@;
        proof {
            lemma_register_voter_valid(s, origin, who);
        }
        match ensure_root(origin) {
            Ok(()) => {},
            Err(e) => return Err(e),
        }
        self.registered_voters.insert(who, ());
        self.events.push(Event::NewVoter { who });
        proof {
            assert(self@.registered_voters =~= s.registered_voters.insert(who));
            assert(self@ =~= register_voter_step(s, origin, who).0);
        }
        Ok(())
    }

    /// A registered voter creates a proposal with the text `text`, of which
    /// they are the first member. Its id is one more than the last one; where
    /// no such id exists the call fails with an overflow.
    pub fn create_proposal(&mut self, origin: Origin, text: H256) -> (r: DispatchResult)
        requires
            old(self).inv(),
        ensures
            final(self).inv(),
            final(self)@ == create_proposal_step(old(self)@, origin, text).0,
            r == create_proposal_step(old(self)@, origin, text).1,
    {
        let ghost s = self@;
        proof {
            lemma_create_proposal_valid(s, origin, text);
        }
        let author = match ensure_signed(origin) {
            Ok(a) => a,
            Err(e) => return Err(e),
        };
        if !self.registered_voters.contains_key(&author) {
            return Err(DispatchError::Module(Error::NotRegistered));
        }
        let id: u32 = match self.id_proposal {
            None => 1,
            Some(last) => {
                if last == u32::MAX {
                    return Err(DispatchError::Arithmetic(ArithmeticError::Overflow));
                }
                last + 1
            },
        };
        let mut proposal = Proposal {
            text,
            id,
            progress: ProposalStatus::Inprogress,
            percentage_quorum: 50,
            who: Vec::new(),
            subjects: Vec::new(),
            alternatives: Vec::new(),
        };
        match try_push(&mut proposal.who, self.config.max_votes, author) {
            Ok(()) => {},
            Err(_) => return Err(DispatchError::Module(Error::OutBounded)),
        }
        self.id_proposal = Some(id);
        self.proposals.insert(id, proposal);
        self.events.push(Event::NewProposal { text, author, id });
        proof {
            let t = create_proposal_step(s, origin, text).0;
            assert(id == next_proposal_id(s));
            assert(proposal@.who =~= seq![author]);
            assert(proposal@.alternatives =~= Seq::<Seq<Alternative>>::empty());
            assert(self@.proposals =~= t.proposals);
            assert(self@ =~= t);
        }
        Ok(())
    }

    /// Root finishes proposal `id`.
    pub fn stop_proposal(&mut self, origin: Origin, id: u32) -> (r: DispatchResult)
        requires
            old(self).inv(),
        ensures
            final(self).inv(),
            final(self)@ == stop_proposal_step(old(self)@, origin, id).0,
            r == stop_proposal_step(old(self)@, origin, id).1,
    {
        let ghost s = self@;
        proof {
            lemma_stop_proposal_valid(s, origin, id);
        }
        match ensure_root(origin) {
            Ok(()) => {},
            Err(e) => return Err(e),
        }
        let mut finished = match self.proposals.get(&id) {
            Some(p) => copy_proposal(p),
            None => return Err(DispatchError::Module(Error::ProposalNotExist)),
        };
        finished.progress = ProposalStatus::Finished;
        let key = finished.id;
        self.proposals.insert(key, finished);
        self.events.push(Event::ProposalFinished { id });
        proof {
            let t = stop_proposal_step(s, origin, id).0;
            assert(self@.proposals =~= t.proposals);
            assert(self@ =~= t);
        }
        Ok(())
    }

    /// Member `origin` of proposal `id` approves `new` as a further member.
    /// Each member's approval counts once; once more than the quorum's share
    /// of the members approve, `new` joins the proposal.
    pub fn quorum_add_voters(&mut self, origin: Origin, id: u32, new: AccountId) -> (r:
        DispatchResult)
        requires
            old(self).inv(),
        ensures
            final(self).inv(),
            final(self)@ == quorum_add_voters_step(old(self)@, origin, id, new).0,
            r == quorum_add_voters_step(old(self)@, origin, id, new).1,
    {
        let ghost s = self@;
        proof {
            lemma_quorum_add_voters_valid(s, origin, id, new);
        }
        let who = match ensure_signed(origin) {
            Ok(w) => w,
            Err(e) => return Err(e),
        };
        if !self.registered_voters.contains_key(&who) {
            return Err(DispatchError::Module(Error::NotRegistered));
        }
        let proposal = match self.proposals.get(&id) {
            Some(p) => p,
            None => return Err(DispatchError::Module(Error::ProposalNotExist)),
        };
        if !contains_account(&proposal.who, who) {
            return Err(DispatchError::Module(Error::NotInTheQuorum));
        }
        if contains_account(&proposal.who, new) {
            return Err(DispatchError::Module(Error::EverInTheProposal));
        }
        if self.status_voted_new_voter.contains_key(&(id, who, new)) {
            return Ok(());
        }
        proof {
            lemma_approval_below_members(s, id, who, new);
            assert(proposal_valid(s, id, s.proposals[id]));
        }
        let count: u32 = match self.number_quorum_for_new_voter.get(&(id, new)) {
            Some(x) => *x + 1,
            None => 1,
        };
        let members = proposal.who.len() as u128;
        let reached = (count as u128) * 100 > members * (proposal.percentage_quorum as u128) + 1;
        if reached {
            let mut updated = copy_proposal(proposal);
            match try_push(&mut updated.who, self.config.max_votes, new) {
                Ok(()) => {},
                Err(_) => return Err(DispatchError::Module(Error::OutBounded)),
            }
            self.status_voted_new_voter.insert((id, who, new), 1);
            self.number_quorum_for_new_voter.insert((id, new), count);
            self.proposals.insert(id, updated);
            proof {
                let t = quorum_add_voters_step(s, origin, id, new).0;
                assert(self@.proposals =~= t.proposals);
                assert(self@ =~= t);
            }
        } else {
            self.status_voted_new_voter.insert((id, who, new), 1);
            self.number_quorum_for_new_voter.insert((id, new), count);
            proof {
                let t = quorum_add_voters_step(s, origin, id, new).0;
                assert(self@ =~= t);
            }
        }
        Ok(())
    }

    /// Member `origin` of proposal `id` adds the subject `text`, with no
    /// alternative yet. A finished proposal with room for a subject refuses it.
    pub fn add_subject(&mut self, origin: Origin, id: u32, text: H256) -> (r: DispatchResult)
        requires
            old(self).inv(),
        ensures
            final(self).inv(),
            final(self)@ == add_subject_step(old(self)@, origin, id, text).0,
            r == add_subject_step(old(self)@, origin, id, text).1,
    {
        let ghost s = self@;
        proof {
            lemma_add_subject_valid(s, origin, id, text);
        }
        let who = match ensure_signed(origin) {
            Ok(w) => w,
            Err(e) => return Err(e),
        };
        if !self.registered_voters.contains_key(&who) {
            return Err(DispatchError::Module(Error::NotRegistered));
        }
        let mut updated = match self.proposals.get(&id) {
            Some(p) => {
                if !contains_account(&p.who, who) {
                    return Err(DispatchError::Module(Error::NotInTheQuorum));
                }
                copy_proposal(p)
            },
            None => return Err(DispatchError::Module(Error::ProposalNotExist)),
        };
        match try_push(&mut updated.subjects, self.config.max_subjects, Subject { text }) {
            Ok(()) => {},
            Err(_) => return Err(DispatchError::Module(Error::OutBounded)),
        }
        match updated.progress {
            ProposalStatus::Inprogress => {},
            _ => return Err(DispatchError::Module(Error::ProposalFinished)),
        }
        match try_push(&mut updated.alternatives, self.config.max_subjects, Vec::new()) {
            Ok(()) => {},
            Err(_) => return Err(DispatchError::Module(Error::OutBounded)),
        }
        self.proposals.insert(id, updated);
        proof {
            let t = add_subject_step(s, origin, id, text).0;
            assert(updated@.alternatives =~= s.proposals[id].alternatives.push(Seq::empty()));
            assert(self@.proposals =~= t.proposals);
            assert(self@ =~= t);
        }
        Ok(())
    }

    /// Member `origin` of proposal `id` adds the alternative `text` to subject
    /// `num_sub`, counted from 0.
    pub fn add_alternatives(&mut self, origin: Origin, id: u32, num_sub: u32, text: H256) -> (r:
        DispatchResult)
        requires
            old(self).inv(),
        ensures
            final(self).inv(),
            final(self)@ == add_alternatives_step(old(self)@, origin, id, num_sub, text).0,
            r == add_alternatives_step(old(self)@, origin, id, num_sub, text).1,
    {
        let ghost s = self@;
        proof {
            lemma_add_alternatives_valid(s, origin, id, num_sub, text);
        }
        let who = match ensure_signed(origin) {
            Ok(w) => w,
            Err(e) => return Err(e),
        };
        if !self.registered_voters.contains_key(&who) {
            return Err(DispatchError::Module(Error::NotRegistered));
        }
        let mut updated = match self.proposals.get(&id) {
            Some(p) => {
                if !contains_account(&p.who, who) {
                    return Err(DispatchError::Module(Error::NotInTheQuorum));
                }
                if p.subjects.len() <= num_sub as usize {
                    return Err(DispatchError::Module(Error::NotInTheQuorum));
                }
                copy_proposal(p)
            },
            None => return Err(DispatchError::Module(Error::ProposalNotExist)),
        };
        proof {
            assert(proposal_valid(s, id, s.proposals[id]));
        }
        let k = num_sub as usize;
        let mut row = copy_vec(&updated.alternatives[k]);
        match try_push(&mut row, self.config.max_subjects, Alternative { text }) {
            Ok(()) => {},
            Err(_) => return Err(DispatchError::Module(Error::OutBounded)),
        }
        updated.alternatives.set(k, row);
        self.proposals.insert(id, updated);
        proof {
            let t = add_alternatives_step(s, origin, id, num_sub, text).0;
            assert(updated@.alternatives =~= t.proposals[id].alternatives);
            assert(self@.proposals =~= t.proposals);
            assert(self@ =~= t);
        }
        Ok(())
    }

    /// Member `origin` of proposal `id`, which is in progress, casts `vote`:
    /// one row per subject, and
    /// as many entries in all as the subjects have alternatives in all. A
    /// member's first ballot is kept; a later one is accepted and changes nothing.
    pub fn vote(&mut self, origin: Origin, id: u32, vote: Vec<Vec<u32>>) -> (r: DispatchResult)
        requires
            old(self).inv(),
            ballot_fits(old(self)@, nested(vote@)),
        ensures
            final(self).inv(),
            final(self)@ == vote_step(old(self)@, origin, id, nested(vote@)).0,
            r == vote_step(old(self)@, origin, id, nested(vote@)).1,
    {
        let ghost s = self@;
        let ghost ballot = nested(vote@);
        proof {
            lemma_vote_valid(s, origin, id, ballot);
        }
        let who = match ensure_signed(origin) {
            Ok(w) => w,
            Err(e) => return Err(e),
        };
        if !self.registered_voters.contains_key(&who) {
            return Err(DispatchError::Module(Error::NotRegistered));
        }
        let proposal = match self.proposals.get(&id) {
            Some(p) => p,
            None => return Err(DispatchError::Module(Error::ProposalNotExist)),
        };
        if !contains_account(&proposal.who, who) {
            return Err(DispatchError::Module(Error::NotInTheQuorum));
        }
        match proposal.progress {
            ProposalStatus::Inprogress => {},
            _ => return Err(DispatchError::Module(Error::ProposalFinished)),
        }
        let n = proposal.subjects.len();
        if n != vote.len() {
            return Err(DispatchError::Module(Error::VoteFailed));
        }
        let ghost alts = s.proposals[id].alternatives;
        proof {
            assert(proposal_valid(s, id, s.proposals[id]));
            assert(alts == nested(proposal.alternatives@));
            assert forall|i: int| 0 <= i < n implies #[trigger] ballot[i].len() <= s.max_votes by {
                assert(ballot[i] == vote@[i]@);
            }
            lemma_lens_sum_bound(alts, n as nat, s.max_subjects as nat);
            lemma_lens_sum_bound(ballot, n as nat, s.max_votes as nat);
        }
        let mut nb_alt: u64 = 0;
        let mut nb_vote: u64 = 0;
        let mut i: usize = 0;
        while i < n
            invariant
                n == proposal.subjects@.len(),
                n == proposal.alternatives@.len(),
                n == vote@.len(),
                n <= s.max_subjects,
                n <= s.max_votes,
                alts == nested(proposal.alternatives@),
                ballot == nested(vote@),
                forall|j: int| 0 <= j < n ==> #[trigger] alts[j].len() <= s.max_subjects,
                forall|j: int| 0 <= j < n ==> #[trigger] ballot[j].len() <= s.max_votes,
                0 <= i <= n,
                nb_alt == lens_sum(alts, i as nat),
                nb_vote == lens_sum(ballot, i as nat),
            decreases n - i,
        {
            proof {
                lemma_lens_sum_bound(alts, (i + 1) as nat, s.max_subjects as nat);
                lemma_lens_sum_bound(ballot, (i + 1) as nat, s.max_votes as nat);
                let m = (i + 1) as nat;
                let a = s.max_subjects as nat;
                let b = s.max_votes as nat;
                assert(m * a <= 0xffff_ffff * 0xffff_ffff) by (nonlinear_arith)
                    requires
                        m <= a,
                        a <= 0xffff_ffff,
                ;
                assert(m * b <= 0xffff_ffff * 0xffff_ffff) by (nonlinear_arith)
                    requires
                        m <= b,
                        b <= 0xffff_ffff,
                ;
                assert(alts[i as int] == proposal.alternatives@[i as int]@);
                assert(ballot[i as int] == vote@[i as int]@);
            }
            nb_alt = nb_alt + proposal.alternatives[i].len() as u64;
            nb_vote = nb_vote + vote[i].len() as u64;
            i = i + 1;
        }
        if nb_alt != nb_vote {
            return Err(DispatchError::Module(Error::VoteFailed));
        }
        if self.vote_by_quorum.contains_key(&(id, who)) {
            return Ok(());
        }
        self.vote_by_quorum.insert((id, who), vote);
        proof {
            let t = vote_step(s, origin, id, ballot).0;
            assert(self@.vote_by_quorum =~= t.vote_by_quorum);
            assert(self@ =~= t);
        }
        Ok(())
    }

    /// `Some(())` where `who` is a registered voter.
    pub fn registered_voters(&self, who: AccountId) -> (r: Option<()>)
        requires
            self.inv(),
        ensures
            r == (if self@.registered_voters.contains(who) {
                Some(())
            } else {
                None::<()>
            }),
    {
        if self.registered_voters.contains_key(&who) {
            Some(())
        } else {
            None
        }
    }

    /// The proposal with id `id`, if there is one.
    pub fn proposals(&self, id: u32) -> (r: Option<Proposal>)
        requires
            self.inv(),
        ensures
            match r {
                Some(p) => self@.proposals.contains_key(id) && p@ == self@.proposals[id],
                None => !self@.proposals.contains_key(id),
            },
    {
        match self.proposals.get(&id) {
            Some(p) => Some(copy_proposal(p)),
            None => None,
        }
    }

    /// The id of the last proposal created, if any was.
    pub fn id_proposal(&self) -> (r: Option<u32>)
        ensures
            r == self@.id_proposal,
    {
        self.id_proposal
    }

    /// `Some(1)` once member `key.1` of proposal `key.0` has approved `key.2`.
    pub fn numer_quorum(&self, key: (u32, AccountId, AccountId)) -> (r: Option<u32>)
        requires
            self.inv(),
        ensures
            r == self@.status_voted_new_voter.get(key),
    {
        match self.status_voted_new_voter.get(&key) {
            Some(x) => Some(*x),
            None => None,
        }
    }

    /// How many members of proposal `key.0` have approved `key.1`, if any has.
    pub fn numer_quorum_total(&self, key: (u32, AccountId)) -> (r: Option<u32>)
        requires
            self.inv(),
        ensures
            r == self@.number_quorum_for_new_voter.get(key),
    {
        match self.number_quorum_for_new_voter.get(&key) {
            Some(x) => Some(*x),
            None => None,
        }
    }

    /// The ballot that member `key.1` cast on proposal `key.0`, if any.
    pub fn vote_byid_byquorum(&self, key: (u32, AccountId)) -> (r: Option<Vec<Vec<u32>>>)
        requires
            self.inv(),
        ensures
            match r {
                Some(b) => self@.vote_by_quorum.contains_key(key) && nested(b@) == self@.vote_by_quorum[key],
                None => !self@.vote_by_quorum.contains_key(key),
            },
    {
        match self.vote_by_quorum.get(&key) {
            Some(b) => Some(copy_nested(b)),
            None => None,
        }
    }

    /// The events deposited so far, oldest first.
    pub fn events(&self) -> (r: Vec<Event>)
        ensures
            r@ == self@.events,
    {
        copy_vec(&self.events)
    }

    /// The limits the pallet was configured with.
    pub fn config(&self) -> (r: Config)
        ensures
            r.max_votes == self@.max_votes,
            r.max_subjects == self@.max_subjects,
    {
        self.config
    }
}

} // verus!
