use pallet_voting::pallet::Pallet;
use pallet_voting::types::{
    Alternative, Config, DispatchError, Error, Event, Origin, Proposal, ProposalStatus, Subject,
    H256,
};

/// The BLAKE2b-256 hash of the SCALE encoding of a short string.
fn hash_of(text: &str) -> H256 {
    assert!(text.len() < 64);
    let mut data = vec![(text.len() as u8) << 2];
    data.extend_from_slice(text.as_bytes());
    sp_crypto_hashing::blake2_256(&data)
}

fn new_test_ext() -> Pallet {
    Pallet::new(Config { max_votes: 100, max_subjects: 100 })
}

fn refused(e: Error) -> Result<(), DispatchError> {
    Err(DispatchError::Module(e))
}

#[test]
fn test_register_voter() {
    let mut voting = new_test_ext();
    assert_eq!(voting.register_voter(Origin::Root, 1), Ok(()));
    assert_eq!(voting.registered_voters(1), Some(()));
}

#[test]
fn create_proposal_() {
    let mut voting = new_test_ext();
    assert_eq!(voting.register_voter(Origin::Root, 1), Ok(()));
    assert_eq!(voting.register_voter(Origin::Root, 2), Ok(()));

    let text = "hello";
    let hash_text = hash_of(text);

    assert_eq!(voting.create_proposal(Origin::Signed(1), hash_text), Ok(()));
    let expected_proposal = Proposal {
        text: hash_text,
        id: 1,
        progress: ProposalStatus::Inprogress,
        percentage_quorum: 50,
        who: vec![1],
        subjects: Vec::new(),
        alternatives: Vec::new(),
    };
    assert_eq!(voting.proposals(1).unwrap(), expected_proposal);
}

#[test]
fn add_subject() {
    let mut voting = new_test_ext();
    assert_eq!(voting.register_voter(Origin::Root, 1), Ok(()));
    assert_eq!(voting.register_voter(Origin::Root, 2), Ok(()));

    let text = "hello";
    let hash_text = hash_of(text);
    assert_eq!(voting.create_proposal(Origin::Signed(1), hash_text), Ok(()));
    assert_eq!(
        voting.events().last().copied(),
        Some(Event::NewProposal { text: hash_text, author: 1, id: 1 })
    );

    let sub = "sub1";
    let sub_hash = hash_of(sub);
    assert_eq!(voting.add_subject(Origin::Signed(1), 1, sub_hash), Ok(()));

    let expected_proposal = Proposal {
        text: hash_text,
        id: 1,
        progress: ProposalStatus::Inprogress,
        percentage_quorum: 50,
        who: vec![1],
        subjects: vec![Subject { text: sub_hash }],
        alternatives: vec![Vec::new()],
    };
    assert_eq!(voting.proposals(1).unwrap(), expected_proposal);
}

#[test]
fn add_alternatives() {
    let mut voting = new_test_ext();
    assert_eq!(voting.register_voter(Origin::Root, 1), Ok(()));
    assert_eq!(voting.register_voter(Origin::Root, 2), Ok(()));

    let text = "hello";
    let hash_text = hash_of(text);
    assert_eq!(voting.create_proposal(Origin::Signed(1), hash_text), Ok(()));
    assert_eq!(
        voting.events().last().copied(),
        Some(Event::NewProposal { text: hash_text, author: 1, id: 1 })
    );

    let sub = "sub1";
    let sub_hash = hash_of(sub);
    assert_eq!(voting.add_subject(Origin::Signed(1), 1, sub_hash), Ok(()));

    let alt = "prop1";
    let alt_hash = hash_of(alt);
    assert_eq!(voting.add_alternatives(Origin::Signed(1), 1, 0, alt_hash), Ok(()));

    let expected_proposal = Proposal {
        text: hash_text,
        id: 1,
        progress: ProposalStatus::Inprogress,
        percentage_quorum: 50,
        who: vec![1],
        subjects: vec![Subject { text: sub_hash }],
        alternatives: vec![vec![Alternative { text: alt_hash }]],
    };
    assert_eq!(voting.proposals(1).unwrap(), expected_proposal);
}

#[test]
fn hash_of_hello_is_blake2_of_its_encoding() {
    let h = hash_of("hello");
    assert_eq!(h[0..4], [0x86, 0x76, 0xa2, 0xcd]);
}

#[test]
fn register_voter_needs_root() {
    let mut voting = new_test_ext();
    assert_eq!(voting.register_voter(Origin::Signed(1), 2), Err(DispatchError::BadOrigin));
    assert_eq!(voting.register_voter(Origin::Unsigned, 2), Err(DispatchError::BadOrigin));
    assert_eq!(voting.registered_voters(2), None);
    assert!(voting.events().is_empty());
}

#[test]
fn register_voter_twice_keeps_one_registration() {
    let mut voting = new_test_ext();
    assert_eq!(voting.register_voter(Origin::Root, 7), Ok(()));
    assert_eq!(voting.register_voter(Origin::Root, 7), Ok(()));
    assert_eq!(voting.registered_voters(7), Some(()));
    assert_eq!(
        voting.events(),
        vec![Event::NewVoter { who: 7 }, Event::NewVoter { who: 7 }]
    );
}

#[test]
fn create_proposal_refusals() {
    let mut voting = new_test_ext();
    let h = hash_of("hello");
    assert_eq!(voting.create_proposal(Origin::Root, h), Err(DispatchError::BadOrigin));
    assert_eq!(voting.create_proposal(Origin::Unsigned, h), Err(DispatchError::BadOrigin));
    assert_eq!(voting.create_proposal(Origin::Signed(1), h), refused(Error::NotRegistered));
    assert_eq!(voting.id_proposal(), None);
    assert!(voting.proposals(1).is_none());
}

#[test]
fn proposal_ids_count_up_from_one() {
    let mut voting = new_test_ext();
    assert_eq!(voting.register_voter(Origin::Root, 1), Ok(()));
    assert_eq!(voting.register_voter(Origin::Root, 2), Ok(()));
    assert_eq!(voting.create_proposal(Origin::Signed(1), hash_of("a")), Ok(()));
    assert_eq!(voting.id_proposal(), Some(1));
    assert_eq!(voting.create_proposal(Origin::Signed(2), hash_of("b")), Ok(()));
    assert_eq!(voting.id_proposal(), Some(2));
    assert_eq!(voting.proposals(1).unwrap().who, vec![1]);
    assert_eq!(voting.proposals(2).unwrap().who, vec![2]);
    assert_eq!(voting.proposals(2).unwrap().text, hash_of("b"));
    assert_eq!(voting.proposals(2).unwrap().id, 2);
    assert!(voting.proposals(3).is_none());
}

#[test]
fn create_proposal_without_room_for_members_changes_nothing() {
    let mut voting = Pallet::new(Config { max_votes: 0, max_subjects: 5 });
    assert_eq!(voting.register_voter(Origin::Root, 1), Ok(()));
    assert_eq!(voting.create_proposal(Origin::Signed(1), hash_of("a")), refused(Error::OutBounded));
    assert_eq!(voting.id_proposal(), None);
    assert!(voting.proposals(1).is_none());
    assert_eq!(voting.events(), vec![Event::NewVoter { who: 1 }]);
}

fn with_proposal(config: Config, voters: &[u64]) -> Pallet {
    let mut voting = Pallet::new(config);
    for v in voters {
        assert_eq!(voting.register_voter(Origin::Root, *v), Ok(()));
    }
    assert_eq!(voting.create_proposal(Origin::Signed(voters[0]), hash_of("hello")), Ok(()));
    voting
}

#[test]
fn quorum_admits_on_more_than_half() {
    let mut voting = with_proposal(Config { max_votes: 100, max_subjects: 100 }, &[1, 2, 3, 4]);
    // one member of one: 100 > 50 + 1
    assert_eq!(voting.quorum_add_voters(Origin::Signed(1), 1, 2), Ok(()));
    assert_eq!(voting.proposals(1).unwrap().who, vec![1, 2]);
    assert_eq!(voting.numer_quorum((1, 1, 2)), Some(1));
    assert_eq!(voting.numer_quorum_total((1, 2)), Some(1));
    // one member of two: 100 > 101 fails
    assert_eq!(voting.quorum_add_voters(Origin::Signed(1), 1, 3), Ok(()));
    assert_eq!(voting.proposals(1).unwrap().who, vec![1, 2]);
    assert_eq!(voting.numer_quorum_total((1, 3)), Some(1));
    // two members of two: 200 > 101
    assert_eq!(voting.quorum_add_voters(Origin::Signed(2), 1, 3), Ok(()));
    assert_eq!(voting.proposals(1).unwrap().who, vec![1, 2, 3]);
    assert_eq!(voting.numer_quorum_total((1, 3)), Some(2));
    assert_eq!(voting.numer_quorum((1, 2, 3)), Some(1));
    // a member cannot be approved again
    assert_eq!(voting.quorum_add_voters(Origin::Signed(3), 1, 2), refused(Error::EverInTheProposal));
}

#[test]
fn approving_twice_counts_once() {
    let mut voting = with_proposal(Config { max_votes: 100, max_subjects: 100 }, &[1, 2, 3, 4]);
    assert_eq!(voting.quorum_add_voters(Origin::Signed(1), 1, 2), Ok(()));
    assert_eq!(voting.quorum_add_voters(Origin::Signed(1), 1, 4), Ok(()));
    assert_eq!(voting.quorum_add_voters(Origin::Signed(1), 1, 4), Ok(()));
    assert_eq!(voting.numer_quorum_total((1, 4)), Some(1));
    assert_eq!(voting.proposals(1).unwrap().who, vec![1, 2]);
    assert_eq!(voting.numer_quorum((1, 2, 4)), None);
}

#[test]
fn quorum_add_voters_refusals() {
    let mut voting = with_proposal(Config { max_votes: 100, max_subjects: 100 }, &[1, 2]);
    assert_eq!(voting.quorum_add_voters(Origin::Root, 1, 2), Err(DispatchError::BadOrigin));
    assert_eq!(voting.quorum_add_voters(Origin::Signed(9), 1, 2), refused(Error::NotRegistered));
    assert_eq!(voting.quorum_add_voters(Origin::Signed(1), 5, 2), refused(Error::ProposalNotExist));
    assert_eq!(voting.quorum_add_voters(Origin::Signed(2), 1, 2), refused(Error::NotInTheQuorum));
    assert_eq!(voting.quorum_add_voters(Origin::Signed(1), 1, 1), refused(Error::EverInTheProposal));
    assert_eq!(voting.numer_quorum_total((1, 2)), None);
}

#[test]
fn quorum_reached_without_room_changes_nothing() {
    let mut voting = with_proposal(Config { max_votes: 1, max_subjects: 100 }, &[1, 2]);
    assert_eq!(voting.quorum_add_voters(Origin::Signed(1), 1, 2), refused(Error::OutBounded));
    assert_eq!(voting.numer_quorum((1, 1, 2)), None);
    assert_eq!(voting.numer_quorum_total((1, 2)), None);
    assert_eq!(voting.proposals(1).unwrap().who, vec![1]);
}

#[test]
fn subjects_and_alternatives_refusals() {
    let mut voting = with_proposal(Config { max_votes: 100, max_subjects: 1 }, &[1, 2]);
    let h = hash_of("sub1");
    assert_eq!(voting.add_subject(Origin::Unsigned, 1, h), Err(DispatchError::BadOrigin));
    assert_eq!(voting.add_subject(Origin::Signed(3), 1, h), refused(Error::NotRegistered));
    assert_eq!(voting.add_subject(Origin::Signed(1), 2, h), refused(Error::ProposalNotExist));
    assert_eq!(voting.add_subject(Origin::Signed(2), 1, h), refused(Error::NotInTheQuorum));
    assert_eq!(voting.add_alternatives(Origin::Signed(1), 1, 0, h), refused(Error::NotInTheQuorum));
    assert_eq!(voting.add_subject(Origin::Signed(1), 1, h), Ok(()));
    assert_eq!(voting.add_subject(Origin::Signed(1), 1, hash_of("sub2")), refused(Error::OutBounded));
    assert_eq!(voting.add_alternatives(Origin::Signed(1), 1, 1, h), refused(Error::NotInTheQuorum));
    assert_eq!(voting.add_alternatives(Origin::Signed(1), 1, 0, hash_of("a")), Ok(()));
    assert_eq!(voting.add_alternatives(Origin::Signed(1), 1, 0, hash_of("b")), refused(Error::OutBounded));
    let p = voting.proposals(1).unwrap();
    assert_eq!(p.subjects, vec![Subject { text: h }]);
    assert_eq!(p.alternatives, vec![vec![Alternative { text: hash_of("a") }]]);
}

#[test]
fn alternatives_go_to_their_subject() {
    let mut voting = with_proposal(Config { max_votes: 100, max_subjects: 100 }, &[1]);
    assert_eq!(voting.add_subject(Origin::Signed(1), 1, hash_of("s0")), Ok(()));
    assert_eq!(voting.add_subject(Origin::Signed(1), 1, hash_of("s1")), Ok(()));
    assert_eq!(voting.add_alternatives(Origin::Signed(1), 1, 1, hash_of("x")), Ok(()));
    assert_eq!(voting.add_alternatives(Origin::Signed(1), 1, 1, hash_of("y")), Ok(()));
    assert_eq!(voting.add_alternatives(Origin::Signed(1), 1, 0, hash_of("z")), Ok(()));
    let p = voting.proposals(1).unwrap();
    assert_eq!(
        p.alternatives,
        vec![
            vec![Alternative { text: hash_of("z") }],
            vec![Alternative { text: hash_of("x") }, Alternative { text: hash_of("y") }],
        ]
    );
}

#[test]
fn vote_checks_the_ballot_shape_and_keeps_the_first() {
    let mut voting = with_proposal(Config { max_votes: 100, max_subjects: 100 }, &[1, 2]);
    assert_eq!(voting.add_subject(Origin::Signed(1), 1, hash_of("sub1")), Ok(()));
    assert_eq!(voting.add_alternatives(Origin::Signed(1), 1, 0, hash_of("prop1")), Ok(()));
    assert_eq!(voting.vote(Origin::Signed(2), 1, vec![vec![10]]), refused(Error::NotInTheQuorum));
    assert_eq!(voting.vote(Origin::Signed(1), 1, vec![]), refused(Error::VoteFailed));
    assert_eq!(voting.vote(Origin::Signed(1), 1, vec![vec![10, 11]]), refused(Error::VoteFailed));
    assert_eq!(voting.vote_byid_byquorum((1, 1)), None);
    assert_eq!(voting.vote(Origin::Signed(1), 1, vec![vec![10]]), Ok(()));
    assert_eq!(voting.vote_byid_byquorum((1, 1)), Some(vec![vec![10]]));
    assert_eq!(voting.vote(Origin::Signed(1), 1, vec![vec![20]]), Ok(()));
    assert_eq!(voting.vote_byid_byquorum((1, 1)), Some(vec![vec![10]]));
}

#[test]
fn vote_counts_entries_over_all_subjects() {
    let mut voting = with_proposal(Config { max_votes: 100, max_subjects: 100 }, &[1]);
    assert_eq!(voting.add_subject(Origin::Signed(1), 1, hash_of("s0")), Ok(()));
    assert_eq!(voting.add_subject(Origin::Signed(1), 1, hash_of("s1")), Ok(()));
    assert_eq!(voting.add_alternatives(Origin::Signed(1), 1, 0, hash_of("a")), Ok(()));
    assert_eq!(voting.add_alternatives(Origin::Signed(1), 1, 0, hash_of("b")), Ok(()));
    // three entries in all against two alternatives in all
    assert_eq!(voting.vote(Origin::Signed(1), 1, vec![vec![1], vec![2, 3]]), refused(Error::VoteFailed));
    // two entries in all, spread differently from the alternatives
    assert_eq!(voting.vote(Origin::Signed(1), 1, vec![vec![], vec![4, 5]]), Ok(()));
    assert_eq!(voting.vote_byid_byquorum((1, 1)), Some(vec![vec![], vec![4, 5]]));
}

#[test]
fn stop_proposal_finishes_it() {
    let mut voting = with_proposal(Config { max_votes: 100, max_subjects: 100 }, &[1]);
    assert_eq!(voting.add_subject(Origin::Signed(1), 1, hash_of("sub1")), Ok(()));
    assert_eq!(voting.stop_proposal(Origin::Signed(1), 1), Err(DispatchError::BadOrigin));
    assert_eq!(voting.stop_proposal(Origin::Root, 2), refused(Error::ProposalNotExist));
    assert_eq!(voting.stop_proposal(Origin::Root, 1), Ok(()));
    let p = voting.proposals(1).unwrap();
    assert_eq!(p.progress, ProposalStatus::Finished);
    assert_eq!(p.who, vec![1]);
    assert_eq!(p.subjects, vec![Subject { text: hash_of("sub1") }]);
    assert_eq!(voting.events().last().copied(), Some(Event::ProposalFinished { id: 1 }));
}

#[test]
fn failed_calls_change_nothing() {
    let mut voting = with_proposal(Config { max_votes: 100, max_subjects: 100 }, &[1, 2]);
    let before = voting.proposals(1).unwrap();
    let events_before = voting.events();
    assert!(voting.add_subject(Origin::Signed(2), 1, hash_of("s")).is_err());
    assert!(voting.vote(Origin::Signed(1), 1, vec![vec![1]]).is_err());
    assert!(voting.stop_proposal(Origin::Signed(1), 1).is_err());
    assert_eq!(voting.proposals(1).unwrap(), before);
    assert_eq!(voting.events(), events_before);
    assert_eq!(voting.config(), Config { max_votes: 100, max_subjects: 100 });
}

#[test]
fn events_in_order() {
    let mut voting = with_proposal(Config { max_votes: 100, max_subjects: 100 }, &[1, 2]);
    assert_eq!(voting.add_subject(Origin::Signed(1), 1, hash_of("s")), Ok(()));
    assert_eq!(voting.stop_proposal(Origin::Root, 1), Ok(()));
    assert_eq!(
        voting.events(),
        vec![
            Event::NewVoter { who: 1 },
            Event::NewVoter { who: 2 },
            Event::NewProposal { text: hash_of("hello"), author: 1, id: 1 },
            Event::ProposalFinished { id: 1 },
        ]
    );
}

#[test]
fn add_someone() {
    let mut voting = new_test_ext();
    assert_eq!(voting.register_voter(Origin::Root, 1), Ok(()));
    assert_eq!(voting.register_voter(Origin::Root, 2), Ok(()));

    let text = "hello";
    let hash_text = hash_of(text);
    assert_eq!(voting.create_proposal(Origin::Signed(1), hash_text), Ok(()));

    // member 1 admits 2 into the quorum of proposal 1
    assert_eq!(voting.quorum_add_voters(Origin::Signed(1), 1, 2), Ok(()));

    let expected_proposal = Proposal {
        text: hash_text,
        id: 1,
        progress: ProposalStatus::Inprogress,
        percentage_quorum: 50,
        who: vec![1, 2],
        subjects: Vec::new(),
        alternatives: Vec::new(),
    };
    assert_eq!(voting.proposals(1).unwrap(), expected_proposal);
}

#[test]
fn vote() {
    let mut voting = new_test_ext();
    assert_eq!(voting.register_voter(Origin::Root, 1), Ok(()));
    assert_eq!(voting.register_voter(Origin::Root, 2), Ok(()));

    let text = "hello";
    let hash_text = hash_of(text);
    assert_eq!(voting.create_proposal(Origin::Signed(1), hash_text), Ok(()));
    assert_eq!(
        voting.events().last().copied(),
        Some(Event::NewProposal { text: hash_text, author: 1, id: 1 })
    );

    let sub = "sub1";
    let sub_hash = hash_of(sub);
    assert_eq!(voting.add_subject(Origin::Signed(1), 1, sub_hash), Ok(()));

    let prop = "prop1";
    let prop_hash = hash_of(prop);
    assert_eq!(voting.add_alternatives(Origin::Signed(1), 1, 0, prop_hash), Ok(()));

    let expected_proposal = Proposal {
        text: hash_text,
        id: 1,
        progress: ProposalStatus::Inprogress,
        percentage_quorum: 50,
        who: vec![1],
        subjects: vec![Subject { text: sub_hash }],
        alternatives: vec![vec![Alternative { text: prop_hash }]],
    };
    assert_eq!(voting.proposals(1).unwrap(), expected_proposal);
    assert_eq!(voting.quorum_add_voters(Origin::Signed(1), 1, 2), Ok(()));

    assert_eq!(voting.vote(Origin::Signed(1), 1, vec![vec![10]]), Ok(()));

    let vote: Vec<Vec<u32>> = vec![vec![10]];
    assert_eq!(vote, voting.vote_byid_byquorum((1, 1)).unwrap());
}

#[test]
fn change_status_to_stop_vote() {
    let mut voting = new_test_ext();
    assert_eq!(voting.register_voter(Origin::Root, 1), Ok(()));
    assert_eq!(voting.register_voter(Origin::Root, 2), Ok(()));
    assert_eq!(voting.register_voter(Origin::Root, 3), Ok(()));

    assert_eq!(voting.registered_voters(1), Some(()));

    let text = "hello";
    let hash_text = hash_of(text);
    assert_eq!(voting.create_proposal(Origin::Signed(1), hash_text), Ok(()));
    // 1 admits 2; then 1 and 2 admit 3
    assert_eq!(voting.quorum_add_voters(Origin::Signed(1), 1, 2), Ok(()));
    assert_eq!(voting.quorum_add_voters(Origin::Signed(1), 1, 3), Ok(()));
    assert_eq!(voting.quorum_add_voters(Origin::Signed(2), 1, 3), Ok(()));

    // root finishes the proposal
    assert_eq!(voting.stop_proposal(Origin::Root, 1), Ok(()));

    let expected_proposal = Proposal {
        text: hash_text,
        id: 1,
        progress: ProposalStatus::Finished,
        percentage_quorum: 50,
        who: vec![1, 2, 3],
        subjects: Vec::new(),
        alternatives: Vec::new(),
    };
    assert_eq!(voting.proposals(1).unwrap(), expected_proposal);

    let sub = "sub1";
    let sub_hash = hash_of(sub);
    let addsub = voting.add_subject(Origin::Signed(1), 1, sub_hash);
    assert!(addsub.is_err());
    assert_eq!(voting.proposals(1).unwrap(), expected_proposal);
}

#[test]
fn finished_proposal_takes_no_subject_or_ballot() {
    let mut voting = with_proposal(Config { max_votes: 100, max_subjects: 100 }, &[1, 2]);
    assert_eq!(voting.add_subject(Origin::Signed(1), 1, hash_of("sub1")), Ok(()));
    assert_eq!(voting.stop_proposal(Origin::Root, 1), Ok(()));
    let before = voting.proposals(1).unwrap();
    let finished = refused(Error::ProposalFinished);
    assert_eq!(voting.add_subject(Origin::Signed(1), 1, hash_of("sub2")), finished);
    assert_eq!(voting.vote(Origin::Signed(1), 1, vec![vec![]]), finished);
    assert_eq!(voting.proposals(1).unwrap(), before);
    assert_eq!(voting.vote_byid_byquorum((1, 1)), None);
    // a non-member is still told that first
    assert_eq!(voting.add_subject(Origin::Signed(2), 1, hash_of("sub2")), refused(Error::NotInTheQuorum));
}

#[test]
fn finished_proposal_still_takes_members_and_alternatives() {
    let mut voting = with_proposal(Config { max_votes: 100, max_subjects: 100 }, &[1, 2]);
    assert_eq!(voting.add_subject(Origin::Signed(1), 1, hash_of("sub1")), Ok(()));
    assert_eq!(voting.stop_proposal(Origin::Root, 1), Ok(()));
    assert_eq!(voting.quorum_add_voters(Origin::Signed(1), 1, 2), Ok(()));
    assert_eq!(voting.quorum_add_voters(Origin::Signed(1), 1, 2), refused(Error::EverInTheProposal));
    assert_eq!(voting.add_alternatives(Origin::Signed(1), 1, 0, hash_of("a")), Ok(()));
    let p = voting.proposals(1).unwrap();
    assert_eq!(p.progress, ProposalStatus::Finished);
    assert_eq!(p.who, vec![1, 2]);
    assert_eq!(p.alternatives, vec![vec![Alternative { text: hash_of("a") }]]);
}

#[test]
fn full_finished_proposal_answers_out_bounded() {
    let mut voting = with_proposal(Config { max_votes: 100, max_subjects: 1 }, &[1]);
    assert_eq!(voting.add_subject(Origin::Signed(1), 1, hash_of("sub1")), Ok(()));
    assert_eq!(voting.stop_proposal(Origin::Root, 1), Ok(()));
    assert_eq!(voting.add_subject(Origin::Signed(1), 1, hash_of("sub2")), refused(Error::OutBounded));
}
