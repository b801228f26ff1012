//! The values that the voting pallet stores, receives and reports.
use vstd::prelude::*;

verus! {

/// An account of the chain.
pub type AccountId = u64;

/// A 256-bit hash: the pallet keeps only the hash of each text.
pub type H256 = [u8; 32];

/// Who sent a call.
#[derive(Clone, Copy, Debug, PartialEq, Eq)]
pub enum Origin {
    /// The chain's root authority.
    Root,
    /// A call signed by the account.
    Signed(AccountId),
    /// A call that nobody signed (the `None` origin).
    Unsigned,
}

/// The limits that the runtime configures the pallet with.
#[derive(Clone, Copy, Debug, PartialEq, Eq)]
pub struct Config {
    /// How many members a proposal may have, and how long a ballot and each of its rows may be.
    pub max_votes: u32,
    /// How many subjects a proposal may have, and how many alternatives each subject may have.
    pub max_subjects: u32,
}

/// Whether a proposal is still running.
#[derive(Clone, Copy, Debug, PartialEq, Eq)]
pub enum ProposalStatus {
    Inprogress,
    Finished,
}

/// One subject of a proposal.
#[derive(Clone, Copy, Debug, PartialEq, Eq)]
pub struct Subject {
    pub text: H256,
}

/// One alternative offered on a subject of a proposal.
#[derive(Clone, Copy, Debug, PartialEq, Eq)]
pub struct Alternative {
    pub text: H256,
}

/// A proposal: its text, its members (the quorum), its subjects and, for each
/// subject, the alternatives offered on it.
#[derive(Debug, PartialEq, Eq)]
pub struct Proposal {
    /// The hash of the proposal's text.
    pub text: H256,
    /// The proposal's id.
    pub id: u32,
    /// The share of members, in percent, whose approval admits a new member.
    pub percentage_quorum: u32,
    /// Whether the proposal is in progress or finished.
    pub progress: ProposalStatus,
    /// The members of the proposal, in the order they joined.
    pub who: Vec<AccountId>,
    /// The subjects of the proposal.
    pub subjects: Vec<Subject>,
    /// For subject `i`, the alternatives offered on it.
    pub alternatives: Vec<Vec<Alternative>>,
}

/// A proposal as a mathematical value.
pub struct ProposalView {
    pub text: H256,
    pub id: u32,
    pub percentage_quorum: u32,
    pub progress: ProposalStatus,
    pub who: Seq<AccountId>,
    pub subjects: Seq<Subject>,
    pub alternatives: Seq<Seq<Alternative>>,
}

/// The contents of each vector in `v`.
pub open spec fn nested<T>(v: Seq<Vec<T>>) -> Seq<Seq<T>> {
    v.map_values(|x: Vec<T>| x@)
}

impl View for Proposal {
    type V = ProposalView;

    open spec fn view(&self) -> ProposalView {
        ProposalView {
            text: self.text,
            id: self.id,
            percentage_quorum: self.percentage_quorum,
            progress: self.progress,
            who: self.who@,
            subjects: self.subjects@,
            alternatives: nested(self.alternatives@),
        }
    }
}

/// What the pallet reports of a call that succeeded.
#[derive(Clone, Copy, Debug, PartialEq, Eq)]
pub enum Event {
    /// Root has registered `who` as a voter.
    NewVoter { who: AccountId },
    /// `author` has created proposal `id` with the text `text`.
    NewProposal { text: H256, author: AccountId, id: u32 },
    /// Root has finished proposal `id`.
    ProposalFinished { id: u32 },
}

/// Why the pallet refused a call.
#[derive(Clone, Copy, Debug, PartialEq, Eq)]
pub enum Error {
    /// The caller is not a registered voter.
    NotRegistered,
    /// No proposal has that id.
    ProposalNotExist,
    /// The proposal has finished: it takes no further member, subject,
    /// alternative or ballot.
    ProposalFinished,
    /// The caller's balance does not cover the amount.
    NotEnoughBalance,
    /// The caller has voted already.
    UserEverVoted,
    /// A bounded list is full.
    OutBounded,
    /// The account to be added to a proposal is a member already.
    EverInTheProposal,
    /// The caller is not a member of the proposal, or the subject does not exist.
    NotInTheQuorum,
    /// Something went wrong that no other error describes.
    Problem,
    /// The ballot does not have the shape of the proposal.
    VoteFailed,
}

/// An arithmetic operation that has no result in its type.
#[derive(Clone, Copy, Debug, PartialEq, Eq)]
pub enum ArithmeticError {
    Underflow,
    Overflow,
    DivisionByZero,
}

/// Why a call failed.
#[derive(Clone, Copy, Debug, PartialEq, Eq)]
pub enum DispatchError {
    /// The call came from an origin that may not make it.
    BadOrigin,
    /// A counter would leave its type.
    Arithmetic(ArithmeticError),
    /// The pallet refused the call.
    Module(Error),
}

/// The outcome of a call.
pub type DispatchResult = Result<(), DispatchError>;

/// The signer of `origin`, if it is signed.
pub open spec fn signer(origin: Origin) -> Option<AccountId> {
    match origin {
        Origin::Signed(who) => Some(who),
        _ => None,
    }
}

/// The account that signed `origin`, or `BadOrigin` where nobody did.
pub fn ensure_signed(origin: Origin) -> (r: Result<AccountId, DispatchError>)
    ensures
        r == (match signer(origin) {
            Some(who) => Ok::<AccountId, DispatchError>(who),
            None => Err::<AccountId, DispatchError>(DispatchError::BadOrigin),
        }),
{
    match origin {
        Origin::Signed(who) => Ok(who),
        _ => Err(DispatchError::BadOrigin),
    }
}

/// `Ok` where `origin` is root, else `BadOrigin`.
pub fn ensure_root(origin: Origin) -> (r: DispatchResult)
    ensures
        r == (if origin == Origin::Root {
            Ok::<(), DispatchError>(())
        } else {
            Err::<(), DispatchError>(DispatchError::BadOrigin)
        }),
{
    match origin {
        Origin::Root => Ok(()),
        _ => Err(DispatchError::BadOrigin),
    }
}

} // verus!
