use crate::error::VotingError;
use crate::roster::VoterEntry;
use crate::totals::total;
use solana_program::pubkey::Pubkey;
use vstd::prelude::*;

verus! {

/// The model of one ballot.
pub struct BallotView {
    /// The identifier under which the registry holds the ballot.
    pub id: nat,
    pub title: Seq<char>,
    /// The options in the order given at creation; a text may occur twice.
    pub options: Seq<Seq<char>>,
    /// Votes counted per option text; a text has an entry from its first vote on.
    pub tally: Map<Seq<char>, nat>,
    pub creator: Pubkey,
    /// The enrolled identities with their remaining allowance.
    pub roster: Map<Pubkey, VoterEntry>,
    /// Whether only enrolled identities may read the results.
    pub results_restricted: bool,
    pub is_open: bool,
}

/// The record of an identity that has just been enrolled.
pub open spec fn fresh_entry() -> VoterEntry {
    VoterEntry { remaining: 1, delegate: None }
}

/// The record that stands for an identity which receives a casting right
/// without being on the roster.
pub open spec fn blank_entry() -> VoterEntry {
    VoterEntry { remaining: 0, delegate: None }
}

impl BallotView {
    /// The ballot as the registry creates it: open, nobody enrolled, no vote counted.
    pub open spec fn created(
        id: nat,
        title: Seq<char>,
        options: Seq<Seq<char>>,
        results_restricted: bool,
        creator: Pubkey,
    ) -> BallotView {
        BallotView {
            id,
            title,
            options,
            tally: Map::empty(),
            creator,
            roster: Map::empty(),
            results_restricted,
            is_open: true,
        }
    }

    /// Roster and tally are finite, every counted text is one of the options,
    /// and a text is counted only once a vote was cast for it.
    pub open spec fn wf(self) -> bool {
        &&& self.roster.dom().finite()
        &&& self.tally.dom().finite()
        &&& forall|text: Seq<char>| #[trigger]
            self.tally.contains_key(text) ==> self.options.contains(text) && self.tally[text] > 0
    }

    pub open spec fn is_enrolled(self, voter: Pubkey) -> bool {
        self.roster.contains_key(voter)
    }

    /// The casting rights that `voter` holds; none for an identity off the roster.
    pub open spec fn allowance(self, voter: Pubkey) -> nat {
        if self.roster.contains_key(voter) {
            self.roster[voter].remaining
        } else {
            0
        }
    }

    /// The votes counted for the option text `text`.
    pub open spec fn count(self, text: Seq<char>) -> nat {
        if self.tally.contains_key(text) {
            self.tally[text]
        } else {
            0
        }
    }

    /// All casting rights still held on the roster.
    pub open spec fn allowance_held(self) -> nat {
        total(self.roster, |entry: VoterEntry| entry.remaining)
    }

    /// All votes counted so far.
    pub open spec fn votes_cast(self) -> nat {
        total(self.tally, |count: nat| count)
    }

    /// Casting rights held and votes cast together: what enrollment has handed
    /// out and revocation has not taken back.
    pub open spec fn units(self) -> nat {
        self.allowance_held() + self.votes_cast()
    }

    /// Why `caller` may not enroll anybody.
    pub open spec fn enroll_refusal(self, caller: Pubkey) -> Option<VotingError> {
        if caller != self.creator {
            Some(VotingError::NotCreator)
        } else if !self.is_open {
            Some(VotingError::BallotClosed)
        } else {
            None
        }
    }

    /// The ballot once `voter` is enrolled: one casting right, no delegate,
    /// whatever the identity held before.
    pub open spec fn enrolled(self, voter: Pubkey) -> BallotView {
        BallotView { roster: self.roster.insert(voter, fresh_entry()), ..self }
    }

    /// Why `caller` may not take `voter` off the roster.
    pub open spec fn revoke_refusal(self, voter: Pubkey, caller: Pubkey) -> Option<VotingError> {
        if caller != self.creator {
            Some(VotingError::NotCreator)
        } else if !self.is_open {
            Some(VotingError::BallotClosed)
        } else if !self.roster.contains_key(voter) {
            Some(VotingError::VoterNotFound)
        } else {
            None
        }
    }

    /// The ballot once `voter` is off the roster; the allowance goes with the record.
    pub open spec fn revoked(self, voter: Pubkey) -> BallotView {
        BallotView { roster: self.roster.remove(voter), ..self }
    }

    /// Why `voter` may not vote for the option at `option_index`.
    pub open spec fn vote_refusal(self, voter: Pubkey, option_index: int) -> Option<VotingError> {
        if !self.roster.contains_key(voter) {
            Some(VotingError::VoterNotAllowed)
        } else if !self.is_open {
            Some(VotingError::BallotClosed)
        } else if self.roster[voter].remaining == 0 {
            Some(VotingError::NoAllowanceLeft)
        } else if !(0 <= option_index < self.options.len()) {
            Some(VotingError::OptionIndexOutOfRange)
        } else {
            None
        }
    }

    /// The ballot once `voter` has voted for the option at `option_index`: the
    /// text found there counts one vote more, the voter holds one right less.
    pub open spec fn voted(self, voter: Pubkey, option_index: int) -> BallotView {
        let text = self.options[option_index];
        let entry = self.roster[voter];
        BallotView {
            tally: self.tally.insert(text, self.count(text) + 1),
            roster: self.roster.insert(
                voter,
                VoterEntry { remaining: (entry.remaining - 1) as nat, ..entry },
            ),
            ..self
        }
    }

    /// Why `delegator` may not hand a casting right on.
    pub open spec fn delegate_refusal(self, delegator: Pubkey) -> Option<VotingError> {
        if !self.roster.contains_key(delegator) {
            Some(VotingError::VoterNotAllowed)
        } else if !self.is_open {
            Some(VotingError::BallotClosed)
        } else if self.roster[delegator].remaining == 0 {
            Some(VotingError::NoAllowanceLeft)
        } else {
            None
        }
    }

    /// The roster once `delegator` has given up one right and names `delegate`.
    pub open spec fn roster_after_giving(self, delegate: Pubkey, delegator: Pubkey) -> Map<
        Pubkey,
        VoterEntry,
    > {
        self.roster.insert(
            delegator,
            VoterEntry {
                remaining: (self.roster[delegator].remaining - 1) as nat,
                delegate: Some(delegate),
            },
        )
    }

    /// The ballot once `delegator` has handed one casting right to `delegate`.
    /// The delegator gives first; then the delegate, enrolled or not, receives.
    pub open spec fn delegated(self, delegate: Pubkey, delegator: Pubkey) -> BallotView {
        let given = self.roster_after_giving(delegate, delegator);
        let target = if given.contains_key(delegate) {
            given[delegate]
        } else {
            blank_entry()
        };
        BallotView {
            roster: given.insert(delegate, VoterEntry { remaining: target.remaining + 1, ..target }),
            ..self
        }
    }

    /// Why `caller` may not close the ballot.
    pub open spec fn close_refusal(self, caller: Pubkey) -> Option<VotingError> {
        if caller != self.creator {
            Some(VotingError::NotCreator)
        } else {
            None
        }
    }

    /// The ballot once closed.
    pub open spec fn closed(self) -> BallotView {
        BallotView { is_open: false, ..self }
    }

    /// Why `caller` may not read the results.
    pub open spec fn read_refusal(self, caller: Pubkey) -> Option<VotingError> {
        if self.results_restricted && !self.roster.contains_key(caller) {
            Some(VotingError::VoterNotAllowed)
        } else {
            None
        }
    }
}

} // verus!
