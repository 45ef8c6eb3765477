use crate::ballot::{is_reading, texts, Vote};
use crate::error::{outcome, VotingError};
use crate::model::BallotView;
use solana_program::pubkey::Pubkey;
use std::collections::hash_map::Entry;
use std::collections::HashMap;
use vstd::hash_map::StringHashMap;
use vstd::prelude::*;

verus! {

/// The model of the registry.
pub struct RegistryView {
    /// The ballots by identifier.
    pub ballots: Map<nat, BallotView>,
    /// The identifier that the next ballot gets.
    pub next_id: nat,
}

impl RegistryView {
    /// The registry before any ballot was created.
    pub open spec fn empty() -> RegistryView {
        RegistryView { ballots: Map::empty(), next_id: 0 }
    }

    /// The identifiers in use are exactly those below `next_id`, and each
    /// ballot is well formed and knows its own identifier.
    pub open spec fn wf(self) -> bool {
        &&& forall|id: nat| #[trigger] self.ballots.contains_key(id) <==> id < self.next_id
        &&& forall|id: nat| #[trigger]
            self.ballots.contains_key(id) ==> self.ballots[id].wf() && self.ballots[id].id == id
    }

    /// Why nobody out of `accounts` can create a ballot.
    pub open spec fn create_refusal(accounts: Seq<Pubkey>) -> Option<VotingError> {
        if accounts.len() == 0 {
            Some(VotingError::NoCaller)
        } else {
            None
        }
    }

    /// The registry once the first of `accounts` has created a ballot: it
    /// stands under the identifier that was next, and the next one is free.
    pub open spec fn created(
        self,
        title: Seq<char>,
        options: Seq<Seq<char>>,
        results_restricted: bool,
        accounts: Seq<Pubkey>,
    ) -> RegistryView {
        RegistryView {
            ballots: self.ballots.insert(
                self.next_id,
                BallotView::created(self.next_id, title, options, results_restricted, accounts[0]),
            ),
            next_id: self.next_id + 1,
        }
    }

    /// Why a call for the ballot `id` on behalf of the first of `accounts`
    /// does not reach the ballot: there is no such ballot, or else no caller.
    pub open spec fn caller_refusal(self, id: nat, accounts: Seq<Pubkey>) -> Option<VotingError> {
        if !self.ballots.contains_key(id) {
            Some(VotingError::BallotNotFound)
        } else if accounts.len() == 0 {
            Some(VotingError::NoCaller)
        } else {
            None
        }
    }

    /// The registry with `ballot` in place of the ballot `id`.
    pub open spec fn with_ballot(self, id: nat, ballot: BallotView) -> RegistryView {
        RegistryView { ballots: self.ballots.insert(id, ballot), ..self }
    }

    /// Why the first of `accounts` may not vote in the ballot `id`.
    pub open spec fn vote_refusal(self, id: nat, accounts: Seq<Pubkey>, option_index: int) -> Option<
        VotingError,
    > {
        match self.caller_refusal(id, accounts) {
            Some(e) => Some(e),
            None => self.ballots[id].vote_refusal(accounts[0], option_index),
        }
    }

    /// Why the first of `accounts` may not close the ballot `id`.
    pub open spec fn close_refusal(self, id: nat, accounts: Seq<Pubkey>) -> Option<VotingError> {
        match self.caller_refusal(id, accounts) {
            Some(e) => Some(e),
            None => self.ballots[id].close_refusal(accounts[0]),
        }
    }

    /// Why the first of `accounts` may not read the results of the ballot `id`.
    pub open spec fn read_refusal(self, id: nat, accounts: Seq<Pubkey>) -> Option<VotingError> {
        match self.caller_refusal(id, accounts) {
            Some(e) => Some(e),
            None => self.ballots[id].read_refusal(accounts[0]),
        }
    }

    /// Why the first of `accounts` may not enroll anybody in the ballot `id`.
    pub open spec fn enroll_refusal(self, id: nat, accounts: Seq<Pubkey>) -> Option<VotingError> {
        match self.caller_refusal(id, accounts) {
            Some(e) => Some(e),
            None => self.ballots[id].enroll_refusal(accounts[0]),
        }
    }

    /// Why the first of `accounts` may not take `voter` off the roster of the
    /// ballot `id`.
    pub open spec fn revoke_refusal(self, id: nat, voter: Pubkey, accounts: Seq<Pubkey>) -> Option<
        VotingError,
    > {
        match self.caller_refusal(id, accounts) {
            Some(e) => Some(e),
            None => self.ballots[id].revoke_refusal(voter, accounts[0]),
        }
    }

    /// Why the first of `accounts` may not hand on a casting right in the
    /// ballot `id`.
    pub open spec fn delegate_refusal(self, id: nat, accounts: Seq<Pubkey>) -> Option<VotingError> {
        match self.caller_refusal(id, accounts) {
            Some(e) => Some(e),
            None => self.ballots[id].delegate_refusal(accounts[0]),
        }
    }
}

/// The models of the stored ballots.
pub open spec fn ballots_of(stored: Map<u32, Vote>) -> Map<nat, BallotView> {
    Map::new(
        |id: nat| id <= u32::MAX && stored.contains_key(id as u32),
        |id: nat| stored[id as u32]@,
    )
}

/// The registry: every ballot ever created, under identifiers handed out in
/// increasing order from zero on.
pub struct Voting {
    votes: HashMap<u32, Vote>,
    current_id: u32,
}

impl View for Voting {
    type V = RegistryView;

    closed spec fn view(&self) -> RegistryView {
        RegistryView { ballots: ballots_of(self.votes@), next_id: self.current_id as nat }
    }
}

impl Voting {
    /// Every stored ballot is well formed, and so is the model.
    pub closed spec fn wf(&self) -> bool {
        &&& forall|id: u32| #[trigger] self.votes@.contains_key(id) ==> self.votes@[id].wf()
        &&& self@.wf()
    }

    /// A well-formed registry has a well-formed model.
    pub proof fn lemma_wf(&self)
        requires
            self.wf(),
        ensures
            self@.wf(),
            self@.next_id <= u32::MAX,
    {
    }

    /// A registry without ballots.
    pub fn new() -> (registry: Voting)
        ensures
            registry.wf(),
            registry@ == RegistryView::empty(),
    {
        let registry = Voting { votes: HashMap::new(), current_id: 0 };
        assert(registry@.ballots =~= Map::<nat, BallotView>::empty());
        registry
    }

    /// Creates a ballot for the first of `accounts` and returns its identifier.
    ///
    /// The identifier counter must not be exhausted.
    pub fn create_vote(
        &mut self,
        title: String,
        options: Vec<String>,
        is_close_vote_results: bool,
        accounts: &[Pubkey],
    ) -> (result: Result<u32, VotingError>)
        requires
            old(self).wf(),
            accounts@.len() > 0 ==> old(self)@.next_id < u32::MAX,
        ensures
            final(self).wf(),
            match result {
                Ok(id) => RegistryView::create_refusal(accounts@) is None && id == old(self)@.next_id
                    && final(self)@ == old(self)@.created(
                    title@,
                    texts(options@),
                    is_close_vote_results,
                    accounts@,
                ),
                Err(e) => RegistryView::create_refusal(accounts@) == Some(e) && final(self)@ == old(
                    self,
                )@,
            },
    {
        if accounts.len() == 0 {
            return Err(VotingError::NoCaller);
        }
        let ghost before = *self;
        let id: u32 = self.current_id;
        let vote = Vote::new(id, title, options, is_close_vote_results, accounts[0]);
        self.votes.insert(id, vote);
        self.current_id = id + 1;
        proof {
            let after = before@.created(
                title@,
                texts(options@),
                is_close_vote_results,
                accounts@,
            );
            assert(self@.ballots =~= after.ballots);
        }
        Ok(id)
    }

    /// Records the vote of the first of `accounts` in the ballot `vote_id`.
    ///
    /// The count of the chosen option's text must have room for one vote more.
    pub fn vote(&mut self, vote_id: u32, accounts: &[Pubkey], option_index: usize) -> (result:
        Result<(), VotingError>)
        requires
            old(self).wf(),
            old(self)@.vote_refusal(vote_id as nat, accounts@, option_index as int) is None ==> old(
                self,
            )@.ballots[vote_id as nat].count(old(self)@.ballots[vote_id as nat].options[option_index as int])
                < u32::MAX,
        ensures
            final(self).wf(),
            result == outcome(old(self)@.vote_refusal(vote_id as nat, accounts@, option_index as int)),
            final(self)@ == (if result is Ok {
                old(self)@.with_ballot(
                    vote_id as nat,
                    old(self)@.ballots[vote_id as nat].voted(accounts@[0], option_index as int),
                )
            } else {
                old(self)@
            }),
    {
        let ghost before = *self;
        let result = match self.votes.entry(vote_id) {
            Entry::Occupied(occupied) => {
                let ballot = occupied.into_mut();
                if accounts.len() == 0 {
                    Err(VotingError::NoCaller)
                } else {
                    ballot.vote(&accounts[0], option_index)
                }
            },
            Entry::Vacant(_) => Err(VotingError::BallotNotFound),
        };
        proof {
            if result is Ok {
                assert(self@.ballots =~= before@.with_ballot(
                    vote_id as nat,
                    before@.ballots[vote_id as nat].voted(accounts@[0], option_index as int),
                ).ballots);
            } else {
                assert(self@.ballots =~= before@.ballots);
            }
        }
        result
    }

    /// Whether [`Voting::vote`] may be called with these arguments: the call
    /// would be refused, or the count it adds to has room for one vote more.
    pub fn has_room_for_vote(&self, vote_id: u32, accounts: &[Pubkey], option_index: usize) -> (room:
        bool)
        requires
            self.wf(),
        ensures
            room == (self@.vote_refusal(vote_id as nat, accounts@, option_index as int) is None
                ==> self@.ballots[vote_id as nat].count(
                self@.ballots[vote_id as nat].options[option_index as int],
            ) < u32::MAX),
    {
        match self.votes.get(&vote_id) {
            Some(ballot) => accounts.len() == 0 || ballot.has_room_for_vote(
                &accounts[0],
                option_index,
            ),
            None => true,
        }
    }

    /// Whether [`Voting::delegate_vote`] may be called with these arguments:
    /// the call would be refused, or the delegate's allowance has room for the
    /// right received.
    pub fn has_room_for_delegation(&self, vote_id: u32, delegate: &Pubkey, accounts: &[Pubkey]) -> (room:
        bool)
        requires
            self.wf(),
        ensures
            room == (self@.delegate_refusal(vote_id as nat, accounts@) is None
                ==> self@.ballots[vote_id as nat].delegated(*delegate, accounts@[0]).allowance(*delegate)
                <= u32::MAX),
    {
        match self.votes.get(&vote_id) {
            Some(ballot) => accounts.len() == 0 || ballot.has_room_for_delegation(
                delegate,
                &accounts[0],
            ),
            None => true,
        }
    }

    /// Closes the ballot `vote_id` on behalf of the first of `accounts`, who
    /// must be its creator.
    pub fn close_vote(&mut self, vote_id: u32, accounts: &[Pubkey]) -> (result: Result<
        (),
        VotingError,
    >)
        requires
            old(self).wf(),
        ensures
            final(self).wf(),
            result == outcome(old(self)@.close_refusal(vote_id as nat, accounts@)),
            final(self)@ == (if result is Ok {
                old(self)@.with_ballot(vote_id as nat, old(self)@.ballots[vote_id as nat].closed())
            } else {
                old(self)@
            }),
    {
        let ghost before = *self;
        let result = match self.votes.entry(vote_id) {
            Entry::Occupied(occupied) => {
                let ballot = occupied.into_mut();
                if accounts.len() == 0 {
                    Err(VotingError::NoCaller)
                } else {
                    ballot.close_vote(&accounts[0])
                }
            },
            Entry::Vacant(_) => Err(VotingError::BallotNotFound),
        };
        proof {
            if result is Ok {
                assert(self@.ballots =~= before@.with_ballot(
                    vote_id as nat,
                    before@.ballots[vote_id as nat].closed(),
                ).ballots);
            } else {
                assert(self@.ballots =~= before@.ballots);
            }
        }
        result
    }

    /// A copy of the tally of the ballot `vote_id`, for the first of
    /// `accounts` to keep.
    pub fn get_results(&self, vote_id: u32, accounts: &[Pubkey]) -> (result: Result<
        StringHashMap<u32>,
        VotingError,
    >)
        requires
            self.wf(),
        ensures
            match self@.caller_refusal(vote_id as nat, accounts@) {
                Some(e) => result == Err::<StringHashMap<u32>, VotingError>(e),
                None => is_reading(self@.ballots[vote_id as nat], accounts@[0], result),
            },
    {
        match self.votes.get(&vote_id) {
            Some(ballot) => {
                if accounts.len() == 0 {
                    Err(VotingError::NoCaller)
                } else {
                    ballot.get_results(&accounts[0])
                }
            },
            None => Err(VotingError::BallotNotFound),
        }
    }

    /// Enrolls `voter` in the ballot `vote_id` on behalf of the first of
    /// `accounts`, who must be its creator.
    pub fn add_allowed_voter(&mut self, vote_id: u32, voter: Pubkey, accounts: &[Pubkey]) -> (result:
        Result<(), VotingError>)
        requires
            old(self).wf(),
        ensures
            final(self).wf(),
            result == outcome(old(self)@.enroll_refusal(vote_id as nat, accounts@)),
            final(self)@ == (if result is Ok {
                old(self)@.with_ballot(vote_id as nat, old(self)@.ballots[vote_id as nat].enrolled(voter))
            } else {
                old(self)@
            }),
    {
        let ghost before = *self;
        let result = match self.votes.entry(vote_id) {
            Entry::Occupied(occupied) => {
                let ballot = occupied.into_mut();
                if accounts.len() == 0 {
                    Err(VotingError::NoCaller)
                } else {
                    ballot.add_allowed_voter(voter, &accounts[0])
                }
            },
            Entry::Vacant(_) => Err(VotingError::BallotNotFound),
        };
        proof {
            if result is Ok {
                assert(self@.ballots =~= before@.with_ballot(
                    vote_id as nat,
                    before@.ballots[vote_id as nat].enrolled(voter),
                ).ballots);
            } else {
                assert(self@.ballots =~= before@.ballots);
            }
        }
        result
    }

    /// Takes `voter` off the roster of the ballot `vote_id` on behalf of the
    /// first of `accounts`, who must be its creator.
    pub fn remove_allowed_voter(&mut self, vote_id: u32, voter: &Pubkey, accounts: &[Pubkey]) -> (result:
        Result<(), VotingError>)
        requires
            old(self).wf(),
        ensures
            final(self).wf(),
            result == outcome(old(self)@.revoke_refusal(vote_id as nat, *voter, accounts@)),
            final(self)@ == (if result is Ok {
                old(self)@.with_ballot(vote_id as nat, old(self)@.ballots[vote_id as nat].revoked(*voter))
            } else {
                old(self)@
            }),
    {
        let ghost before = *self;
        let result = match self.votes.entry(vote_id) {
            Entry::Occupied(occupied) => {
                let ballot = occupied.into_mut();
                if accounts.len() == 0 {
                    Err(VotingError::NoCaller)
                } else {
                    ballot.remove_allowed_voter(voter, &accounts[0])
                }
            },
            Entry::Vacant(_) => Err(VotingError::BallotNotFound),
        };
        proof {
            if result is Ok {
                assert(self@.ballots =~= before@.with_ballot(
                    vote_id as nat,
                    before@.ballots[vote_id as nat].revoked(*voter),
                ).ballots);
            } else {
                assert(self@.ballots =~= before@.ballots);
            }
        }
        result
    }

    /// Whether `voter` is enrolled in the ballot `vote_id`. Anybody may ask.
    pub fn is_voter_allowed(&self, vote_id: u32, voter: &Pubkey) -> (result: Result<
        bool,
        VotingError,
    >)
        requires
            self.wf(),
        ensures
            result == (if self@.ballots.contains_key(vote_id as nat) {
                Ok(self@.ballots[vote_id as nat].is_enrolled(*voter))
            } else {
                Err(VotingError::BallotNotFound)
            }),
    {
        match self.votes.get(&vote_id) {
            Some(ballot) => Ok(ballot.is_voter_allowed(voter)),
            None => Err(VotingError::BallotNotFound),
        }
    }

    /// Hands one casting right of the first of `accounts` to `delegate` in the
    /// ballot `vote_id`.
    ///
    /// The delegate's allowance must have room for the right received.
    pub fn delegate_vote(&mut self, vote_id: u32, delegate: &Pubkey, accounts: &[Pubkey]) -> (result:
        Result<(), VotingError>)
        requires
            old(self).wf(),
            old(self)@.delegate_refusal(vote_id as nat, accounts@) is None ==> old(self)@.ballots[vote_id as nat].delegated(
                *delegate,
                accounts@[0],
            ).allowance(*delegate) <= u32::MAX,
        ensures
            final(self).wf(),
            result == outcome(old(self)@.delegate_refusal(vote_id as nat, accounts@)),
            final(self)@ == (if result is Ok {
                old(self)@.with_ballot(
                    vote_id as nat,
                    old(self)@.ballots[vote_id as nat].delegated(*delegate, accounts@[0]),
                )
            } else {
                old(self)@
            }),
    {
        let ghost before = *self;
        let result = match self.votes.entry(vote_id) {
            Entry::Occupied(occupied) => {
                let ballot = occupied.into_mut();
                if accounts.len() == 0 {
                    Err(VotingError::NoCaller)
                } else {
                    ballot.delegate_vote(delegate, &accounts[0])
                }
            },
            Entry::Vacant(_) => Err(VotingError::BallotNotFound),
        };
        proof {
            if result is Ok {
                assert(self@.ballots =~= before@.with_ballot(
                    vote_id as nat,
                    before@.ballots[vote_id as nat].delegated(*delegate, accounts@[0]),
                ).ballots);
            } else {
                assert(self@.ballots =~= before@.ballots);
            }
        }
        result
    }

    /// The options of the ballot `vote_id`, in order. Anybody may ask.
    pub fn get_options(&mut self, vote_id: u32) -> (result: Result<&Vec<String>, VotingError>)
        requires
            old(self).wf(),
        ensures
            final(self).wf(),
            final(self)@ == old(self)@,
            match result {
                Ok(options) => old(self)@.ballots.contains_key(vote_id as nat) && texts(options@) == old(
                    self,
                )@.ballots[vote_id as nat].options,
                Err(e) => !old(self)@.ballots.contains_key(vote_id as nat) && e
                    == VotingError::BallotNotFound,
            },
    {
        match self.votes.get(&vote_id) {
            Some(ballot) => Ok(ballot.get_options()),
            None => Err(VotingError::BallotNotFound),
        }
    }

    /// The ballots themselves, to look at.
    pub fn votes(&self) -> (stored: &HashMap<u32, Vote>)
        requires
            self.wf(),
        ensures
            ballots_of(stored@) == self@.ballots,
            forall|id: u32| #[trigger] stored@.contains_key(id) ==> stored@[id].wf(),
    {
        &self.votes
    }

    /// The identifier that the next ballot gets.
    pub fn current_id(&self) -> (id: u32)
        ensures
            id == self@.next_id,
    {
        self.current_id
    }
}

} // verus!
