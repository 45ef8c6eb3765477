use crate::error::{outcome, VotingError};
use crate::keys::same_key;
use crate::model::BallotView;
use crate::roster::{Roster, VoterEntry, VoterInfo};
use solana_program::pubkey::Pubkey;
use vstd::hash_map::StringHashMap;
use vstd::prelude::*;

verus! {

/// The model of stored counters: the same texts, each count as a natural number.
pub open spec fn counts(stored: Map<Seq<char>, u32>) -> Map<Seq<char>, nat> {
    Map::new(|text: Seq<char>| stored.contains_key(text), |text: Seq<char>| stored[text] as nat)
}

/// The model of stored records: the same identities, each record by its view.
pub open spec fn entries(stored: Map<Pubkey, VoterInfo>) -> Map<Pubkey, VoterEntry> {
    Map::new(|voter: Pubkey| stored.contains_key(voter), |voter: Pubkey| stored[voter]@)
}

/// The texts of a list of options, in order.
pub open spec fn texts(options: Seq<String>) -> Seq<Seq<char>> {
    options.map_values(|option: String| option@)
}

/// Whether `result` is what `caller` gets on asking for the results of
/// `ballot`: the refusal, or a copy of the tally.
pub open spec fn is_reading(
    ballot: BallotView,
    caller: Pubkey,
    result: Result<StringHashMap<u32>, VotingError>,
) -> bool {
    match result {
        Ok(snapshot) => ballot.read_refusal(caller) is None && counts(snapshot@) == ballot.tally,
        Err(e) => ballot.read_refusal(caller) == Some(e),
    }
}

/// One ballot: a title, a fixed list of options, the roster of enrolled
/// identities, the tally, and the two flags.
pub struct Vote {
    id: u32,
    title: String,
    options: Vec<String>,
    votes: StringHashMap<u32>,
    creator: Pubkey,
    allowed_voters: Roster,
    is_close_vote_results: bool,
    is_vote_open: bool,
}

impl View for Vote {
    type V = BallotView;

    closed spec fn view(&self) -> BallotView {
        BallotView {
            id: self.id as nat,
            title: self.title@,
            options: texts(self.options@),
            tally: counts(self.votes@),
            creator: self.creator,
            roster: entries(self.allowed_voters@),
            results_restricted: self.is_close_vote_results,
            is_open: self.is_vote_open,
        }
    }
}

impl Vote {
    /// The roster holds no identity twice, and the model is well formed.
    pub closed spec fn wf(&self) -> bool {
        &&& self.allowed_voters.wf()
        &&& self@.wf()
    }

    /// A well-formed ballot has a well-formed model whose numbers fit in 32 bits.
    pub proof fn lemma_wf(&self)
        requires
            self.wf(),
        ensures
            self@.wf(),
            forall|voter: Pubkey| self@.allowance(voter) <= u32::MAX,
            forall|text: Seq<char>| self@.count(text) <= u32::MAX,
    {
    }

    /// A ballot as its creator sets it up: open, nobody enrolled, no vote counted.
    pub(crate) fn new(
        id: u32,
        title: String,
        options: Vec<String>,
        is_close_vote_results: bool,
        creator: Pubkey,
    ) -> (ballot: Vote)
        ensures
            ballot.wf(),
            ballot@ == BallotView::created(
                id as nat,
                title@,
                texts(options@),
                is_close_vote_results,
                creator,
            ),
    {
        let ballot = Vote {
            id,
            title,
            options,
            votes: StringHashMap::new(),
            creator,
            allowed_voters: Roster::new(),
            is_close_vote_results,
            is_vote_open: true,
        };
        assert(ballot@.tally =~= Map::<Seq<char>, nat>::empty());
        assert(ballot@.roster =~= Map::<Pubkey, VoterEntry>::empty());
        ballot
    }

    /// Records the vote of `voter` for the option at `option_index`.
    ///
    /// The count of that option's text must have room for one vote more.
    pub fn vote(&mut self, voter: &Pubkey, option_index: usize) -> (result: Result<(), VotingError>)
        requires
            old(self).wf(),
            old(self)@.vote_refusal(*voter, option_index as int) is None ==> old(self)@.count(
                old(self)@.options[option_index as int],
            ) < u32::MAX,
        ensures
            final(self).wf(),
            result == outcome(old(self)@.vote_refusal(*voter, option_index as int)),
            final(self)@ == (if result is Ok {
                old(self)@.voted(*voter, option_index as int)
            } else {
                old(self)@
            }),
    {
        let info = match self.allowed_voters.get(voter) {
            Some(info) => info,
            None => {
                return Err(VotingError::VoterNotAllowed);
            },
        };
        if !self.is_vote_open {
            return Err(VotingError::BallotClosed);
        }
        if info.votes_left == 0 {
            return Err(VotingError::NoAllowanceLeft);
        }
        if option_index >= self.options.len() {
            return Err(VotingError::OptionIndexOutOfRange);
        }
        let ghost before = *self;
        let option_key = self.options[option_index].clone();
        let count: u32 = match self.votes.get(option_key.as_str()) {
            Some(count) => *count,
            None => 0,
        };
        self.votes.insert(option_key, count + 1);
        self.allowed_voters.insert(
            *voter,
            VoterInfo { votes_left: info.votes_left - 1, delegate: info.delegate },
        );
        proof {
            let after = before@.voted(*voter, option_index as int);
            assert(self@.tally =~= after.tally);
            assert(self@.roster =~= after.roster);
        }
        Ok(())
    }

    /// Whether [`Vote::vote`] may be called with these arguments: the call
    /// would be refused, or the count it adds to has room for one vote more.
    pub fn has_room_for_vote(&self, voter: &Pubkey, option_index: usize) -> (room: bool)
        requires
            self.wf(),
        ensures
            room == (self@.vote_refusal(*voter, option_index as int) is None ==> self@.count(
                self@.options[option_index as int],
            ) < u32::MAX),
    {
        if option_index >= self.options.len() || !self.is_vote_open {
            return true;
        }
        let full = match self.votes.get(self.options[option_index].as_str()) {
            Some(count) => *count == u32::MAX,
            None => false,
        };
        if !full {
            return true;
        }
        match self.allowed_voters.get(voter) {
            Some(info) => info.votes_left == 0,
            None => true,
        }
    }

    /// Whether [`Vote::delegate_vote`] may be called with these arguments: the
    /// call would be refused, or the delegate's allowance has room for the
    /// right received.
    pub fn has_room_for_delegation(&self, delegate: &Pubkey, delegator: &Pubkey) -> (room: bool)
        requires
            self.wf(),
        ensures
            room == (self@.delegate_refusal(*delegator) is None ==> self@.delegated(
                *delegate,
                *delegator,
            ).allowance(*delegate) <= u32::MAX),
    {
        if !self.is_vote_open || same_key(delegate, delegator) {
            return true;
        }
        let full = match self.allowed_voters.get(delegate) {
            Some(target) => target.votes_left == u32::MAX,
            None => false,
        };
        if !full {
            return true;
        }
        match self.allowed_voters.get(delegator) {
            Some(info) => info.votes_left == 0,
            None => true,
        }
    }

    /// Hands one casting right of `delegator` to `delegate`, who need not be
    /// enrolled, and notes `delegate` in the delegator's record.
    ///
    /// The delegate's allowance must have room for the right received.
    pub fn delegate_vote(&mut self, delegate: &Pubkey, delegator: &Pubkey) -> (result: Result<
        (),
        VotingError,
    >)
        requires
            old(self).wf(),
            old(self)@.delegate_refusal(*delegator) is None ==> old(self)@.delegated(
                *delegate,
                *delegator,
            ).allowance(*delegate) <= u32::MAX,
        ensures
            final(self).wf(),
            result == outcome(old(self)@.delegate_refusal(*delegator)),
            final(self)@ == (if result is Ok {
                old(self)@.delegated(*delegate, *delegator)
            } else {
                old(self)@
            }),
    {
        let info = match self.allowed_voters.get(delegator) {
            Some(info) => info,
            None => {
                return Err(VotingError::VoterNotAllowed);
            },
        };
        if !self.is_vote_open {
            return Err(VotingError::BallotClosed);
        }
        if info.votes_left == 0 {
            return Err(VotingError::NoAllowanceLeft);
        }
        let ghost before = *self;
        self.allowed_voters.insert(
            *delegator,
            VoterInfo { votes_left: info.votes_left - 1, delegate: Some(*delegate) },
        );
        let target = match self.allowed_voters.get(delegate) {
            Some(target) => target,
            None => VoterInfo { votes_left: 0, delegate: None },
        };
        self.allowed_voters.insert(
            *delegate,
            VoterInfo { votes_left: target.votes_left + 1, delegate: target.delegate },
        );
        assert(self@.roster =~= before@.delegated(*delegate, *delegator).roster);
        Ok(())
    }

    /// Enrolls `voter` with one casting right; only the creator may, and only
    /// while the ballot is open. An identity that is enrolled again starts over
    /// with one right and no delegate.
    pub fn add_allowed_voter(&mut self, voter: Pubkey, caller: &Pubkey) -> (result: Result<
        (),
        VotingError,
    >)
        requires
            old(self).wf(),
        ensures
            final(self).wf(),
            result == outcome(old(self)@.enroll_refusal(*caller)),
            final(self)@ == (if result is Ok {
                old(self)@.enrolled(voter)
            } else {
                old(self)@
            }),
    {
        if !same_key(caller, &self.creator) {
            return Err(VotingError::NotCreator);
        }
        if !self.is_vote_open {
            return Err(VotingError::BallotClosed);
        }
        let ghost before = *self;
        self.allowed_voters.insert(voter, VoterInfo { votes_left: 1, delegate: None });
        assert(self@.roster =~= before@.enrolled(voter).roster);
        Ok(())
    }

    /// Takes `voter` off the roster, together with whatever allowance the
    /// identity held; only the creator may, and only while the ballot is open.
    pub fn remove_allowed_voter(&mut self, voter: &Pubkey, caller: &Pubkey) -> (result: Result<
        (),
        VotingError,
    >)
        requires
            old(self).wf(),
        ensures
            final(self).wf(),
            result == outcome(old(self)@.revoke_refusal(*voter, *caller)),
            final(self)@ == (if result is Ok {
                old(self)@.revoked(*voter)
            } else {
                old(self)@
            }),
    {
        if !same_key(caller, &self.creator) {
            return Err(VotingError::NotCreator);
        }
        if !self.is_vote_open {
            return Err(VotingError::BallotClosed);
        }
        let ghost before = *self;
        if self.allowed_voters.remove(voter) {
            assert(self@.roster =~= before@.revoked(*voter).roster);
            Ok(())
        } else {
            assert(self@.roster =~= before@.roster);
            Err(VotingError::VoterNotFound)
        }
    }

    /// Whether `voter` is enrolled.
    pub fn is_voter_allowed(&self, voter: &Pubkey) -> (allowed: bool)
        requires
            self.wf(),
        ensures
            allowed == self@.is_enrolled(*voter),
    {
        self.allowed_voters.contains_key(voter)
    }

    /// The options, in the order given at creation.
    pub fn get_options(&self) -> (options: &Vec<String>)
        ensures
            texts(options@) == self@.options,
    {
        &self.options
    }

    /// Closes the ballot for good; only the creator may. Closing a closed
    /// ballot goes through and changes nothing.
    pub fn close_vote(&mut self, caller: &Pubkey) -> (result: Result<(), VotingError>)
        requires
            old(self).wf(),
        ensures
            final(self).wf(),
            result == outcome(old(self)@.close_refusal(*caller)),
            final(self)@ == (if result is Ok {
                old(self)@.closed()
            } else {
                old(self)@
            }),
    {
        if !same_key(caller, &self.creator) {
            return Err(VotingError::NotCreator);
        }
        self.is_vote_open = false;
        Ok(())
    }

    /// A copy of the tally, for `caller` to keep. Where the results are
    /// restricted, only an enrolled identity gets one; whether the ballot is
    /// open does not matter.
    pub fn get_results(&self, caller: &Pubkey) -> (result: Result<StringHashMap<u32>, VotingError>)
        requires
            self.wf(),
        ensures
            is_reading(self@, *caller, result),
    {
        if self.is_close_vote_results && !self.allowed_voters.contains_key(caller) {
            return Err(VotingError::VoterNotAllowed);
        }
        let mut snapshot: StringHashMap<u32> = StringHashMap::new();
        let mut i: usize = 0;
        while i < self.options.len()
            invariant
                i <= self.options@.len(),
                forall|text: Seq<char>| #[trigger]
                    snapshot@.contains_key(text) ==> self.votes@.contains_key(text)
                        && snapshot@[text] == self.votes@[text],
                forall|j: int|
                    0 <= j < i && self.votes@.contains_key(#[trigger] self.options@[j]@)
                        ==> snapshot@.contains_key(self.options@[j]@),
            decreases self.options@.len() - i,
        {
            let option = &self.options[i];
            match self.votes.get(option.as_str()) {
                Some(count) => {
                    snapshot.insert(option.clone(), *count);
                },
                None => {},
            }
            i += 1;
        }
        proof {
            assert forall|text: Seq<char>| self.votes@.contains_key(text) implies snapshot@.contains_key(
                text,
            ) by {
                assert(self@.tally.contains_key(text));
                let j = choose|j: int|
                    0 <= j < texts(self.options@).len() && texts(self.options@)[j] == text;
                assert(self.options@[j]@ == text);
            }
            assert(snapshot@ =~= self.votes@);
        }
        Ok(snapshot)
    }

    /// The identifier under which the registry holds the ballot.
    pub fn id(&self) -> (id: u32)
        ensures
            id == self@.id,
    {
        self.id
    }

    /// The title.
    pub fn title(&self) -> (title: &String)
        ensures
            title@ == self@.title,
    {
        &self.title
    }

    /// The identity that created the ballot.
    pub fn creator(&self) -> (creator: Pubkey)
        ensures
            creator == self@.creator,
    {
        self.creator
    }

    /// Whether the ballot still takes votes.
    pub fn is_vote_open(&self) -> (open: bool)
        ensures
            open == self@.is_open,
    {
        self.is_vote_open
    }

    /// Whether only enrolled identities may read the results.
    pub fn is_close_vote_results(&self) -> (restricted: bool)
        ensures
            restricted == self@.results_restricted,
    {
        self.is_close_vote_results
    }

    /// The tally itself, to look at.
    pub fn votes(&self) -> (tally: &StringHashMap<u32>)
        ensures
            counts(tally@) == self@.tally,
    {
        &self.votes
    }

    /// The roster itself, to look at.
    pub fn allowed_voters(&self) -> (roster: &Roster)
        requires
            self.wf(),
        ensures
            roster.wf(),
            entries(roster@) == self@.roster,
    {
        &self.allowed_voters
    }
}

} // verus!
