use crate::ballot::{counts, is_reading};
use crate::error::VotingError;
use crate::history::{Ask, Call, Request};
use crate::model::{blank_entry, fresh_entry, BallotView};
use crate::registry::RegistryView;
use crate::roster::VoterEntry;
use crate::totals::{lemma_total_empty, lemma_total_insert, lemma_total_remove};
use solana_program::pubkey::Pubkey;
use vstd::hash_map::StringHashMap;
use vstd::prelude::*;

verus! {

/// A ballot that was just created holds no casting right and no vote.
pub proof fn law_created_holds_nothing(
    id: nat,
    title: Seq<char>,
    options: Seq<Seq<char>>,
    results_restricted: bool,
    creator: Pubkey,
)
    ensures
        BallotView::created(id, title, options, results_restricted, creator).wf(),
        BallotView::created(id, title, options, results_restricted, creator).units() == 0,
{
    lemma_total_empty::<Pubkey, VoterEntry>(|entry: VoterEntry| entry.remaining);
    lemma_total_empty::<Seq<char>, nat>(|count: nat| count);
}

/// Enrolling hands out at most one casting right: rights held and votes cast
/// together grow by one for a new identity, and by less where an identity is
/// enrolled again.
pub proof fn law_enrolling_grants_one(ballot: BallotView, voter: Pubkey)
    requires
        ballot.wf(),
    ensures
        ballot.enrolled(voter).wf(),
        ballot.enrolled(voter).units() + ballot.allowance(voter) == ballot.units() + 1,
{
    lemma_total_insert(ballot.roster, |entry: VoterEntry| entry.remaining, voter, fresh_entry());
}

/// Revoking takes away what the identity held and nothing else.
pub proof fn law_revoking_takes_the_allowance(ballot: BallotView, voter: Pubkey)
    requires
        ballot.wf(),
        ballot.is_enrolled(voter),
    ensures
        ballot.revoked(voter).wf(),
        ballot.revoked(voter).units() + ballot.allowance(voter) == ballot.units(),
{
    lemma_total_remove(ballot.roster, |entry: VoterEntry| entry.remaining, voter);
}

/// A vote turns one casting right into one counted vote.
pub proof fn law_voting_conserves(ballot: BallotView, voter: Pubkey, option_index: int)
    requires
        ballot.wf(),
        ballot.vote_refusal(voter, option_index) is None,
    ensures
        ballot.voted(voter, option_index).wf(),
        ballot.voted(voter, option_index).allowance_held() + 1 == ballot.allowance_held(),
        ballot.voted(voter, option_index).votes_cast() == ballot.votes_cast() + 1,
        ballot.voted(voter, option_index).units() == ballot.units(),
{
    let text = ballot.options[option_index];
    let entry = ballot.roster[voter];
    lemma_total_insert(ballot.tally, |count: nat| count, text, ballot.count(text) + 1);
    lemma_total_insert(
        ballot.roster,
        |entry: VoterEntry| entry.remaining,
        voter,
        VoterEntry { remaining: (entry.remaining - 1) as nat, ..entry },
    );
}

/// Delegating moves one casting right and creates none.
pub proof fn law_delegating_conserves(ballot: BallotView, delegate: Pubkey, delegator: Pubkey)
    requires
        ballot.wf(),
        ballot.delegate_refusal(delegator) is None,
    ensures
        ballot.delegated(delegate, delegator).wf(),
        ballot.delegated(delegate, delegator).units() == ballot.units(),
{
    let weight = |entry: VoterEntry| entry.remaining;
    let given = ballot.roster_after_giving(delegate, delegator);
    lemma_total_insert(
        ballot.roster,
        weight,
        delegator,
        VoterEntry {
            remaining: (ballot.roster[delegator].remaining - 1) as nat,
            delegate: Some(delegate),
        },
    );
    let target = if given.contains_key(delegate) {
        given[delegate]
    } else {
        blank_entry()
    };
    lemma_total_insert(
        given,
        weight,
        delegate,
        VoterEntry { remaining: target.remaining + 1, ..target },
    );
}

/// No call adds to the casting rights held and the votes cast together but
/// an enrollment that goes through, and that one adds at most one.
pub proof fn law_call_conserves(ballot: BallotView, call: Call)
    requires
        ballot.wf(),
    ensures
        ballot.after(call).wf(),
        ballot.after(call).units() <= ballot.units() + (if call is Enroll && ballot.refusal(call)
            is None {
            1nat
        } else {
            0nat
        }),
{
    if ballot.refusal(call) is None {
        match call {
            Call::Enroll { voter, caller } => law_enrolling_grants_one(ballot, voter),
            Call::Revoke { voter, caller } => law_revoking_takes_the_allowance(ballot, voter),
            Call::Vote { voter, option_index } => law_voting_conserves(ballot, voter, option_index),
            Call::Delegate { delegate, delegator } => law_delegating_conserves(
                ballot,
                delegate,
                delegator,
            ),
            Call::Close { caller } => {},
        }
    }
}

/// What a ballot is about never changes: no call touches the identifier, the
/// title, the options, the creator or the restriction of the results; no call
/// lowers a count or drops a counted text; and no call opens a ballot.
pub proof fn law_call_keeps_the_ballot(ballot: BallotView, call: Call)
    ensures
        ballot.after(call).id == ballot.id,
        ballot.after(call).title == ballot.title,
        ballot.after(call).options == ballot.options,
        ballot.after(call).creator == ballot.creator,
        ballot.after(call).results_restricted == ballot.results_restricted,
        forall|text: Seq<char>|
            ballot.tally.contains_key(text) ==> #[trigger] ballot.after(call).tally.contains_key(
                text,
            ),
        forall|text: Seq<char>| ballot.count(text) <= #[trigger] ballot.after(call).count(text),
        ballot.after(call).is_open ==> ballot.is_open,
{
}

/// Allowance conservation: whatever calls are made, in whatever order, the
/// casting rights held and the votes cast together never exceed what the
/// ballot started with plus one for each enrollment that went through.
pub proof fn law_allowance_conservation(ballot: BallotView, calls: Seq<Call>)
    requires
        ballot.wf(),
    ensures
        ballot.after_all(calls).wf(),
        ballot.after_all(calls).units() <= ballot.units() + ballot.enrollments(calls),
    decreases calls.len(),
{
    if calls.len() > 0 {
        law_allowance_conservation(ballot, calls.drop_last());
        law_call_conserves(ballot.after_all(calls.drop_last()), calls.last());
    }
}

/// In a closed ballot every call but closing is refused: with `BallotClosed`
/// wherever the call passes the check that comes before the one for the open
/// state (the creator for enrolling and revoking, enrollment for voting and
/// delegating), and with that check's own reason elsewhere.
pub proof fn law_closed_ballot_refuses(ballot: BallotView, call: Call)
    requires
        !ballot.is_open,
    ensures
        !(call is Close) ==> ballot.refusal(call) is Some,
        match call {
            Call::Enroll { voter, caller } => ballot.refusal(call) == Some(
                if caller == ballot.creator {
                    VotingError::BallotClosed
                } else {
                    VotingError::NotCreator
                },
            ),
            Call::Revoke { voter, caller } => ballot.refusal(call) == Some(
                if caller == ballot.creator {
                    VotingError::BallotClosed
                } else {
                    VotingError::NotCreator
                },
            ),
            Call::Vote { voter, option_index } => ballot.refusal(call) == Some(
                if ballot.is_enrolled(voter) {
                    VotingError::BallotClosed
                } else {
                    VotingError::VoterNotAllowed
                },
            ),
            Call::Delegate { delegate, delegator } => ballot.refusal(call) == Some(
                if ballot.is_enrolled(delegator) {
                    VotingError::BallotClosed
                } else {
                    VotingError::VoterNotAllowed
                },
            ),
            Call::Close { caller } => true,
        },
        ballot.after(call) == ballot,
{
}

/// One-way open state: once a ballot is closed, no sequence of calls changes
/// it again; in particular it stays closed.
pub proof fn law_closed_ballot_is_final(ballot: BallotView, calls: Seq<Call>)
    requires
        !ballot.is_open,
    ensures
        ballot.after_all(calls) == ballot,
    decreases calls.len(),
{
    if calls.len() > 0 {
        law_closed_ballot_is_final(ballot, calls.drop_last());
        law_closed_ballot_refuses(ballot, calls.last());
    }
}

/// The refusal of a request is the refusal of the operation it stands for,
/// and a request that goes through leaves what that operation leaves.
pub proof fn law_requests_are_the_operations(
    registry: RegistryView,
    id: nat,
    accounts: Seq<Pubkey>,
    voter: Pubkey,
    option_index: int,
)
    ensures
        ({
            let enroll = Request::Ballot { id, accounts, ask: Ask::Enroll { voter } };
            let revoke = Request::Ballot { id, accounts, ask: Ask::Revoke { voter } };
            let vote = Request::Ballot { id, accounts, ask: Ask::Vote { option_index } };
            let delegate = Request::Ballot { id, accounts, ask: Ask::Delegate { delegate: voter } };
            let close = Request::Ballot { id, accounts, ask: Ask::Close };
            let ballot = registry.ballots[id];
            let caller = accounts[0];
            &&& registry.refusal(enroll) == registry.enroll_refusal(id, accounts)
            &&& registry.refusal(revoke) == registry.revoke_refusal(id, voter, accounts)
            &&& registry.refusal(vote) == registry.vote_refusal(id, accounts, option_index)
            &&& registry.refusal(delegate) == registry.delegate_refusal(id, accounts)
            &&& registry.refusal(close) == registry.close_refusal(id, accounts)
            &&& registry.refusal(enroll) is None ==> registry.after(enroll) == registry.with_ballot(
                id,
                ballot.enrolled(voter),
            )
            &&& registry.refusal(revoke) is None ==> registry.after(revoke) == registry.with_ballot(
                id,
                ballot.revoked(voter),
            )
            &&& registry.refusal(vote) is None ==> registry.after(vote) == registry.with_ballot(
                id,
                ballot.voted(caller, option_index),
            )
            &&& registry.refusal(delegate) is None ==> registry.after(delegate)
                == registry.with_ballot(id, ballot.delegated(voter, caller))
            &&& registry.refusal(close) is None ==> registry.after(close) == registry.with_ballot(
                id,
                ballot.closed(),
            )
        }),
{
}

/// Every request leaves a well-formed registry well formed, keeps the ballots
/// that were there, and never takes an identifier back.
pub proof fn law_request_keeps_registry(registry: RegistryView, request: Request)
    requires
        registry.wf(),
    ensures
        registry.after(request).wf(),
        registry.after(request).next_id >= registry.next_id,
        forall|id: nat|
            registry.ballots.contains_key(id) ==> #[trigger] registry.after(
                request,
            ).ballots.contains_key(id),
{
    if registry.refusal(request) is None {
        match request {
            Request::Create { title, options, results_restricted, accounts } => {
                law_created_holds_nothing(
                    registry.next_id,
                    title,
                    options,
                    results_restricted,
                    accounts[0],
                );
            },
            Request::Ballot { id, accounts, ask } => {
                law_call_conserves(registry.ballots[id], ask.asked_by(accounts[0]));
            },
        }
    }
}

/// One-way open state, through the registry: in a closed ballot every vote,
/// enrollment, revocation and delegation is refused, whoever asks. The reason
/// is `BallotClosed` for a caller who passes the check that comes first: an
/// enrolled identity that votes or delegates, the creator who enrolls or
/// revokes.
pub proof fn law_registry_refuses_closed(
    registry: RegistryView,
    id: nat,
    accounts: Seq<Pubkey>,
    voter: Pubkey,
    option_index: int,
)
    requires
        registry.ballots.contains_key(id),
        !registry.ballots[id].is_open,
    ensures
        registry.vote_refusal(id, accounts, option_index) is Some,
        registry.enroll_refusal(id, accounts) is Some,
        registry.revoke_refusal(id, voter, accounts) is Some,
        registry.delegate_refusal(id, accounts) is Some,
        accounts.len() > 0 && registry.ballots[id].is_enrolled(accounts[0]) ==> {
            &&& registry.vote_refusal(id, accounts, option_index) == Some(VotingError::BallotClosed)
            &&& registry.delegate_refusal(id, accounts) == Some(VotingError::BallotClosed)
        },
        accounts.len() > 0 && accounts[0] == registry.ballots[id].creator ==> {
            &&& registry.enroll_refusal(id, accounts) == Some(VotingError::BallotClosed)
            &&& registry.revoke_refusal(id, voter, accounts) == Some(VotingError::BallotClosed)
        },
{
}

/// One-way open state: closing that goes through leaves the ballot closed,
/// and whatever is asked of the registry afterwards, of this ballot or of
/// another, the ballot stays exactly as closing left it.
pub proof fn law_closing_is_one_way(
    registry: RegistryView,
    id: nat,
    accounts: Seq<Pubkey>,
    requests: Seq<Request>,
)
    requires
        registry.wf(),
        registry.close_refusal(id, accounts) is None,
    ensures
        ({
            let closed = registry.with_ballot(id, registry.ballots[id].closed());
            &&& !closed.ballots[id].is_open
            &&& closed.after_all(requests).ballots.contains_key(id)
            &&& closed.after_all(requests).ballots[id] == closed.ballots[id]
        }),
{
    let closed = registry.with_ballot(id, registry.ballots[id].closed());
    law_closed_in_registry_is_final(closed, id, requests);
}

/// A closed ballot is the same after any sequence of requests.
pub proof fn law_closed_in_registry_is_final(
    registry: RegistryView,
    id: nat,
    requests: Seq<Request>,
)
    requires
        registry.wf(),
        registry.ballots.contains_key(id),
        !registry.ballots[id].is_open,
    ensures
        registry.after_all(requests).wf(),
        registry.after_all(requests).ballots.contains_key(id),
        registry.after_all(requests).ballots[id] == registry.ballots[id],
    decreases requests.len(),
{
    if requests.len() > 0 {
        law_closed_in_registry_is_final(registry, id, requests.drop_last());
        let before = registry.after_all(requests.drop_last());
        let request = requests.last();
        law_request_keeps_registry(before, request);
        if before.refusal(request) is None {
            match request {
                Request::Create { title, options, results_restricted, accounts } => {},
                Request::Ballot { id: other, accounts, ask } => {
                    if other == id {
                        law_closed_ballot_refuses(before.ballots[id], ask.asked_by(accounts[0]));
                    }
                },
            }
        }
    }
}

/// Access control: whoever is not the creator is refused enrolling, revoking
/// and closing with `NotCreator`, in whatever state the ballot is.
pub proof fn law_only_creator_administers(ballot: BallotView, voter: Pubkey, caller: Pubkey)
    requires
        caller != ballot.creator,
    ensures
        ballot.enroll_refusal(caller) == Some(VotingError::NotCreator),
        ballot.revoke_refusal(voter, caller) == Some(VotingError::NotCreator),
        ballot.close_refusal(caller) == Some(VotingError::NotCreator),
{
}

/// Access control through the registry: for a ballot that exists and a caller
/// who is not its creator, the three creator-only calls end in `NotCreator`.
pub proof fn law_registry_only_creator_administers(
    registry: RegistryView,
    id: nat,
    voter: Pubkey,
    accounts: Seq<Pubkey>,
)
    requires
        registry.ballots.contains_key(id),
        accounts.len() > 0,
        accounts[0] != registry.ballots[id].creator,
    ensures
        registry.enroll_refusal(id, accounts) == Some(VotingError::NotCreator),
        registry.revoke_refusal(id, voter, accounts) == Some(VotingError::NotCreator),
        registry.close_refusal(id, accounts) == Some(VotingError::NotCreator),
{
}

/// Reading is repeatable: two readings of one ballot by one caller are both
/// refused for the same reason, or both hand out the same counts.
pub proof fn law_readings_agree(
    ballot: BallotView,
    caller: Pubkey,
    first: Result<StringHashMap<u32>, VotingError>,
    second: Result<StringHashMap<u32>, VotingError>,
)
    requires
        is_reading(ballot, caller, first),
        is_reading(ballot, caller, second),
    ensures
        match (first, second) {
            (Ok(one), Ok(other)) => one@ == other@,
            (Err(one), Err(other)) => one == other,
            _ => false,
        },
{
    if let (Ok(one), Ok(other)) = (first, second) {
        assert forall|text: Seq<char>| one@.contains_key(text) == other@.contains_key(text) by {
            assert(counts(one@).contains_key(text) == counts(other@).contains_key(text));
        }
        assert forall|text: Seq<char>| one@.contains_key(text) implies one@[text]
            == other@[text] by {
            assert(counts(one@)[text] == counts(other@)[text]);
        }
        assert(one@ =~= other@);
    }
}

} // verus!
