use crate::error::VotingError;
use crate::model::BallotView;
use crate::registry::RegistryView;
use solana_program::pubkey::Pubkey;
use vstd::prelude::*;

verus! {

/// One request that can change a ballot.
pub enum Call {
    Enroll { voter: Pubkey, caller: Pubkey },
    Revoke { voter: Pubkey, caller: Pubkey },
    Vote { voter: Pubkey, option_index: int },
    Delegate { delegate: Pubkey, delegator: Pubkey },
    Close { caller: Pubkey },
}

impl BallotView {
    /// Why the ballot refuses `call`, if it does.
    pub open spec fn refusal(self, call: Call) -> Option<VotingError> {
        match call {
            Call::Enroll { voter, caller } => self.enroll_refusal(caller),
            Call::Revoke { voter, caller } => self.revoke_refusal(voter, caller),
            Call::Vote { voter, option_index } => self.vote_refusal(voter, option_index),
            Call::Delegate { delegate, delegator } => self.delegate_refusal(delegator),
            Call::Close { caller } => self.close_refusal(caller),
        }
    }

    /// The ballot after `call`: unchanged where the call is refused.
    pub open spec fn after(self, call: Call) -> BallotView {
        if self.refusal(call) is Some {
            self
        } else {
            match call {
                Call::Enroll { voter, caller } => self.enrolled(voter),
                Call::Revoke { voter, caller } => self.revoked(voter),
                Call::Vote { voter, option_index } => self.voted(voter, option_index),
                Call::Delegate { delegate, delegator } => self.delegated(delegate, delegator),
                Call::Close { caller } => self.closed(),
            }
        }
    }

    /// The ballot after `calls`, made in order.
    pub open spec fn after_all(self, calls: Seq<Call>) -> BallotView
        decreases calls.len(),
    {
        if calls.len() == 0 {
            self
        } else {
            self.after_all(calls.drop_last()).after(calls.last())
        }
    }

    /// How many of `calls`, made in order, enroll somebody.
    pub open spec fn enrollments(self, calls: Seq<Call>) -> nat
        decreases calls.len(),
    {
        if calls.len() == 0 {
            0
        } else {
            let before = self.after_all(calls.drop_last());
            let granted: nat = if calls.last() is Enroll && before.refusal(calls.last()) is None {
                1
            } else {
                0
            };
            self.enrollments(calls.drop_last()) + granted
        }
    }
}

/// What can be asked of one ballot through the registry; the caller is the
/// first of the identities that come with the request.
pub enum Ask {
    Enroll { voter: Pubkey },
    Revoke { voter: Pubkey },
    Vote { option_index: int },
    Delegate { delegate: Pubkey },
    Close,
}

impl Ask {
    /// The call that the ballot gets when `caller` asks.
    pub open spec fn asked_by(self, caller: Pubkey) -> Call {
        match self {
            Ask::Enroll { voter } => Call::Enroll { voter, caller },
            Ask::Revoke { voter } => Call::Revoke { voter, caller },
            Ask::Vote { option_index } => Call::Vote { voter: caller, option_index },
            Ask::Delegate { delegate } => Call::Delegate { delegate, delegator: caller },
            Ask::Close => Call::Close { caller },
        }
    }
}

/// One request that can change the registry.
pub enum Request {
    Create {
        title: Seq<char>,
        options: Seq<Seq<char>>,
        results_restricted: bool,
        accounts: Seq<Pubkey>,
    },
    Ballot { id: nat, accounts: Seq<Pubkey>, ask: Ask },
}

impl RegistryView {
    /// Why the registry refuses `request`, if it does.
    pub open spec fn refusal(self, request: Request) -> Option<VotingError> {
        match request {
            Request::Create { title, options, results_restricted, accounts } => {
                RegistryView::create_refusal(accounts)
            },
            Request::Ballot { id, accounts, ask } => match self.caller_refusal(id, accounts) {
                Some(e) => Some(e),
                None => self.ballots[id].refusal(ask.asked_by(accounts[0])),
            },
        }
    }

    /// The registry after `request`: unchanged where the request is refused.
    pub open spec fn after(self, request: Request) -> RegistryView {
        if self.refusal(request) is Some {
            self
        } else {
            match request {
                Request::Create { title, options, results_restricted, accounts } => self.created(
                    title,
                    options,
                    results_restricted,
                    accounts,
                ),
                Request::Ballot { id, accounts, ask } => self.with_ballot(
                    id,
                    self.ballots[id].after(ask.asked_by(accounts[0])),
                ),
            }
        }
    }

    /// The registry after `requests`, made in order.
    pub open spec fn after_all(self, requests: Seq<Request>) -> RegistryView
        decreases requests.len(),
    {
        if requests.len() == 0 {
            self
        } else {
            self.after_all(requests.drop_last()).after(requests.last())
        }
    }
}

} // verus!
