use solana_program::pubkey::Pubkey;
use voting::roster::Roster;
use voting::{VoterInfo, Voting, VotingError};

fn options(texts: &[&str]) -> Vec<String> {
    texts.iter().map(|text| text.to_string()).collect()
}

/// A registry with one ballot, number 0, created by the identity returned.
fn one_ballot(texts: &[&str], restricted: bool) -> (Voting, Pubkey) {
    let mut voting = Voting::new();
    let creator = Pubkey::new_unique();
    let id = voting.create_vote("Budget".to_string(), options(texts), restricted, &[creator]);
    assert_eq!(id, Ok(0));
    (voting, creator)
}

fn allowance(voting: &Voting, id: u32, voter: &Pubkey) -> Option<u32> {
    voting.votes().get(&id).unwrap().allowed_voters().get(voter).map(|info| info.votes_left)
}

fn count(voting: &Voting, id: u32, text: &str) -> Option<u32> {
    voting.votes().get(&id).unwrap().votes().get(text).copied()
}

/// Casting rights held plus votes counted, over the identities and texts given.
fn units(voting: &Voting, id: u32, voters: &[Pubkey], texts: &[&str]) -> u32 {
    let held: u32 = voters.iter().map(|voter| allowance(voting, id, voter).unwrap_or(0)).sum();
    let cast: u32 = texts.iter().map(|text| count(voting, id, text).unwrap_or(0)).sum();
    held + cast
}

#[test]
fn new_registry_is_empty() {
    let voting = Voting::new();
    assert_eq!(voting.votes().len(), 0);
    assert_eq!(voting.current_id(), 0);
}

#[test]
fn identifiers_count_up_from_zero() {
    let mut voting = Voting::new();
    let creator = Pubkey::new_unique();
    for expected in 0..3u32 {
        let id = voting.create_vote("T".to_string(), options(&["a"]), false, &[creator]);
        assert_eq!(id, Ok(expected));
    }
    assert_eq!(voting.current_id(), 3);
    assert_eq!(voting.votes().len(), 3);
    for id in 0..3u32 {
        assert_eq!(voting.votes().get(&id).unwrap().id(), id);
    }
}

#[test]
fn created_ballot_is_open_and_blank() {
    let mut voting = Voting::new();
    let creator = Pubkey::new_unique();
    let second = Pubkey::new_unique();
    let id = voting
        .create_vote("Lunch".to_string(), options(&["Soup", "Salad"]), true, &[creator, second])
        .unwrap();
    let ballot = voting.votes().get(&id).unwrap();
    assert_eq!(*ballot.title(), "Lunch");
    assert_eq!(ballot.creator(), creator);
    assert!(ballot.is_vote_open());
    assert!(ballot.is_close_vote_results());
    assert_eq!(ballot.votes().len(), 0);
    assert!(!ballot.is_voter_allowed(&creator));
    assert!(!ballot.is_voter_allowed(&second));
    assert_eq!(*ballot.get_options(), options(&["Soup", "Salad"]));
}

#[test]
fn create_without_caller_is_refused() {
    let mut voting = Voting::new();
    let result = voting.create_vote("T".to_string(), options(&["a"]), false, &[]);
    assert_eq!(result, Err(VotingError::NoCaller));
    assert_eq!(voting.votes().len(), 0);
    assert_eq!(voting.current_id(), 0);
}

#[test]
fn unknown_ballot_is_reported_before_missing_caller() {
    let (mut voting, creator) = one_ballot(&["a"], false);
    let voter = Pubkey::new_unique();
    assert_eq!(voting.vote(7, &[], 0), Err(VotingError::BallotNotFound));
    assert_eq!(voting.close_vote(7, &[]), Err(VotingError::BallotNotFound));
    assert_eq!(voting.add_allowed_voter(7, voter, &[]), Err(VotingError::BallotNotFound));
    assert_eq!(voting.remove_allowed_voter(7, &voter, &[]), Err(VotingError::BallotNotFound));
    assert_eq!(voting.delegate_vote(7, &voter, &[]), Err(VotingError::BallotNotFound));
    assert!(matches!(voting.get_results(7, &[]), Err(VotingError::BallotNotFound)));
    assert_eq!(voting.vote(7, &[creator], 0), Err(VotingError::BallotNotFound));
    assert_eq!(voting.is_voter_allowed(7, &voter), Err(VotingError::BallotNotFound));
    assert!(matches!(voting.get_options(7), Err(VotingError::BallotNotFound)));
}

#[test]
fn empty_identity_list_is_no_caller() {
    let (mut voting, _creator) = one_ballot(&["a"], false);
    let voter = Pubkey::new_unique();
    assert_eq!(voting.vote(0, &[], 0), Err(VotingError::NoCaller));
    assert_eq!(voting.close_vote(0, &[]), Err(VotingError::NoCaller));
    assert_eq!(voting.add_allowed_voter(0, voter, &[]), Err(VotingError::NoCaller));
    assert_eq!(voting.remove_allowed_voter(0, &voter, &[]), Err(VotingError::NoCaller));
    assert_eq!(voting.delegate_vote(0, &voter, &[]), Err(VotingError::NoCaller));
    assert!(matches!(voting.get_results(0, &[]), Err(VotingError::NoCaller)));
    assert!(voting.votes().get(&0).unwrap().is_vote_open());
}

#[test]
fn reads_that_need_no_caller() {
    let (mut voting, creator) = one_ballot(&["x", "y", "z"], true);
    let voter = Pubkey::new_unique();
    voting.add_allowed_voter(0, voter, &[creator]).unwrap();
    assert_eq!(voting.is_voter_allowed(0, &voter), Ok(true));
    assert_eq!(voting.is_voter_allowed(0, &creator), Ok(false));
    assert_eq!(voting.get_options(0).unwrap(), &options(&["x", "y", "z"]));
}

#[test]
fn the_first_identity_is_the_caller() {
    let (mut voting, creator) = one_ballot(&["a"], false);
    let other = Pubkey::new_unique();
    let voter = Pubkey::new_unique();
    assert_eq!(voting.add_allowed_voter(0, voter, &[other, creator]), Err(VotingError::NotCreator));
    assert_eq!(voting.add_allowed_voter(0, voter, &[creator, other]), Ok(()));
}

#[test]
fn vote_counts_for_the_text_at_the_index() {
    let (mut voting, creator) = one_ballot(&["Option 1", "Option 2"], false);
    let voter = Pubkey::new_unique();
    voting.add_allowed_voter(0, voter, &[creator]).unwrap();
    assert_eq!(voting.vote(0, &[voter], 1), Ok(()));
    assert_eq!(count(&voting, 0, "Option 2"), Some(1));
    assert_eq!(count(&voting, 0, "Option 1"), None);
    assert_eq!(allowance(&voting, 0, &voter), Some(0));
    assert_eq!(voting.vote(0, &[voter], 1), Err(VotingError::NoAllowanceLeft));
    assert_eq!(count(&voting, 0, "Option 2"), Some(1));
}

#[test]
fn vote_refusals_come_in_order() {
    let (mut voting, creator) = one_ballot(&["a", "b"], false);
    let voter = Pubkey::new_unique();
    let stranger = Pubkey::new_unique();
    voting.add_allowed_voter(0, voter, &[creator]).unwrap();

    assert_eq!(voting.vote(0, &[stranger], 9), Err(VotingError::VoterNotAllowed));
    assert_eq!(voting.vote(0, &[voter], 2), Err(VotingError::OptionIndexOutOfRange));
    assert_eq!(voting.vote(0, &[voter], usize::MAX), Err(VotingError::OptionIndexOutOfRange));
    assert_eq!(allowance(&voting, 0, &voter), Some(1));
    assert_eq!(voting.vote(0, &[voter], 0), Ok(()));
    // Out of rights and out of range: the allowance is looked at first.
    assert_eq!(voting.vote(0, &[voter], 2), Err(VotingError::NoAllowanceLeft));
    voting.close_vote(0, &[creator]).unwrap();
    // Closed and out of rights: the open state is looked at first.
    assert_eq!(voting.vote(0, &[voter], 0), Err(VotingError::BallotClosed));
    // Closed and not enrolled: enrollment is looked at first.
    assert_eq!(voting.vote(0, &[stranger], 0), Err(VotingError::VoterNotAllowed));
}

#[test]
fn a_ballot_without_options_takes_no_vote() {
    let (mut voting, creator) = one_ballot(&[], false);
    let voter = Pubkey::new_unique();
    voting.add_allowed_voter(0, voter, &[creator]).unwrap();
    assert_eq!(voting.vote(0, &[voter], 0), Err(VotingError::OptionIndexOutOfRange));
    assert_eq!(allowance(&voting, 0, &voter), Some(1));
}

#[test]
fn equal_texts_share_one_count() {
    let (mut voting, creator) = one_ballot(&["Same", "Other", "Same"], false);
    let first = Pubkey::new_unique();
    let second = Pubkey::new_unique();
    voting.add_allowed_voter(0, first, &[creator]).unwrap();
    voting.add_allowed_voter(0, second, &[creator]).unwrap();
    voting.vote(0, &[first], 0).unwrap();
    voting.vote(0, &[second], 2).unwrap();
    assert_eq!(count(&voting, 0, "Same"), Some(2));
    assert_eq!(count(&voting, 0, "Other"), None);
    assert_eq!(voting.votes().get(&0).unwrap().votes().len(), 1);
    assert_eq!(voting.get_options(0).unwrap().len(), 3);
}

#[test]
fn enrolling_again_resets_to_one() {
    let (mut voting, creator) = one_ballot(&["a"], false);
    let giver = Pubkey::new_unique();
    let taker = Pubkey::new_unique();
    voting.add_allowed_voter(0, giver, &[creator]).unwrap();
    voting.add_allowed_voter(0, taker, &[creator]).unwrap();
    voting.delegate_vote(0, &taker, &[giver]).unwrap();
    assert_eq!(allowance(&voting, 0, &taker), Some(2));
    let giver_info = voting.votes().get(&0).unwrap().allowed_voters().get(&giver).unwrap();
    assert_eq!(giver_info.votes_left, 0);
    assert_eq!(giver_info.delegate, Some(taker));

    voting.add_allowed_voter(0, taker, &[creator]).unwrap();
    assert_eq!(allowance(&voting, 0, &taker), Some(1));
    voting.add_allowed_voter(0, giver, &[creator]).unwrap();
    let giver_info = voting.votes().get(&0).unwrap().allowed_voters().get(&giver).unwrap();
    assert_eq!(giver_info.votes_left, 1);
    assert_eq!(giver_info.delegate, None);
}

#[test]
fn delegate_need_not_be_enrolled() {
    let (mut voting, creator) = one_ballot(&["a", "b"], false);
    let giver = Pubkey::new_unique();
    let taker = Pubkey::new_unique();
    voting.add_allowed_voter(0, giver, &[creator]).unwrap();
    assert_eq!(voting.is_voter_allowed(0, &taker), Ok(false));
    assert_eq!(voting.delegate_vote(0, &taker, &[giver]), Ok(()));
    assert_eq!(voting.is_voter_allowed(0, &taker), Ok(true));
    let taker_info = voting.votes().get(&0).unwrap().allowed_voters().get(&taker).unwrap();
    assert_eq!(taker_info.votes_left, 1);
    assert_eq!(taker_info.delegate, None);
    assert_eq!(voting.vote(0, &[taker], 1), Ok(()));
    assert_eq!(count(&voting, 0, "b"), Some(1));
    assert_eq!(voting.vote(0, &[giver], 0), Err(VotingError::NoAllowanceLeft));
}

#[test]
fn delegation_is_one_hop() {
    let (mut voting, creator) = one_ballot(&["a"], false);
    let first = Pubkey::new_unique();
    let second = Pubkey::new_unique();
    let third = Pubkey::new_unique();
    voting.add_allowed_voter(0, first, &[creator]).unwrap();
    voting.delegate_vote(0, &second, &[first]).unwrap();
    voting.delegate_vote(0, &third, &[second]).unwrap();
    let roster = voting.votes().get(&0).unwrap().allowed_voters();
    assert_eq!(roster.get(&first).unwrap().delegate, Some(second));
    assert_eq!(roster.get(&second).unwrap().delegate, Some(third));
    assert_eq!(roster.get(&third).unwrap().delegate, None);
    assert_eq!(roster.get(&first).unwrap().votes_left, 0);
    assert_eq!(roster.get(&second).unwrap().votes_left, 0);
    assert_eq!(roster.get(&third).unwrap().votes_left, 1);
}

#[test]
fn delegating_to_oneself_keeps_the_right() {
    let (mut voting, creator) = one_ballot(&["a"], false);
    let voter = Pubkey::new_unique();
    voting.add_allowed_voter(0, voter, &[creator]).unwrap();
    assert_eq!(voting.delegate_vote(0, &voter, &[voter]), Ok(()));
    let info = voting.votes().get(&0).unwrap().allowed_voters().get(&voter).unwrap();
    assert_eq!(info.votes_left, 1);
    assert_eq!(info.delegate, Some(voter));
}

#[test]
fn delegate_refusals_come_in_order() {
    let (mut voting, creator) = one_ballot(&["a"], false);
    let voter = Pubkey::new_unique();
    let stranger = Pubkey::new_unique();
    let target = Pubkey::new_unique();
    voting.add_allowed_voter(0, voter, &[creator]).unwrap();
    assert_eq!(voting.delegate_vote(0, &target, &[stranger]), Err(VotingError::VoterNotAllowed));
    voting.vote(0, &[voter], 0).unwrap();
    assert_eq!(voting.delegate_vote(0, &target, &[voter]), Err(VotingError::NoAllowanceLeft));
    assert_eq!(voting.is_voter_allowed(0, &target), Ok(false));
    voting.close_vote(0, &[creator]).unwrap();
    assert_eq!(voting.delegate_vote(0, &target, &[voter]), Err(VotingError::BallotClosed));
    assert_eq!(voting.delegate_vote(0, &target, &[stranger]), Err(VotingError::VoterNotAllowed));
}

#[test]
fn revoking_discards_the_allowance() {
    let (mut voting, creator) = one_ballot(&["a"], false);
    let giver = Pubkey::new_unique();
    let taker = Pubkey::new_unique();
    voting.add_allowed_voter(0, giver, &[creator]).unwrap();
    voting.delegate_vote(0, &taker, &[giver]).unwrap();
    assert_eq!(voting.remove_allowed_voter(0, &taker, &[creator]), Ok(()));
    assert_eq!(voting.is_voter_allowed(0, &taker), Ok(false));
    assert_eq!(voting.vote(0, &[taker], 0), Err(VotingError::VoterNotAllowed));
    // Nothing goes back to the giver or to the creator.
    assert_eq!(allowance(&voting, 0, &giver), Some(0));
    assert_eq!(allowance(&voting, 0, &creator), None);
    assert_eq!(voting.remove_allowed_voter(0, &taker, &[creator]), Err(VotingError::VoterNotFound));
}

#[test]
fn revoking_one_keeps_the_others() {
    let (mut voting, creator) = one_ballot(&["a"], false);
    let voters: Vec<Pubkey> = (0..5).map(|_| Pubkey::new_unique()).collect();
    for voter in &voters {
        voting.add_allowed_voter(0, *voter, &[creator]).unwrap();
    }
    voting.vote(0, &[voters[4]], 0).unwrap();
    voting.remove_allowed_voter(0, &voters[1], &[creator]).unwrap();
    voting.remove_allowed_voter(0, &voters[0], &[creator]).unwrap();
    assert_eq!(allowance(&voting, 0, &voters[0]), None);
    assert_eq!(allowance(&voting, 0, &voters[1]), None);
    assert_eq!(allowance(&voting, 0, &voters[2]), Some(1));
    assert_eq!(allowance(&voting, 0, &voters[3]), Some(1));
    assert_eq!(allowance(&voting, 0, &voters[4]), Some(0));
}

#[test]
fn only_the_creator_administers() {
    let (mut voting, creator) = one_ballot(&["a"], false);
    let voter = Pubkey::new_unique();
    let other = Pubkey::new_unique();
    voting.add_allowed_voter(0, voter, &[creator]).unwrap();

    for caller in [voter, other] {
        assert_eq!(voting.add_allowed_voter(0, other, &[caller]), Err(VotingError::NotCreator));
        assert_eq!(voting.remove_allowed_voter(0, &voter, &[caller]), Err(VotingError::NotCreator));
        // Not on the roster and not the creator: the creator is looked at first.
        assert_eq!(voting.remove_allowed_voter(0, &other, &[caller]), Err(VotingError::NotCreator));
        assert_eq!(voting.close_vote(0, &[caller]), Err(VotingError::NotCreator));
    }
    assert!(voting.votes().get(&0).unwrap().is_vote_open());
    assert_eq!(voting.is_voter_allowed(0, &voter), Ok(true));
    assert_eq!(voting.is_voter_allowed(0, &other), Ok(false));

    voting.close_vote(0, &[creator]).unwrap();
    for caller in [voter, other] {
        assert_eq!(voting.add_allowed_voter(0, other, &[caller]), Err(VotingError::NotCreator));
        assert_eq!(voting.remove_allowed_voter(0, &voter, &[caller]), Err(VotingError::NotCreator));
        assert_eq!(voting.close_vote(0, &[caller]), Err(VotingError::NotCreator));
    }
}

#[test]
fn a_closed_ballot_stays_as_it_is() {
    let (mut voting, creator) = one_ballot(&["a", "b"], false);
    let voter = Pubkey::new_unique();
    let idle = Pubkey::new_unique();
    let other = Pubkey::new_unique();
    voting.add_allowed_voter(0, voter, &[creator]).unwrap();
    voting.add_allowed_voter(0, idle, &[creator]).unwrap();
    voting.vote(0, &[voter], 0).unwrap();
    assert_eq!(voting.close_vote(0, &[creator]), Ok(()));
    assert!(!voting.votes().get(&0).unwrap().is_vote_open());

    assert_eq!(voting.vote(0, &[idle], 1), Err(VotingError::BallotClosed));
    assert_eq!(voting.add_allowed_voter(0, other, &[creator]), Err(VotingError::BallotClosed));
    assert_eq!(voting.remove_allowed_voter(0, &idle, &[creator]), Err(VotingError::BallotClosed));
    assert_eq!(voting.remove_allowed_voter(0, &other, &[creator]), Err(VotingError::BallotClosed));
    assert_eq!(voting.delegate_vote(0, &other, &[idle]), Err(VotingError::BallotClosed));
    // Closing once more goes through and reopens nothing.
    assert_eq!(voting.close_vote(0, &[creator]), Ok(()));
    assert_eq!(voting.vote(0, &[idle], 1), Err(VotingError::BallotClosed));

    assert!(!voting.votes().get(&0).unwrap().is_vote_open());
    assert_eq!(allowance(&voting, 0, &idle), Some(1));
    assert_eq!(allowance(&voting, 0, &voter), Some(0));
    assert_eq!(allowance(&voting, 0, &other), None);
    assert_eq!(count(&voting, 0, "a"), Some(1));
    assert_eq!(count(&voting, 0, "b"), None);
}

#[test]
fn closing_one_ballot_leaves_the_others_open() {
    let mut voting = Voting::new();
    let creator = Pubkey::new_unique();
    let voter = Pubkey::new_unique();
    voting.create_vote("A".to_string(), options(&["a"]), false, &[creator]).unwrap();
    voting.create_vote("B".to_string(), options(&["b"]), false, &[creator]).unwrap();
    voting.add_allowed_voter(0, voter, &[creator]).unwrap();
    voting.add_allowed_voter(1, voter, &[creator]).unwrap();
    voting.close_vote(0, &[creator]).unwrap();
    assert_eq!(voting.vote(0, &[voter], 0), Err(VotingError::BallotClosed));
    assert_eq!(voting.vote(1, &[voter], 0), Ok(()));
    assert_eq!(count(&voting, 1, "b"), Some(1));
    assert_eq!(count(&voting, 0, "a"), None);
    assert_eq!(allowance(&voting, 0, &voter), Some(1));
}

#[test]
fn rights_and_votes_never_exceed_enrollments() {
    let texts = ["a", "b"];
    let (mut voting, creator) = one_ballot(&texts, false);
    let v: Vec<Pubkey> = (0..4).map(|_| Pubkey::new_unique()).collect();
    let mut enrollments = 0;
    assert_eq!(units(&voting, 0, &v, &texts), 0);

    for voter in &v[0..3] {
        voting.add_allowed_voter(0, *voter, &[creator]).unwrap();
        enrollments += 1;
        assert_eq!(units(&voting, 0, &v, &texts), enrollments);
    }
    // A vote and a delegation move a unit and make none.
    voting.vote(0, &[v[0]], 0).unwrap();
    assert_eq!(units(&voting, 0, &v, &texts), 3);
    voting.delegate_vote(0, &v[3], &[v[1]]).unwrap();
    assert_eq!(units(&voting, 0, &v, &texts), 3);
    voting.delegate_vote(0, &v[3], &[v[2]]).unwrap();
    assert_eq!(allowance(&voting, 0, &v[3]), Some(2));
    assert_eq!(units(&voting, 0, &v, &texts), 3);
    voting.vote(0, &[v[3]], 1).unwrap();
    assert_eq!(units(&voting, 0, &v, &texts), 3);
    // Refused calls change nothing.
    assert!(voting.vote(0, &[v[0]], 0).is_err());
    assert!(voting.delegate_vote(0, &v[0], &[v[1]]).is_err());
    assert_eq!(units(&voting, 0, &v, &texts), 3);
    // Enrolling v[3] again cuts the one right left down to one: nothing is added.
    voting.add_allowed_voter(0, v[3], &[creator]).unwrap();
    enrollments += 1;
    assert_eq!(units(&voting, 0, &v, &texts), 3);
    assert!(units(&voting, 0, &v, &texts) <= enrollments);
    // Revoking takes the right away.
    voting.remove_allowed_voter(0, &v[3], &[creator]).unwrap();
    assert_eq!(units(&voting, 0, &v, &texts), 2);
    assert_eq!(count(&voting, 0, "a"), Some(1));
    assert_eq!(count(&voting, 0, "b"), Some(1));
}

#[test]
fn reading_twice_gives_the_same_counts() {
    let texts = ["a", "b", "c"];
    let (mut voting, creator) = one_ballot(&texts, false);
    let voter = Pubkey::new_unique();
    let reader = Pubkey::new_unique();
    voting.add_allowed_voter(0, voter, &[creator]).unwrap();
    voting.delegate_vote(0, &creator, &[voter]).unwrap();
    voting.vote(0, &[creator], 2).unwrap();

    let first = voting.get_results(0, &[reader]).ok().unwrap();
    let second = voting.get_results(0, &[reader]).ok().unwrap();
    assert_eq!(first.len(), 1);
    assert_eq!(second.len(), 1);
    for text in texts {
        assert_eq!(first.get(text), second.get(text));
        assert_eq!(first.get(text).copied(), count(&voting, 0, text));
    }
    assert_eq!(first.get("c"), Some(&1));
    assert_eq!(first.get("a"), None);
}

#[test]
fn results_are_a_copy() {
    let (mut voting, creator) = one_ballot(&["a"], false);
    let first = Pubkey::new_unique();
    let second = Pubkey::new_unique();
    voting.add_allowed_voter(0, first, &[creator]).unwrap();
    voting.add_allowed_voter(0, second, &[creator]).unwrap();
    voting.vote(0, &[first], 0).unwrap();
    let before = voting.get_results(0, &[creator]).ok().unwrap();
    voting.vote(0, &[second], 0).unwrap();
    let after = voting.get_results(0, &[creator]).ok().unwrap();
    assert_eq!(before.get("a"), Some(&1));
    assert_eq!(after.get("a"), Some(&2));
}

#[test]
fn results_of_a_blank_ballot_are_empty() {
    let (voting, creator) = one_ballot(&["a", "b"], false);
    let results = voting.get_results(0, &[creator]).ok().unwrap();
    assert_eq!(results.len(), 0);
    assert!(!results.contains_key("a"));
}

#[test]
fn restricted_results_are_for_the_enrolled() {
    let (mut voting, creator) = one_ballot(&["a"], true);
    let voter = Pubkey::new_unique();
    let stranger = Pubkey::new_unique();
    voting.add_allowed_voter(0, voter, &[creator]).unwrap();
    voting.vote(0, &[voter], 0).unwrap();

    assert!(matches!(voting.get_results(0, &[stranger]), Err(VotingError::VoterNotAllowed)));
    // The creator is not enrolled, and so is refused too.
    assert!(matches!(voting.get_results(0, &[creator]), Err(VotingError::VoterNotAllowed)));
    let results = voting.get_results(0, &[voter]).ok().unwrap();
    assert_eq!(results.get("a"), Some(&1));

    // Closing changes nothing about who may read.
    voting.close_vote(0, &[creator]).unwrap();
    assert!(matches!(voting.get_results(0, &[stranger]), Err(VotingError::VoterNotAllowed)));
    assert_eq!(voting.get_results(0, &[voter]).ok().unwrap().get("a"), Some(&1));
}

#[test]
fn open_results_are_for_everybody() {
    let (mut voting, creator) = one_ballot(&["a"], false);
    let stranger = Pubkey::new_unique();
    assert!(voting.get_results(0, &[stranger]).is_ok());
    voting.close_vote(0, &[creator]).unwrap();
    assert!(voting.get_results(0, &[stranger]).is_ok());
}

#[test]
fn ballot_methods_act_on_one_ballot() {
    let (voting, creator) = one_ballot(&["a"], true);
    let ballot = voting.votes().get(&0).unwrap();
    let stranger = Pubkey::new_unique();
    assert!(matches!(ballot.get_results(&stranger), Err(VotingError::VoterNotAllowed)));
    assert!(matches!(ballot.get_results(&creator), Err(VotingError::VoterNotAllowed)));
    assert!(!ballot.allowed_voters().contains_key(&creator));
    assert_eq!(ballot.get_options().len(), 1);
}

#[test]
fn roster_keeps_one_record_per_identity() {
    let first = Pubkey::new_unique();
    let second = Pubkey::new_unique();
    let third = Pubkey::new_unique();
    let mut roster = Roster::new();
    assert!(!roster.contains_key(&first));
    assert!(roster.get(&first).is_none());

    roster.insert(first, VoterInfo { votes_left: 1, delegate: None });
    roster.insert(second, VoterInfo { votes_left: 2, delegate: Some(first) });
    roster.insert(third, VoterInfo { votes_left: 3, delegate: None });
    roster.insert(first, VoterInfo { votes_left: 7, delegate: Some(third) });
    assert_eq!(roster.get(&first).unwrap().votes_left, 7);
    assert_eq!(roster.get(&first).unwrap().delegate, Some(third));
    assert_eq!(roster.get(&second).unwrap().votes_left, 2);
    assert_eq!(roster.get(&second).unwrap().delegate, Some(first));
    assert_eq!(roster.get(&third).unwrap().votes_left, 3);

    assert!(roster.remove(&first));
    assert!(!roster.remove(&first));
    assert!(!roster.contains_key(&first));
    assert_eq!(roster.get(&second).unwrap().votes_left, 2);
    assert_eq!(roster.get(&third).unwrap().votes_left, 3);
    assert!(roster.remove(&third));
    assert!(roster.remove(&second));
    assert!(!roster.contains_key(&second));
    assert!(!roster.contains_key(&third));
}

#[test]
fn counters_far_from_their_limit_have_room() {
    let (mut voting, creator) = one_ballot(&["a"], false);
    let voter = Pubkey::new_unique();
    let other = Pubkey::new_unique();
    voting.add_allowed_voter(0, voter, &[creator]).unwrap();
    assert!(voting.has_room_for_vote(0, &[voter], 0));
    assert!(voting.has_room_for_vote(0, &[other], 0));
    assert!(voting.has_room_for_vote(0, &[voter], 5));
    assert!(voting.has_room_for_vote(0, &[], 0));
    assert!(voting.has_room_for_vote(3, &[voter], 0));
    assert!(voting.has_room_for_delegation(0, &other, &[voter]));
    assert!(voting.has_room_for_delegation(0, &voter, &[voter]));
    assert!(voting.has_room_for_delegation(0, &other, &[]));
    assert!(voting.has_room_for_delegation(3, &other, &[voter]));
    let ballot = voting.votes().get(&0).unwrap();
    assert!(ballot.has_room_for_vote(&voter, 0));
    assert!(ballot.has_room_for_delegation(&other, &voter));
}
