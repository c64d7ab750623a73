use poll_store::error::PollError;
use poll_store::model::{Identity, PollPayload, DEFAULT_CONTRIBUTION};
use poll_store::store::{PollStore, MAX_POLLS};

// 2025-01-01T00:00:00Z in nanoseconds since the epoch.
const NOW: u64 = 1_735_689_600_000_000_000;
// One hour, in nanoseconds.
const HOUR: u64 = 3_600_000_000_000;
// Closes at 2025-01-01T01:00:00Z, one hour after NOW.
const SOON: &str = "2025-01-01T01:00:00Z";

fn who(b: u8) -> Identity {
    Identity::new(vec![b, 7, b])
}

fn payload(name: &str, date: &str) -> PollPayload {
    PollPayload {
        name: name.to_string(),
        description: format!("about {}", name),
        options: vec!["yes".to_string(), "no".to_string(), "maybe".to_string()],
        poll_closing_date: date.to_string(),
    }
}

fn store_with_poll(owner: &Identity) -> PollStore {
    let mut s = PollStore::new();
    assert!(s.create_poll(owner, payload("lunch", SOON), NOW).is_ok());
    s
}

fn tally(store: &PollStore, caller: &Identity, poll: &str, labels: &[&str], now: u64) -> Vec<String> {
    let weights = store.get_voting_result(caller, &poll.to_string(), now).unwrap();
    assert_eq!(weights.len(), labels.len());
    let mut out = Vec::new();
    for (label, bits) in labels.iter().zip(weights.iter()) {
        let mut sum: f32 = 0.0;
        for b in bits {
            sum += f32::from_bits(*b);
        }
        out.push(format!("{}: {:.2}", label, sum));
    }
    out
}

#[test]
fn creating_one_poll_too_many_fails() {
    let owner = who(1);
    let mut s = PollStore::new();
    for k in 0..MAX_POLLS {
        let name = format!("poll{}", k);
        assert!(s.create_poll(&owner, payload(&name, SOON), NOW).is_ok());
    }
    let r = s.create_poll(&owner, payload("extra", SOON), NOW);
    assert_eq!(r.unwrap_err(), PollError::TooManyPolls);
    assert_eq!(s.len(), MAX_POLLS);
    assert_eq!(s.get_all_polls(&owner).len(), MAX_POLLS);
}

#[test]
fn created_poll_is_owned_by_caller_and_empty() {
    let owner = who(1);
    let mut s = PollStore::new();
    let p = s.create_poll(&owner, payload("lunch", SOON), NOW).unwrap();
    assert_eq!(p.name, "lunch");
    assert_eq!(p.owner.bytes, vec![1, 7, 1]);
    assert_eq!(p.description, "about lunch");
    assert_eq!(p.options, vec!["yes", "no", "maybe"]);
    assert_eq!(p.poll_closing_date, SOON);
    assert_eq!(p.closing_millis, 1_735_693_200_000);
    assert!(p.voters.is_empty());
    assert!(p.voting_details.is_empty());
}

#[test]
fn closing_date_with_offset_is_parsed_to_the_instant() {
    let owner = who(1);
    let mut s = PollStore::new();
    let p = s.create_poll(&owner, payload("lunch", "2025-01-01T03:00:00.250+02:00"), NOW).unwrap();
    assert_eq!(p.closing_millis, 1_735_693_200_250);
}

#[test]
fn past_closing_time_fails() {
    let owner = who(1);
    let mut s = store_with_poll(&owner);
    let r = s.create_poll(&owner, payload("old", "2024-12-31T23:00:00Z"), NOW);
    assert_eq!(r.unwrap_err(), PollError::PollClosingTimeMustFuture);
    assert_eq!(s.len(), 1);
}

#[test]
fn closing_time_equal_to_now_fails() {
    let owner = who(1);
    let mut s = PollStore::new();
    let r = s.create_poll(&owner, payload("now", "2025-01-01T00:00:00Z"), NOW);
    assert_eq!(r.unwrap_err(), PollError::PollClosingTimeMustFuture);
    assert_eq!(s.len(), 0);
}

#[test]
fn unparsable_closing_time_fails() {
    let owner = who(1);
    let mut s = store_with_poll(&owner);
    let r = s.create_poll(&owner, payload("bad", "next tuesday"), NOW);
    assert_eq!(r.unwrap_err(), PollError::InvalidDate);
    let r = s.create_poll(&owner, payload("bad", "2025-13-01T00:00:00Z"), NOW);
    assert_eq!(r.unwrap_err(), PollError::InvalidDate);
    assert_eq!(s.len(), 1);
}

#[test]
fn same_name_twice_fails_and_keeps_first() {
    let owner = who(1);
    let other = who(2);
    let mut s = store_with_poll(&owner);
    let mut second = payload("lunch", "2025-06-01T00:00:00Z");
    second.description = "another".to_string();
    let r = s.create_poll(&other, second, NOW);
    assert_eq!(r.unwrap_err(), PollError::PollInUse);
    assert_eq!(s.len(), 1);
    let p = s.get_poll_by_name(&owner, &"lunch".to_string()).unwrap();
    assert_eq!(p.description, "about lunch");
    assert_eq!(p.owner.bytes, owner.bytes);
    assert_eq!(p.poll_closing_date, SOON);
}

#[test]
fn missing_poll_is_reported() {
    let owner = who(1);
    let mut s = store_with_poll(&owner);
    let none = "dinner".to_string();
    assert_eq!(s.get_poll_by_name(&owner, &none).unwrap_err(), PollError::PollNotExist);
    assert_eq!(s.register_voter_to_poll(&owner, &none, "ann".to_string()).unwrap_err(), PollError::PollNotExist);
    assert_eq!(
        s.change_voter_contribution(&owner, &none, &"ann".to_string(), 0).unwrap_err(),
        PollError::PollNotExist
    );
    assert_eq!(
        s.vote_to_poll(&owner, &none, &"ann".to_string(), &"yes".to_string(), NOW).unwrap_err(),
        PollError::PollNotExist
    );
    assert_eq!(s.get_voting_result(&owner, &none, NOW + 2 * HOUR).unwrap_err(), PollError::PollNotExist);
}

#[test]
fn non_owner_sees_polls_without_voters_and_votes() {
    let owner = who(1);
    let ann = who(2);
    let stranger = who(3);
    let mut s = store_with_poll(&owner);
    let name = "lunch".to_string();
    s.register_voter_to_poll(&ann, &name, "ann".to_string()).unwrap();
    s.vote_to_poll(&ann, &name, &"ann".to_string(), &"no".to_string(), NOW).unwrap();
    s.create_poll(&stranger, payload("tea", SOON), NOW).unwrap();

    let seen = s.get_poll_by_name(&stranger, &name).unwrap();
    assert!(seen.voters.is_empty());
    assert!(seen.voting_details.is_empty());
    assert_eq!(seen.options.len(), 3);
    let seen = s.get_poll_by_name(&ann, &name).unwrap();
    assert!(seen.voters.is_empty());
    assert!(seen.voting_details.is_empty());

    let all = s.get_all_polls(&stranger);
    assert_eq!(all.len(), 2);
    assert!(all[0].voters.is_empty() && all[0].voting_details.is_empty());
    assert_eq!(all[1].name, "tea");

    let full = s.get_poll_by_name(&owner, &name).unwrap();
    assert_eq!(full.voters.len(), 1);
    assert_eq!(full.voting_details.len(), 1);
    let all = s.get_all_polls(&owner);
    assert_eq!(all[0].voters.len(), 1);
    assert_eq!(all[0].voting_details.len(), 1);

    // Redaction is of the copy only.
    let again = s.get_poll_by_name(&owner, &name).unwrap();
    assert_eq!(again.voters[0].name, "ann");
}

#[test]
fn registering_same_name_or_identity_twice_fails() {
    let owner = who(1);
    let ann = who(2);
    let bob = who(3);
    let mut s = store_with_poll(&owner);
    let name = "lunch".to_string();
    let v = s.register_voter_to_poll(&ann, &name, "ann".to_string()).unwrap();
    assert_eq!(v.name, "ann");
    assert_eq!(v.voter.bytes, ann.bytes);
    assert_eq!(v.contribution, DEFAULT_CONTRIBUTION);
    assert_eq!(f32::from_bits(v.contribution), 1.0);
    assert_eq!(s.register_voter_to_poll(&bob, &name, "ann".to_string()).unwrap_err(), PollError::VoterInUse);
    assert_eq!(s.register_voter_to_poll(&ann, &name, "annie".to_string()).unwrap_err(), PollError::VoterPrincipalInUse);
    assert_eq!(s.get_poll_by_name(&owner, &name).unwrap().voters.len(), 1);
    // The owner is not kept from registering.
    assert!(s.register_voter_to_poll(&owner, &name, "boss".to_string()).is_ok());
}

#[test]
fn only_owner_changes_contribution() {
    let owner = who(1);
    let ann = who(2);
    let mut s = store_with_poll(&owner);
    let name = "lunch".to_string();
    s.register_voter_to_poll(&ann, &name, "ann".to_string()).unwrap();
    let three = 3.0f32.to_bits();
    assert_eq!(
        s.change_voter_contribution(&ann, &name, &"ann".to_string(), three).unwrap_err(),
        PollError::CallerNotPollOwner
    );
    assert_eq!(
        s.change_voter_contribution(&owner, &name, &"zed".to_string(), three).unwrap_err(),
        PollError::VoterNotExist
    );
    let v = s.change_voter_contribution(&owner, &name, &"ann".to_string(), three).unwrap();
    assert_eq!(v.name, "ann");
    assert_eq!(v.voter.bytes, ann.bytes);
    assert_eq!(f32::from_bits(v.contribution), 3.0);
    let p = s.get_poll_by_name(&owner, &name).unwrap();
    assert_eq!(f32::from_bits(p.voters[0].contribution), 3.0);
}

#[test]
fn owner_cannot_change_own_contribution() {
    let owner = who(1);
    let mut s = store_with_poll(&owner);
    let name = "lunch".to_string();
    s.register_voter_to_poll(&owner, &name, "boss".to_string()).unwrap();
    assert_eq!(
        s.change_voter_contribution(&owner, &name, &"boss".to_string(), 5.0f32.to_bits()).unwrap_err(),
        PollError::PollOwnerCannotChangeContribution
    );
}

#[test]
fn changed_contribution_leaves_cast_votes() {
    let owner = who(1);
    let ann = who(2);
    let mut s = store_with_poll(&owner);
    let name = "lunch".to_string();
    let ann_name = "ann".to_string();
    s.register_voter_to_poll(&ann, &name, ann_name.clone()).unwrap();
    let d = s.vote_to_poll(&ann, &name, &ann_name, &"yes".to_string(), NOW).unwrap();
    assert_eq!(f32::from_bits(d.contribution), 1.0);
    s.change_voter_contribution(&owner, &name, &ann_name, 4.0f32.to_bits()).unwrap();
    let p = s.get_poll_by_name(&owner, &name).unwrap();
    assert_eq!(p.voting_details.len(), 1);
    assert_eq!(f32::from_bits(p.voting_details[0].contribution), 1.0);
    let d = s.vote_to_poll(&ann, &name, &ann_name, &"no".to_string(), NOW).unwrap();
    assert_eq!(f32::from_bits(d.contribution), 4.0);
}

#[test]
fn voting_rules() {
    let owner = who(1);
    let ann = who(2);
    let bob = who(3);
    let mut s = store_with_poll(&owner);
    let name = "lunch".to_string();
    let ann_name = "ann".to_string();
    s.register_voter_to_poll(&ann, &name, ann_name.clone()).unwrap();
    let yes = "yes".to_string();
    assert_eq!(s.vote_to_poll(&ann, &name, &ann_name, &yes, NOW + HOUR).unwrap_err(), PollError::VotingIsOver);
    assert_eq!(s.vote_to_poll(&ann, &name, &ann_name, &yes, NOW + 2 * HOUR).unwrap_err(), PollError::VotingIsOver);
    assert_eq!(s.vote_to_poll(&ann, &name, &"zed".to_string(), &yes, NOW).unwrap_err(), PollError::VoterNotExist);
    assert_eq!(s.vote_to_poll(&bob, &name, &ann_name, &yes, NOW).unwrap_err(), PollError::VoterNotAuthorized);
    assert_eq!(
        s.vote_to_poll(&ann, &name, &ann_name, &"never".to_string(), NOW).unwrap_err(),
        PollError::OptionNotExist
    );
    assert!(s.get_poll_by_name(&owner, &name).unwrap().voting_details.is_empty());

    let d = s.vote_to_poll(&ann, &name, &ann_name, &"maybe".to_string(), NOW).unwrap();
    assert_eq!(d.name, "ann");
    assert_eq!(d.option, 2);
    assert_eq!(s.get_poll_by_name(&owner, &name).unwrap().voting_details.len(), 1);
    // Voting again is not prevented: each success appends one record.
    s.vote_to_poll(&ann, &name, &ann_name, &"yes".to_string(), NOW).unwrap();
    let p = s.get_poll_by_name(&owner, &name).unwrap();
    assert_eq!(p.voting_details.len(), 2);
    assert_eq!(p.voting_details[1].option, 0);
}

#[test]
fn repeated_label_votes_for_first_option() {
    let owner = who(1);
    let ann = who(2);
    let mut s = PollStore::new();
    let mut pl = payload("pick", SOON);
    pl.options = vec!["a".to_string(), "b".to_string(), "a".to_string()];
    s.create_poll(&owner, pl, NOW).unwrap();
    let name = "pick".to_string();
    s.register_voter_to_poll(&ann, &name, "ann".to_string()).unwrap();
    let d = s.vote_to_poll(&ann, &name, &"ann".to_string(), &"a".to_string(), NOW).unwrap();
    assert_eq!(d.option, 0);
}

#[test]
fn results_only_after_close_for_owner_and_voters() {
    let owner = who(1);
    let ann = who(2);
    let bob = who(3);
    let stranger = who(4);
    let mut s = store_with_poll(&owner);
    let name = "lunch".to_string();
    s.register_voter_to_poll(&ann, &name, "ann".to_string()).unwrap();
    s.register_voter_to_poll(&bob, &name, "bob".to_string()).unwrap();
    s.change_voter_contribution(&owner, &name, &"bob".to_string(), 2.5f32.to_bits()).unwrap();
    s.vote_to_poll(&ann, &name, &"ann".to_string(), &"no".to_string(), NOW).unwrap();
    s.vote_to_poll(&bob, &name, &"bob".to_string(), &"no".to_string(), NOW).unwrap();

    assert_eq!(s.get_voting_result(&owner, &name, NOW).unwrap_err(), PollError::VotingNotClosed);
    assert_eq!(
        s.get_voting_result(&stranger, &name, NOW + HOUR).unwrap_err(),
        PollError::OnlyVoterAndPollOwnerCanViewResults
    );
    let labels = ["yes", "no", "maybe"];
    let expected = vec!["yes: 0.00".to_string(), "no: 3.50".to_string(), "maybe: 0.00".to_string()];
    assert_eq!(tally(&s, &owner, "lunch", &labels, NOW + HOUR), expected);
    assert_eq!(tally(&s, &ann, "lunch", &labels, NOW + 2 * HOUR), expected);
    assert_eq!(tally(&s, &bob, "lunch", &labels, NOW + HOUR), expected);

    let raw = s.get_voting_result(&owner, &name, NOW + HOUR).unwrap();
    assert_eq!(raw[1], vec![1.0f32.to_bits(), 2.5f32.to_bits()]);
    assert!(raw[0].is_empty() && raw[2].is_empty());
}

#[test]
fn removing_expired_polls() {
    let owner = who(1);
    let mut s = PollStore::new();
    s.create_poll(&owner, payload("a", "2025-01-01T01:00:00Z"), NOW).unwrap();
    s.create_poll(&owner, payload("b", "2025-01-01T05:00:00Z"), NOW).unwrap();
    s.create_poll(&owner, payload("c", "2025-01-01T02:00:00Z"), NOW).unwrap();

    // Three hours after NOW, with a grace of one hour: only "a" is past it.
    let later = NOW + 3 * HOUR;
    assert!(s.remove_expired_polls(7200, later).is_empty());
    let gone = s.remove_expired_polls(3600, later);
    assert_eq!(gone.len(), 1);
    assert_eq!(gone[0].name, "a");
    assert_eq!(s.len(), 2);
    assert!(s.remove_expired_polls(3600, later).is_empty());
    assert_eq!(s.len(), 2);

    // Exactly at the limit nothing goes; strictly past it, it does.
    assert!(s.remove_expired_polls(0, NOW + 2 * HOUR).is_empty());
    let gone = s.remove_expired_polls(0, NOW + 2 * HOUR + 1);
    assert_eq!(gone.len(), 1);
    assert_eq!(gone[0].name, "c");
    let names: Vec<String> = s.get_all_polls(&owner).into_iter().map(|p| p.name).collect();
    assert_eq!(names, vec!["b".to_string()]);

    // Room is made for new polls.
    assert!(s.create_poll(&owner, payload("d", SOON), NOW).is_ok());
}

#[test]
fn removed_polls_keep_their_records() {
    let owner = who(1);
    let ann = who(2);
    let mut s = store_with_poll(&owner);
    let name = "lunch".to_string();
    s.register_voter_to_poll(&ann, &name, "ann".to_string()).unwrap();
    s.vote_to_poll(&ann, &name, &"ann".to_string(), &"yes".to_string(), NOW).unwrap();
    let gone = s.remove_expired_polls(-1800, NOW + HOUR / 2 + 1);
    assert_eq!(gone.len(), 1);
    assert_eq!(gone[0].voters.len(), 1);
    assert_eq!(gone[0].voting_details.len(), 1);
    assert_eq!(s.len(), 0);
}

#[test]
fn error_messages() {
    assert_eq!(PollError::TooManyPolls.message(), "Too many polls created.");
    assert_eq!(PollError::InvalidDate.message(), "Date format is invalid.");
    assert_eq!(PollError::PollClosingTimeMustFuture.message(), "Poll closing time must be in the future.");
    assert_eq!(PollError::PollInUse.message(), "Poll already in use.");
    assert_eq!(PollError::PollNotExist.message(), "Poll does not exist.");
    assert_eq!(PollError::VoterInUse.message(), "Voter already in use.");
    assert_eq!(PollError::VoterPrincipalInUse.message(), "Voter principal already in use.");
    assert_eq!(PollError::VoterNotExist.message(), "Voter does not exist.");
    assert_eq!(PollError::VoterNotAuthorized.message(), "Voter is not authorized.");
    assert_eq!(PollError::CallerNotPollOwner.message(), "Caller is not the poll owner.");
    assert_eq!(
        PollError::PollOwnerCannotChangeContribution.message(),
        "Poll owner cannot change own contribution."
    );
    assert_eq!(PollError::OptionNotExist.message(), "Option does not exist.");
    assert_eq!(PollError::VotingIsOver.message(), "Voting is over.");
    assert_eq!(
        PollError::OnlyVoterAndPollOwnerCanViewResults.message(),
        "Only the voter and the poll owner can view voting results."
    );
    assert_eq!(PollError::VotingNotClosed.message(), "Voting is not closed.");
}

#[test]
fn identities_compare_by_bytes() {
    assert!(who(1).same(&who(1)));
    assert!(!who(1).same(&who(2)));
    assert!(!Identity::new(vec![1]).same(&Identity::new(vec![1, 0])));
}

#[test]
fn creation_with_a_parsed_closing_instant() {
    let owner = who(1);
    let mut s = PollStore::new();
    let r = s.create_poll_closing_at(&owner, payload("x", "unused"), None, NOW);
    assert_eq!(r.unwrap_err(), PollError::InvalidDate);
    // NOW is 1_735_689_600_000 ms.
    let r = s.create_poll_closing_at(&owner, payload("x", "unused"), Some(1_735_689_600_000), NOW);
    assert_eq!(r.unwrap_err(), PollError::PollClosingTimeMustFuture);
    let p = s.create_poll_closing_at(&owner, payload("x", "unused"), Some(1_735_689_600_001), NOW).unwrap();
    assert_eq!(p.closing_millis, 1_735_689_600_001);
    assert_eq!(p.poll_closing_date, "unused");
    let mut v = Vec::new();
    v.push(s.create_poll_closing_at(&owner, payload("x", "unused"), Some(1_735_689_600_001), NOW));
    assert_eq!(v.pop().unwrap().unwrap_err(), PollError::PollInUse);
    assert_eq!(s.len(), 1);
}
