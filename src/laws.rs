//! Properties of the store that span several calls or every input, proved
//! over the same spec functions that the operations' contracts use.
use vstd::prelude::*;
use crate::error::PollError;
use crate::model::{PollView, VoterView};
use crate::store::{
    cast_vote, change_error, closing_nanos, create_error, expired, fresh_poll, has_option, has_poll,
    has_voter_identity, has_voter_named, lemma_update_keeps_wf, new_voter, poll_index, redacted,
    register_error, registered, result_error, reweighted, store_wf, vote_error, voted, voter_index,
    MAX_POLLS,
};
use crate::time::millis_to_nanos;

verus! {

/// A full store refuses every creation with `TooManyPolls`; together with
/// creation leaving the store as it was on a refusal, a store never
/// holds more than `MAX_POLLS` polls.
pub proof fn lemma_full_store_refuses_creation(s: Seq<PollView>, name: Seq<char>, closing: Option<i64>, now: int)
    requires
        store_wf(s),
        s.len() == MAX_POLLS,
    ensures
        create_error(s, name, closing, now) == Some(PollError::TooManyPolls),
        s.len() <= MAX_POLLS,
{
}

/// In a store with room left, a closing date that does not parse is refused
/// with `InvalidDate`, and one that is not after the current time with
/// `PollClosingTimeMustFuture`.
pub proof fn lemma_bad_closing_time_refused(s: Seq<PollView>, name: Seq<char>, closing: Option<i64>, now: int)
    requires
        s.len() < MAX_POLLS,
    ensures
        closing is None ==> create_error(s, name, closing, now) == Some(PollError::InvalidDate),
        closing is Some && millis_to_nanos(closing->Some_0 as int) <= now
            ==> create_error(s, name, closing, now) == Some(PollError::PollClosingTimeMustFuture),
{
}

/// After a poll was created, creating another of the same name is refused;
/// where the store has room and the second closing date is valid and in the
/// future, the refusal is `PollInUse`. The first poll stays as created.
pub proof fn lemma_duplicate_name_refused(
    s: Seq<PollView>,
    caller: Seq<u8>,
    name: Seq<char>,
    description: Seq<char>,
    options: Seq<Seq<char>>,
    date: Seq<char>,
    closing: Option<i64>,
    closing2: Option<i64>,
    now: int,
    now2: int,
)
    requires
        store_wf(s),
        create_error(s, name, closing, now) is None,
    ensures
        ({
            let first = fresh_poll(caller, name, description, options, date, closing->Some_0 as int);
            let s2 = s.push(first);
            &&& create_error(s2, name, closing2, now2) is Some
            &&& (s2.len() < MAX_POLLS && closing2 is Some && millis_to_nanos(closing2->Some_0 as int) > now2)
                ==> create_error(s2, name, closing2, now2) == Some(PollError::PollInUse)
            &&& s2[s.len() as int] == first
        }),
{
    let s2 = s.push(fresh_poll(caller, name, description, options, date, closing->Some_0 as int));
    assert(s2[s.len() as int].name == name);
}

/// A poll as seen by anyone but its owner has no voters and no votes and is
/// otherwise the poll itself; its owner sees the whole record.
pub proof fn lemma_redaction(p: PollView, caller: Seq<u8>)
    ensures
        p.owner == caller ==> redacted(p, caller) == p,
        p.owner != caller ==> {
            let r = redacted(p, caller);
            &&& r.voters.len() == 0
            &&& r.voting_details.len() == 0
            &&& r.name == p.name
            &&& r.owner == p.owner
            &&& r.description == p.description
            &&& r.options == p.options
            &&& r.poll_closing_date == p.poll_closing_date
            &&& r.closing_millis == p.closing_millis
        },
{
}

/// In a valid store, the poll found by name after replacing the poll at `i`
/// by one of the same name is still at `i`.
proof fn lemma_index_after_update(s: Seq<PollView>, i: int, p: PollView, name: Seq<char>)
    requires
        store_wf(s),
        store_wf(s.update(i, p)),
        0 <= i < s.len(),
        s[i].name == name,
        p.name == name,
    ensures
        has_poll(s, name),
        poll_index(s, name) == i,
        has_poll(s.update(i, p), name),
        poll_index(s.update(i, p), name) == i,
{
    let t = s.update(i, p);
    assert(s[i].name == name);
    assert(t[i].name == name);
    let a = poll_index(s, name);
    let b = poll_index(t, name);
}

/// After a successful registration, registering the same voter name again in
/// that poll is refused with `VoterInUse`, whoever asks, and the same caller
/// registering again under a name not yet taken is refused with
/// `VoterPrincipalInUse`.
pub proof fn lemma_second_registration_refused(
    s: Seq<PollView>,
    caller: Seq<u8>,
    poll: Seq<char>,
    voter: Seq<char>,
    other_caller: Seq<u8>,
    other_name: Seq<char>,
)
    requires
        store_wf(s),
        register_error(s, caller, poll, voter) is None,
    ensures
        ({
            let s2 = registered(s, caller, poll, voter);
            &&& register_error(s2, other_caller, poll, voter) == Some(PollError::VoterInUse)
            &&& (other_name != voter && !has_voter_named(s[poll_index(s, poll)].voters, other_name))
                ==> register_error(s2, caller, poll, other_name) == Some(PollError::VoterPrincipalInUse)
        }),
{
    let i = poll_index(s, poll);
    let p = s[i];
    let p2 = PollView { voters: p.voters.push(new_voter(caller, voter)), ..p };
    let s2 = registered(s, caller, poll, voter);
    assert(s2 == s.update(i, p2));
    lemma_update_keeps_wf(s, i, p2);
    lemma_index_after_update(s, i, p2, poll);
    let n = p.voters.len() as int;
    assert(p2.voters[n] == new_voter(caller, voter));
    assert(has_voter_named(p2.voters, voter));
    assert(has_voter_identity(p2.voters, caller));
    if other_name != voter && !has_voter_named(p.voters, other_name) {
        assert forall|k: int| 0 <= k < p2.voters.len() implies p2.voters[k].name != other_name by {
            if k < n {
                assert(p2.voters[k] == p.voters[k]);
            }
        }
    }
}

/// Changing a voter's weight changes no vote already cast, in any poll, and
/// leaves every poll's voters as they were but that voter's weight.
pub proof fn lemma_reweighting_keeps_cast_votes(
    s: Seq<PollView>,
    caller: Seq<u8>,
    poll: Seq<char>,
    voter: Seq<char>,
    c: u32,
)
    requires
        store_wf(s),
        change_error(s, caller, poll, voter) is None,
    ensures
        ({
            let s2 = reweighted(s, poll, voter, c);
            &&& s2.len() == s.len()
            &&& forall|j: int| 0 <= j < s.len() ==> (#[trigger] s2[j]).voting_details == s[j].voting_details
        }),
{
}

/// The owner's call on a poll that exists is refused only for a voter name
/// that is missing or for the owner's own voter record; anyone else's call is
/// refused with `CallerNotPollOwner`.
pub proof fn lemma_only_owner_reweights(s: Seq<PollView>, caller: Seq<u8>, poll: Seq<char>, voter: Seq<char>)
    requires
        has_poll(s, poll),
    ensures
        s[poll_index(s, poll)].owner != caller ==> change_error(s, caller, poll, voter) == Some(
            PollError::CallerNotPollOwner,
        ),
        s[poll_index(s, poll)].owner == caller && !has_voter_named(s[poll_index(s, poll)].voters, voter)
            ==> change_error(s, caller, poll, voter) == Some(PollError::VoterNotExist),
{
}

/// A successful vote appends exactly one record to that poll's log, with an
/// option that the poll has, and changes nothing else in the store.
pub proof fn lemma_vote_appends_one_record(
    s: Seq<PollView>,
    caller: Seq<u8>,
    poll: Seq<char>,
    voter: Seq<char>,
    option: Seq<char>,
    now: int,
)
    requires
        store_wf(s),
        vote_error(s, caller, poll, voter, option, now) is None,
    ensures
        ({
            let i = poll_index(s, poll);
            let s2 = voted(s, poll, voter, option);
            &&& s2.len() == s.len()
            &&& s2[i].voting_details.len() == s[i].voting_details.len() + 1
            &&& s2[i].voting_details == s[i].voting_details.push(cast_vote(s, poll, voter, option))
            &&& cast_vote(s, poll, voter, option).option < s[i].options.len()
            &&& s2[i].voters == s[i].voters
            &&& forall|j: int| 0 <= j < s.len() && j != i ==> #[trigger] s2[j] == s[j]
        }),
{
    let i = poll_index(s, poll);
    let o = s[i].options;
    assert(has_option(o, option));
    let k0 = choose|k: int| 0 <= k < o.len() && o[k] == option;
    lemma_first_position(o, option, k0);
}

/// Where a label occurs among the options, it has a first position.
proof fn lemma_first_position(o: Seq<Seq<char>>, label: Seq<char>, k0: int)
    requires
        0 <= k0 < o.len(),
        o[k0] == label,
    ensures
        exists|k: int| 0 <= k < o.len() && o[k] == label && forall|j: int| 0 <= j < k ==> o[j] != label,
    decreases k0,
{
    if exists|j: int| 0 <= j < k0 && o[j] == label {
        let j = choose|j: int| 0 <= j < k0 && o[j] == label;
        lemma_first_position(o, label, j);
    } else {
        assert(forall|j: int| 0 <= j < k0 ==> o[j] != label);
    }
}

/// Once a poll has closed, its results are shown to exactly its owner and
/// its voters; before then, to nobody.
pub proof fn lemma_who_sees_results(s: Seq<PollView>, caller: Seq<u8>, poll: Seq<char>, now: int)
    requires
        has_poll(s, poll),
    ensures
        now < closing_nanos(s[poll_index(s, poll)]) ==> result_error(s, caller, poll, now) == Some(
            PollError::VotingNotClosed,
        ),
        now >= closing_nanos(s[poll_index(s, poll)]) ==> (result_error(s, caller, poll, now) is None <==> (
        s[poll_index(s, poll)].owner == caller || has_voter_identity(s[poll_index(s, poll)].voters, caller))),
        now >= closing_nanos(s[poll_index(s, poll)]) && s[poll_index(s, poll)].owner != caller
            && !has_voter_identity(s[poll_index(s, poll)].voters, caller) ==> result_error(s, caller, poll, now)
            == Some(PollError::OnlyVoterAndPollOwnerCanViewResults),
{
}

/// Removing expired polls twice with the same grace period at the same time
/// removes nothing the second time: what the first call kept has not expired.
pub proof fn lemma_removal_twice_removes_nothing(s: Seq<PollView>, grace: int, now: int)
    ensures
        ({
            let kept = s.filter(|p: PollView| !expired(p, grace, now));
            &&& kept.filter(|p: PollView| expired(p, grace, now)) == Seq::<PollView>::empty()
            &&& kept.filter(|p: PollView| !expired(p, grace, now)) == kept
        }),
{
    let gone = |p: PollView| expired(p, grace, now);
    let stays = |p: PollView| !expired(p, grace, now);
    let kept = s.filter(stays);
    broadcast use vstd::seq_lib::group_filter_ensures;
    let again = kept.filter(gone);
    if again.len() > 0 {
        assert(gone(again[0]));
        assert(kept.contains(again[0])) by {
            lemma_filtered_from(kept, gone, 0);
        }
        let j = choose|j: int| 0 <= j < kept.len() && kept[j] == again[0];
        assert(stays(kept[j]));
    }
    assert(again =~= Seq::<PollView>::empty());
    lemma_filter_keeps_all(kept, stays);
}

/// Every element of a filtered sequence comes from the sequence.
proof fn lemma_filtered_from<A>(s: Seq<A>, pred: spec_fn(A) -> bool, i: int)
    requires
        0 <= i < s.filter(pred).len(),
    ensures
        s.contains(s.filter(pred)[i]),
    decreases s.len(),
{
    reveal_with_fuel(Seq::filter, 1);
    if s.len() > 0 {
        let sub = s.drop_last().filter(pred);
        if pred(s.last()) && i == sub.len() {
            assert(s[s.len() - 1] == s.last());
        } else {
            lemma_filtered_from(s.drop_last(), pred, i);
            let j = choose|j: int| 0 <= j < s.drop_last().len() && s.drop_last()[j] == sub[i];
            assert(s[j] == s.drop_last()[j]);
        }
    }
}

/// Filtering a sequence whose elements all pass gives the sequence back.
proof fn lemma_filter_keeps_all<A>(s: Seq<A>, pred: spec_fn(A) -> bool)
    requires
        forall|i: int| 0 <= i < s.len() ==> pred(#[trigger] s[i]),
    ensures
        s.filter(pred) == s,
    decreases s.len(),
{
    reveal_with_fuel(Seq::filter, 1);
    if s.len() > 0 {
        assert forall|i: int| 0 <= i < s.drop_last().len() implies pred(#[trigger] s.drop_last()[i]) by {
            assert(s.drop_last()[i] == s[i]);
        }
        lemma_filter_keeps_all(s.drop_last(), pred);
        assert(pred(s[s.len() - 1]));
        assert(s.drop_last().push(s.last()) =~= s);
    }
}

} // verus!
