//! The poll store and its operations, each a transition whose contract says
//! exactly which error it gives, or what it returns and how the store changes.
use vstd::prelude::*;
use crate::error::PollError;
use crate::model::{
    details_view, strings_view, voters_view,
    Identity, Poll, PollPayload, PollView, Voter, VoterView, VotingDetail, VotingDetailView,
    DEFAULT_CONTRIBUTION,
};
use crate::time::{millis_to_nanos, nanos_of_millis, NANOS_PER_SECOND, parse_rfc3339_millis, rfc3339_millis};

verus! {

/// The largest number of polls that the store holds at any time.
pub const MAX_POLLS: usize = 3;

pub open spec fn polls_view(v: Seq<Poll>) -> Seq<PollView> {
    v.map_values(|p: Poll| p@)
}

/// Whether the store holds a poll named `name`.
pub open spec fn has_poll(s: Seq<PollView>, name: Seq<char>) -> bool {
    exists|i: int| 0 <= i < s.len() && s[i].name == name
}

/// The position of the poll named `name` (names are unique in a valid store).
pub open spec fn poll_index(s: Seq<PollView>, name: Seq<char>) -> int {
    choose|i: int| 0 <= i < s.len() && s[i].name == name
}

pub open spec fn has_voter_named(v: Seq<VoterView>, name: Seq<char>) -> bool {
    exists|i: int| 0 <= i < v.len() && v[i].name == name
}

pub open spec fn has_voter_identity(v: Seq<VoterView>, id: Seq<u8>) -> bool {
    exists|i: int| 0 <= i < v.len() && v[i].voter == id
}

/// The position of the voter named `name` (voter names are unique in a poll).
pub open spec fn voter_index(v: Seq<VoterView>, name: Seq<char>) -> int {
    choose|i: int| 0 <= i < v.len() && v[i].name == name
}

pub open spec fn has_option(o: Seq<Seq<char>>, label: Seq<char>) -> bool {
    exists|k: int| 0 <= k < o.len() && o[k] == label
}

/// The first position at which `label` stands among the options.
pub open spec fn option_index(o: Seq<Seq<char>>, label: Seq<char>) -> int {
    choose|k: int| 0 <= k < o.len() && o[k] == label && forall|j: int| 0 <= j < k ==> o[j] != label
}

/// Within one poll voter names and voter identities are unique, and every
/// cast vote names one of the poll's options.
pub open spec fn poll_wf(p: PollView) -> bool {
    &&& forall|i: int, j: int|
        0 <= i < p.voters.len() && 0 <= j < p.voters.len() && i != j
            ==> p.voters[i].name != p.voters[j].name
    &&& forall|i: int, j: int|
        0 <= i < p.voters.len() && 0 <= j < p.voters.len() && i != j
            ==> p.voters[i].voter != p.voters[j].voter
    &&& forall|k: int| 0 <= k < p.voting_details.len() ==> p.voting_details[k].option < p.options.len()
}

/// The store holds at most `MAX_POLLS` polls, with unique names, each valid.
pub open spec fn store_wf(s: Seq<PollView>) -> bool {
    &&& s.len() <= MAX_POLLS
    &&& forall|i: int, j: int| 0 <= i < s.len() && 0 <= j < s.len() && i != j ==> s[i].name != s[j].name
    &&& forall|i: int| 0 <= i < s.len() ==> poll_wf(#[trigger] s[i])
}

/// The instant at which a poll closes, in nanoseconds since the epoch.
pub open spec fn closing_nanos(p: PollView) -> int {
    millis_to_nanos(p.closing_millis)
}

/// The poll as a caller sees it: its owner sees all of it, anyone else sees
/// it without its voters and votes.
pub open spec fn redacted(p: PollView, caller: Seq<u8>) -> PollView {
    if p.owner == caller {
        p
    } else {
        PollView { voters: Seq::empty(), voting_details: Seq::empty(), ..p }
    }
}

/// Why creating a poll named `name` is refused, if it is, given what its
/// closing date parsed to (`None` when it did not parse) and the time `now`.
pub open spec fn create_error(s: Seq<PollView>, name: Seq<char>, closing: Option<i64>, now: int) -> Option<PollError> {
    if s.len() >= MAX_POLLS {
        Some(PollError::TooManyPolls)
    } else if closing is None {
        Some(PollError::InvalidDate)
    } else if millis_to_nanos(closing->Some_0 as int) <= now {
        Some(PollError::PollClosingTimeMustFuture)
    } else if has_poll(s, name) {
        Some(PollError::PollInUse)
    } else {
        None
    }
}

/// The poll that creation makes: owned by the caller, with no voters and no
/// votes.
pub open spec fn fresh_poll(
    caller: Seq<u8>,
    name: Seq<char>,
    description: Seq<char>,
    options: Seq<Seq<char>>,
    date: Seq<char>,
    closing_millis: int,
) -> PollView {
    PollView {
        name,
        owner: caller,
        description,
        options,
        poll_closing_date: date,
        closing_millis,
        voters: Seq::empty(),
        voting_details: Seq::empty(),
    }
}

/// Why `register_voter_to_poll` refuses, if it does.
pub open spec fn register_error(s: Seq<PollView>, caller: Seq<u8>, poll: Seq<char>, voter: Seq<char>) -> Option<PollError> {
    if !has_poll(s, poll) {
        Some(PollError::PollNotExist)
    } else if has_voter_named(s[poll_index(s, poll)].voters, voter) {
        Some(PollError::VoterInUse)
    } else if has_voter_identity(s[poll_index(s, poll)].voters, caller) {
        Some(PollError::VoterPrincipalInUse)
    } else {
        None
    }
}

/// The voter that registration adds: the caller, with the default weight.
pub open spec fn new_voter(caller: Seq<u8>, voter: Seq<char>) -> VoterView {
    VoterView { name: voter, voter: caller, contribution: DEFAULT_CONTRIBUTION }
}

/// The store after `caller` registered as `voter` in the poll named `poll`.
pub open spec fn registered(s: Seq<PollView>, caller: Seq<u8>, poll: Seq<char>, voter: Seq<char>) -> Seq<PollView> {
    let i = poll_index(s, poll);
    s.update(i, PollView { voters: s[i].voters.push(new_voter(caller, voter)), ..s[i] })
}

/// Why `change_voter_contribution` refuses, if it does.
pub open spec fn change_error(s: Seq<PollView>, caller: Seq<u8>, poll: Seq<char>, voter: Seq<char>) -> Option<PollError> {
    if !has_poll(s, poll) {
        Some(PollError::PollNotExist)
    } else if s[poll_index(s, poll)].owner != caller {
        Some(PollError::CallerNotPollOwner)
    } else if !has_voter_named(s[poll_index(s, poll)].voters, voter) {
        Some(PollError::VoterNotExist)
    } else if s[poll_index(s, poll)].voters[voter_index(s[poll_index(s, poll)].voters, voter)].voter == caller {
        Some(PollError::PollOwnerCannotChangeContribution)
    } else {
        None
    }
}

/// The voter named `voter` in the poll named `poll`, with weight `c`.
pub open spec fn reweighted_voter(s: Seq<PollView>, poll: Seq<char>, voter: Seq<char>, c: u32) -> VoterView {
    let p = s[poll_index(s, poll)];
    VoterView { contribution: c, ..p.voters[voter_index(p.voters, voter)] }
}

/// The store after the weight of the voter named `voter` in the poll named
/// `poll` became `c`; the votes already cast are kept as they were.
pub open spec fn reweighted(s: Seq<PollView>, poll: Seq<char>, voter: Seq<char>, c: u32) -> Seq<PollView> {
    let i = poll_index(s, poll);
    let p = s[i];
    s.update(i, PollView {
        voters: p.voters.update(voter_index(p.voters, voter), reweighted_voter(s, poll, voter, c)),
        ..p
    })
}

/// Why `vote_to_poll` refuses, if it does, at time `now`.
pub open spec fn vote_error(
    s: Seq<PollView>,
    caller: Seq<u8>,
    poll: Seq<char>,
    voter: Seq<char>,
    option: Seq<char>,
    now: int,
) -> Option<PollError> {
    if !has_poll(s, poll) {
        Some(PollError::PollNotExist)
    } else if closing_nanos(s[poll_index(s, poll)]) <= now {
        Some(PollError::VotingIsOver)
    } else if !has_voter_named(s[poll_index(s, poll)].voters, voter) {
        Some(PollError::VoterNotExist)
    } else if s[poll_index(s, poll)].voters[voter_index(s[poll_index(s, poll)].voters, voter)].voter != caller {
        Some(PollError::VoterNotAuthorized)
    } else if !has_option(s[poll_index(s, poll)].options, option) {
        Some(PollError::OptionNotExist)
    } else {
        None
    }
}

/// The vote that `voter` casts for `option` in the poll named `poll`: the
/// option's first position and the voter's weight at this moment.
pub open spec fn cast_vote(s: Seq<PollView>, poll: Seq<char>, voter: Seq<char>, option: Seq<char>) -> VotingDetailView {
    let p = s[poll_index(s, poll)];
    VotingDetailView {
        name: voter,
        option: option_index(p.options, option) as nat,
        contribution: p.voters[voter_index(p.voters, voter)].contribution,
    }
}

/// The store after that vote was appended to the poll's log.
pub open spec fn voted(s: Seq<PollView>, poll: Seq<char>, voter: Seq<char>, option: Seq<char>) -> Seq<PollView> {
    let i = poll_index(s, poll);
    s.update(i, PollView {
        voting_details: s[i].voting_details.push(cast_vote(s, poll, voter, option)),
        ..s[i]
    })
}

/// Why `get_voting_result` refuses, if it does, at time `now`: results are
/// shown only once the poll has closed, and only to its owner and voters.
pub open spec fn result_error(s: Seq<PollView>, caller: Seq<u8>, poll: Seq<char>, now: int) -> Option<PollError> {
    if !has_poll(s, poll) {
        Some(PollError::PollNotExist)
    } else if now < closing_nanos(s[poll_index(s, poll)]) {
        Some(PollError::VotingNotClosed)
    } else if s[poll_index(s, poll)].owner != caller && !has_voter_identity(s[poll_index(s, poll)].voters, caller) {
        Some(PollError::OnlyVoterAndPollOwnerCanViewResults)
    } else {
        None
    }
}

/// The weights of the votes cast for the option at position `k`, in the
/// order in which they were cast.
pub open spec fn option_contributions(details: Seq<VotingDetailView>, k: nat) -> Seq<u32> {
    details.filter(|d: VotingDetailView| d.option == k).map_values(|d: VotingDetailView| d.contribution)
}

/// Whether a poll is past its closing time by more than `grace` seconds at `now`.
pub open spec fn expired(p: PollView, grace: int, now: int) -> bool {
    closing_nanos(p) + grace * 1_000_000_000 < now
}

/// Replacing a poll by a valid one of the same name keeps the store valid.
pub proof fn lemma_update_keeps_wf(s: Seq<PollView>, i: int, p: PollView)
    requires
        store_wf(s),
        0 <= i < s.len(),
        p.name == s[i].name,
        poll_wf(p),
    ensures
        store_wf(s.update(i, p)),
{
    let t = s.update(i, p);
    assert forall|j: int| 0 <= j < t.len() implies poll_wf(#[trigger] t[j]) by {
        if j != i {
            assert(t[j] == s[j]);
        }
    }
    assert forall|a: int, b: int| 0 <= a < t.len() && 0 <= b < t.len() && a != b implies t[a].name != t[b].name by {
        assert(t[a].name == s[a].name);
        assert(t[b].name == s[b].name);
    }
}

/// The store of polls, keyed by name and kept in order of creation.
pub struct PollStore {
    polls: Vec<Poll>,
}

impl View for PollStore {
    type V = Seq<PollView>;

    closed spec fn view(&self) -> Seq<PollView> {
        polls_view(self.polls@)
    }
}

impl PollStore {
    pub open spec fn wf(&self) -> bool {
        store_wf(self@)
    }

    /// An empty store.
    pub fn new() -> (r: PollStore)
        ensures
            r.wf(),
            r@ == Seq::<PollView>::empty(),
    {
        let r = PollStore { polls: Vec::new() };
        assert(r@ =~= Seq::<PollView>::empty());
        r
    }

    /// The number of polls in the store.
    pub fn len(&self) -> (r: usize)
        ensures
            r == self@.len(),
    {
        self.polls.len()
    }

    /// Finds the poll named `name`.
    fn find(&self, name: &String) -> (r: Option<usize>)
        requires
            self.wf(),
        ensures
            match r {
                None => !has_poll(self@, name@),
                Some(i) => has_poll(self@, name@) && i == poll_index(self@, name@) && i < self@.len(),
            },
    {
        let mut i: usize = 0;
        while i < self.polls.len()
            invariant
                self.wf(),
                i <= self@.len(),
                forall|j: int| 0 <= j < i ==> self@[j].name != name@,
            decreases self@.len() - i,
        {
            if self.polls[i].name == *name {
                assert(self@[i as int].name == name@);
                let ghost k = poll_index(self@, name@);
                assert(self@[k].name == name@);
                return Some(i);
            }
            i = i + 1;
        }
        None
    }

    /// Creates a poll owned by `caller`, given the current time `now` in
    /// nanoseconds since the epoch. Refused when the store is full, when the
    /// closing date does not parse as an RFC 3339 timestamp, when it is not
    /// after `now`, or when the name is taken, in that order; a refused call
    /// changes nothing.
    pub fn create_poll(&mut self, caller: &Identity, payload: PollPayload, now: u64) -> (r: Result<Poll, PollError>)
        requires
            old(self).wf(),
        ensures
            final(self).wf(),
            ({
                let closing = rfc3339_millis(payload.poll_closing_date@);
                match create_error(old(self)@, payload.name@, closing, now as int) {
                    Some(e) => r == Err::<Poll, PollError>(e) && final(self)@ == old(self)@,
                    None => {
                        let p = fresh_poll(
                            caller@,
                            payload.name@,
                            payload.description@,
                            strings_view(payload.options@),
                            payload.poll_closing_date@,
                            closing->Some_0 as int,
                        );
                        &&& r is Ok
                        &&& r->Ok_0@ == p
                        &&& final(self)@ == old(self)@.push(p)
                    },
                }
            }),
    {
        let closing = parse_rfc3339_millis(&payload.poll_closing_date);
        self.create_poll_closing_at(caller, payload, closing, now)
    }

    /// Creates a poll as `create_poll` does, with `closing` standing for what
    /// the payload's closing date parsed to, in milliseconds since the epoch
    /// (`None` when it did not parse).
    pub fn create_poll_closing_at(
        &mut self,
        caller: &Identity,
        payload: PollPayload,
        closing: Option<i64>,
        now: u64,
    ) -> (r: Result<Poll, PollError>)
        requires
            old(self).wf(),
        ensures
            final(self).wf(),
            match create_error(old(self)@, payload.name@, closing, now as int) {
                Some(e) => r == Err::<Poll, PollError>(e) && final(self)@ == old(self)@,
                None => {
                    let p = fresh_poll(
                        caller@,
                        payload.name@,
                        payload.description@,
                        strings_view(payload.options@),
                        payload.poll_closing_date@,
                        closing->Some_0 as int,
                    );
                    &&& r is Ok
                    &&& r->Ok_0@ == p
                    &&& final(self)@ == old(self)@.push(p)
                },
            },
    {
        if self.polls.len() >= MAX_POLLS {
            return Err(PollError::TooManyPolls);
        }
        let closing_millis = match closing {
            Some(ms) => ms,
            None => {
                return Err(PollError::InvalidDate);
            },
        };
        if nanos_of_millis(closing_millis) <= now as i128 {
            return Err(PollError::PollClosingTimeMustFuture);
        }
        if self.find(&payload.name).is_some() {
            return Err(PollError::PollInUse);
        }
        let poll = Poll {
            name: payload.name,
            owner: caller.copy(),
            description: payload.description,
            options: payload.options,
            poll_closing_date: payload.poll_closing_date,
            closing_millis,
            voters: Vec::new(),
            voting_details: Vec::new(),
        };
        let out = poll.copy();
        assert(voters_view(poll.voters@) =~= Seq::<VoterView>::empty());
        assert(details_view(poll.voting_details@) =~= Seq::<VotingDetailView>::empty());
        let ghost before = self.polls@;
        self.polls.push(poll);
        assert(polls_view(self.polls@) =~= polls_view(before).push(poll@));
        proof {
            let s = self@;
            assert forall|i: int| 0 <= i < s.len() implies poll_wf(#[trigger] s[i]) by {
                if i < before.len() {
                    assert(s[i] == polls_view(before)[i]);
                }
            }
            assert forall|i: int, j: int|
                0 <= i < s.len() && 0 <= j < s.len() && i != j implies s[i].name != s[j].name by {
                if i < before.len() && j < before.len() {
                    assert(s[i] == polls_view(before)[i]);
                    assert(s[j] == polls_view(before)[j]);
                } else if i < before.len() {
                    assert(s[i] == polls_view(before)[i]);
                } else if j < before.len() {
                    assert(s[j] == polls_view(before)[j]);
                }
            }
        }
        Ok(out)
    }

    /// The poll named `name` as `caller` may see it: whole for its owner,
    /// without voters and votes for anyone else.
    pub fn get_poll_by_name(&self, caller: &Identity, name: &String) -> (r: Result<Poll, PollError>)
        requires
            self.wf(),
        ensures
            !has_poll(self@, name@) ==> r == Err::<Poll, PollError>(PollError::PollNotExist),
            has_poll(self@, name@) ==> r is Ok && r->Ok_0@ == redacted(self@[poll_index(self@, name@)], caller@),
    {
        match self.find(name) {
            Some(i) => Ok(redacted_copy(&self.polls[i], caller)),
            None => Err(PollError::PollNotExist),
        }
    }

    /// Every poll, in the store's order, each as `caller` may see it.
    pub fn get_all_polls(&self, caller: &Identity) -> (r: Vec<Poll>)
        ensures
            polls_view(r@) == self@.map_values(|p: PollView| redacted(p, caller@)),
    {
        let mut r: Vec<Poll> = Vec::new();
        let mut i: usize = 0;
        while i < self.polls.len()
            invariant
                i <= self@.len(),
                polls_view(r@) == self@.subrange(0, i as int).map_values(|p: PollView| redacted(p, caller@)),
            decreases self@.len() - i,
        {
            let ghost prev = r@;
            let x = redacted_copy(&self.polls[i], caller);
            r.push(x);
            assert(polls_view(r@) =~= polls_view(prev).push(x@));
            assert(self@.subrange(0, i + 1) == self@.subrange(0, i as int).push(self@[i as int]));
            assert(self@.subrange(0, i + 1).map_values(|p: PollView| redacted(p, caller@)) =~=
                self@.subrange(0, i as int).map_values(|p: PollView| redacted(p, caller@)).push(redacted(self@[i as int], caller@)));
            i = i + 1;
        }
        assert(self@.subrange(0, self@.len() as int) == self@);
        r
    }

    /// Puts `p` in place of the poll at position `i`.
    fn replace(&mut self, i: usize, p: Poll)
        requires
            old(self).wf(),
            i < old(self)@.len(),
            p@.name == old(self)@[i as int].name,
            poll_wf(p@),
        ensures
            final(self).wf(),
            final(self)@ == old(self)@.update(i as int, p@),
    {
        let ghost pv = p@;
        self.polls.set(i, p);
        assert(self@ =~= old(self)@.update(i as int, pv));
        proof {
            lemma_update_keeps_wf(old(self)@, i as int, pv);
        }
    }

    /// Registers `caller` as a voter named `voter_name` in the poll named
    /// `poll_name`, with the default weight 1.0. Refused when the poll does
    /// not exist, when the name is taken in it, or when the caller is already
    /// one of its voters, in that order; a refused call changes nothing.
    pub fn register_voter_to_poll(&mut self, caller: &Identity, poll_name: &String, voter_name: String) -> (r: Result<Voter, PollError>)
        requires
            old(self).wf(),
        ensures
            final(self).wf(),
            match register_error(old(self)@, caller@, poll_name@, voter_name@) {
                Some(e) => r == Err::<Voter, PollError>(e) && final(self)@ == old(self)@,
                None => {
                    &&& r is Ok
                    &&& r->Ok_0@ == new_voter(caller@, voter_name@)
                    &&& final(self)@ == registered(old(self)@, caller@, poll_name@, voter_name@)
                },
            },
    {
        let i = match self.find(poll_name) {
            Some(i) => i,
            None => {
                return Err(PollError::PollNotExist);
            },
        };
        let mut poll = self.polls[i].copy();
        if find_voter(&poll.voters, &voter_name).is_some() {
            return Err(PollError::VoterInUse);
        }
        if has_identity(&poll.voters, caller) {
            return Err(PollError::VoterPrincipalInUse);
        }
        let voter = Voter { name: voter_name, voter: caller.copy(), contribution: DEFAULT_CONTRIBUTION };
        let out = voter.copy();
        let ghost before = poll@;
        poll.voters.push(voter);
        assert(poll@.voters =~= before.voters.push(new_voter(caller@, voter_name@)));
        assert(poll@ == PollView { voters: before.voters.push(new_voter(caller@, voter_name@)), ..before });
        assert(poll_wf(before));
        self.replace(i, poll);
        Ok(out)
    }

    /// Sets to `contribution` the weight of the voter named `voter_name` in the
    /// poll named `poll_name`. Only the poll's owner may, and not on a voter
    /// that is the owner itself. Refused when the poll does not exist, when
    /// the caller is not its owner, when no voter has that name, or when that
    /// voter is the caller, in that order; a refused call changes nothing.
    pub fn change_voter_contribution(
        &mut self,
        caller: &Identity,
        poll_name: &String,
        voter_name: &String,
        contribution: u32,
    ) -> (r: Result<Voter, PollError>)
        requires
            old(self).wf(),
        ensures
            final(self).wf(),
            match change_error(old(self)@, caller@, poll_name@, voter_name@) {
                Some(e) => r == Err::<Voter, PollError>(e) && final(self)@ == old(self)@,
                None => {
                    &&& r is Ok
                    &&& r->Ok_0@ == reweighted_voter(old(self)@, poll_name@, voter_name@, contribution)
                    &&& final(self)@ == reweighted(old(self)@, poll_name@, voter_name@, contribution)
                },
            },
    {
        let i = match self.find(poll_name) {
            Some(i) => i,
            None => {
                return Err(PollError::PollNotExist);
            },
        };
        let mut poll = self.polls[i].copy();
        if !poll.owner.same(caller) {
            return Err(PollError::CallerNotPollOwner);
        }
        let j = match find_voter(&poll.voters, voter_name) {
            Some(j) => j,
            None => {
                return Err(PollError::VoterNotExist);
            },
        };
        let ghost before = poll@;
        proof {
            let k = voter_index(before.voters, voter_name@);
            assert(before.voters[j as int].name == voter_name@);
            assert(before.voters[k].name == voter_name@);
        }
        if poll.voters[j].voter.same(caller) {
            return Err(PollError::PollOwnerCannotChangeContribution);
        }
        let voter = Voter {
            name: poll.voters[j].name.clone(),
            voter: poll.voters[j].voter.copy(),
            contribution,
        };
        let out = voter.copy();
        poll.voters.set(j, voter);
        assert(poll@.voters =~= before.voters.update(j as int, out@));
        self.replace(i, poll);
        Ok(out)
    }

    /// Casts, for `caller`, the vote of the voter named `voter_name` for the
    /// option labelled `option` in the poll named `poll_name`, at time `now`.
    /// Refused when the poll does not exist, when it has closed, when no
    /// voter has that name, when that voter is not the caller, or when no
    /// option has that label, in that order; a refused call changes nothing.
    #[verifier::rlimit(60)]
    pub fn vote_to_poll(
        &mut self,
        caller: &Identity,
        poll_name: &String,
        voter_name: &String,
        option: &String,
        now: u64,
    ) -> (r: Result<VotingDetail, PollError>)
        requires
            old(self).wf(),
        ensures
            final(self).wf(),
            match vote_error(old(self)@, caller@, poll_name@, voter_name@, option@, now as int) {
                Some(e) => r == Err::<VotingDetail, PollError>(e) && final(self)@ == old(self)@,
                None => {
                    &&& r is Ok
                    &&& r->Ok_0@ == cast_vote(old(self)@, poll_name@, voter_name@, option@)
                    &&& final(self)@ == voted(old(self)@, poll_name@, voter_name@, option@)
                },
            },
    {
        let i = match self.find(poll_name) {
            Some(i) => i,
            None => {
                return Err(PollError::PollNotExist);
            },
        };
        let mut poll = self.polls[i].copy();
        if nanos_of_millis(poll.closing_millis) <= now as i128 {
            return Err(PollError::VotingIsOver);
        }
        let j = match find_voter(&poll.voters, voter_name) {
            Some(j) => j,
            None => {
                return Err(PollError::VoterNotExist);
            },
        };
        let ghost before = poll@;
        proof {
            let k = voter_index(before.voters, voter_name@);
            assert(before.voters[j as int].name == voter_name@);
            assert(before.voters[k].name == voter_name@);
        }
        if !poll.voters[j].voter.same(caller) {
            return Err(PollError::VoterNotAuthorized);
        }
        let k = match find_option(&poll.options, option) {
            Some(k) => k,
            None => {
                return Err(PollError::OptionNotExist);
            },
        };
        let detail = VotingDetail { name: voter_name.clone(), option: k, contribution: poll.voters[j].contribution };
        let out = detail.copy();
        proof {
            let s = old(self)@;
            assert(before == s[i as int]);
            assert(has_option(before.options, option@));
            assert(vote_error(s, caller@, poll_name@, voter_name@, option@, now as int) is None);
            assert(out@ == cast_vote(s, poll_name@, voter_name@, option@));
            assert(poll_wf(before));
        }
        poll.voting_details.push(detail);
        assert(poll@.voting_details =~= before.voting_details.push(out@));
        assert(poll@ == PollView { voting_details: before.voting_details.push(out@), ..before });
        self.replace(i, poll);
        Ok(out)
    }
}

impl PollStore {
    /// The tally of the poll named `poll_name`: for each option, in the
    /// order of the options, the weights of the votes cast for it, in the
    /// order cast. Refused when the poll does not exist, when it has not
    /// closed at `now`, or when the caller is neither its owner nor one of
    /// its voters, in that order.
    pub fn get_voting_result(&self, caller: &Identity, poll_name: &String, now: u64) -> (r: Result<Vec<Vec<u32>>, PollError>)
        requires
            self.wf(),
        ensures
            match result_error(self@, caller@, poll_name@, now as int) {
                Some(e) => r == Err::<Vec<Vec<u32>>, PollError>(e),
                None => {
                    let p = self@[poll_index(self@, poll_name@)];
                    &&& r is Ok
                    &&& r->Ok_0@.len() == p.options.len()
                    &&& forall|k: int| 0 <= k < p.options.len()
                        ==> (#[trigger] r->Ok_0@[k])@ == option_contributions(p.voting_details, k as nat)
                },
            },
    {
        let i = match self.find(poll_name) {
            Some(i) => i,
            None => {
                return Err(PollError::PollNotExist);
            },
        };
        let poll = &self.polls[i];
        if (now as i128) < nanos_of_millis(poll.closing_millis) {
            return Err(PollError::VotingNotClosed);
        }
        if !poll.owner.same(caller) && !has_identity(&poll.voters, caller) {
            return Err(PollError::OnlyVoterAndPollOwnerCanViewResults);
        }
        let ghost p = poll@;
        let mut tally: Vec<Vec<u32>> = Vec::new();
        let mut k: usize = 0;
        while k < poll.options.len()
            invariant
                p == poll@,
                k <= p.options.len(),
                tally@.len() == k,
                forall|m: int| 0 <= m < k ==> (#[trigger] tally@[m])@ == option_contributions(p.voting_details, m as nat),
            decreases p.options.len() - k,
        {
            let weights = weights_for(&poll.voting_details, k);
            tally.push(weights);
            k = k + 1;
        }
        Ok(tally)
    }

    /// Removes every poll that is past its closing time by more than
    /// `grace_seconds` at `now`, and returns them in the store's order.
    /// Anyone may call it; it never fails.
    pub fn remove_expired_polls(&mut self, grace_seconds: i32, now: u64) -> (r: Vec<Poll>)
        requires
            old(self).wf(),
        ensures
            final(self).wf(),
            polls_view(r@) == old(self)@.filter(|p: PollView| expired(p, grace_seconds as int, now as int)),
            final(self)@ == old(self)@.filter(|p: PollView| !expired(p, grace_seconds as int, now as int)),
    {
        let ghost s = self@;
        let ghost gone = |p: PollView| expired(p, grace_seconds as int, now as int);
        let ghost stays = |p: PollView| !expired(p, grace_seconds as int, now as int);
        let mut kept: Vec<Poll> = Vec::new();
        let mut removed: Vec<Poll> = Vec::new();
        let ghost mut src: Seq<int> = Seq::empty();
        let mut i: usize = 0;
        while i < self.polls.len()
            invariant
                s == self@,
                store_wf(s),
                gone == (|p: PollView| expired(p, grace_seconds as int, now as int)),
                stays == (|p: PollView| !expired(p, grace_seconds as int, now as int)),
                i <= s.len(),
                polls_view(removed@) == s.subrange(0, i as int).filter(gone),
                polls_view(kept@) == s.subrange(0, i as int).filter(stays),
                kept@.len() <= i,
                src.len() == kept@.len(),
                forall|a: int| 0 <= a < src.len() ==> 0 <= #[trigger] src[a] < i && polls_view(kept@)[a] == s[src[a]],
                forall|a: int, b: int| 0 <= a < b < src.len() ==> src[a] < src[b],
            decreases s.len() - i,
        {
            let p = self.polls[i].copy();
            let ghost pv = p@;
            assert(pv == s[i as int]);
            proof {
                lemma_filter_step(s, i as int, gone);
                lemma_filter_step(s, i as int, stays);
            }
            let late = nanos_of_millis(p.closing_millis) + (grace_seconds as i128) * NANOS_PER_SECOND < now as i128;
            if late {
                let ghost prev = removed@;
                removed.push(p);
                assert(polls_view(removed@) =~= polls_view(prev).push(pv));
            } else {
                let ghost prev = kept@;
                kept.push(p);
                assert(polls_view(kept@) =~= polls_view(prev).push(pv));
                proof {
                    src = src.push(i as int);
                }
            }
            i = i + 1;
        }
        assert(s.subrange(0, s.len() as int) == s);
        proof {
            let k = polls_view(kept@);
            assert forall|a: int| 0 <= a < k.len() implies poll_wf(#[trigger] k[a]) by {
                assert(k[a] == s[src[a]]);
            }
            assert forall|a: int, b: int| 0 <= a < k.len() && 0 <= b < k.len() && a != b implies k[a].name != k[b].name by {
                assert(k[a] == s[src[a]]);
                assert(k[b] == s[src[b]]);
                if a < b {
                    assert(src[a] < src[b]);
                } else {
                    assert(src[b] < src[a]);
                }
            }
        }
        self.polls = kept;
        removed
    }
}

/// Filtering one more element of a sequence adds it at the end when it
/// passes, and nothing otherwise.
proof fn lemma_filter_step<A>(s: Seq<A>, i: int, pred: spec_fn(A) -> bool)
    requires
        0 <= i < s.len(),
    ensures
        s.subrange(0, i + 1).filter(pred) == if pred(s[i]) {
            s.subrange(0, i).filter(pred).push(s[i])
        } else {
            s.subrange(0, i).filter(pred)
        },
{
    reveal_with_fuel(Seq::filter, 1);
    assert(s.subrange(0, i + 1).drop_last() =~= s.subrange(0, i));
}

/// The weights of the votes for option `k`, in the order cast.
fn weights_for(details: &Vec<VotingDetail>, k: usize) -> (r: Vec<u32>)
    ensures
        r@ == option_contributions(details_view(details@), k as nat),
{
    let ghost d = details_view(details@);
    let ghost pick = |x: VotingDetailView| x.option == k as nat;
    let mut r: Vec<u32> = Vec::new();
    let mut i: usize = 0;
    while i < details.len()
        invariant
            d == details_view(details@),
            pick == (|x: VotingDetailView| x.option == k as nat),
            i <= d.len(),
            r@ == d.subrange(0, i as int).filter(pick).map_values(|x: VotingDetailView| x.contribution),
        decreases d.len() - i,
    {
        proof {
            lemma_filter_step(d, i as int, pick);
        }
        if details[i].option == k {
            let ghost prev = r@;
            r.push(details[i].contribution);
            assert(r@ =~= prev.push(d[i as int].contribution));
            assert(d.subrange(0, i + 1).filter(pick) == d.subrange(0, i as int).filter(pick).push(d[i as int]));
            assert(d.subrange(0, i + 1).filter(pick).map_values(|x: VotingDetailView| x.contribution) =~=
                d.subrange(0, i as int).filter(pick).map_values(|x: VotingDetailView| x.contribution).push(d[i as int].contribution));
        }
        i = i + 1;
    }
    assert(d.subrange(0, d.len() as int) == d);
    r
}

/// The first position of `label` among the options, if any.
fn find_option(options: &Vec<String>, label: &String) -> (r: Option<usize>)
    ensures
        match r {
            None => !has_option(strings_view(options@), label@),
            Some(k) => {
                &&& k < options@.len()
                &&& strings_view(options@)[k as int] == label@
                &&& k == option_index(strings_view(options@), label@)
            },
        },
{
    let ghost o = strings_view(options@);
    let mut i: usize = 0;
    while i < options.len()
        invariant
            o == strings_view(options@),
            i <= options@.len(),
            forall|j: int| 0 <= j < i ==> o[j] != label@,
        decreases options@.len() - i,
    {
        if options[i] == *label {
            proof {
                assert(o[i as int] == label@);
                let k = option_index(o, label@);
                assert(0 <= k < o.len() && o[k] == label@ && forall|j: int| 0 <= j < k ==> o[j] != label@);
                if k < i {
                    assert(o[k] != label@);
                } else if k > i {
                    assert(o[i as int] != label@);
                }
            }
            return Some(i);
        }
        i = i + 1;
    }
    None
}

/// The position of the voter named `name`, if any.
fn find_voter(voters: &Vec<Voter>, name: &String) -> (r: Option<usize>)
    ensures
        match r {
            None => !has_voter_named(voters_view(voters@), name@),
            Some(i) => i < voters@.len() && voters_view(voters@)[i as int].name == name@,
        },
{
    let mut i: usize = 0;
    while i < voters.len()
        invariant
            i <= voters@.len(),
            forall|j: int| 0 <= j < i ==> voters_view(voters@)[j].name != name@,
        decreases voters@.len() - i,
    {
        if voters[i].name == *name {
            return Some(i);
        }
        i = i + 1;
    }
    None
}

/// Whether `id` is one of the voters.
fn has_identity(voters: &Vec<Voter>, id: &Identity) -> (r: bool)
    ensures
        r == has_voter_identity(voters_view(voters@), id@),
{
    let mut i: usize = 0;
    while i < voters.len()
        invariant
            i <= voters@.len(),
            forall|j: int| 0 <= j < i ==> voters_view(voters@)[j].voter != id@,
        decreases voters@.len() - i,
    {
        if voters[i].voter.same(id) {
            assert(voters_view(voters@)[i as int].voter == id@);
            return true;
        }
        i = i + 1;
    }
    false
}

/// A copy of `p` as `caller` may see it.
fn redacted_copy(p: &Poll, caller: &Identity) -> (r: Poll)
    ensures
        r@ == redacted(p@, caller@),
{
    let mut r = p.copy();
    if !p.owner.same(caller) {
        r.voters = Vec::new();
        r.voting_details = Vec::new();
        assert(voters_view(r.voters@) =~= Seq::<VoterView>::empty());
        assert(details_view(r.voting_details@) =~= Seq::<VotingDetailView>::empty());
    }
    r
}

} // verus!
