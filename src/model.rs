//! The records that the store holds, and their mathematical views.
use vstd::prelude::*;

verus! {

/// The identity of a caller, as handed over by the hosting environment: an
/// opaque byte string that is compared for equality only.
#[derive(Debug)]
pub struct Identity {
    pub bytes: Vec<u8>,
}

impl View for Identity {
    type V = Seq<u8>;

    open spec fn view(&self) -> Seq<u8> {
        self.bytes@
    }
}

impl Identity {
    pub fn new(bytes: Vec<u8>) -> (r: Identity)
        ensures
            r@ == bytes@,
    {
        Identity { bytes }
    }

    /// Whether two identities are the same caller.
    pub fn same(&self, other: &Identity) -> (r: bool)
        ensures
            r == (self@ == other@),
    {
        let n = self.bytes.len();
        if n != other.bytes.len() {
            return false;
        }
        let mut i: usize = 0;
        while i < n
            invariant
                n == self@.len(),
                n == other@.len(),
                i <= n,
                self@.subrange(0, i as int) == other@.subrange(0, i as int),
            decreases n - i,
        {
            if self.bytes[i] != other.bytes[i] {
                assert(self@[i as int] != other@[i as int]);
                return false;
            }
            assert(self@.subrange(0, i + 1) == self@.subrange(0, i as int).push(self@[i as int]));
            assert(other@.subrange(0, i + 1) == other@.subrange(0, i as int).push(other@[i as int]));
            i = i + 1;
        }
        assert(self@ == self@.subrange(0, n as int));
        assert(other@ == other@.subrange(0, n as int));
        true
    }

    pub fn copy(&self) -> (r: Identity)
        ensures
            r@ == self@,
    {
        let bytes = self.bytes.clone();
        assert(bytes@ == self.bytes@);
        Identity { bytes }
    }
}

/// The bit pattern of the weight 1.0 as a 32-bit IEEE 754 float: the weight
/// that every voter has when registered.
pub const DEFAULT_CONTRIBUTION: u32 = 0x3f80_0000;

/// A voter registered to one poll. `contribution` holds the bit pattern of
/// the voter's weight, a 32-bit IEEE 754 float, which this library never
/// interprets: it stores, copies and groups it.
#[derive(Debug)]
pub struct Voter {
    pub name: String,
    pub voter: Identity,
    pub contribution: u32,
}

pub struct VoterView {
    pub name: Seq<char>,
    pub voter: Seq<u8>,
    pub contribution: u32,
}

impl View for Voter {
    type V = VoterView;

    open spec fn view(&self) -> VoterView {
        VoterView { name: self.name@, voter: self.voter@, contribution: self.contribution }
    }
}

impl Voter {
    pub fn copy(&self) -> (r: Voter)
        ensures
            r@ == self@,
    {
        Voter { name: self.name.clone(), voter: self.voter.copy(), contribution: self.contribution }
    }
}

/// One cast vote: the voter's name, the index of the chosen option, and the
/// voter's weight (as bits) at the time of voting.
#[derive(Debug)]
pub struct VotingDetail {
    pub name: String,
    pub option: usize,
    pub contribution: u32,
}

pub struct VotingDetailView {
    pub name: Seq<char>,
    pub option: nat,
    pub contribution: u32,
}

impl View for VotingDetail {
    type V = VotingDetailView;

    open spec fn view(&self) -> VotingDetailView {
        VotingDetailView {
            name: self.name@,
            option: self.option as nat,
            contribution: self.contribution,
        }
    }
}

impl VotingDetail {
    pub fn copy(&self) -> (r: VotingDetail)
        ensures
            r@ == self@,
    {
        VotingDetail { name: self.name.clone(), option: self.option, contribution: self.contribution }
    }
}

/// What a caller supplies to create a poll.
#[derive(Debug)]
pub struct PollPayload {
    pub name: String,
    pub description: String,
    pub options: Vec<String>,
    pub poll_closing_date: String,
}

/// A poll: its identity and fixed content, then the voters registered to it
/// and the log of votes cast. `closing_millis` is `poll_closing_date` parsed,
/// in milliseconds since the epoch.
#[derive(Debug)]
pub struct Poll {
    pub name: String,
    pub owner: Identity,
    pub description: String,
    pub options: Vec<String>,
    pub poll_closing_date: String,
    pub closing_millis: i64,
    pub voters: Vec<Voter>,
    pub voting_details: Vec<VotingDetail>,
}

pub struct PollView {
    pub name: Seq<char>,
    pub owner: Seq<u8>,
    pub description: Seq<char>,
    pub options: Seq<Seq<char>>,
    pub poll_closing_date: Seq<char>,
    pub closing_millis: int,
    pub voters: Seq<VoterView>,
    pub voting_details: Seq<VotingDetailView>,
}

pub open spec fn strings_view(v: Seq<String>) -> Seq<Seq<char>> {
    v.map_values(|s: String| s@)
}

pub open spec fn voters_view(v: Seq<Voter>) -> Seq<VoterView> {
    v.map_values(|x: Voter| x@)
}

pub open spec fn details_view(v: Seq<VotingDetail>) -> Seq<VotingDetailView> {
    v.map_values(|x: VotingDetail| x@)
}

impl View for Poll {
    type V = PollView;

    open spec fn view(&self) -> PollView {
        PollView {
            name: self.name@,
            owner: self.owner@,
            description: self.description@,
            options: strings_view(self.options@),
            poll_closing_date: self.poll_closing_date@,
            closing_millis: self.closing_millis as int,
            voters: voters_view(self.voters@),
            voting_details: details_view(self.voting_details@),
        }
    }
}

pub fn copy_strings(v: &Vec<String>) -> (r: Vec<String>)
    ensures
        strings_view(r@) == strings_view(v@),
{
    let r = v.clone();
    assert(r@ =~= v@);
    r
}

pub fn copy_voters(v: &Vec<Voter>) -> (r: Vec<Voter>)
    ensures
        voters_view(r@) == voters_view(v@),
{
    let mut r: Vec<Voter> = Vec::new();
    let mut i: usize = 0;
    while i < v.len()
        invariant
            i <= v@.len(),
            voters_view(r@) == voters_view(v@.subrange(0, i as int)),
        decreases v@.len() - i,
    {
        let ghost prev = r@;
        let x = v[i].copy();
        r.push(x);
        assert(r@ == prev.push(x));
        assert(v@.subrange(0, i + 1) == v@.subrange(0, i as int).push(v@[i as int]));
        assert(voters_view(r@) =~= voters_view(prev).push(x@));
        assert(voters_view(v@.subrange(0, i + 1)) =~= voters_view(v@.subrange(0, i as int)).push(v@[i as int]@));
        i = i + 1;
    }
    assert(v@.subrange(0, v@.len() as int) == v@);
    r
}

pub fn copy_details(v: &Vec<VotingDetail>) -> (r: Vec<VotingDetail>)
    ensures
        details_view(r@) == details_view(v@),
{
    let mut r: Vec<VotingDetail> = Vec::new();
    let mut i: usize = 0;
    while i < v.len()
        invariant
            i <= v@.len(),
            details_view(r@) == details_view(v@.subrange(0, i as int)),
        decreases v@.len() - i,
    {
        let ghost prev = r@;
        let x = v[i].copy();
        r.push(x);
        assert(r@ == prev.push(x));
        assert(v@.subrange(0, i + 1) == v@.subrange(0, i as int).push(v@[i as int]));
        assert(details_view(r@) =~= details_view(prev).push(x@));
        assert(details_view(v@.subrange(0, i + 1)) =~= details_view(v@.subrange(0, i as int)).push(v@[i as int]@));
        i = i + 1;
    }
    assert(v@.subrange(0, v@.len() as int) == v@);
    r
}

impl Poll {
    pub fn copy(&self) -> (r: Poll)
        ensures
            r@ == self@,
    {
        Poll {
            name: self.name.clone(),
            owner: self.owner.copy(),
            description: self.description.clone(),
            options: copy_strings(&self.options),
            poll_closing_date: self.poll_closing_date.clone(),
            closing_millis: self.closing_millis,
            voters: copy_voters(&self.voters),
            voting_details: copy_details(&self.voting_details),
        }
    }
}

} // verus!
