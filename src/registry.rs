use vstd::prelude::*;

use crate::address::Address;
use crate::governance::GovernanceError;

verus! {

/// The voting power currently credited to one voter.
#[derive(Clone, Copy, Debug, PartialEq, Eq, Structural)]
pub struct VoterPower {
    pub voter: Address,
    pub voting_power: u64,
}

/// The per-governance aggregate: one entry per registered voter and the running
/// total of their powers.
pub struct VotingPowerRegistry {
    pub total_voting_power: u64,
    pub voters: Vec<VoterPower>,
}

/// No voter has two entries.
pub open spec fn voters_unique(s: Seq<VoterPower>) -> bool {
    forall|i: int, j: int| 0 <= i < j < s.len() ==> s[i].voter != s[j].voter
}

/// The power registered for `v`, if `v` has an entry.
pub open spec fn entry_of(s: Seq<VoterPower>, v: Address) -> Option<u64>
    decreases s.len(),
{
    if s.len() == 0 {
        None
    } else if s.last().voter == v {
        Some(s.last().voting_power)
    } else {
        entry_of(s.drop_last(), v)
    }
}

/// The power registered for `v`; zero for a voter without an entry.
pub open spec fn power_of(s: Seq<VoterPower>, v: Address) -> u64 {
    match entry_of(s, v) {
        Some(p) => p,
        None => 0,
    }
}

/// The sum of all registered powers.
pub open spec fn total_power(s: Seq<VoterPower>) -> nat
    decreases s.len(),
{
    if s.len() == 0 {
        0
    } else {
        total_power(s.drop_last()) + s.last().voting_power as nat
    }
}

/// `post` is `pre` after `voter` was registered with `power`: that voter's entry
/// holds `power`, every other entry is kept, and the total moved by the difference.
pub open spec fn registers(
    pre: VotingPowerRegistry,
    post: VotingPowerRegistry,
    voter: Address,
    power: u64,
) -> bool {
    &&& post.wf()
    &&& entry_of(post.voters@, voter) == Some(power)
    &&& forall|w: Address| w != voter ==> entry_of(post.voters@, w) == entry_of(pre.voters@, w)
    &&& post.total_voting_power == pre.total_voting_power - power_of(pre.voters@, voter) + power
}

/// Registering `power` for `voter` would carry the total past `u64::MAX`.
pub open spec fn register_overflows(pre: VotingPowerRegistry, voter: Address, power: u64) -> bool {
    pre.total_voting_power - power_of(pre.voters@, voter) + power > u64::MAX
}

impl VotingPowerRegistry {
    /// Entries are unique per voter and the total is their sum.
    pub open spec fn wf(&self) -> bool {
        &&& voters_unique(self.voters@)
        &&& self.total_voting_power == total_power(self.voters@)
    }

    /// An empty registry.
    pub fn new() -> (r: VotingPowerRegistry)
        ensures
            r.wf(),
            r.voters@.len() == 0,
            r.total_voting_power == 0,
    {
        VotingPowerRegistry { total_voting_power: 0, voters: Vec::new() }
    }

    /// Whether a registry loaded from storage satisfies `wf`: no voter twice, and a
    /// total equal to the sum of the entries.
    pub fn is_well_formed(&self) -> (r: bool)
        ensures
            r == self.wf(),
    {
        let ghost s = self.voters@;
        let n = self.voters.len();
        let mut i: usize = 0;
        let mut sum: u128 = 0;
        while i < n
            invariant
                n == s.len(),
                s == self.voters@,
                i <= n,
                voters_unique(s.take(i as int)),
                sum == total_power(s.take(i as int)),
                sum <= i * 0xffff_ffff_ffff_ffffu128,
            decreases n - i,
        {
            let v = self.voters[i].voter;
            let mut j: usize = 0;
            while j < i
                invariant
                    n == s.len(),
                    s == self.voters@,
                    i < n,
                    j <= i,
                    v == s[i as int].voter,
                    forall|k: int| 0 <= k < j ==> s[k].voter != v,
                decreases i - j,
            {
                if self.voters[j].voter == v {
                    proof {
                        assert(s[j as int].voter == s[i as int].voter);
                    }
                    return false;
                }
                j = j + 1;
            }
            proof {
                let t = s.take(i as int + 1);
                assert(t.drop_last() =~= s.take(i as int));
                assert forall|a: int, b: int| 0 <= a < b < t.len() implies t[a].voter != t[b].voter by {
                    if b < i {
                        assert(s.take(i as int)[a] == t[a] && s.take(i as int)[b] == t[b]);
                    }
                }
            }
            sum = sum + self.voters[i].voting_power as u128;
            i = i + 1;
        }
        proof {
            assert(s.take(n as int) =~= s);
        }
        sum == self.total_voting_power as u128
    }

    /// The power currently registered for `voter`, zero if none is.
    pub fn voter_power(&self, voter: Address) -> (r: u64)
        requires
            self.wf(),
        ensures
            r == power_of(self.voters@, voter),
    {
        match find_voter(&self.voters, voter) {
            Some(i) => {
                proof {
                    lemma_entry_at(self.voters@, i as int);
                }
                self.voters[i].voting_power
            },
            None => {
                proof {
                    lemma_entry_absent(self.voters@, voter);
                }
                0
            },
        }
    }
}

/// Where `voter`'s entry stands, if it has one.
fn find_voter(voters: &Vec<VoterPower>, voter: Address) -> (r: Option<usize>)
    ensures
        match r {
            Some(i) => i < voters@.len() && voters@[i as int].voter == voter,
            None => forall|j: int| 0 <= j < voters@.len() ==> voters@[j].voter != voter,
        },
{
    let n = voters.len();
    let mut i: usize = 0;
    while i < n
        invariant
            n == voters@.len(),
            i <= n,
            forall|j: int| 0 <= j < i ==> voters@[j].voter != voter,
        decreases n - i,
    {
        if voters[i].voter == voter {
            return Some(i);
        }
        i = i + 1;
    }
    None
}

/// Upserts `voter`'s power and moves the total by the difference, with checked
/// arithmetic: the total is lowered by the old power (which cannot underflow while
/// the total is the sum of the entries) and then raised by the new one.
pub fn register_voting_power(
    registry: &mut VotingPowerRegistry,
    voter: Address,
    voting_power: u64,
) -> (r: Result<(), GovernanceError>)
    requires
        old(registry).wf(),
    ensures
        final(registry).wf(),
        final(registry).total_voting_power == total_power(final(registry).voters@),
        r is Ok <==> !register_overflows(*old(registry), voter, voting_power),
        r is Ok ==> registers(*old(registry), *final(registry), voter, voting_power),
        r is Err ==> r == Err::<(), GovernanceError>(GovernanceError::ArithmeticOverflow)
            && *final(registry) == *old(registry),
{
    let ghost s = registry.voters@;
    match find_voter(&registry.voters, voter) {
        Some(i) => {
            proof {
                lemma_entry_at(s, i as int);
            }
            let old_power = registry.voters[i].voting_power;
            proof {
                lemma_entry_within_total(s, i as int);
            }
            let lowered = registry.total_voting_power - old_power;
            if lowered > u64::MAX - voting_power {
                return Err(GovernanceError::ArithmeticOverflow);
            }
            let entry = VoterPower { voter, voting_power };
            proof {
                lemma_entry_update(s, i as int, entry);
                lemma_total_update(s, i as int, entry);
            }
            registry.voters.set(i, entry);
            registry.total_voting_power = lowered + voting_power;
            Ok(())
        },
        None => {
            proof {
                lemma_entry_absent(s, voter);
            }
            if registry.total_voting_power > u64::MAX - voting_power {
                return Err(GovernanceError::ArithmeticOverflow);
            }
            let entry = VoterPower { voter, voting_power };
            proof {
                lemma_entry_push(s, entry);
            }
            registry.voters.push(entry);
            registry.total_voting_power = registry.total_voting_power + voting_power;
            Ok(())
        },
    }
}

/// Registering a voter twice with the same power: the second registration cannot
/// overflow, and it leaves the total (and every entry) as the first one left it.
pub proof fn lemma_register_idempotent(
    r0: VotingPowerRegistry,
    r1: VotingPowerRegistry,
    r2: VotingPowerRegistry,
    voter: Address,
    power: u64,
)
    requires
        r0.wf(),
        registers(r0, r1, voter, power),
        registers(r1, r2, voter, power),
    ensures
        !register_overflows(r1, voter, power),
        r2.total_voting_power == r1.total_voting_power,
        forall|w: Address| entry_of(r2.voters@, w) == entry_of(r1.voters@, w),
{
    assert forall|w: Address| entry_of(r2.voters@, w) == entry_of(r1.voters@, w) by {
        if w != voter {
            assert(entry_of(r2.voters@, w) == entry_of(r1.voters@, w));
        }
    }
}

/// A voter's entry is found where it stands.
pub proof fn lemma_entry_at(s: Seq<VoterPower>, i: int)
    requires
        voters_unique(s),
        0 <= i < s.len(),
    ensures
        entry_of(s, s[i].voter) == Some(s[i].voting_power),
    decreases s.len(),
{
    if i < s.len() - 1 {
        assert(s.drop_last()[i] == s[i]);
        lemma_entry_at(s.drop_last(), i);
    }
}

/// No single entry exceeds the total.
pub proof fn lemma_entry_within_total(s: Seq<VoterPower>, i: int)
    requires
        0 <= i < s.len(),
    ensures
        s[i].voting_power <= total_power(s),
    decreases s.len(),
{
    if i < s.len() - 1 {
        assert(s.drop_last()[i] == s[i]);
        lemma_entry_within_total(s.drop_last(), i);
    }
}

/// A voter without an entry has none to find.
pub proof fn lemma_entry_absent(s: Seq<VoterPower>, v: Address)
    requires
        forall|j: int| 0 <= j < s.len() ==> s[j].voter != v,
    ensures
        entry_of(s, v) is None,
    decreases s.len(),
{
    if s.len() > 0 {
        lemma_entry_absent(s.drop_last(), v);
    }
}

/// Replacing a voter's entry changes what is found for that voter alone, and keeps
/// the entries unique.
pub proof fn lemma_entry_update(s: Seq<VoterPower>, i: int, x: VoterPower)
    requires
        voters_unique(s),
        0 <= i < s.len(),
        s[i].voter == x.voter,
    ensures
        voters_unique(s.update(i, x)),
        forall|w: Address|
            #[trigger] entry_of(s.update(i, x), w) == if w == x.voter {
                Some(x.voting_power)
            } else {
                entry_of(s, w)
            },
    decreases s.len(),
{
    let t = s.update(i, x);
    assert forall|a: int, b: int| 0 <= a < b < t.len() implies t[a].voter != t[b].voter by {
        assert(s[a].voter != s[b].voter);
    }
    if i == s.len() - 1 {
        assert(t.drop_last() =~= s.drop_last());
    } else {
        assert(t.drop_last() =~= s.drop_last().update(i, x));
        lemma_entry_update(s.drop_last(), i, x);
        assert(s.last().voter != x.voter) by {
            assert(s[i].voter != s[s.len() - 1].voter);
        }
    }
    assert forall|w: Address|
        #[trigger] entry_of(t, w) == if w == x.voter {
            Some(x.voting_power)
        } else {
            entry_of(s, w)
        } by {
        if i < s.len() - 1 {
            assert(entry_of(t.drop_last(), w) == entry_of(s.drop_last().update(i, x), w));
        }
    }
}

/// Replacing an entry moves the total by the difference of the two powers.
pub proof fn lemma_total_update(s: Seq<VoterPower>, i: int, x: VoterPower)
    requires
        0 <= i < s.len(),
    ensures
        total_power(s.update(i, x)) == total_power(s) - s[i].voting_power + x.voting_power,
    decreases s.len(),
{
    let t = s.update(i, x);
    if i == s.len() - 1 {
        assert(t.drop_last() =~= s.drop_last());
    } else {
        assert(t.drop_last() =~= s.drop_last().update(i, x));
        lemma_total_update(s.drop_last(), i, x);
    }
}

/// Appending an entry for a new voter makes it findable and adds its power.
pub proof fn lemma_entry_push(s: Seq<VoterPower>, x: VoterPower)
    requires
        voters_unique(s),
        entry_of(s, x.voter) is None,
    ensures
        voters_unique(s.push(x)),
        total_power(s.push(x)) == total_power(s) + x.voting_power,
        forall|w: Address|
            #[trigger] entry_of(s.push(x), w) == if w == x.voter {
                Some(x.voting_power)
            } else {
                entry_of(s, w)
            },
{
    let t = s.push(x);
    assert(t.drop_last() =~= s);
    assert forall|a: int, b: int| 0 <= a < b < t.len() implies t[a].voter != t[b].voter by {
        if b == s.len() {
            if s[a].voter == x.voter {
                lemma_entry_at(s, a);
            }
        }
    }
}

} // verus!
