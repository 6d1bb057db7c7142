//! The reward mint gateway: lets authorized contracts mint reward tokens,
//! each reward identifier at most once.
//!
//! Callers and users are named by strings; an allow-list holds the
//! authorized contracts, and the set of executed reward identifiers is the
//! gateway's own permanent replay guard.

use vstd::prelude::*;

verus! {

/// Result codes of the gateway's mint entry point.
#[derive(Clone, Copy, Debug, PartialEq, Eq, Structural)]
pub enum Error {
    UnauthorizedContract,
    RewardAlreadyExecuted,
    InvalidMetadata,
}

/// The minted token's audit record.
#[derive(Debug)]
pub struct MintEvent {
    pub to: String,
    pub token_id: u64,
    pub reward_id: String,
    pub metadata_uri: String,
}

/// Whether some string in `s` reads as `x`.
pub open spec fn seq_contains_str(s: Seq<String>, x: Seq<char>) -> bool {
    exists|i: int| 0 <= i < s.len() && (#[trigger] s[i])@ == x
}

/// Scans `v` for a string reading as `x`.
fn contains_str(v: &Vec<String>, x: &String) -> (r: bool)
    ensures
        r == seq_contains_str(v@, x@),
{
    let n = v.len();
    let mut idx: usize = 0;
    while idx < n
        invariant
            n == v@.len(),
            idx <= n,
            forall|i: int| 0 <= i < idx ==> (#[trigger] v@[i])@ != x@,
        decreases n - idx,
    {
        let s: &String = &v[idx];
        if s.eq(x) {
            return true;
        }
        idx = idx + 1;
    }
    false
}

/// The gateway's owned state: the allow-list of contracts, the executed
/// reward identifiers, and the token counter.
pub struct RewardMintGateway {
    authorized_contracts: Vec<String>,
    executed_rewards: Vec<String>,
    token_counter: u64,
}

impl RewardMintGateway {
    /// Whether the contract named `c` is on the allow-list.
    pub closed spec fn authorized(self, c: Seq<char>) -> bool {
        seq_contains_str(self.authorized_contracts@, c)
    }

    /// Whether the reward named `r` has already been minted.
    pub closed spec fn executed(self, r: Seq<char>) -> bool {
        seq_contains_str(self.executed_rewards@, r)
    }

    /// How many tokens have been minted.
    pub closed spec fn token_count(self) -> u64 {
        self.token_counter
    }

    /// A fresh gateway: nothing authorized, nothing executed, no tokens.
    pub fn new() -> (g: Self)
        ensures
            g.token_count() == 0,
            forall|c: Seq<char>| !g.authorized(c),
            forall|x: Seq<char>| !g.executed(x),
    {
        let g = RewardMintGateway {
            authorized_contracts: Vec::new(),
            executed_rewards: Vec::new(),
            token_counter: 0,
        };
        g
    }

    /// Puts `contract` on the allow-list; authorizing twice changes
    /// nothing further.
    pub fn authorize_contract(&mut self, contract: String)
        ensures
            forall|c: Seq<char>|
                final(self).authorized(c) == (old(self).authorized(c) || c == contract@),
            forall|x: Seq<char>| final(self).executed(x) == old(self).executed(x),
            final(self).token_count() == old(self).token_count(),
    {
        if !contains_str(&self.authorized_contracts, &contract) {
            let ghost pre = self.authorized_contracts@;
            self.authorized_contracts.push(contract);
            proof {
                let post = self.authorized_contracts@;
                assert forall|c: Seq<char>|
                    final(self).authorized(c) == (old(self).authorized(c) || c
                        == post[post.len() - 1]@) by {
                    if c == post[post.len() - 1]@ {
                        assert(seq_contains_str(post, c));
                    } else {
                        if seq_contains_str(post, c) {
                            let i = choose|i: int|
                                0 <= i < post.len() && (#[trigger] post[i])@ == c;
                            assert(pre[i]@ == c);
                            assert(seq_contains_str(pre, c));
                        }
                        if seq_contains_str(pre, c) {
                            let i = choose|i: int| 0 <= i < pre.len() && (#[trigger] pre[i])@ == c;
                            assert(post[i]@ == c);
                            assert(seq_contains_str(post, c));
                        }
                    }
                }
            }
        }
    }

    /// Whether the contract named `contract` is on the allow-list.
    pub fn is_authorized(&self, contract: &String) -> (r: bool)
        ensures
            r == self.authorized(contract@),
    {
        contains_str(&self.authorized_contracts, contract)
    }

    /// Mints the reward named `reward_id` for `to`: the caller must be
    /// authorized, the metadata must be non-empty, and each reward
    /// identifier mints at most once — a duplicate is refused and changes
    /// nothing.
    pub fn mint_reward(
        &mut self,
        caller: String,
        to: String,
        reward_id: String,
        metadata_uri: String,
    ) -> (r: Result<MintEvent, Error>)
        requires
            old(self).token_count() < u64::MAX,
        ensures
            r is Err <==> (!old(self).authorized(caller@) || old(self).executed(reward_id@)
                || metadata_uri@.len() == 0),
            r is Err ==> *final(self) == *old(self) && r->Err_0 == (if !old(self).authorized(
                caller@,
            ) {
                Error::UnauthorizedContract
            } else if old(self).executed(reward_id@) {
                Error::RewardAlreadyExecuted
            } else {
                Error::InvalidMetadata
            }),
            r is Ok ==> ({
                let ev = r->Ok_0;
                &&& ev.to@ == to@
                &&& ev.token_id == old(self).token_count() + 1
                &&& ev.reward_id@ == reward_id@
                &&& ev.metadata_uri@ == metadata_uri@
                &&& final(self).token_count() == old(self).token_count() + 1
                &&& forall|x: Seq<char>|
                    final(self).executed(x) == (old(self).executed(x) || x == reward_id@)
                &&& forall|c: Seq<char>| final(self).authorized(c) == old(self).authorized(c)
            }),
    {
        if !self.is_authorized(&caller) {
            return Err(Error::UnauthorizedContract);
        }
        if contains_str(&self.executed_rewards, &reward_id) {
            return Err(Error::RewardAlreadyExecuted);
        }
        if metadata_uri.as_str().is_empty() {
            return Err(Error::InvalidMetadata);
        }
        self.token_counter = self.token_counter + 1;
        let token_id = self.token_counter;
        let ghost pre = self.executed_rewards@;
        self.executed_rewards.push(reward_id.clone());
        proof {
            let post = self.executed_rewards@;
            assert(post[post.len() - 1]@ == reward_id@);
            assert forall|x: Seq<char>|
                final(self).executed(x) == (old(self).executed(x) || x == reward_id@) by {
                if x == reward_id@ {
                    assert(seq_contains_str(post, x));
                } else {
                    if seq_contains_str(post, x) {
                        let i = choose|i: int| 0 <= i < post.len() && (#[trigger] post[i])@ == x;
                        assert(pre[i]@ == x);
                        assert(seq_contains_str(pre, x));
                    }
                    if seq_contains_str(pre, x) {
                        let i = choose|i: int| 0 <= i < pre.len() && (#[trigger] pre[i])@ == x;
                        assert(post[i]@ == x);
                        assert(seq_contains_str(post, x));
                    }
                }
            }
        }
        Ok(MintEvent { to, token_id, reward_id, metadata_uri })
    }
}

} // verus!
