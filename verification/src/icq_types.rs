//! Records that the interchain-query helper keeps of remote transactions.

use vstd::prelude::*;

verus! {

/// A bank transfer observed on a remote chain.
pub struct Transfer {
    pub recipient: String,
    pub sender: String,
    pub denom: String,
    pub amount: String,
}

/// A delegation observed on a remote chain.
pub struct Delegation {
    pub delegator: String,
    pub validator: String,
    pub denom: String,
    pub amount: String,
}

/// The identifier that Neutron assigns to a newly registered query.
pub struct ReplyId {
    pub id: u64,
}

} // verus!

verus! {

/// A transfer as characters: recipient, sender, denom, amount.
pub struct TransferView {
    pub recipient: Seq<char>,
    pub sender: Seq<char>,
    pub denom: Seq<char>,
    pub amount: Seq<char>,
}

/// A delegation as characters: delegator, validator, denom, amount.
pub struct DelegationView {
    pub delegator: Seq<char>,
    pub validator: Seq<char>,
    pub denom: Seq<char>,
    pub amount: Seq<char>,
}

impl View for Transfer {
    type V = TransferView;

    open spec fn view(&self) -> TransferView {
        TransferView {
            recipient: self.recipient@,
            sender: self.sender@,
            denom: self.denom@,
            amount: self.amount@,
        }
    }
}

impl View for Delegation {
    type V = DelegationView;

    open spec fn view(&self) -> DelegationView {
        DelegationView {
            delegator: self.delegator@,
            validator: self.validator@,
            denom: self.denom@,
            amount: self.amount@,
        }
    }
}

impl Transfer {
    pub fn duplicate(&self) -> (r: Self)
        ensures
            r == *self,
    {
        Transfer {
            recipient: self.recipient.clone(),
            sender: self.sender.clone(),
            denom: self.denom.clone(),
            amount: self.amount.clone(),
        }
    }
}

impl Delegation {
    pub fn duplicate(&self) -> (r: Self)
        ensures
            r == *self,
    {
        Delegation {
            delegator: self.delegator.clone(),
            validator: self.validator.clone(),
            denom: self.denom.clone(),
            amount: self.amount.clone(),
        }
    }
}

/// A copy of a list of transfers.
pub fn copy_transfers(v: &Vec<Transfer>) -> (r: Vec<Transfer>)
    ensures
        r@ == v@,
{
    let mut out: Vec<Transfer> = Vec::new();
    let mut i: usize = 0;
    while i < v.len()
        invariant
            i <= v@.len(),
            out@ == v@.take(i as int),
        decreases v.len() - i,
    {
        out.push(v[i].duplicate());
        assert(v@.take(i + 1) =~= v@.take(i as int).push(v@[i as int]));
        i = i + 1;
    }
    assert(v@.take(v@.len() as int) =~= v@);
    out
}

/// A copy of a list of delegations.
pub fn copy_delegations(v: &Vec<Delegation>) -> (r: Vec<Delegation>)
    ensures
        r@ == v@,
{
    let mut out: Vec<Delegation> = Vec::new();
    let mut i: usize = 0;
    while i < v.len()
        invariant
            i <= v@.len(),
            out@ == v@.take(i as int),
        decreases v.len() - i,
    {
        out.push(v[i].duplicate());
        assert(v@.take(i + 1) =~= v@.take(i as int).push(v@[i as int]));
        i = i + 1;
    }
    assert(v@.take(v@.len() as int) =~= v@);
    out
}

} // verus!
