//! The single-choice pre-propose module's own logic: the proposer of a
//! proposal is the sender of the message, never what the message says; and
//! the lookup, among a DAO's proposal modules, of its one enabled module.

use vstd::prelude::*;
use crate::core_types::{ProposalModule, ProposalModuleStatus};

verus! {

/// A proposal as users submit it.
pub enum ProposeMessage<M> {
    Propose { title: String, description: String, msgs: Vec<M> },
}

/// A proposal as it is handed to the base module, with its proposer.
pub enum ProposeMessageInternal<M> {
    Propose { title: String, description: String, msgs: Vec<M>, proposer: Option<String> },
}

/// The messages of a pre-propose module, over its proposal message `P` and
/// the proposal status `S`.
pub enum ExecuteMsg<P, S> {
    /// Creates a new proposal.
    Propose { msg: P },
    /// A proposal was created.
    ProposalCreatedHook { proposal_id: u64, proposer: String },
    /// A proposal was completed.
    ProposalCompletedHook { proposal_id: u64, new_status: S },
}

/// The message that the base module executes for `msg` sent by `sender`:
/// a proposal gets `sender` as its proposer; hooks pass unchanged.
pub open spec fn internalized<M, S>(
    msg: ExecuteMsg<ProposeMessage<M>, S>,
    sender: String,
) -> ExecuteMsg<ProposeMessageInternal<M>, S> {
    match msg {
        ExecuteMsg::Propose { msg: ProposeMessage::Propose { title, description, msgs } } => {
            ExecuteMsg::Propose {
                msg: ProposeMessageInternal::Propose { title, description, msgs, proposer: Some(sender) },
            }
        },
        ExecuteMsg::ProposalCreatedHook { proposal_id, proposer } => {
            ExecuteMsg::ProposalCreatedHook { proposal_id, proposer }
        },
        ExecuteMsg::ProposalCompletedHook { proposal_id, new_status } => {
            ExecuteMsg::ProposalCompletedHook { proposal_id, new_status }
        },
    }
}

/// Executes `msg` sent by `sender`: the message handed on to the base
/// module, in which the proposer of a proposal is `sender`.
pub fn execute<M, S>(msg: ExecuteMsg<ProposeMessage<M>, S>, sender: String) -> (r:
    ExecuteMsg<ProposeMessageInternal<M>, S>)
    ensures
        r == internalized(msg, sender),
{
    match msg {
        ExecuteMsg::Propose { msg: ProposeMessage::Propose { title, description, msgs } } => {
            ExecuteMsg::Propose {
                msg: ProposeMessageInternal::Propose { title, description, msgs, proposer: Some(sender) },
            }
        },
        ExecuteMsg::ProposalCreatedHook { proposal_id, proposer } => {
            ExecuteMsg::ProposalCreatedHook { proposal_id, proposer }
        },
        ExecuteMsg::ProposalCompletedHook { proposal_id, new_status } => {
            ExecuteMsg::ProposalCompletedHook { proposal_id, new_status }
        },
    }
}

/// The enabled modules, in order.
pub open spec fn enabled_modules(s: Seq<ProposalModule>) -> Seq<ProposalModule>
    decreases s.len(),
{
    if s.len() == 0 {
        Seq::empty()
    } else {
        let rest = enabled_modules(s.drop_last());
        if s.last().status == ProposalModuleStatus::Enabled {
            rest.push(s.last())
        } else {
            rest
        }
    }
}

proof fn lemma_enabled_prefix(s: Seq<ProposalModule>, k: int)
    requires
        0 <= k <= s.len(),
    ensures
        enabled_modules(s.take(k)).len() <= enabled_modules(s).len(),
        enabled_modules(s).take(enabled_modules(s.take(k)).len() as int) == enabled_modules(s.take(k)),
    decreases s.len(),
{
    if k == s.len() {
        assert(s.take(k) =~= s);
        assert(enabled_modules(s).take(enabled_modules(s).len() as int) =~= enabled_modules(s));
    } else {
        let t = s.drop_last();
        assert(s.take(k) =~= t.take(k));
        lemma_enabled_prefix(t, k);
        let e = enabled_modules(t);
        let p = enabled_modules(t.take(k));
        if s.last().status == ProposalModuleStatus::Enabled {
            assert(e.push(s.last()).take(p.len() as int) =~= e.take(p.len() as int));
        }
    }
}

/// The address of the one enabled module among `modules`.
pub fn query_multiple_proposal_module(modules: Vec<ProposalModule>) -> (r: String)
    requires
        enabled_modules(modules@).len() == 1,
    ensures
        r == enabled_modules(modules@)[0].address,
{
    let ghost all = modules@;
    let mut i: usize = 0;
    assert(all.take(0) =~= Seq::<ProposalModule>::empty());
    while i < modules.len()
        invariant
            all == modules@,
            i <= modules@.len(),
            enabled_modules(all.take(i as int)).len() == 0,
            enabled_modules(all).len() == 1,
        decreases modules.len() - i,
    {
        proof {
            assert(all.take(i + 1).drop_last() =~= all.take(i as int));
            assert(all.take(i + 1).last() == all[i as int]);
        }
        if modules[i].status == ProposalModuleStatus::Enabled {
            proof {
                lemma_enabled_prefix(all, i + 1);
                let e = enabled_modules(all.take(i + 1));
                assert(e =~= enabled_modules(all.take(i as int)).push(all[i as int]));
                assert(e.len() == 1);
                assert(enabled_modules(all).take(1)[0] == enabled_modules(all)[0]);
                assert(enabled_modules(all)[0] == all[i as int]);
            }
            return modules[i].address.clone();
        }
        i = i + 1;
    }
    proof {
        assert(all.take(all.len() as int) =~= all);
    }
    String::new()
}

/// Who may create proposals in a proposal module.
pub enum ProposalCreationPolicy {
    /// Anyone may.
    Anyone {},
    /// Only the pre-propose module at `addr` may.
    Module { addr: String },
}

/// The pre-propose module of a proposal module whose creation policy is
/// `policy`.
pub fn pre_propose_module_addr(policy: &ProposalCreationPolicy) -> (r: String)
    requires
        policy is Module,
    ensures
        r == policy->addr,
{
    match policy {
        ProposalCreationPolicy::Module { addr } => addr.clone(),
        ProposalCreationPolicy::Anyone {} => String::new(),
    }
}

} // verus!
