//! Replies to the instantiations the DAO core started: they install the
//! new proposal modules, the voting registry and the helper contracts.

use vstd::prelude::*;
use vstd::string::StringExecFns;
use crate::core_types::{attr, attrs_view, Attribute, ChainStakeInfo, CoreError, ProposalModule, ProposalModuleStatus};
use crate::core_dao::{CoreMsg, CoreResponse, CoreState, same_but_modules, PROPOSAL_MODULE_REPLY_ID, VOTE_MODULE_INSTANTIATE_REPLY_ID, ICA_HELPER_INSTANTIATE_REPLY_ID, ICQ_HELPER_INSTANTIATE_REPLY_ID};
use crate::keymap::{lookup, map_updated, entry_view, lemma_entries_after_none};
use crate::prefix::{derive_proposal_module_prefix, module_prefix};

verus! {

/// Everything but the module addresses (voting, ICA and ICQ) is the same.
pub open spec fn same_but_addresses(a: CoreState, b: CoreState) -> bool {
    &&& a.config == b.config
    &&& a.version == b.version
    &&& a.items == b.items
    &&& a.proposal_modules == b.proposal_modules
    &&& a.active_proposal_module_count == b.active_proposal_module_count
    &&& a.total_proposal_module_count == b.total_proposal_module_count
    &&& a.paused == b.paused
    &&& a.contract_registry == b.contract_registry
    &&& a.chain_stake == b.chain_stake
}

/// The messages that register an interchain account on every chain of
/// the DAO, in chain id order.
pub open spec fn ica_register_msgs<I, W>(chains: Seq<(Seq<char>, ChainStakeInfo)>, ica: String) -> Seq<
    CoreMsg<I, W>,
> {
    chains.map_values(
        |e: (Seq<char>, ChainStakeInfo)|
            CoreMsg::<I, W>::RegisterIca {
                ica_helper: ica,
                connection_id: e.1.connection_id,
                interchain_account_id: e.1.chain_id,
            },
    )
}

/// What a reply of a proposal module instantiation requires: the counts
/// do not overflow (the contract panics when they would).
pub open spec fn reply_admissible(s: CoreState, id: u64, instantiated: Result<String, String>) -> bool {
    (id == PROPOSAL_MODULE_REPLY_ID && instantiated is Ok) ==> {
        &&& s.total_proposal_module_count < u32::MAX
        &&& s.active_proposal_module_count < u32::MAX
    }
}

/// Outcome of the reply with `id` to an instantiation that produced the
/// contract `instantiated` (or failed to).
pub open spec fn reply_outcome<I, W>(
    o: CoreState,
    n: CoreState,
    id: u64,
    instantiated: Result<String, String>,
    r: Result<CoreResponse<I, W>, CoreError>,
) -> bool {
    if id > ICQ_HELPER_INSTANTIATE_REPLY_ID {
        r matches Err(CoreError::UnknownReplyID) && n == o
    } else if instantiated is Err {
        r matches Err(CoreError::Std { msg }) && instantiated == Err::<String, String>(msg) && n == o
    } else {
        let addr = instantiated->Ok_0;
        if id == PROPOSAL_MODULE_REPLY_ID {
            &&& r matches Ok(resp)
            &&& lookup(n.proposal_modules.view(), addr@) matches Some(m)
            &&& m.address == addr
            &&& m.status == ProposalModuleStatus::Enabled
            &&& m.prefix@ == module_prefix(o.total_proposal_module_count as nat)
            &&& map_updated(o.proposal_modules.view(), n.proposal_modules.view(), addr@, Some(m))
            &&& n.active_proposal_module_count == o.active_proposal_module_count + 1
            &&& n.total_proposal_module_count == o.total_proposal_module_count + 1
            &&& same_but_modules(o, n)
            &&& attrs_view(resp.attributes@) == seq![("prop_module"@, addr@)]
            &&& resp.messages@.len() == 0
        } else if id == VOTE_MODULE_INSTANTIATE_REPLY_ID {
            if o.voting_module is Some {
                r matches Err(CoreError::MultipleVotingModules) && n == o
            } else {
                &&& r matches Ok(resp)
                &&& n.voting_module == Some(addr)
                &&& n.ica_helper == o.ica_helper
                &&& n.icq_helper == o.icq_helper
                &&& same_but_addresses(o, n)
                &&& attrs_view(resp.attributes@) == seq![("voting_regsitry_module"@, addr@)]
                &&& resp.messages@.len() == 0
            }
        } else if id == ICA_HELPER_INSTANTIATE_REPLY_ID {
            if o.ica_helper is Some {
                r matches Err(CoreError::MultipleIcaContract) && n == o
            } else {
                &&& r matches Ok(resp)
                &&& n.ica_helper == Some(addr)
                &&& n.voting_module == o.voting_module
                &&& n.icq_helper == o.icq_helper
                &&& same_but_addresses(o, n)
                &&& attrs_view(resp.attributes@) == seq![("ica_helper_address"@, addr@)]
                &&& resp.messages@ == ica_register_msgs::<I, W>(o.chain_stake.view(), addr)
            }
        } else if id == ICQ_HELPER_INSTANTIATE_REPLY_ID {
            if o.icq_helper is Some {
                r matches Err(CoreError::MultipleIcaContract) && n == o
            } else {
                &&& r matches Ok(resp)
                &&& n.icq_helper == Some(addr)
                &&& n.voting_module == o.voting_module
                &&& n.ica_helper == o.ica_helper
                &&& same_but_addresses(o, n)
                &&& attrs_view(resp.attributes@) == seq![("ica_helper_address"@, addr@)]
                &&& resp.messages@.len() == 0
            }
        } else {
            &&& r matches Ok(resp)
            &&& n.voting_module == Some(addr)
            &&& n.ica_helper == o.ica_helper
            &&& n.icq_helper == o.icq_helper
            &&& same_but_addresses(o, n)
            &&& attrs_view(resp.attributes@) == seq![("voting_registry_module"@, addr@)]
            &&& resp.messages@.len() == 0
        }
    }
}

/// What `cw_utils::parse_instantiate_response_data` reads from the data of
/// an instantiation reply: the new contract's address, or its error text.
pub uninterp spec fn instantiate_response_of(data: Seq<u8>) -> Result<Seq<char>, Seq<char>>;

/// `cw_utils::parse_instantiate_response_data`: reads the instantiated
/// contract's address from the protobuf data of an instantiation reply.
#[verifier::external_body]
fn parse_instantiate_response_data(data: &[u8]) -> (r: Result<String, String>)
    ensures
        match r {
            Ok(a) => instantiate_response_of(data@) == Ok::<Seq<char>, Seq<char>>(a@),
            Err(e) => instantiate_response_of(data@) == Err::<Seq<char>, Seq<char>>(e@),
        },
{
    cw_utils::parse_instantiate_response_data(data).map(|r| r.contract_address).map_err(|e| e.to_string())
}

/// The address an instantiation reply reports, or the text of the error:
/// a failed instantiation, a reply without data, or data that does not read.
pub open spec fn reply_address_of(result: Result<Option<Seq<u8>>, Seq<char>>) -> Result<Seq<char>, Seq<char>> {
    match result {
        Err(s) => Err("Failure response from sub-message: "@ + s),
        Ok(None) => Err("Invalid reply from sub-message: Missing reply data"@),
        Ok(Some(d)) => instantiate_response_of(d),
    }
}

/// The address of the contract an instantiation reply reports: `result` is
/// the reply's outcome, the error of a failed instantiation or the data of
/// a successful one.
pub fn instantiated_address(result: Result<Option<Vec<u8>>, String>) -> (r: Result<String, String>)
    ensures
        match reply_address_of(
            match result {
                Ok(d) => Ok(
                    match d {
                        Some(v) => Some(v@),
                        None => None,
                    },
                ),
                Err(s) => Err(s@),
            },
        ) {
            Ok(a) => r matches Ok(x) && x@ == a,
            Err(e) => r matches Err(m) && m@ == e,
        },
{
    match result {
        Err(s) => {
            let mut m = "Failure response from sub-message: ".to_owned();
            m.append(s.as_str());
            Err(m)
        },
        Ok(None) => Err("Invalid reply from sub-message: Missing reply data".to_owned()),
        Ok(Some(d)) => parse_instantiate_response_data(d.as_slice()),
    }
}

/// Handles the reply with `id`; `instantiated` is the address of the
/// contract that was instantiated, as the chain validated it, or the error
/// that reading or validating it gave.
pub fn reply<I, W>(state: &mut CoreState, id: u64, instantiated: Result<String, String>) -> (r: Result<
    CoreResponse<I, W>,
    CoreError,
>)
    requires
        old(state).wf(),
        reply_admissible(*old(state), id, instantiated),
    ensures
        final(state).wf(),
        reply_outcome(*old(state), *final(state), id, instantiated, r),
{
    if id > ICQ_HELPER_INSTANTIATE_REPLY_ID {
        return Err(CoreError::UnknownReplyID);
    }
    let addr = match instantiated {
        Err(e) => {
            return Err(CoreError::Std { msg: e });
        },
        Ok(a) => a,
    };
    if id == PROPOSAL_MODULE_REPLY_ID {
        let total = state.total_proposal_module_count;
        let prefix = match derive_proposal_module_prefix(total as usize) {
            Ok(p) => p,
            Err(_) => {
                // The prefix of every module number is made of letters.
                proof {
                    assert(false);
                }
                return Err(CoreError::Std { msg: "invalid utf-8 in proposal module prefix".to_owned() });
            },
        };
        let module = ProposalModule {
            address: addr.clone(),
            status: ProposalModuleStatus::Enabled,
            prefix,
        };
        let ghost m = module;
        state.proposal_modules.insert(addr.clone(), module);
        state.active_proposal_module_count = state.active_proposal_module_count + 1;
        state.total_proposal_module_count = total + 1;
        let mut attributes: Vec<Attribute> = Vec::new();
        attributes.push(attr("prop_module", addr));
        assert(attrs_view(attributes@) =~= seq![("prop_module"@, m.address@)]);
        assert(lookup(state.proposal_modules.view(), m.address@) == Some(m));
        return Ok(CoreResponse { attributes, messages: Vec::new() });
    }
    if id == VOTE_MODULE_INSTANTIATE_REPLY_ID {
        if state.voting_module.is_some() {
            return Err(CoreError::MultipleVotingModules);
        }
        state.voting_module = Some(addr.clone());
        let mut attributes: Vec<Attribute> = Vec::new();
        attributes.push(attr("voting_regsitry_module", addr));
        assert(attrs_view(attributes@) =~= seq![("voting_regsitry_module"@, state.voting_module->0@)]);
        return Ok(CoreResponse { attributes, messages: Vec::new() });
    }
    if id == ICA_HELPER_INSTANTIATE_REPLY_ID {
        if state.ica_helper.is_some() {
            return Err(CoreError::MultipleIcaContract);
        }
        let chains = state.chain_stake.range_ascending(None, None);
        proof {
            lemma_entries_after_none(state.chain_stake.view());
        }
        let mut messages: Vec<CoreMsg<I, W>> = Vec::new();
        let ghost cv = chains@.map_values(|e: (String, ChainStakeInfo)| entry_view(e));
        let mut i: usize = 0;
        while i < chains.len()
            invariant
                i <= chains@.len(),
                cv == chains@.map_values(|e: (String, ChainStakeInfo)| entry_view(e)),
                messages@ == ica_register_msgs::<I, W>(cv.take(i as int), addr),
            decreases chains.len() - i,
        {
            messages.push(
                CoreMsg::RegisterIca {
                    ica_helper: addr.clone(),
                    connection_id: chains[i].1.connection_id.clone(),
                    interchain_account_id: chains[i].1.chain_id.clone(),
                },
            );
            proof {
                assert(cv.take(i + 1) =~= cv.take(i as int).push(cv[i as int]));
                assert(ica_register_msgs::<I, W>(cv.take(i + 1), addr) =~= ica_register_msgs::<I, W>(
                    cv.take(i as int),
                    addr,
                ).push(
                    CoreMsg::<I, W>::RegisterIca {
                        ica_helper: addr,
                        connection_id: cv[i as int].1.connection_id,
                        interchain_account_id: cv[i as int].1.chain_id,
                    },
                ));
            }
            i = i + 1;
        }
        assert(cv.take(cv.len() as int) =~= cv);
        state.ica_helper = Some(addr.clone());
        let mut attributes: Vec<Attribute> = Vec::new();
        attributes.push(attr("ica_helper_address", addr));
        assert(attrs_view(attributes@) =~= seq![("ica_helper_address"@, state.ica_helper->0@)]);
        return Ok(CoreResponse { attributes, messages });
    }
    if id == ICQ_HELPER_INSTANTIATE_REPLY_ID {
        if state.icq_helper.is_some() {
            return Err(CoreError::MultipleIcaContract);
        }
        state.icq_helper = Some(addr.clone());
        let mut attributes: Vec<Attribute> = Vec::new();
        attributes.push(attr("ica_helper_address", addr));
        assert(attrs_view(attributes@) =~= seq![("ica_helper_address"@, state.icq_helper->0@)]);
        return Ok(CoreResponse { attributes, messages: Vec::new() });
    }
    state.voting_module = Some(addr.clone());
    let mut attributes: Vec<Attribute> = Vec::new();
    attributes.push(attr("voting_registry_module", addr));
    assert(attrs_view(attributes@) =~= seq![("voting_registry_module"@, state.voting_module->0@)]);
    Ok(CoreResponse { attributes, messages: Vec::new() })
}

} // verus!
