//! The DAO core contract as a state machine: instantiation, the messages
//! it executes, the replies of the contracts it instantiates, and its
//! queries.  Contract storage is the `CoreState` value.

use vstd::prelude::*;
use crate::core_types::{attr, attrs_view, config_error, Attribute, ChainStakeInfo, Config, ContractVersion, CoreError, InitialItem, ProposalModule};
use crate::expiration::Expiration;
use crate::keymap::{lookup, Duplicate, KeyMap};

verus! {

/// Reply to the instantiation of a proposal module.
pub const PROPOSAL_MODULE_REPLY_ID: u64 = 0;
/// Reply to the instantiation of the voting registry module.
pub const VOTE_MODULE_INSTANTIATE_REPLY_ID: u64 = 1;
/// Reply to the instantiation of a replacement voting module.
pub const VOTE_MODULE_UPDATE_REPLY_ID: u64 = 2;
/// Reply to the instantiation of the ICA helper.
pub const ICA_HELPER_INSTANTIATE_REPLY_ID: u64 = 3;
/// Reply to the instantiation of the ICQ helper.
pub const ICQ_HELPER_INSTANTIATE_REPLY_ID: u64 = 4;

/// A message the DAO core sends.  `I` is the instantiation info of a
/// module, `W` a message forwarded from a proposal module.
pub enum CoreMsg<I, W> {
    /// Instantiate a module with the DAO as admin; its reply carries `reply_id`.
    InstantiateModule { info: I, admin: String, reply_id: u64 },
    /// A message of an executed proposal.
    Forward(W),
    /// Ask the ICA helper to register an interchain account on a chain.
    RegisterIca { ica_helper: String, connection_id: String, interchain_account_id: String },
}

/// The attributes and messages of a successful operation.
pub struct CoreResponse<I, W> {
    pub attributes: Vec<Attribute>,
    pub messages: Vec<CoreMsg<I, W>>,
}

/// Whether a remote module is paused, and until when.
pub enum PauseInfo {
    Paused { expiration: Expiration },
    Unpaused,
}

/// Everything the DAO core keeps in storage.
pub struct CoreState {
    pub config: Config,
    pub version: ContractVersion,
    /// General purpose key-value store of the DAO.
    pub items: KeyMap<String>,
    /// Proposal modules by address.
    pub proposal_modules: KeyMap<ProposalModule>,
    pub active_proposal_module_count: u32,
    pub total_proposal_module_count: u32,
    /// Until when the DAO is paused; absent when it never was.
    pub paused: Option<Expiration>,
    pub voting_module: Option<String>,
    pub ica_helper: Option<String>,
    pub icq_helper: Option<String>,
    pub contract_registry: String,
    /// Chains of the DAO by chain id.
    pub chain_stake: KeyMap<ChainStakeInfo>,
}

impl CoreState {
    pub open spec fn wf(&self) -> bool {
        &&& self.items.wf()
        &&& self.proposal_modules.wf()
        &&& self.chain_stake.wf()
    }
}

/// Everything but the items is the same.
pub open spec fn same_but_items(a: CoreState, b: CoreState) -> bool {
    &&& a.config == b.config
    &&& a.version == b.version
    &&& a.proposal_modules == b.proposal_modules
    &&& a.active_proposal_module_count == b.active_proposal_module_count
    &&& a.total_proposal_module_count == b.total_proposal_module_count
    &&& a.paused == b.paused
    &&& a.voting_module == b.voting_module
    &&& a.ica_helper == b.ica_helper
    &&& a.icq_helper == b.icq_helper
    &&& a.contract_registry == b.contract_registry
    &&& a.chain_stake == b.chain_stake
}

/// Everything but the proposal modules and their counts is the same.
pub open spec fn same_but_modules(a: CoreState, b: CoreState) -> bool {
    &&& a.config == b.config
    &&& a.version == b.version
    &&& a.items == b.items
    &&& a.paused == b.paused
    &&& a.voting_module == b.voting_module
    &&& a.ica_helper == b.ica_helper
    &&& a.icq_helper == b.icq_helper
    &&& a.contract_registry == b.contract_registry
    &&& a.chain_stake == b.chain_stake
}

/// The value the last item with key `k` gives, if any.
pub open spec fn last_item_value(items: Seq<InitialItem>, k: Seq<char>) -> Option<String>
    decreases items.len(),
{
    if items.len() == 0 {
        None
    } else if items.last().key@ == k {
        Some(items.last().value)
    } else {
        last_item_value(items.drop_last(), k)
    }
}

/// Two chains of the list share a chain id.
pub open spec fn has_repeated_chain(chains: Seq<ChainStakeInfo>) -> bool {
    exists|i: int, j: int|
        0 <= i < j < chains.len() && #[trigger] chains[i].chain_id@ == #[trigger] chains[j].chain_id@
}

/// The chain of the list with chain id `k`, if any.
pub open spec fn chain_with_id(chains: Seq<ChainStakeInfo>, k: Seq<char>) -> Option<ChainStakeInfo>
    decreases chains.len(),
{
    if chains.len() == 0 {
        None
    } else if chains.last().chain_id@ == k {
        Some(chains.last())
    } else {
        chain_with_id(chains.drop_last(), k)
    }
}

/// The instantiation message of the DAO core.
pub struct InstantiateMsg<I> {
    pub name: String,
    pub description: String,
    pub dao_uri: Option<String>,
    pub voting_registry_module_instantiate_info: I,
    pub ica_helper_module_instantiate_info: I,
    pub icq_helper_module_instantiate_info: I,
    pub proposal_modules_instantiate_info: Vec<I>,
    pub initial_items: Option<Vec<InitialItem>>,
    pub contract_registry: String,
    pub chain_list: Vec<ChainStakeInfo>,
}

/// The configuration an instantiation message describes.
pub open spec fn msg_config<I>(msg: InstantiateMsg<I>) -> Config {
    Config { name: msg.name, description: msg.description, dao_uri: msg.dao_uri }
}

/// The items an instantiation message gives.
pub open spec fn msg_items<I>(msg: InstantiateMsg<I>) -> Seq<InitialItem> {
    match msg.initial_items {
        Some(v) => v@,
        None => seq![],
    }
}

/// Which error, if any, instantiation ends in.
pub open spec fn instantiate_error<I>(msg: InstantiateMsg<I>) -> Option<CoreError> {
    if config_error(msg_config(msg)) is Some {
        config_error(msg_config(msg))
    } else if msg.proposal_modules_instantiate_info@.len() == 0 {
        Some(CoreError::NoActiveProposalModules)
    } else if has_repeated_chain(msg.chain_list@) {
        Some(CoreError::ChainListRepeat)
    } else {
        None
    }
}

/// Sub-messages that instantiate proposal modules.
pub open spec fn proposal_module_msgs<I, W>(infos: Seq<I>, admin: String) -> Seq<CoreMsg<I, W>> {
    infos.map_values(
        |i: I|
            CoreMsg::InstantiateModule { info: i, admin: admin, reply_id: PROPOSAL_MODULE_REPLY_ID },
    )
}

/// Sets up the DAO: validates and stores the configuration, the initial
/// items and the chains, and instantiates the voting registry, the ICQ
/// helper, the proposal modules and the ICA helper.
pub fn instantiate<I, W>(
    msg: InstantiateMsg<I>,
    contract_address: &String,
    sender: &String,
    version: ContractVersion,
) -> (r: Result<(CoreState, CoreResponse<I, W>), CoreError>)
    ensures
        r is Err <==> instantiate_error(msg) is Some,
        r matches Err(e) ==> instantiate_error(msg) == Some(e),
        r matches Ok((s, resp)) ==> {
            &&& s.wf()
            &&& s.config == msg_config(msg)
            &&& s.version == version
            &&& forall|k: Seq<char>|
                #![trigger lookup(s.items.view(), k)]
                lookup(s.items.view(), k) == last_item_value(msg_items(msg), k)
            &&& forall|k: Seq<char>|
                #![trigger lookup(s.chain_stake.view(), k)]
                lookup(s.chain_stake.view(), k) == chain_with_id(msg.chain_list@, k)
            &&& s.proposal_modules.view().len() == 0
            &&& s.active_proposal_module_count == 0
            &&& s.total_proposal_module_count == 0
            &&& s.paused is None
            &&& s.voting_module is None
            &&& s.ica_helper is None
            &&& s.icq_helper is None
            &&& s.contract_registry == msg.contract_registry
            &&& attrs_view(resp.attributes@) == seq![
                ("action"@, "instantiate"@),
                ("sender"@, sender@),
            ]
            &&& resp.messages@ == seq![
                CoreMsg::<I, W>::InstantiateModule {
                    info: msg.voting_registry_module_instantiate_info,
                    admin: *contract_address,
                    reply_id: VOTE_MODULE_INSTANTIATE_REPLY_ID,
                },
                CoreMsg::<I, W>::InstantiateModule {
                    info: msg.icq_helper_module_instantiate_info,
                    admin: *contract_address,
                    reply_id: ICQ_HELPER_INSTANTIATE_REPLY_ID,
                },
            ] + proposal_module_msgs::<I, W>(msg.proposal_modules_instantiate_info@, *contract_address)
                + seq![
                CoreMsg::<I, W>::InstantiateModule {
                    info: msg.ica_helper_module_instantiate_info,
                    admin: *contract_address,
                    reply_id: ICA_HELPER_INSTANTIATE_REPLY_ID,
                },
            ]
        },
{
    let ghost m = msg;
    let config = Config { name: msg.name, description: msg.description, dao_uri: msg.dao_uri };
    let checked = config.validate();
    if let Err(e) = checked {
        return Err(e);
    }
    let mut messages: Vec<CoreMsg<I, W>> = Vec::new();
    messages.push(
        CoreMsg::InstantiateModule {
            info: msg.voting_registry_module_instantiate_info,
            admin: contract_address.clone(),
            reply_id: VOTE_MODULE_INSTANTIATE_REPLY_ID,
        },
    );
    messages.push(
        CoreMsg::InstantiateModule {
            info: msg.icq_helper_module_instantiate_info,
            admin: contract_address.clone(),
            reply_id: ICQ_HELPER_INSTANTIATE_REPLY_ID,
        },
    );
    if msg.proposal_modules_instantiate_info.len() == 0 {
        return Err(CoreError::NoActiveProposalModules);
    }
    let mut infos = msg.proposal_modules_instantiate_info;
    let ghost all_infos = infos@;
    let ghost first = messages@;
    let ghost admin = *contract_address;
    let ghost mut taken: Seq<I> = seq![];
    while infos.len() > 0
        invariant
            all_infos == taken + infos@,
            messages@ == first + proposal_module_msgs::<I, W>(taken, admin),
            admin == *contract_address,
        decreases infos.len(),
    {
        let x = infos.remove(0);
        messages.push(
            CoreMsg::InstantiateModule {
                info: x,
                admin: contract_address.clone(),
                reply_id: PROPOSAL_MODULE_REPLY_ID,
            },
        );
        proof {
            assert(proposal_module_msgs::<I, W>(taken.push(x), admin) =~= proposal_module_msgs::<
                I,
                W,
            >(taken, admin).push(
                CoreMsg::InstantiateModule { info: x, admin: admin, reply_id: PROPOSAL_MODULE_REPLY_ID },
            ));
            taken = taken.push(x);
            assert(all_infos =~= taken + infos@);
        }
    }
    assert(taken =~= all_infos);
    let mut items: KeyMap<String> = KeyMap::new();
    let initial = match msg.initial_items {
        Some(v) => v,
        None => Vec::new(),
    };
    let ghost item_seq = initial@;
    assert(item_seq == msg_items(m));
    let mut i: usize = 0;
    while i < initial.len()
        invariant
            items.wf(),
            item_seq == initial@,
            i <= initial.len(),
            items.view().len() <= i,
            forall|k: Seq<char>|
                #![trigger lookup(items.view(), k)]
                lookup(items.view(), k) == last_item_value(item_seq.take(i as int), k),
        decreases initial.len() - i,
    {
        let key = initial[i].key.clone();
        let value = initial[i].value.clone();
        items.insert(key, value);
        proof {
            assert(item_seq.take(i + 1).drop_last() =~= item_seq.take(i as int));
            assert(item_seq.take(i + 1).last() == item_seq[i as int]);
        }
        i = i + 1;
    }
    assert(item_seq.take(item_seq.len() as int) =~= item_seq);
    let mut chains: KeyMap<ChainStakeInfo> = KeyMap::new();
    let list = msg.chain_list;
    let ghost cs = list@;
    let mut j: usize = 0;
    let mut repeated = false;
    while j < list.len()
        invariant_except_break
            !repeated,
            chains.wf(),
            cs == list@,
            j <= list.len(),
            chains.view().len() <= j,
            !has_repeated_chain(cs.take(j as int)),
            forall|k: Seq<char>|
                #![trigger lookup(chains.view(), k)]
                lookup(chains.view(), k) == chain_with_id(cs.take(j as int), k),
        ensures
            repeated ==> has_repeated_chain(cs),
            !repeated ==> {
                &&& j == cs.len()
                &&& !has_repeated_chain(cs.take(j as int))
                &&& chains.wf()
                &&& chains.view().len() <= j
                &&& forall|k: Seq<char>|
                    #![trigger lookup(chains.view(), k)]
                    lookup(chains.view(), k) == chain_with_id(cs.take(j as int), k)
            },
        decreases list.len() - j,
    {
        proof {
            assert(cs.take(j + 1).drop_last() =~= cs.take(j as int));
            assert(cs.take(j + 1).last() == cs[j as int]);
        }
        if chains.contains_key(list[j].chain_id.as_str()) {
            proof {
                lemma_chain_found(cs.take(j as int), list[j as int].chain_id@);
                let a = choose|a: int|
                    0 <= a < j && #[trigger] cs.take(j as int)[a].chain_id@ == list[j as int].chain_id@;
                assert(cs.take(j as int)[a] == cs[a]);
                assert(cs[a].chain_id@ == cs[j as int].chain_id@);
                assert(has_repeated_chain(cs));
            }
            repeated = true;
            break;
        }
        let key = list[j].chain_id.clone();
        let info = list[j].duplicate();
        chains.insert(key, info);
        proof {
            if has_repeated_chain(cs.take(j + 1)) {
                let (a, b) = choose|a: int, b: int|
                    0 <= a < b < cs.take(j + 1).len() && #[trigger] cs.take(j + 1)[a].chain_id@
                        == #[trigger] cs.take(j + 1)[b].chain_id@;
                if b < j {
                    assert(cs.take(j as int)[a] == cs.take(j + 1)[a]);
                    assert(cs.take(j as int)[b] == cs.take(j + 1)[b]);
                } else {
                    assert(cs.take(j as int)[a] == cs.take(j + 1)[a]);
                    lemma_chain_present(cs.take(j as int), a);
                }
            }
        }
        j = j + 1;
    }
    if repeated {
        return Err(CoreError::ChainListRepeat);
    }
    assert(cs.take(cs.len() as int) =~= cs);

    messages.push(
        CoreMsg::InstantiateModule {
            info: msg.ica_helper_module_instantiate_info,
            admin: contract_address.clone(),
            reply_id: ICA_HELPER_INSTANTIATE_REPLY_ID,
        },
    );
    let mut attributes: Vec<Attribute> = Vec::new();
    attributes.push(attr("action", "instantiate".to_owned()));
    attributes.push(attr("sender", sender.clone()));
    assert(attrs_view(attributes@) =~= seq![("action"@, "instantiate"@), ("sender"@, sender@)]);
    let state = CoreState {
        config,
        version,
        items,
        proposal_modules: KeyMap::new(),
        active_proposal_module_count: 0,
        total_proposal_module_count: 0,
        paused: None,
        voting_module: None,
        ica_helper: None,
        icq_helper: None,
        contract_registry: msg.contract_registry,
        chain_stake: chains,
    };
    Ok((state, CoreResponse { attributes, messages }))
}

proof fn lemma_chain_found(chains: Seq<ChainStakeInfo>, k: Seq<char>)
    requires
        chain_with_id(chains, k) is Some,
    ensures
        exists|a: int| 0 <= a < chains.len() && #[trigger] chains[a].chain_id@ == k,
    decreases chains.len(),
{
    if chains.last().chain_id@ != k {
        lemma_chain_found(chains.drop_last(), k);
        let a = choose|a: int| 0 <= a < chains.drop_last().len() && #[trigger] chains.drop_last()[a].chain_id@ == k;
        assert(chains[a] == chains.drop_last()[a]);
    }
}

proof fn lemma_chain_present(chains: Seq<ChainStakeInfo>, a: int)
    requires
        0 <= a < chains.len(),
    ensures
        chain_with_id(chains, chains[a].chain_id@) is Some,
    decreases chains.len(),
{
    if chains.last().chain_id@ != chains[a].chain_id@ {
        assert(chains.drop_last()[a] == chains[a]);
        lemma_chain_present(chains.drop_last(), a);
    }
}

} // verus!
