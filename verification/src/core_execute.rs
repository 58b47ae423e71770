//! Messages the DAO core executes.  No message is executed while the DAO
//! is paused; all but the proposal hook may only be sent by the DAO itself.

use vstd::prelude::*;
use crate::core_types::{
    attr, attrs_view, config_error, Attribute, Config, CoreError, ProposalModule,
    ProposalModuleStatus,
};
use crate::core_dao::{
    CoreMsg, CoreResponse, CoreState, same_but_items, same_but_modules,
    proposal_module_msgs, PROPOSAL_MODULE_REPLY_ID, VOTE_MODULE_UPDATE_REPLY_ID,
};
use crate::expiration::{after, after_fits, expiration_text, expiration_text_of, is_expired, spec_after, spec_is_expired, BlockInfo, Duration};
use crate::keymap::{lookup, map_updated, sorted_keys};

verus! {

/// Everything but the pause is the same.
pub open spec fn same_but_paused(a: CoreState, b: CoreState) -> bool {
    &&& a.config == b.config
    &&& a.version == b.version
    &&& a.items == b.items
    &&& a.proposal_modules == b.proposal_modules
    &&& a.active_proposal_module_count == b.active_proposal_module_count
    &&& a.total_proposal_module_count == b.total_proposal_module_count
    &&& a.voting_module == b.voting_module
    &&& a.ica_helper == b.ica_helper
    &&& a.icq_helper == b.icq_helper
    &&& a.contract_registry == b.contract_registry
    &&& a.chain_stake == b.chain_stake
}

/// Everything but the configuration is the same.
pub open spec fn same_but_config(a: CoreState, b: CoreState) -> bool {
    &&& a.version == b.version
    &&& a.items == b.items
    &&& a.proposal_modules == b.proposal_modules
    &&& a.active_proposal_module_count == b.active_proposal_module_count
    &&& a.total_proposal_module_count == b.total_proposal_module_count
    &&& a.paused == b.paused
    &&& a.voting_module == b.voting_module
    &&& a.ica_helper == b.ica_helper
    &&& a.icq_helper == b.icq_helper
    &&& a.contract_registry == b.contract_registry
    &&& a.chain_stake == b.chain_stake
}

/// The DAO is paused in `block`.
pub open spec fn paused_at(s: CoreState, block: BlockInfo) -> bool {
    s.paused matches Some(e) && !spec_is_expired(e, block)
}

/// Outcome of a pause: only the DAO itself may pause, until `d` after `block`.
pub open spec fn pause_outcome<I, W>(
    o: CoreState,
    n: CoreState,
    contract: String,
    block: BlockInfo,
    sender: String,
    d: Duration,
    r: Result<CoreResponse<I, W>, CoreError>,
) -> bool {
    if sender@ != contract@ {
        r matches Err(CoreError::Unauthorized) && n == o
    } else {
        let until = spec_after(d, block);
        &&& r matches Ok(resp)
        &&& n.paused == Some(until)
        &&& same_but_paused(o, n)
        &&& attrs_view(resp.attributes@) == seq![
            ("action"@, "execute_pause"@),
            ("sender"@, sender@),
            ("until"@, expiration_text_of(until)),
        ]
        &&& resp.messages@.len() == 0
    }
}

/// Pauses the DAO for `pause_duration`.
pub fn execute_pause<I, W>(
    state: &mut CoreState,
    contract: &String,
    block: &BlockInfo,
    sender: &String,
    pause_duration: Duration,
) -> (r: Result<CoreResponse<I, W>, CoreError>)
    requires
        sender@ == contract@ ==> after_fits(pause_duration, *block),
    ensures
        pause_outcome(*old(state), *final(state), *contract, *block, *sender, pause_duration, r),
{
    if !(*sender == *contract) {
        return Err(CoreError::Unauthorized);
    }
    let until = after(&pause_duration, block);
    state.paused = Some(until);
    let mut attributes: Vec<Attribute> = Vec::new();
    attributes.push(attr("action", "execute_pause".to_owned()));
    attributes.push(attr("sender", sender.clone()));
    attributes.push(attr("until", expiration_text(&until)));
    assert(attrs_view(attributes@) =~= seq![
        ("action"@, "execute_pause"@),
        ("sender"@, sender@),
        ("until"@, expiration_text_of(until)),
    ]);
    Ok(CoreResponse { attributes, messages: Vec::new() })
}

/// Outcome of a proposal hook: only an enabled proposal module may have the
/// DAO execute messages; they are executed in order.
pub open spec fn proposal_hook_outcome<I, W>(
    s: CoreState,
    sender: String,
    msgs: Seq<W>,
    r: Result<CoreResponse<I, W>, CoreError>,
) -> bool {
    match lookup(s.proposal_modules.view(), sender@) {
        None => r matches Err(CoreError::Unauthorized),
        Some(m) => if m.status != ProposalModuleStatus::Enabled {
            r matches Err(e) && e == CoreError::ModuleDisabledCannotExecute { address: sender }
        } else {
            &&& r matches Ok(resp)
            &&& attrs_view(resp.attributes@) == seq![("action"@, "execute_proposal_hook"@)]
            &&& resp.messages@ == msgs.map_values(|w: W| CoreMsg::<I, W>::Forward(w))
        },
    }
}

/// Executes the messages of a proposal passed in a proposal module.
pub fn execute_proposal_hook<I, W>(state: &CoreState, sender: &String, msgs: Vec<W>) -> (r: Result<
    CoreResponse<I, W>,
    CoreError,
>)
    requires
        state.wf(),
    ensures
        proposal_hook_outcome(*state, *sender, msgs@, r),
{
    let module = match state.proposal_modules.get(sender.as_str()) {
        None => {
            return Err(CoreError::Unauthorized);
        },
        Some(m) => m,
    };
    if module.status != ProposalModuleStatus::Enabled {
        return Err(CoreError::ModuleDisabledCannotExecute { address: sender.clone() });
    }
    let mut messages: Vec<CoreMsg<I, W>> = Vec::new();
    let mut rest = msgs;
    let ghost all = rest@;
    let ghost mut done: Seq<W> = seq![];
    while rest.len() > 0
        invariant
            all == done + rest@,
            messages@ == done.map_values(|w: W| CoreMsg::<I, W>::Forward(w)),
        decreases rest.len(),
    {
        let w = rest.remove(0);
        messages.push(CoreMsg::Forward(w));
        proof {
            assert(done.push(w).map_values(|w: W| CoreMsg::<I, W>::Forward(w)) =~= done.map_values(
                |w: W| CoreMsg::<I, W>::Forward(w),
            ).push(CoreMsg::Forward(w)));
            done = done.push(w);
            assert(all =~= done + rest@);
        }
    }
    assert(done =~= all);
    let mut attributes: Vec<Attribute> = Vec::new();
    attributes.push(attr("action", "execute_proposal_hook".to_owned()));
    assert(attrs_view(attributes@) =~= seq![("action"@, "execute_proposal_hook"@)]);
    Ok(CoreResponse { attributes, messages })
}

/// The `dao_uri` attribute of a configuration update.
pub open spec fn dao_uri_text(u: Option<String>) -> Seq<char> {
    match u {
        Some(s) => s@,
        None => "None"@,
    }
}

/// Outcome of a configuration update: only the DAO itself may replace its
/// configuration, and only with a valid one.
pub open spec fn update_config_outcome<I, W>(
    o: CoreState,
    n: CoreState,
    contract: String,
    sender: String,
    c: Config,
    r: Result<CoreResponse<I, W>, CoreError>,
) -> bool {
    if sender@ != contract@ {
        r matches Err(CoreError::Unauthorized) && n == o
    } else if config_error(c) is Some {
        r matches Err(e) && config_error(c) == Some(e) && n == o
    } else {
        &&& r matches Ok(resp)
        &&& n.config == c
        &&& same_but_config(o, n)
        &&& attrs_view(resp.attributes@) == seq![
            ("action"@, "execute_update_config"@),
            ("name"@, c.name@),
            ("description"@, c.description@),
            ("dao_uri"@, dao_uri_text(c.dao_uri)),
        ]
        &&& resp.messages@.len() == 0
    }
}

/// Replaces the configuration of the DAO.
pub fn execute_update_config<I, W>(
    state: &mut CoreState,
    contract: &String,
    sender: &String,
    config: Config,
) -> (r: Result<CoreResponse<I, W>, CoreError>)
    ensures
        update_config_outcome(*old(state), *final(state), *contract, *sender, config, r),
{
    if !(*contract == *sender) {
        return Err(CoreError::Unauthorized);
    }
    if let Err(e) = config.validate() {
        return Err(e);
    }
    let name = config.name.clone();
    let description = config.description.clone();
    let uri = match &config.dao_uri {
        Some(u) => u.clone(),
        None => "None".to_owned(),
    };
    state.config = config;
    let mut attributes: Vec<Attribute> = Vec::new();
    attributes.push(attr("action", "execute_update_config".to_owned()));
    attributes.push(attr("name", name));
    attributes.push(attr("description", description));
    attributes.push(attr("dao_uri", uri));
    assert(attrs_view(attributes@) =~= seq![
        ("action"@, "execute_update_config"@),
        ("name"@, state.config.name@),
        ("description"@, state.config.description@),
        ("dao_uri"@, dao_uri_text(state.config.dao_uri)),
    ]);
    Ok(CoreResponse { attributes, messages: Vec::new() })
}

/// Outcome of a voting module update: only the DAO itself may instantiate
/// a replacement voting module.
pub open spec fn update_voting_module_outcome<I, W>(
    contract: String,
    sender: String,
    module: I,
    r: Result<CoreResponse<I, W>, CoreError>,
) -> bool {
    if sender@ != contract@ {
        r matches Err(CoreError::Unauthorized)
    } else {
        &&& r matches Ok(resp)
        &&& attrs_view(resp.attributes@) == seq![("action"@, "execute_update_voting_module"@)]
        &&& resp.messages@ == seq![
            CoreMsg::<I, W>::InstantiateModule {
                info: module,
                admin: contract,
                reply_id: VOTE_MODULE_UPDATE_REPLY_ID,
            },
        ]
    }
}

/// Instantiates a replacement voting module; its reply installs it.
pub fn execute_update_voting_module<I, W>(contract: &String, sender: &String, module: I) -> (r: Result<
    CoreResponse<I, W>,
    CoreError,
>)
    ensures
        update_voting_module_outcome(*contract, *sender, module, r),
{
    if !(*contract == *sender) {
        return Err(CoreError::Unauthorized);
    }
    let mut messages: Vec<CoreMsg<I, W>> = Vec::new();
    messages.push(
        CoreMsg::InstantiateModule {
            info: module,
            admin: contract.clone(),
            reply_id: VOTE_MODULE_UPDATE_REPLY_ID,
        },
    );
    let mut attributes: Vec<Attribute> = Vec::new();
    attributes.push(attr("action", "execute_update_voting_module".to_owned()));
    assert(attrs_view(attributes@) =~= seq![("action"@, "execute_update_voting_module"@)]);
    assert(messages@ =~= seq![
        CoreMsg::<I, W>::InstantiateModule {
            info: module,
            admin: *contract,
            reply_id: VOTE_MODULE_UPDATE_REPLY_ID,
        },
    ]);
    Ok(CoreResponse { attributes, messages })
}

/// Outcome of setting an item: only the DAO itself may store it.
pub open spec fn set_item_outcome<I, W>(
    o: CoreState,
    n: CoreState,
    contract: String,
    sender: String,
    key: String,
    value: String,
    r: Result<CoreResponse<I, W>, CoreError>,
) -> bool {
    if sender@ != contract@ {
        r matches Err(CoreError::Unauthorized) && n == o
    } else {
        &&& r matches Ok(resp)
        &&& map_updated(o.items.view(), n.items.view(), key@, Some(value))
        &&& same_but_items(o, n)
        &&& attrs_view(resp.attributes@) == seq![
            ("action"@, "execute_set_item"@),
            ("key"@, key@),
            ("addr"@, value@),
        ]
        &&& resp.messages@.len() == 0
    }
}

/// Stores `value` under `key` in the DAO's items, replacing what was there.
pub fn execute_set_item<I, W>(
    state: &mut CoreState,
    contract: &String,
    sender: &String,
    key: String,
    value: String,
) -> (r: Result<CoreResponse<I, W>, CoreError>)
    requires
        old(state).wf(),
    ensures
        final(state).wf(),
        set_item_outcome(*old(state), *final(state), *contract, *sender, key, value, r),
{
    if !(*contract == *sender) {
        return Err(CoreError::Unauthorized);
    }
    let mut attributes: Vec<Attribute> = Vec::new();
    attributes.push(attr("action", "execute_set_item".to_owned()));
    attributes.push(attr("key", key.clone()));
    attributes.push(attr("addr", value.clone()));
    assert(attrs_view(attributes@) =~= seq![
        ("action"@, "execute_set_item"@),
        ("key"@, key@),
        ("addr"@, value@),
    ]);
    state.items.insert(key, value);
    Ok(CoreResponse { attributes, messages: Vec::new() })
}

/// Outcome of removing an item: only the DAO itself may remove one, and
/// only one that is there.
pub open spec fn remove_item_outcome<I, W>(
    o: CoreState,
    n: CoreState,
    contract: String,
    sender: String,
    key: String,
    r: Result<CoreResponse<I, W>, CoreError>,
) -> bool {
    if sender@ != contract@ {
        r matches Err(CoreError::Unauthorized) && n == o
    } else if lookup(o.items.view(), key@) is None {
        r matches Err(CoreError::KeyMissing) && n == o
    } else {
        &&& r matches Ok(resp)
        &&& map_updated(o.items.view(), n.items.view(), key@, None)
        &&& same_but_items(o, n)
        &&& attrs_view(resp.attributes@) == seq![
            ("action"@, "execute_remove_item"@),
            ("key"@, key@),
        ]
        &&& resp.messages@.len() == 0
    }
}

/// Removes the item stored under `key`.
pub fn execute_remove_item<I, W>(
    state: &mut CoreState,
    contract: &String,
    sender: &String,
    key: String,
) -> (r: Result<CoreResponse<I, W>, CoreError>)
    requires
        old(state).wf(),
    ensures
        final(state).wf(),
        remove_item_outcome(*old(state), *final(state), *contract, *sender, key, r),
{
    if !(*contract == *sender) {
        return Err(CoreError::Unauthorized);
    }
    if state.items.contains_key(key.as_str()) {
        state.items.remove(key.as_str());
        let mut attributes: Vec<Attribute> = Vec::new();
        attributes.push(attr("action", "execute_remove_item".to_owned()));
        attributes.push(attr("key", key));
        assert(attrs_view(attributes@) =~= seq![
            ("action"@, "execute_remove_item"@),
            ("key"@, key@),
        ]);
        Ok(CoreResponse { attributes, messages: Vec::new() })
    } else {
        Err(CoreError::KeyMissing)
    }
}

/// The module with its status set to disabled.
pub open spec fn disabled(m: ProposalModule) -> ProposalModule {
    ProposalModule { address: m.address, prefix: m.prefix, status: ProposalModuleStatus::Disabled }
}

/// The entry is the address `a`.
pub open spec fn names(e: Result<String, String>, a: Seq<char>) -> bool {
    e matches Ok(b) && b@ == a
}

/// An earlier entry of the list names `a`.
pub open spec fn named_before(entries: Seq<Result<String, String>>, j: int, a: Seq<char>) -> bool {
    exists|i: int| 0 <= i < j && names(#[trigger] entries[i], a)
}

/// The error the `j`-th module to disable ends in, given the modules
/// before the update: an address the chain rejected, an unknown module,
/// or a module that is already disabled (also by an earlier entry).
pub open spec fn disable_entry_error(
    mods: Seq<(Seq<char>, ProposalModule)>,
    entries: Seq<Result<String, String>>,
    j: int,
) -> Option<CoreError> {
    match entries[j] {
        Err(m) => Some(CoreError::Std { msg: m }),
        Ok(a) => match lookup(mods, a@) {
            None => Some(CoreError::ProposalModuleDoesNotExist { address: a }),
            Some(m) => if m.status == ProposalModuleStatus::Disabled || named_before(entries, j, a@) {
                Some(CoreError::ModuleAlreadyDisabled { address: m.address })
            } else {
                None
            },
        },
    }
}

/// The first error among the first `n` modules to disable.
pub open spec fn disable_error(
    mods: Seq<(Seq<char>, ProposalModule)>,
    entries: Seq<Result<String, String>>,
    n: int,
) -> Option<CoreError>
    decreases n,
{
    if n <= 0 {
        None
    } else {
        match disable_error(mods, entries, n - 1) {
            Some(e) => Some(e),
            None => disable_entry_error(mods, entries, n - 1),
        }
    }
}

/// Some entry of the list names `k`.
pub open spec fn named(entries: Seq<Result<String, String>>, k: Seq<char>) -> bool {
    named_before(entries, entries.len() as int, k)
}

/// Whether the count of active modules would drop below zero: the update
/// then panics.
pub open spec fn disable_underflows<I>(
    s: CoreState,
    to_add: Seq<I>,
    entries: Seq<Result<String, String>>,
) -> bool {
    &&& disable_error(s.proposal_modules.view(), entries, entries.len() as int) is None
    &&& to_add.len() > 0
    &&& s.active_proposal_module_count < (#[verifier::truncate] (entries.len() as u32))
}

/// Outcome of a proposal module update: only the DAO itself may disable
/// modules; every module named must exist and be enabled; and the update
/// may not leave the DAO without an active module unless it adds one.
/// Each module to add is instantiated, in order, by a sub-message whose
/// reply installs it.
pub open spec fn update_proposal_modules_outcome<I, W>(
    o: CoreState,
    n: CoreState,
    contract: String,
    sender: String,
    to_add: Seq<I>,
    entries: Seq<Result<String, String>>,
    r: Result<CoreResponse<I, W>, CoreError>,
) -> bool {
    let count = #[verifier::truncate] (entries.len() as u32);
    if sender@ != contract@ {
        r matches Err(CoreError::Unauthorized) && n == o
    } else if disable_error(o.proposal_modules.view(), entries, entries.len() as int) is Some {
        r matches Err(e) && disable_error(o.proposal_modules.view(), entries, entries.len() as int)
            == Some(e) && n == o
    } else if o.active_proposal_module_count <= count && to_add.len() == 0 {
        r matches Err(CoreError::NoActiveProposalModules) && n == o
    } else {
        &&& r matches Ok(resp)
        &&& sorted_keys(n.proposal_modules.view())
        &&& forall|k: Seq<char>|
            #![trigger lookup(n.proposal_modules.view(), k)]
            lookup(n.proposal_modules.view(), k) == if named(entries, k) {
                Some(disabled(lookup(o.proposal_modules.view(), k)->0))
            } else {
                lookup(o.proposal_modules.view(), k)
            }
        &&& n.proposal_modules.view().len() == o.proposal_modules.view().len()
        &&& n.active_proposal_module_count == o.active_proposal_module_count - count
        &&& n.total_proposal_module_count == o.total_proposal_module_count
        &&& same_but_modules(o, n)
        &&& attrs_view(resp.attributes@) == seq![("action"@, "execute_update_proposal_modules"@)]
        &&& resp.messages@ == proposal_module_msgs::<I, W>(to_add, contract)
    }
}

/// The sub-messages that instantiate the modules `infos`, in order, with
/// `admin` as their admin.
fn module_messages<I, W>(infos: Vec<I>, admin: &String) -> (r: Vec<CoreMsg<I, W>>)
    ensures
        r@ == proposal_module_msgs::<I, W>(infos@, *admin),
{
    let mut messages: Vec<CoreMsg<I, W>> = Vec::new();
    let mut rest = infos;
    let ghost all = rest@;
    let ghost mut taken: Seq<I> = seq![];
    while rest.len() > 0
        invariant
            all == taken + rest@,
            messages@ == proposal_module_msgs::<I, W>(taken, *admin),
        decreases rest.len(),
    {
        let x = rest.remove(0);
        messages.push(
            CoreMsg::InstantiateModule { info: x, admin: admin.clone(), reply_id: PROPOSAL_MODULE_REPLY_ID },
        );
        proof {
            assert(proposal_module_msgs::<I, W>(taken.push(x), *admin) =~= proposal_module_msgs::<
                I,
                W,
            >(taken, *admin).push(
                CoreMsg::InstantiateModule { info: x, admin: *admin, reply_id: PROPOSAL_MODULE_REPLY_ID },
            ));
            taken = taken.push(x);
            assert(all =~= taken + rest@);
        }
    }
    assert(taken =~= all);
    messages
}

/// Whether an earlier entry names `a`.
fn is_named_before(entries: &Vec<Result<String, String>>, j: usize, a: &String) -> (r: bool)
    requires
        j <= entries@.len(),
    ensures
        r == named_before(entries@, j as int, a@),
{
    let mut i: usize = 0;
    while i < j
        invariant
            j <= entries@.len(),
            i <= j,
            forall|x: int| 0 <= x < i ==> !names(#[trigger] entries@[x], a@),
        decreases j - i,
    {
        if let Ok(b) = &entries[i] {
            if *b == *a {
                return true;
            }
        }
        i = i + 1;
    }
    false
}

/// Whether disabling `to_disable` would take the count of active modules
/// below zero, where the update panics: every module named can be
/// disabled, modules are added, and fewer are active than are named.
pub fn update_would_underflow<I>(
    state: &CoreState,
    to_add: &Vec<I>,
    to_disable: &Vec<Result<String, String>>,
) -> (r: bool)
    requires
        state.wf(),
    ensures
        r == disable_underflows(*state, to_add@, to_disable@),
{
    let ghost mods = state.proposal_modules.view();
    let n = to_disable.len();
    let mut j: usize = 0;
    while j < n
        invariant
            n == to_disable@.len(),
            j <= n,
            state.wf(),
            mods == state.proposal_modules.view(),
            disable_error(mods, to_disable@, j as int) is None,
        decreases n - j,
    {
        match &to_disable[j] {
            Err(_) => {
                proof {
                    lemma_disable_error_stays(mods, to_disable@, j + 1, n as int);
                }
                return false;
            },
            Ok(a) => {
                match state.proposal_modules.get(a.as_str()) {
                    None => {
                        proof {
                            lemma_disable_error_stays(mods, to_disable@, j + 1, n as int);
                        }
                        return false;
                    },
                    Some(m) => {
                        if m.status == ProposalModuleStatus::Disabled || is_named_before(to_disable, j, a) {
                            proof {
                                lemma_disable_error_stays(mods, to_disable@, j + 1, n as int);
                            }
                            return false;
                        }
                    },
                }
            },
        }
        j = j + 1;
    }
    let count = #[verifier::truncate] (n as u32);
    to_add.len() > 0 && state.active_proposal_module_count < count
}

/// Disables the named proposal modules and instantiates the modules to add.
pub fn execute_update_proposal_modules<I, W>(
    state: &mut CoreState,
    contract: &String,
    sender: &String,
    to_add: Vec<I>,
    to_disable: Vec<Result<String, String>>,
) -> (r: Result<CoreResponse<I, W>, CoreError>)
    requires
        old(state).wf(),
        !disable_underflows(*old(state), to_add@, to_disable@),
    ensures
        final(state).wf(),
        update_proposal_modules_outcome(*old(state), *final(state), *contract, *sender, to_add@, to_disable@, r),
{
    if !(*contract == *sender) {
        return Err(CoreError::Unauthorized);
    }
    let ghost mods = state.proposal_modules.view();
    let n = to_disable.len();
    let mut j: usize = 0;
    while j < n
        invariant
            n == to_disable@.len(),
            j <= n,
            state.wf(),
            *state == *old(state),
            sender@ == contract@,
            mods == state.proposal_modules.view(),
            disable_error(mods, to_disable@, j as int) is None,
        decreases n - j,
    {
        match &to_disable[j] {
            Err(e) => {
                proof {
                    lemma_disable_error_stays(mods, to_disable@, j + 1, n as int);
                }
                return Err(CoreError::Std { msg: e.clone() });
            },
            Ok(a) => {
                match state.proposal_modules.get(a.as_str()) {
                    None => {
                        proof {
                            lemma_disable_error_stays(mods, to_disable@, j + 1, n as int);
                        }
                        return Err(CoreError::ProposalModuleDoesNotExist { address: a.clone() });
                    },
                    Some(m) => {
                        if m.status == ProposalModuleStatus::Disabled || is_named_before(
                            &to_disable,
                            j,
                            a,
                        ) {
                            proof {
                                lemma_disable_error_stays(mods, to_disable@, j + 1, n as int);
                            }
                            return Err(CoreError::ModuleAlreadyDisabled { address: m.address.clone() });
                        }
                    },
                }
            },
        }
        j = j + 1;
    }
    let count = #[verifier::truncate] (n as u32);
    if state.active_proposal_module_count <= count && to_add.len() == 0 {
        return Err(CoreError::NoActiveProposalModules);
    }
    let ghost old_state = *state;
    let mut j: usize = 0;
    while j < n
        invariant
            n == to_disable@.len(),
            j <= n,
            state.wf(),
            mods == old_state.proposal_modules.view(),
            disable_error(mods, to_disable@, n as int) is None,
            same_but_modules(old_state, *state),
            state.active_proposal_module_count == old_state.active_proposal_module_count,
            state.total_proposal_module_count == old_state.total_proposal_module_count,
            state.proposal_modules.view().len() == mods.len(),
            forall|k: Seq<char>|
                #![trigger lookup(state.proposal_modules.view(), k)]
                lookup(state.proposal_modules.view(), k) == if named_before(to_disable@, j as int, k) {
                    Some(disabled(lookup(mods, k)->0))
                } else {
                    lookup(mods, k)
                },
        decreases n - j,
    {
        proof {
            lemma_disable_entry_ok(mods, to_disable@, j as int, n as int);
        }
        if let Ok(a) = &to_disable[j] {
            let ghost k = a@;
            let current = state.proposal_modules.get(a.as_str());
            assert(!named_before(to_disable@, j as int, k));
            if let Some(m) = current {
                let updated = ProposalModule {
                    address: m.address.clone(),
                    prefix: m.prefix.clone(),
                    status: ProposalModuleStatus::Disabled,
                };
                state.proposal_modules.insert(a.clone(), updated);
            }
        }
        proof {
            assert forall|k: Seq<char>| #[trigger] named_before(to_disable@, j + 1, k) == (named_before(
                to_disable@,
                j as int,
                k,
            ) || names(to_disable@[j as int], k)) by {
                if named_before(to_disable@, j + 1, k) && !named_before(to_disable@, j as int, k) {
                    let i = choose|i: int| 0 <= i < j + 1 && names(#[trigger] to_disable@[i], k);
                    assert(i == j);
                }
            }
        }
        j = j + 1;
    }
    state.active_proposal_module_count = state.active_proposal_module_count - count;
    let mut attributes: Vec<Attribute> = Vec::new();
    attributes.push(attr("action", "execute_update_proposal_modules".to_owned()));
    assert(attrs_view(attributes@) =~= seq![("action"@, "execute_update_proposal_modules"@)]);
    let messages = module_messages(to_add, contract);
    Ok(CoreResponse { attributes, messages })
}

proof fn lemma_disable_error_stays(
    mods: Seq<(Seq<char>, ProposalModule)>,
    entries: Seq<Result<String, String>>,
    k: int,
    n: int,
)
    requires
        0 <= k <= n,
    ensures
        disable_error(mods, entries, k) is Some ==> disable_error(mods, entries, n) == disable_error(
            mods,
            entries,
            k,
        ),
    decreases n - k,
{
    if k < n {
        lemma_disable_error_stays(mods, entries, k, n - 1);
    }
}

pub proof fn lemma_disable_entry_ok(
    mods: Seq<(Seq<char>, ProposalModule)>,
    entries: Seq<Result<String, String>>,
    j: int,
    n: int,
)
    requires
        0 <= j < n,
        disable_error(mods, entries, n) is None,
    ensures
        disable_entry_error(mods, entries, j) is None,
    decreases n,
{
    if j < n - 1 {
        lemma_disable_entry_ok(mods, entries, j, n - 1);
    }
}

/// Messages the DAO core executes.  `I` is the instantiation info of a
/// module, `W` a message forwarded from a proposal module.
pub enum ExecuteMsg<I, W> {
    /// Sent by a proposal module: execute the messages of a passed proposal.
    ExecuteProposalHook { msgs: Vec<W> },
    /// Pause the DAO for a duration.
    Pause { duration: Duration },
    /// Remove an item.
    RemoveItem { key: String },
    /// Set an item.
    SetItem { key: String, addr: String },
    /// Replace the configuration.
    UpdateConfig { config: Config },
    /// Instantiate a replacement voting module.
    UpdateVotingModule { module: I },
    /// Instantiate the modules `to_add` and disable the modules named in
    /// `to_disable`: each address to disable comes as the chain validated
    /// it, or as the text of the error that the validation gave.
    UpdateProposalModules { to_add: Vec<I>, to_disable: Vec<Result<String, String>> },
}

/// What executing `msg` requires beyond a well-formed state: inputs on
/// which the contract would panic are left out.
pub open spec fn execute_admissible<I, W>(
    s: CoreState,
    contract: String,
    block: BlockInfo,
    sender: String,
    msg: ExecuteMsg<I, W>,
) -> bool {
    !paused_at(s, block) ==> match msg {
        ExecuteMsg::Pause { duration } => sender@ == contract@ ==> after_fits(duration, block),
        ExecuteMsg::UpdateProposalModules { to_add, to_disable } => !disable_underflows(
            s,
            to_add@,
            to_disable@,
        ),
        _ => true,
    }
}

/// Outcome of executing `msg`.
pub open spec fn execute_outcome<I, W>(
    o: CoreState,
    n: CoreState,
    contract: String,
    block: BlockInfo,
    sender: String,
    msg: ExecuteMsg<I, W>,
    r: Result<CoreResponse<I, W>, CoreError>,
) -> bool {
    if paused_at(o, block) {
        r matches Err(CoreError::Paused) && n == o
    } else {
        match msg {
            ExecuteMsg::ExecuteProposalHook { msgs } => proposal_hook_outcome(o, sender, msgs@, r)
                && n == o,
            ExecuteMsg::Pause { duration } => pause_outcome(o, n, contract, block, sender, duration, r),
            ExecuteMsg::RemoveItem { key } => remove_item_outcome(o, n, contract, sender, key, r),
            ExecuteMsg::SetItem { key, addr } => set_item_outcome(o, n, contract, sender, key, addr, r),
            ExecuteMsg::UpdateConfig { config } => update_config_outcome(o, n, contract, sender, config, r),
            ExecuteMsg::UpdateVotingModule { module } => update_voting_module_outcome(
                contract,
                sender,
                module,
                r,
            ) && n == o,
            ExecuteMsg::UpdateProposalModules { to_add, to_disable } => update_proposal_modules_outcome(
                o,
                n,
                contract,
                sender,
                to_add@,
                to_disable@,
                r,
            ),
        }
    }
}

/// Executes `msg` sent by `sender` to the DAO at `contract` in `block`.
pub fn execute<I, W>(
    state: &mut CoreState,
    contract: &String,
    block: &BlockInfo,
    sender: &String,
    msg: ExecuteMsg<I, W>,
) -> (r: Result<CoreResponse<I, W>, CoreError>)
    requires
        old(state).wf(),
        execute_admissible(*old(state), *contract, *block, *sender, msg),
    ensures
        final(state).wf(),
        execute_outcome(*old(state), *final(state), *contract, *block, *sender, msg, r),
{
    if let Some(expiration) = &state.paused {
        if !is_expired(expiration, block) {
            return Err(CoreError::Paused);
        }
    }
    match msg {
        ExecuteMsg::ExecuteProposalHook { msgs } => execute_proposal_hook(state, sender, msgs),
        ExecuteMsg::Pause { duration } => execute_pause(state, contract, block, sender, duration),
        ExecuteMsg::RemoveItem { key } => execute_remove_item(state, contract, sender, key),
        ExecuteMsg::SetItem { key, addr } => execute_set_item(state, contract, sender, key, addr),
        ExecuteMsg::UpdateConfig { config } => execute_update_config(state, contract, sender, config),
        ExecuteMsg::UpdateVotingModule { module } => execute_update_voting_module(
            contract,
            sender,
            module,
        ),
        ExecuteMsg::UpdateProposalModules { to_add, to_disable } => execute_update_proposal_modules(
            state,
            contract,
            sender,
            to_add,
            to_disable,
        ),
    }
}

} // verus!
