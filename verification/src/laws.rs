//! Properties that hold across the operations of the contracts: what a
//! paused DAO answers, who may change it, what a query gives back of a
//! write, that proposal module prefixes never collide and the active count
//! stays exact, how registrations are paired with the ids their replies
//! bring, that paging loses and repeats nothing, and what a chain registry
//! gives back.

use vstd::prelude::*;
use crate::chain_registry::{update_chain_outcome, ChainRegistry, RegistryError};
use crate::core_dao::{
    CoreMsg, CoreResponse, CoreState, ICA_HELPER_INSTANTIATE_REPLY_ID, ICQ_HELPER_INSTANTIATE_REPLY_ID,
    PROPOSAL_MODULE_REPLY_ID, VOTE_MODULE_INSTANTIATE_REPLY_ID,
};
use crate::core_execute::{
    disable_error, disable_underflows, disabled, execute_outcome, lemma_disable_entry_ok, named,
    named_before, names, pause_outcome,
    paused_at, remove_item_outcome, set_item_outcome, update_config_outcome,
    update_proposal_modules_outcome, ExecuteMsg,
};
use crate::core_reply::reply_outcome;
use crate::core_query::{enabled_only, entry_values};
use crate::core_types::{attrs_view, config_error, Config, CoreError, ProposalModule, ProposalModuleStatus};
use crate::expiration::{spec_after, spec_is_expired, BlockInfo, Duration};
use crate::keymap::{
    after_bound, as_map, before_bound, capped, map_updated, entries_after, entries_before_reversed, key_lt, lemma_key_lt_asymmetric, lemma_key_lt_irreflexive,
    lemma_key_lt_transitive, lookup, sorted_keys,
};
use crate::prefix::{all_upper_letters, law_module_prefix_shape, law_module_prefixes_distinct, module_prefix};
use crate::icq_contract::{
    delegation_count, delegation_views, filter_delegator, icq_execute_outcome, icq_reply_outcome,
    id_assigned, queued, recorded_delegations, reported_delegations, sudo_tx_outcome, tx_messages_of,
    ExecuteMsg as IcqExecuteMsg,
};
use crate::icq_helper::{delegate_url, transfer_url, IcqError, IcqResponse, IcqState, BALANCE_QUERY_REPLY_ID};
use crate::icq_sudo::{delegate_scan, first_messages, send_transfers, size_error, transfer_scan};
use crate::icq_stake::{carried_amount, first_five, stake_filter, stake_scan, stake_sudo_outcome, StakeScan, StakeState};
use crate::pre_propose::{internalized, ExecuteMsg as PreProposeExecuteMsg, ProposeMessage, ProposeMessageInternal};
use crate::neutron::tx_query_msg;
use crate::icq_tx::{FilterItemView, FilterOp, FilterValueView};
use neutron_sdk::bindings::msg::NeutronMsg;
use crate::icq_tx::{delegate_message, filter_items_of, send_message, AnyView};
use crate::icq_types::{DelegationView, ReplyId, TransferView};
use crate::text::{decimal, parsed_unsigned};
use neutron_sdk::NeutronError;

verus! {

/// While the DAO is paused it refuses every message and nothing changes.
pub proof fn law_paused_dao_refuses_everything<I, W>(
    o: CoreState,
    n: CoreState,
    contract: String,
    block: BlockInfo,
    sender: String,
    msg: ExecuteMsg<I, W>,
    r: Result<CoreResponse<I, W>, CoreError>,
)
    requires
        execute_outcome(o, n, contract, block, sender, msg, r),
        paused_at(o, block),
    ensures
        r matches Err(CoreError::Paused),
        n == o,
{
}

/// Only the DAO itself changes the DAO's state: a message from any other
/// sender, a proposal module included, leaves the state as it was.
pub proof fn law_only_the_dao_changes_its_state<I, W>(
    o: CoreState,
    n: CoreState,
    contract: String,
    block: BlockInfo,
    sender: String,
    msg: ExecuteMsg<I, W>,
    r: Result<CoreResponse<I, W>, CoreError>,
)
    requires
        execute_outcome(o, n, contract, block, sender, msg, r),
        sender@ != contract@,
    ensures
        n == o,
        !(msg is ExecuteProposalHook) ==> r is Err,
{
}

/// After an item is set, reading its key gives the value set, and every
/// other key reads as before.
pub proof fn law_item_read_after_set<I, W>(
    o: CoreState,
    n: CoreState,
    contract: String,
    key: String,
    value: String,
    r: Result<CoreResponse<I, W>, CoreError>,
    other: Seq<char>,
)
    requires
        set_item_outcome(o, n, contract, contract, key, value, r),
    ensures
        r is Ok,
        lookup(n.items.view(), key@) == Some(value),
        other != key@ ==> lookup(n.items.view(), other) == lookup(o.items.view(), other),
{
    assert(lookup(n.items.view(), key@) == Some(value));
    assert(lookup(n.items.view(), other) == if other == key@ {
        Some(value)
    } else {
        lookup(o.items.view(), other)
    });
}

/// After an item is removed, its key reads as absent, and every other key
/// reads as before; removing an absent key is refused.
pub proof fn law_item_read_after_remove<I, W>(
    o: CoreState,
    n: CoreState,
    contract: String,
    key: String,
    r: Result<CoreResponse<I, W>, CoreError>,
    other: Seq<char>,
)
    requires
        remove_item_outcome(o, n, contract, contract, key, r),
    ensures
        lookup(n.items.view(), key@) is None,
        r is Ok <==> lookup(o.items.view(), key@) is Some,
        other != key@ ==> lookup(n.items.view(), other) == lookup(o.items.view(), other),
{
    if lookup(o.items.view(), key@) is Some {
        assert(lookup(n.items.view(), key@) == None::<String>);
        assert(lookup(n.items.view(), other) == if other == key@ {
            None
        } else {
            lookup(o.items.view(), other)
        });
    }
}

/// Every proposal module carries the prefix of a module number below the
/// number of modules ever installed, and no two modules share a prefix.
pub open spec fn prefixes_unique(s: CoreState) -> bool {
    &&& forall|a: Seq<char>|
        #![trigger lookup(s.proposal_modules.view(), a)]
        lookup(s.proposal_modules.view(), a) is Some ==> exists|k: nat|
            k < s.total_proposal_module_count && lookup(s.proposal_modules.view(), a)->0.prefix@
                == #[trigger] module_prefix(k)
    &&& forall|a: Seq<char>, b: Seq<char>|
        #![trigger lookup(s.proposal_modules.view(), a), lookup(s.proposal_modules.view(), b)]
        a != b && lookup(s.proposal_modules.view(), a) is Some && lookup(
            s.proposal_modules.view(),
            b,
        ) is Some ==> lookup(s.proposal_modules.view(), a)->0.prefix@ != lookup(
            s.proposal_modules.view(),
            b,
        )->0.prefix@
}

/// Installing a proposal module keeps prefixes unique: the new module
/// gets the prefix of the next module number, which no module has.
pub proof fn law_reply_keeps_prefixes_unique<I, W>(
    o: CoreState,
    n: CoreState,
    id: u64,
    instantiated: Result<String, String>,
    r: Result<CoreResponse<I, W>, CoreError>,
)
    requires
        reply_outcome(o, n, id, instantiated, r),
        prefixes_unique(o),
    ensures
        prefixes_unique(n),
{
    if id == PROPOSAL_MODULE_REPLY_ID && instantiated is Ok && r is Ok {
        let addr = instantiated->Ok_0@;
        let om = o.proposal_modules.view();
        let nm = n.proposal_modules.view();
        let t = o.total_proposal_module_count as nat;
        let new_m = lookup(nm, addr)->0;
        assert forall|a: Seq<char>| #[trigger] lookup(nm, a) is Some implies exists|k: nat|
            k < n.total_proposal_module_count && lookup(nm, a)->0.prefix@ == #[trigger] module_prefix(k) by {
            if a == addr {
                assert(module_prefix(t) == new_m.prefix@);
            } else {
                assert(lookup(nm, a) == lookup(om, a));
                let m = lookup(om, a)->0;
                let k = choose|k: nat| k < o.total_proposal_module_count && m.prefix@ == #[trigger] module_prefix(k);
                assert(module_prefix(k) == m.prefix@);
            }
        }
        assert forall|a: Seq<char>, b: Seq<char>|
            a != b && lookup(nm, a) is Some && lookup(nm, b) is Some implies #[trigger] lookup(nm, a)->0.prefix@
                != #[trigger] lookup(nm, b)->0.prefix@ by {
            if a == addr {
                assert(lookup(nm, b) == lookup(om, b));
                let m = lookup(om, b)->0;
                let k = choose|k: nat| k < o.total_proposal_module_count && m.prefix@ == #[trigger] module_prefix(k);
                law_module_prefixes_distinct(t, k);
            } else if b == addr {
                assert(lookup(nm, a) == lookup(om, a));
                let m = lookup(om, a)->0;
                let k = choose|k: nat| k < o.total_proposal_module_count && m.prefix@ == #[trigger] module_prefix(k);
                law_module_prefixes_distinct(t, k);
            } else {
                assert(lookup(nm, a) == lookup(om, a));
                assert(lookup(nm, b) == lookup(om, b));
            }
        }
    }
}

/// Executing a message keeps prefixes unique: updates only disable
/// modules, which keeps their prefixes.
pub proof fn law_execute_keeps_prefixes_unique<I, W>(
    o: CoreState,
    n: CoreState,
    contract: String,
    block: BlockInfo,
    sender: String,
    msg: ExecuteMsg<I, W>,
    r: Result<CoreResponse<I, W>, CoreError>,
)
    requires
        execute_outcome(o, n, contract, block, sender, msg, r),
        prefixes_unique(o),
    ensures
        prefixes_unique(n),
{
    let om = o.proposal_modules.view();
    let nm = n.proposal_modules.view();
    if n.proposal_modules != o.proposal_modules {
        assert forall|a: Seq<char>| #[trigger] lookup(nm, a) is Some implies lookup(om, a) is Some
            && lookup(nm, a)->0.prefix == lookup(om, a)->0.prefix by {
            match msg {
                ExecuteMsg::UpdateProposalModules { to_add, to_disable } => {
                    let entries = to_disable@;
                    assert(lookup(nm, a) == if named(entries, a) {
                        Some(disabled(lookup(om, a)->0))
                    } else {
                        lookup(om, a)
                    });
                    if named(entries, a) {
                        let i = choose|i: int| 0 <= i < entries.len() && names(#[trigger] entries[i], a);
                        lemma_disable_entry_ok(om, entries, i, entries.len() as int);
                    }
                },
                _ => {},
            }
        }
        assert forall|a: Seq<char>| #[trigger] lookup(nm, a) is Some implies exists|k: nat|
            k < n.total_proposal_module_count && lookup(nm, a)->0.prefix@ == #[trigger] module_prefix(k) by {
            let p = lookup(om, a)->0;
            let k = choose|k: nat| k < o.total_proposal_module_count && p.prefix@ == #[trigger] module_prefix(k);
            assert(module_prefix(k) == p.prefix@);
        }
        assert forall|a: Seq<char>, b: Seq<char>|
            a != b && lookup(nm, a) is Some && lookup(nm, b) is Some implies #[trigger] lookup(nm, a)->0.prefix@
                != #[trigger] lookup(nm, b)->0.prefix@ by {
            assert(lookup(om, a) is Some && lookup(om, b) is Some);
        }
    }
}

/// A connection recorded by the admin is what the registry then answers
/// for that chain; other chains answer as before.
pub proof fn law_registry_read_after_update(
    o: ChainRegistry,
    n: ChainRegistry,
    remote_chain: Seq<char>,
    connection_id: String,
    r: Result<(), RegistryError>,
    other: Seq<char>,
)
    requires
        update_chain_outcome(o, n, o.config.admin@, remote_chain, connection_id, r),
    ensures
        r is Ok,
        lookup(n.chains.view(), remote_chain) == Some(connection_id),
        other != remote_chain ==> lookup(n.chains.view(), other) == lookup(o.chains.view(), other),
{
    assert(lookup(n.chains.view(), remote_chain) == Some(connection_id));
    assert(lookup(n.chains.view(), other) == if other == remote_chain {
        Some(connection_id)
    } else {
        lookup(o.chains.view(), other)
    });
}

/// Only the admin changes the registry.
pub proof fn law_registry_only_admin_updates(
    o: ChainRegistry,
    n: ChainRegistry,
    sender: Seq<char>,
    remote_chain: Seq<char>,
    connection_id: String,
    r: Result<(), RegistryError>,
)
    requires
        update_chain_outcome(o, n, sender, remote_chain, connection_id, r),
        sender != o.config.admin@,
    ensures
        r is Err,
        n.chains == o.chains,
        n.config == o.config,
{
}

/// A DAO without proposal modules, as instantiation leaves it, has unique
/// prefixes.
pub proof fn law_no_modules_prefixes_unique(s: CoreState)
    requires
        s.proposal_modules.view().len() == 0,
    ensures
        prefixes_unique(s),
{
}

/// Every transfer read from a transaction is a transfer to the recipient
/// asked for.
pub proof fn law_transfers_go_to_recipient(ms: Seq<AnyView>, recipient: Seq<char>, ts: Seq<TransferView>)
    requires
        transfer_scan(ms, recipient) == Some(ts),
    ensures
        forall|i: int| 0 <= i < ts.len() ==> #[trigger] ts[i].recipient == recipient,
    decreases ms.len(),
{
    if ms.len() > 0 {
        let rest = transfer_scan(ms.drop_first(), recipient);
        if rest is Some {
            law_transfers_go_to_recipient(ms.drop_first(), recipient, rest->0);
        }
        if ms[0].type_url == transfer_url() {
            if let Some(sm) = send_message(ms[0].value) {
                if sm.to_address == recipient {
                    let first = send_transfers(sm, recipient);
                    assert forall|i: int| 0 <= i < ts.len() implies #[trigger] ts[i].recipient == recipient by {
                        if i < first.len() {
                            assert(ts[i] == first[i]);
                        } else {
                            assert(ts[i] == rest->0[i - first.len()]);
                        }
                    }
                }
            }
        }
    }
}

/// An amount passes the size check when it reads as a `u64` no larger than
/// the largest allowed transfer.
pub open spec fn amount_allowed(a: Seq<char>) -> bool {
    parsed_unsigned(a, u64::MAX as nat) matches Some(v) && v <= 20000
}

/// The size check passes exactly when every amount is allowed.
pub proof fn law_size_check_passes_iff_all_allowed(amounts: Seq<Seq<char>>, what: Seq<char>)
    ensures
        size_error(amounts, what) is None <==> forall|i: int|
            0 <= i < amounts.len() ==> amount_allowed(#[trigger] amounts[i]),
    decreases amounts.len(),
{
    if amounts.len() > 0 {
        law_size_check_passes_iff_all_allowed(amounts.drop_first(), what);
        if size_error(amounts, what) is None {
            assert forall|i: int| 0 <= i < amounts.len() implies amount_allowed(#[trigger] amounts[i]) by {
                if i > 0 {
                    assert(amounts[i] == amounts.drop_first()[i - 1]);
                }
            }
        } else if forall|i: int| 0 <= i < amounts.len() ==> amount_allowed(#[trigger] amounts[i]) {
            assert(amount_allowed(amounts[0]));
            assert forall|i: int| 0 <= i < amounts.drop_first().len() implies amount_allowed(
                #[trigger] amounts.drop_first()[i],
            ) by {
                assert(amounts.drop_first()[i] == amounts[i + 1]);
            }
        }
    }
}

/// A refused transaction query result records nothing: the helper's state
/// after an error is the state before.
pub proof fn law_refused_tx_results_record_nothing(
    o: IcqState,
    n: IcqState,
    data: Seq<u8>,
    filter: Result<String, NeutronError>,
    r: Result<IcqResponse, IcqError>,
)
    requires
        sudo_tx_outcome(o, n, data, filter, r),
        r is Err,
    ensures
        n == o,
{
}

/// An accepted transaction query result keeps what was recorded before and
/// adds the delegations after it, each one by the delegator that the filter
/// names; the count of delegations grows by their number.
pub proof fn law_accepted_tx_results_append_delegations(
    o: IcqState,
    n: IcqState,
    data: Seq<u8>,
    f: String,
    r: Result<IcqResponse, IcqError>,
)
    requires
        sudo_tx_outcome(o, n, data, Ok::<String, NeutronError>(f), r),
        r is Ok,
    ensures
        reported_delegations(data, Ok::<String, NeutronError>(f)) matches Some(ds) && {
            let d = filter_delegator(filter_items_of(f@)->0);
            &&& delegation_views(recorded_delegations(n, d)) == delegation_views(
                recorded_delegations(o, d),
            ) + ds
            &&& delegation_count(n) == delegation_count(o) + ds.len()
            &&& forall|i: int| 0 <= i < ds.len() ==> #[trigger] ds[i].delegator == d
        },
{
    let ms = tx_messages_of(data)->0;
    let d = filter_delegator(filter_items_of(f@)->0);
    law_delegations_are_by_the_delegator(first_messages(ms), d, delegate_scan(first_messages(ms), d)->0);
}

/// Every delegation read from a transaction is by the delegator asked for.
pub proof fn law_delegations_are_by_the_delegator(
    ms: Seq<AnyView>,
    delegator: Seq<char>,
    ds: Seq<DelegationView>,
)
    requires
        delegate_scan(ms, delegator) == Some(ds),
    ensures
        forall|i: int| 0 <= i < ds.len() ==> #[trigger] ds[i].delegator == delegator,
    decreases ms.len(),
{
    if ms.len() > 0 {
        let rest = delegate_scan(ms.drop_first(), delegator);
        if rest is Some {
            law_delegations_are_by_the_delegator(ms.drop_first(), delegator, rest->0);
        }
        if ms[0].type_url == delegate_url() {
            if let Some(dm) = delegate_message(ms[0].value) {
                if dm.delegator_address == delegator {
                    if let Some(c) = dm.amount {
                        assert forall|i: int| 0 <= i < ds.len() implies #[trigger] ds[i].delegator
                            == delegator by {
                            if i > 0 {
                                assert(ds[i] == rest->0[i - 1]);
                            }
                        }
                    }
                }
            }
        }
    }
}

/// A registration reply gives its query id to the oldest address still
/// waiting, which leaves the queue; every other address keeps its id.
pub proof fn law_reply_pairs_oldest_registration(
    queue: Seq<String>,
    new_queue: Seq<String>,
    ids: Seq<(Seq<char>, u64)>,
    new_ids: Seq<(Seq<char>, u64)>,
    id: u64,
)
    requires
        queue.len() > 0,
        id_assigned(queue, new_queue, ids, new_ids, id),
    ensures
        lookup(new_ids, queue[0]@) == Some(id),
        new_queue == queue.drop_first(),
        forall|k: Seq<char>| k != queue[0]@ ==> #[trigger] lookup(new_ids, k) == lookup(ids, k),
{
    assert forall|k: Seq<char>| k != queue[0]@ implies #[trigger] lookup(new_ids, k) == lookup(ids, k) by {
        assert(lookup(new_ids, k) == if k == queue[0]@ {
            Some(id)
        } else {
            lookup(ids, k)
        });
    }
    assert(lookup(new_ids, queue[0]@) == Some(id));
}

/// Two balance registrations followed by two replies pair in order: with
/// no registration waiting before, the first address registered receives
/// the id of the first reply and the second that of the second, each
/// reply names its id, and no registration is left waiting.  (Two
/// registrations of one address leave it with the later id.)
pub proof fn law_balance_registrations_receive_reply_ids_in_order(
    s0: IcqState,
    s1: IcqState,
    s2: IcqState,
    s3: IcqState,
    s4: IcqState,
    m1: IcqExecuteMsg,
    m2: IcqExecuteMsg,
    r1: Result<IcqResponse, IcqError>,
    r2: Result<IcqResponse, IcqError>,
    id1: u64,
    id2: u64,
    q1: Result<IcqResponse, IcqError>,
    q2: Result<IcqResponse, IcqError>,
)
    requires
        s0.balance_query_queue@.len() == 0,
        m1 is RegisterBalanceQuery,
        m2 is RegisterBalanceQuery,
        icq_execute_outcome(s0, s1, m1, r1),
        r1 is Ok,
        icq_execute_outcome(s1, s2, m2, r2),
        r2 is Ok,
        icq_reply_outcome(s2, s3, BALANCE_QUERY_REPLY_ID, Ok(Some(ReplyId { id: id1 })), q1),
        icq_reply_outcome(s3, s4, BALANCE_QUERY_REPLY_ID, Ok(Some(ReplyId { id: id2 })), q2),
    ensures
        m1->RegisterBalanceQuery_addr@ != m2->RegisterBalanceQuery_addr@ ==> lookup(
            s4.balance_query_id.view(),
            m1->RegisterBalanceQuery_addr@,
        ) == Some(id1),
        lookup(s4.balance_query_id.view(), m2->RegisterBalanceQuery_addr@) == Some(id2),
        s4.balance_query_queue@.len() == 0,
        q1 matches Ok(resp) && attrs_view(resp.attributes@) == seq![("balance_query_reply_id"@, decimal(id1 as nat))],
        q2 matches Ok(resp) && attrs_view(resp.attributes@) == seq![("balance_query_reply_id"@, decimal(id2 as nat))],
{
    let a1 = m1->RegisterBalanceQuery_addr;
    let a2 = m2->RegisterBalanceQuery_addr;
    assert(s2.balance_query_queue@ =~= seq![a1, a2]);
    law_reply_pairs_oldest_registration(
        s2.balance_query_queue@,
        s3.balance_query_queue@,
        s2.balance_query_id.view(),
        s3.balance_query_id.view(),
        id1,
    );
    assert(s3.balance_query_queue@ =~= seq![a2]);
    law_reply_pairs_oldest_registration(
        s3.balance_query_queue@,
        s4.balance_query_queue@,
        s3.balance_query_id.view(),
        s4.balance_query_id.view(),
        id2,
    );
}

/// A registered address waits behind the addresses registered before it:
/// registering appends it to the queue, so it is the next to receive an id
/// exactly when no earlier registration is waiting.
pub proof fn law_registration_waits_in_order(a: IcqState, b: IcqState, addr: String)
    requires
        queued(a, b, 0, addr),
    ensures
        b.balance_query_queue@.last() == addr,
        b.balance_query_queue@.len() == a.balance_query_queue@.len() + 1,
        a.balance_query_queue@.len() == 0 ==> b.balance_query_queue@[0] == addr,
        forall|i: int|
            0 <= i < a.balance_query_queue@.len() ==> #[trigger] b.balance_query_queue@[i]
                == a.balance_query_queue@[i],
{
}

/// Adding up delegations only raises recorded amounts, and only of
/// delegators already recorded: no delegator is added or dropped.
pub proof fn law_stake_amounts_only_grow(m: Map<Seq<char>, u128>, ms: Seq<AnyView>)
    ensures
        stake_scan(m, ms) matches StakeScan::Done(n) ==> n.dom() == m.dom() && forall|k: Seq<char>|
            #[trigger] m.contains_key(k) ==> m[k] <= n[k],
    decreases ms.len(),
{
    if ms.len() > 0 {
        if ms[0].type_url != delegate_url() {
            law_stake_amounts_only_grow(m, ms.drop_first());
        } else if let Some(d) = delegate_message(ms[0].value) {
            if m.contains_key(d.delegator_address) {
                if let Some(a) = carried_amount(d.amount) {
                    if m[d.delegator_address] + a <= u128::MAX {
                        let m2 = m.insert(d.delegator_address, (m[d.delegator_address] + a) as u128);
                        law_stake_amounts_only_grow(m2, ms.drop_first());
                        assert(m2.dom() =~= m.dom());
                    }
                }
            }
        }
    }
}

/// Registrations receive the ids of their replies in the order they were
/// made: when `addr` waits behind `w` earlier addresses, the reply that
/// follows `w` replies gives it its id.  `queues[j]` and `idmaps[j]` are
/// the queue and the recorded ids after `j` replies, the `j`-th of which
/// brings `ids[j]`.
pub proof fn law_replies_follow_registration_order(
    queues: Seq<Seq<String>>,
    idmaps: Seq<Seq<(Seq<char>, u64)>>,
    ids: Seq<u64>,
    addr: String,
)
    requires
        queues.len() >= 2,
        idmaps.len() == queues.len(),
        ids.len() == queues.len() - 1,
        queues[0].len() == queues.len() - 1,
        queues[0].last() == addr,
        forall|j: int|
            0 <= j < queues.len() - 1 ==> #[trigger] id_assigned(
                queues[j],
                queues[j + 1],
                idmaps[j],
                idmaps[j + 1],
                ids[j],
            ),
    ensures
        lookup(idmaps.last(), addr@) == Some(ids.last()),
{
    let w = queues.len() - 2;
    assert forall|j: int| 0 <= j <= w implies #[trigger] queues[j] == queues[0].skip(j) by {
        lemma_queue_after_replies(queues, idmaps, ids, j);
    }
    assert(queues[w] == queues[0].skip(w));
    assert(queues[w][0] == addr);
    assert(id_assigned(queues[w], queues[w + 1], idmaps[w], idmaps[w + 1], ids[w]));
    law_reply_pairs_oldest_registration(queues[w], queues[w + 1], idmaps[w], idmaps[w + 1], ids[w]);
    assert(idmaps.last() == idmaps[w + 1]);
    assert(ids.last() == ids[w]);
}

proof fn lemma_queue_after_replies(
    queues: Seq<Seq<String>>,
    idmaps: Seq<Seq<(Seq<char>, u64)>>,
    ids: Seq<u64>,
    j: int,
)
    requires
        queues.len() >= 2,
        idmaps.len() == queues.len(),
        ids.len() == queues.len() - 1,
        queues[0].len() == queues.len() - 1,
        forall|i: int|
            0 <= i < queues.len() - 1 ==> #[trigger] id_assigned(
                queues[i],
                queues[i + 1],
                idmaps[i],
                idmaps[i + 1],
                ids[i],
            ),
        0 <= j <= queues.len() - 2,
    ensures
        queues[j] == queues[0].skip(j),
    decreases j,
{
    if j == 0 {
        assert(queues[0].skip(0) =~= queues[0]);
    } else {
        lemma_queue_after_replies(queues, idmaps, ids, j - 1);
        let i = j - 1;
        assert(id_assigned(queues[i], queues[i + 1], idmaps[i], idmaps[i + 1], ids[i]));
        assert(queues[0].skip(i).len() > 0);
        assert(queues[0].skip(i).drop_first() =~= queues[0].skip(j));
    }
}

/// The addresses of the enabled proposal modules.
pub open spec fn enabled_addresses(s: CoreState) -> Set<Seq<char>> {
    Set::new(
        |k: Seq<char>|
            lookup(s.proposal_modules.view(), k) matches Some(m) && m.status
                == ProposalModuleStatus::Enabled,
    )
}

/// The count of active proposal modules is the number of enabled modules.
pub open spec fn active_count_exact(s: CoreState) -> bool {
    &&& enabled_addresses(s).finite()
    &&& s.active_proposal_module_count == enabled_addresses(s).len()
}

/// A DAO without proposal modules, as instantiation leaves it, counts no
/// active module.
pub proof fn law_no_modules_count_exact(s: CoreState)
    requires
        s.proposal_modules.view().len() == 0,
        s.active_proposal_module_count == 0,
    ensures
        active_count_exact(s),
{
    assert(enabled_addresses(s) =~= Set::<Seq<char>>::empty());
}

/// Installing a proposal module at a new address counts it as active.
/// (Installing one again at the address of a module counts it twice.)
pub proof fn law_reply_keeps_active_count<I, W>(
    o: CoreState,
    n: CoreState,
    id: u64,
    instantiated: Result<String, String>,
    r: Result<CoreResponse<I, W>, CoreError>,
)
    requires
        reply_outcome(o, n, id, instantiated, r),
        active_count_exact(o),
        id == PROPOSAL_MODULE_REPLY_ID && instantiated is Ok ==> lookup(
            o.proposal_modules.view(),
            instantiated->Ok_0@,
        ) is None,
    ensures
        active_count_exact(n),
{
    if id == PROPOSAL_MODULE_REPLY_ID && instantiated is Ok && r is Ok {
        let addr = instantiated->Ok_0@;
        let nm = n.proposal_modules.view();
        let om = o.proposal_modules.view();
        assert forall|k: Seq<char>| #[trigger] enabled_addresses(n).contains(k) == enabled_addresses(o).insert(
            addr,
        ).contains(k) by {
            assert(lookup(nm, k) == if k == addr {
                lookup(nm, addr)
            } else {
                lookup(om, k)
            });
        }
        assert(enabled_addresses(n) =~= enabled_addresses(o).insert(addr));
        assert(!enabled_addresses(o).contains(addr));
    }
}

/// The count of all proposal modules is the number of installed modules.
pub open spec fn total_count_exact(s: CoreState) -> bool {
    s.total_proposal_module_count == s.proposal_modules.view().len()
}

/// Installing a proposal module at a new address counts it among all
/// modules.  (Installing one again at the address of a module counts it
/// twice.)
pub proof fn law_reply_keeps_total_count<I, W>(
    o: CoreState,
    n: CoreState,
    id: u64,
    instantiated: Result<String, String>,
    r: Result<CoreResponse<I, W>, CoreError>,
)
    requires
        reply_outcome(o, n, id, instantiated, r),
        total_count_exact(o),
        id == PROPOSAL_MODULE_REPLY_ID && instantiated is Ok ==> lookup(
            o.proposal_modules.view(),
            instantiated->Ok_0@,
        ) is None,
    ensures
        total_count_exact(n),
{
}

/// Executing a message keeps the count of all modules exact: an update of
/// the proposal modules disables modules but removes none.
pub proof fn law_execute_keeps_total_count<I, W>(
    o: CoreState,
    n: CoreState,
    contract: String,
    block: BlockInfo,
    sender: String,
    msg: ExecuteMsg<I, W>,
    r: Result<CoreResponse<I, W>, CoreError>,
)
    requires
        execute_outcome(o, n, contract, block, sender, msg, r),
        total_count_exact(o),
    ensures
        total_count_exact(n),
{
}

/// The first error among the entries to disable is the chain's error on an
/// address or one about a module, never the DAO's own.
proof fn lemma_disable_error_not_paused(
    mods: Seq<(Seq<char>, ProposalModule)>,
    entries: Seq<Result<String, String>>,
    k: int,
)
    requires
        k <= entries.len(),
    ensures
        !(disable_error(mods, entries, k) matches Some(CoreError::Paused)),
    decreases k,
{
    if k > 0 {
        lemma_disable_error_not_paused(mods, entries, k - 1);
    }
}

/// A DAO that is not paused, because it never was or because its pause
/// has ended, never answers that it is paused.
pub proof fn law_unpaused_dao_never_answers_paused<I, W>(
    o: CoreState,
    n: CoreState,
    contract: String,
    block: BlockInfo,
    sender: String,
    msg: ExecuteMsg<I, W>,
    r: Result<CoreResponse<I, W>, CoreError>,
)
    requires
        execute_outcome(o, n, contract, block, sender, msg, r),
        !paused_at(o, block),
    ensures
        !(r matches Err(CoreError::Paused)),
{
    if let ExecuteMsg::UpdateProposalModules { to_add, to_disable } = msg {
        lemma_disable_error_not_paused(o.proposal_modules.view(), to_disable@, to_disable@.len() as int);
    }
}

/// Executing a message keeps the count of active modules exact: disabling
/// modules, which must be distinct enabled modules, lowers it by their
/// number.
pub proof fn law_execute_keeps_active_count<I, W>(
    o: CoreState,
    n: CoreState,
    contract: String,
    block: BlockInfo,
    sender: String,
    msg: ExecuteMsg<I, W>,
    r: Result<CoreResponse<I, W>, CoreError>,
)
    requires
        execute_outcome(o, n, contract, block, sender, msg, r),
        active_count_exact(o),
    ensures
        active_count_exact(n),
{
    if !paused_at(o, block) && r is Ok {
        match msg {
            ExecuteMsg::UpdateProposalModules { to_add, to_disable } => {
                law_update_proposal_modules_keeps_counts(o, n, contract, sender, to_add@, to_disable@, r);
            },
            _ => {},
        }
    }
}

/// An accepted update of the proposal modules keeps both counts exact: the
/// active count drops by the number of modules disabled, which must be
/// distinct enabled modules, and no module is removed.
pub proof fn law_update_proposal_modules_keeps_counts<I, W>(
    o: CoreState,
    n: CoreState,
    contract: String,
    sender: String,
    to_add: Seq<I>,
    entries: Seq<Result<String, String>>,
    r: Result<CoreResponse<I, W>, CoreError>,
)
    requires
        update_proposal_modules_outcome(o, n, contract, sender, to_add, entries, r),
    ensures
        active_count_exact(o) ==> active_count_exact(n),
        total_count_exact(o) ==> total_count_exact(n),
{
    if r is Ok && active_count_exact(o) {
        let om = o.proposal_modules.view();
        let nm = n.proposal_modules.view();
        let addrs = entries.map_values(|e: Result<String, String>| e->Ok_0@);
        let named_set = Set::new(|k: Seq<char>| named(entries, k));
        assert forall|j: int| 0 <= j < entries.len() implies {
            &&& #[trigger] entries[j] is Ok
            &&& lookup(om, addrs[j]) matches Some(m) && m.status == ProposalModuleStatus::Enabled
            &&& !named_before(entries, j, addrs[j])
        } by {
            lemma_disable_entry_ok(om, entries, j, entries.len() as int);
        }
        assert(addrs.no_duplicates()) by {
            assert forall|i: int, j: int| 0 <= i < addrs.len() && 0 <= j < addrs.len() && i != j implies addrs[i]
                != addrs[j] by {
                if i < j {
                    if addrs[i] == addrs[j] {
                        assert(names(entries[i], addrs[j]));
                    }
                } else {
                    if addrs[i] == addrs[j] {
                        assert(names(entries[j], addrs[i]));
                    }
                }
            }
        }
        assert forall|k: Seq<char>| #[trigger] named_set.contains(k) == addrs.to_set().contains(k) by {
            if named(entries, k) {
                let i = choose|i: int| 0 <= i < entries.len() && names(#[trigger] entries[i], k);
                assert(addrs[i] == k);
            }
            if addrs.to_set().contains(k) {
                let i = choose|i: int| 0 <= i < addrs.len() && addrs[i] == k;
                assert(names(entries[i], k));
            }
        }
        assert(named_set =~= addrs.to_set());
        addrs.unique_seq_to_set();
        assert forall|k: Seq<char>| #[trigger] enabled_addresses(n).contains(k) == enabled_addresses(
            o,
        ).difference(named_set).contains(k) by {
            assert(lookup(nm, k) == if named(entries, k) {
                Some(disabled(lookup(om, k)->0))
            } else {
                lookup(om, k)
            });
        }
        assert(enabled_addresses(n) =~= enabled_addresses(o).difference(named_set));
        assert(named_set.subset_of(enabled_addresses(o))) by {
            assert forall|k: Seq<char>| named_set.contains(k) implies #[trigger] enabled_addresses(o).contains(k) by {
                let i = choose|i: int| 0 <= i < addrs.len() && addrs[i] == k;
                assert(entries[i] is Ok);
            }
        }
        vstd::set_lib::lemma_len_subset(named_set, enabled_addresses(o));
        assert(enabled_addresses(o).intersect(named_set) =~= named_set);
        vstd::set_lib::lemma_set_difference_len(enabled_addresses(o), named_set);
        assert(entries.len() <= u32::MAX);
    }
}

/// Every entry after the bound lies after it and comes from the entries.
proof fn lemma_entries_after_members<V>(s: Seq<(Seq<char>, V)>, bound: Option<Seq<char>>)
    ensures
        forall|i: int|
            0 <= i < entries_after(s, bound).len() ==> after_bound(entries_after(s, bound)[i].0, bound)
                && s.contains(#[trigger] entries_after(s, bound)[i]),
    decreases s.len(),
{
    if s.len() > 0 {
        let t = s.drop_last();
        lemma_entries_after_members(t, bound);
        let e = entries_after(s, bound);
        assert forall|i: int| 0 <= i < e.len() implies after_bound(e[i].0, bound) && s.contains(#[trigger] e[i]) by {
            if i < entries_after(t, bound).len() {
                assert(e[i] == entries_after(t, bound)[i]);
                let j = choose|j: int| 0 <= j < t.len() && t[j] == entries_after(t, bound)[i];
                assert(s[j] == t[j]);
            } else {
                assert(e[i] == s.last());
                assert(s[s.len() - 1] == s.last());
            }
        }
    }
}

/// The entries after a bound of sorted entries are sorted.
proof fn lemma_entries_after_sorted<V>(s: Seq<(Seq<char>, V)>, bound: Option<Seq<char>>)
    requires
        sorted_keys(s),
    ensures
        sorted_keys(entries_after(s, bound)),
    decreases s.len(),
{
    if s.len() > 0 {
        let t = s.drop_last();
        assert(sorted_keys(t)) by {
            assert forall|i: int, j: int| 0 <= i < j < t.len() implies key_lt(#[trigger] t[i].0, #[trigger] t[j].0) by {
                assert(t[i] == s[i] && t[j] == s[j]);
            }
        }
        lemma_entries_after_sorted(t, bound);
        lemma_entries_after_members(t, bound);
        let r = entries_after(t, bound);
        if after_bound(s.last().0, bound) {
            let e = r.push(s.last());
            assert forall|i: int, j: int| 0 <= i < j < e.len() implies key_lt(#[trigger] e[i].0, #[trigger] e[j].0) by {
                if j < r.len() {
                    assert(e[i] == r[i] && e[j] == r[j]);
                } else {
                    assert(e[i] == r[i]);
                    let k = choose|k: int| 0 <= k < t.len() && t[k] == r[i];
                    assert(s[k] == t[k]);
                    assert(key_lt(s[k].0, s[s.len() - 1].0));
                }
            }
        }
    }
}

/// Entries after a later bound are the same whether taken from all entries
/// or from those after an earlier bound.
proof fn lemma_entries_after_twice<V>(s: Seq<(Seq<char>, V)>, bound: Option<Seq<char>>, k: Seq<char>)
    requires
        after_bound(k, bound),
    ensures
        entries_after(s, Some(k)) == entries_after(entries_after(s, bound), Some(k)),
    decreases s.len(),
{
    if s.len() > 0 {
        let t = s.drop_last();
        lemma_entries_after_twice(t, bound, k);
        let x = s.last();
        let inner = entries_after(t, bound);
        if after_bound(x.0, bound) {
            assert(inner.push(x).drop_last() =~= inner);
        }
        if key_lt(k, x.0) {
            if let Some(b) = bound {
                lemma_key_lt_transitive(b, k, x.0);
            }
        }
    }
}

/// In sorted entries, those after the key of the `n`-th are the ones that
/// follow it.
proof fn lemma_entries_after_position<V>(t: Seq<(Seq<char>, V)>, n: int)
    requires
        sorted_keys(t),
        0 < n <= t.len(),
    ensures
        entries_after(t, Some(t[n - 1].0)) == t.skip(n),
    decreases t.len(),
{
    let k = t[n - 1].0;
    let u = t.drop_last();
    if n == t.len() {
        assert forall|i: int| 0 <= i < t.len() implies !key_lt(k, #[trigger] t[i].0) by {
            if i < n - 1 {
                lemma_key_lt_asymmetric(t[i].0, k);
            } else {
                lemma_key_lt_irreflexive(k);
            }
        }
        lemma_entries_after_none_after(t, k);
        assert(t.skip(n) =~= Seq::<(Seq<char>, V)>::empty());
    } else {
        assert(sorted_keys(u)) by {
            assert forall|i: int, j: int| 0 <= i < j < u.len() implies key_lt(#[trigger] u[i].0, #[trigger] u[j].0) by {
                assert(u[i] == t[i] && u[j] == t[j]);
            }
        }
        assert(u[n - 1] == t[n - 1]);
        lemma_entries_after_position(u, n);
        assert(key_lt(t[n - 1].0, t[t.len() - 1].0));
        assert(t.skip(n) =~= u.skip(n).push(t.last()));
    }
}

proof fn lemma_entries_after_none_after<V>(t: Seq<(Seq<char>, V)>, k: Seq<char>)
    requires
        forall|i: int| 0 <= i < t.len() ==> !key_lt(k, #[trigger] t[i].0),
    ensures
        entries_after(t, Some(k)).len() == 0,
    decreases t.len(),
{
    if t.len() > 0 {
        let u = t.drop_last();
        assert forall|i: int| 0 <= i < u.len() implies !key_lt(k, #[trigger] u[i].0) by {
            assert(u[i] == t[i]);
        }
        lemma_entries_after_none_after(u, k);
        assert(t[t.len() - 1] == t.last());
    }
}

/// Paging through sorted entries loses and repeats nothing: starting after
/// the last key of a full page of `n` entries gives exactly the entries that
/// follow that page.
pub proof fn law_pages_continue<V>(s: Seq<(Seq<char>, V)>, bound: Option<Seq<char>>, n: nat)
    requires
        sorted_keys(s),
        0 < n <= entries_after(s, bound).len(),
    ensures
        entries_after(s, Some(capped(entries_after(s, bound), Some(n)).last().0)) == entries_after(
            s,
            bound,
        ).skip(n as int),
{
    let all = entries_after(s, bound);
    let page = capped(all, Some(n));
    assert(page.last() == all[n - 1]);
    lemma_entries_after_members(s, bound);
    let k = all[n - 1].0;
    assert(after_bound(k, bound));
    lemma_entries_after_twice(s, bound, k);
    lemma_entries_after_sorted(s, bound);
    lemma_entries_after_position(all, n as int);
}


/// After the DAO updates its configuration, the configuration it reports is
/// the new one; an invalid one is refused and changes nothing.
pub proof fn law_config_read_after_update<I, W>(
    o: CoreState,
    n: CoreState,
    contract: String,
    c: Config,
    r: Result<CoreResponse<I, W>, CoreError>,
)
    requires
        update_config_outcome(o, n, contract, contract, c, r),
    ensures
        config_error(c) is None ==> r is Ok && n.config == c,
        config_error(c) is Some ==> r is Err && n == o,
{
}

/// A pause lasts until its end: after the DAO pauses itself for `d` in
/// `block`, it is paused in a later block exactly until the point `d` after
/// `block` is reached.
pub proof fn law_pause_lasts_until_its_end<I, W>(
    o: CoreState,
    n: CoreState,
    contract: String,
    block: BlockInfo,
    d: Duration,
    r: Result<CoreResponse<I, W>, CoreError>,
    later: BlockInfo,
)
    requires
        pause_outcome(o, n, contract, block, contract, d, r),
    ensures
        r is Ok,
        paused_at(n, later) == !spec_is_expired(spec_after(d, block), later),
{
}


/// While the count of active modules is exact, disabling modules never
/// takes it below zero: every module disabled is a distinct enabled one.
pub proof fn law_exact_count_never_underflows<I>(
    s: CoreState,
    to_add: Seq<I>,
    to_disable: Seq<Result<String, String>>,
)
    requires
        active_count_exact(s),
    ensures
        !disable_underflows(s, to_add, to_disable),
{
    let entries = to_disable;
    let om = s.proposal_modules.view();
    if disable_error(om, entries, entries.len() as int) is None {
        let addrs = entries.map_values(|e: Result<String, String>| e->Ok_0@);
        let named_set = Set::new(|k: Seq<char>| named(entries, k));
        assert forall|j: int| 0 <= j < entries.len() implies {
            &&& #[trigger] entries[j] is Ok
            &&& lookup(om, addrs[j]) matches Some(m) && m.status == ProposalModuleStatus::Enabled
            &&& !named_before(entries, j, addrs[j])
        } by {
            lemma_disable_entry_ok(om, entries, j, entries.len() as int);
        }
        assert(addrs.no_duplicates()) by {
            assert forall|i: int, j: int| 0 <= i < addrs.len() && 0 <= j < addrs.len() && i != j implies addrs[i]
                != addrs[j] by {
                if i < j {
                    if addrs[i] == addrs[j] {
                        assert(names(entries[i], addrs[j]));
                    }
                } else {
                    if addrs[i] == addrs[j] {
                        assert(names(entries[j], addrs[i]));
                    }
                }
            }
        }
        assert forall|k: Seq<char>| #[trigger] named_set.contains(k) == addrs.to_set().contains(k) by {
            if named(entries, k) {
                let i = choose|i: int| 0 <= i < entries.len() && names(#[trigger] entries[i], k);
                assert(addrs[i] == k);
            }
            if addrs.to_set().contains(k) {
                let i = choose|i: int| 0 <= i < addrs.len() && addrs[i] == k;
                assert(names(entries[i], k));
            }
        }
        assert(named_set =~= addrs.to_set());
        addrs.unique_seq_to_set();
        assert(named_set.subset_of(enabled_addresses(s))) by {
            assert forall|k: Seq<char>| named_set.contains(k) implies #[trigger] enabled_addresses(s).contains(k) by {
                let i = choose|i: int| 0 <= i < addrs.len() && addrs[i] == k;
                assert(entries[i] is Ok);
            }
        }
        vstd::set_lib::lemma_len_subset(named_set, enabled_addresses(s));
        assert(entries.len() <= u32::MAX);
    }
}


/// The entries whose key lies before the bound, in the order of `s`.
pub open spec fn entries_below<V>(s: Seq<(Seq<char>, V)>, bound: Option<Seq<char>>) -> Seq<(Seq<char>, V)>
    decreases s.len(),
{
    if s.len() == 0 {
        seq![]
    } else {
        let rest = entries_below(s.drop_last(), bound);
        if before_bound(s.last().0, bound) {
            rest.push(s.last())
        } else {
            rest
        }
    }
}

proof fn lemma_entries_below_front<V>(s: Seq<(Seq<char>, V)>, bound: Option<Seq<char>>)
    requires
        s.len() > 0,
    ensures
        entries_below(s, bound) == if before_bound(s[0].0, bound) {
            seq![s[0]] + entries_below(s.drop_first(), bound)
        } else {
            entries_below(s.drop_first(), bound)
        },
    decreases s.len(),
{
    if s.len() > 1 {
        let t = s.drop_last();
        let d = s.drop_first();
        lemma_entries_below_front(t, bound);
        assert(t[0] == s[0]);
        assert(t.drop_first() =~= d.drop_last());
        assert(d.last() == s.last());
        let inner = entries_below(t.drop_first(), bound);
        assert(entries_below(d, bound) == if before_bound(d.last().0, bound) {
            entries_below(d.drop_last(), bound).push(d.last())
        } else {
            entries_below(d.drop_last(), bound)
        });
        let head: Seq<(Seq<char>, V)> = if before_bound(s[0].0, bound) {
            seq![s[0]]
        } else {
            seq![]
        };
        assert(entries_below(t, bound) =~= head + inner);
        assert(entries_below(d, bound) == if before_bound(s.last().0, bound) {
            inner.push(s.last())
        } else {
            inner
        });
        if before_bound(s.last().0, bound) {
            assert((head + inner).push(s.last()) =~= head + inner.push(s.last()));
        }
        assert(entries_below(s, bound) =~= head + entries_below(d, bound));
    } else {
        assert(s.drop_first().len() == 0);
        assert(s.drop_last().len() == 0);
        assert(s.last() == s[0]);
        assert(entries_below(s.drop_first(), bound) =~= Seq::<(Seq<char>, V)>::empty());
        assert(entries_below(s.drop_last(), bound) =~= Seq::<(Seq<char>, V)>::empty());
        if before_bound(s[0].0, bound) {
            assert(seq![s[0]] + Seq::<(Seq<char>, V)>::empty() =~= Seq::<(Seq<char>, V)>::empty().push(s[0]));
        }
    }
}

/// Listing before a bound in descending order is listing the entries below
/// it, reversed.
proof fn lemma_before_reversed_is_below<V>(s: Seq<(Seq<char>, V)>, bound: Option<Seq<char>>)
    ensures
        entries_before_reversed(s, bound) == entries_below(s, bound).reverse(),
    decreases s.len(),
{
    if s.len() == 0 {
        assert(entries_below(s, bound).reverse() =~= Seq::<(Seq<char>, V)>::empty());
    } else {
        lemma_before_reversed_is_below(s.drop_first(), bound);
        lemma_entries_below_front(s, bound);
        let rest = entries_below(s.drop_first(), bound);
        if before_bound(s[0].0, bound) {
            assert((seq![s[0]] + rest).reverse() =~= rest.reverse().push(s[0]));
        }
    }
}

proof fn lemma_entries_below_members<V>(s: Seq<(Seq<char>, V)>, bound: Option<Seq<char>>)
    ensures
        forall|i: int|
            0 <= i < entries_below(s, bound).len() ==> before_bound(entries_below(s, bound)[i].0, bound)
                && s.contains(#[trigger] entries_below(s, bound)[i]),
    decreases s.len(),
{
    if s.len() > 0 {
        let t = s.drop_last();
        lemma_entries_below_members(t, bound);
        let e = entries_below(s, bound);
        assert forall|i: int| 0 <= i < e.len() implies before_bound(e[i].0, bound) && s.contains(#[trigger] e[i]) by {
            if i < entries_below(t, bound).len() {
                assert(e[i] == entries_below(t, bound)[i]);
                let j = choose|j: int| 0 <= j < t.len() && t[j] == entries_below(t, bound)[i];
                assert(s[j] == t[j]);
            } else {
                assert(e[i] == s.last());
                assert(s[s.len() - 1] == s.last());
            }
        }
    }
}

proof fn lemma_entries_below_sorted<V>(s: Seq<(Seq<char>, V)>, bound: Option<Seq<char>>)
    requires
        sorted_keys(s),
    ensures
        sorted_keys(entries_below(s, bound)),
    decreases s.len(),
{
    if s.len() > 0 {
        let t = s.drop_last();
        assert(sorted_keys(t)) by {
            assert forall|i: int, j: int| 0 <= i < j < t.len() implies key_lt(#[trigger] t[i].0, #[trigger] t[j].0) by {
                assert(t[i] == s[i] && t[j] == s[j]);
            }
        }
        lemma_entries_below_sorted(t, bound);
        lemma_entries_below_members(t, bound);
        let r = entries_below(t, bound);
        if before_bound(s.last().0, bound) {
            let e = r.push(s.last());
            assert forall|i: int, j: int| 0 <= i < j < e.len() implies key_lt(#[trigger] e[i].0, #[trigger] e[j].0) by {
                if j < r.len() {
                    assert(e[i] == r[i] && e[j] == r[j]);
                } else {
                    assert(e[i] == r[i]);
                    let k = choose|k: int| 0 <= k < t.len() && t[k] == r[i];
                    assert(s[k] == t[k]);
                    assert(key_lt(s[k].0, s[s.len() - 1].0));
                }
            }
        }
    }
}

proof fn lemma_entries_below_twice<V>(s: Seq<(Seq<char>, V)>, bound: Option<Seq<char>>, k: Seq<char>)
    requires
        before_bound(k, bound),
    ensures
        entries_below(s, Some(k)) == entries_below(entries_below(s, bound), Some(k)),
    decreases s.len(),
{
    if s.len() > 0 {
        let t = s.drop_last();
        lemma_entries_below_twice(t, bound, k);
        let x = s.last();
        let inner = entries_below(t, bound);
        if before_bound(x.0, bound) {
            assert(inner.push(x).drop_last() =~= inner);
        }
        if key_lt(x.0, k) {
            if let Some(b) = bound {
                lemma_key_lt_transitive(x.0, k, b);
            }
        }
    }
}

/// In sorted entries, those before the key at position `j` are the ones
/// that precede it.
proof fn lemma_entries_below_position<V>(t: Seq<(Seq<char>, V)>, j: int)
    requires
        sorted_keys(t),
        0 <= j < t.len(),
    ensures
        entries_below(t, Some(t[j].0)) == t.take(j),
    decreases t.len(),
{
    let k = t[j].0;
    let u = t.drop_last();
    assert(sorted_keys(u)) by {
        assert forall|a: int, b: int| 0 <= a < b < u.len() implies key_lt(#[trigger] u[a].0, #[trigger] u[b].0) by {
            assert(u[a] == t[a] && u[b] == t[b]);
        }
    }
    if j == t.len() - 1 {
        lemma_key_lt_irreflexive(k);
        assert forall|i: int| 0 <= i < u.len() implies key_lt(#[trigger] u[i].0, k) by {
            assert(u[i] == t[i]);
        }
        lemma_entries_below_all(u, k);
        assert(t.take(j) =~= u);
    } else {
        assert(u[j] == t[j]);
        lemma_entries_below_position(u, j);
        lemma_key_lt_asymmetric(t[j].0, t[t.len() - 1].0);
        assert(t.take(j) =~= u.take(j));
    }
}

proof fn lemma_entries_below_all<V>(t: Seq<(Seq<char>, V)>, k: Seq<char>)
    requires
        forall|i: int| 0 <= i < t.len() ==> key_lt(#[trigger] t[i].0, k),
    ensures
        entries_below(t, Some(k)) == t,
    decreases t.len(),
{
    if t.len() > 0 {
        let u = t.drop_last();
        assert forall|i: int| 0 <= i < u.len() implies key_lt(#[trigger] u[i].0, k) by {
            assert(u[i] == t[i]);
        }
        lemma_entries_below_all(u, k);
        assert(t[t.len() - 1] == t.last());
        assert(u.push(t.last()) =~= t);
    }
}

/// Paging backwards through sorted entries loses and repeats nothing:
/// listing before the last key of a full page of `n` entries, in descending
/// order, gives exactly the entries that follow that page.
pub proof fn law_descending_pages_continue<V>(s: Seq<(Seq<char>, V)>, bound: Option<Seq<char>>, n: nat)
    requires
        sorted_keys(s),
        0 < n <= entries_before_reversed(s, bound).len(),
    ensures
        entries_before_reversed(
            s,
            Some(capped(entries_before_reversed(s, bound), Some(n)).last().0),
        ) == entries_before_reversed(s, bound).skip(n as int),
{
    let all = entries_before_reversed(s, bound);
    let below = entries_below(s, bound);
    lemma_before_reversed_is_below(s, bound);
    let m = below.len();
    let page = capped(all, Some(n));
    assert(page.last() == all[n - 1]);
    assert(all[n - 1] == below[m - n]);
    let k = below[m - n].0;
    lemma_entries_below_members(s, bound);
    assert(before_bound(k, bound));
    lemma_entries_below_twice(s, bound, k);
    lemma_entries_below_sorted(s, bound);
    lemma_entries_below_position(below, m - n);
    lemma_before_reversed_is_below(s, Some(k));
    assert(below.take(m - n).reverse() =~= all.skip(n as int));
}


/// On the ICA helper's reply the DAO asks the new helper to register an
/// interchain account on every chain of the DAO, one message per chain, in
/// the order of the chains' ids, each with that chain's connection.
pub proof fn law_ica_reply_registers_every_chain<I, W>(
    o: CoreState,
    n: CoreState,
    ica: String,
    r: Result<CoreResponse<I, W>, CoreError>,
)
    requires
        reply_outcome(o, n, ICA_HELPER_INSTANTIATE_REPLY_ID, Ok::<String, String>(ica), r),
        o.ica_helper is None,
    ensures
        n.ica_helper == Some(ica),
        r matches Ok(resp) && {
            &&& resp.messages@.len() == o.chain_stake.view().len()
            &&& forall|i: int|
                0 <= i < o.chain_stake.view().len() ==> #[trigger] resp.messages@[i] == CoreMsg::<
                    I,
                    W,
                >::RegisterIca {
                    ica_helper: ica,
                    connection_id: o.chain_stake.view()[i].1.connection_id,
                    interchain_account_id: o.chain_stake.view()[i].1.chain_id,
                }
        },
{
}

/// What the delegate messages among `ms` by `k` delegate in all: the sum of
/// their amounts, wherever they stand among the messages.
pub open spec fn delegated_to(ms: Seq<AnyView>, k: Seq<char>) -> nat
    decreases ms.len(),
{
    if ms.len() == 0 {
        0
    } else {
        let here: nat = if ms[0].type_url == delegate_url() {
            match delegate_message(ms[0].value) {
                Some(d) => if d.delegator_address == k {
                    match carried_amount(d.amount) {
                        Some(a) => a,
                        None => 0,
                    }
                } else {
                    0
                },
                None => 0,
            }
        } else {
            0
        };
        here + delegated_to(ms.drop_first(), k)
    }
}

/// A message that is not a delegation changes nothing: adding up the
/// delegations of it followed by `rest` ends as adding up those of `rest`.
pub proof fn law_stake_scan_skips_other_messages(m: Map<Seq<char>, u128>, x: AnyView, rest: Seq<AnyView>)
    requires
        x.type_url != delegate_url(),
    ensures
        stake_scan(m, seq![x] + rest) == stake_scan(m, rest),
{
    assert((seq![x] + rest)[0] == x);
    assert((seq![x] + rest).drop_first() =~= rest);
}

/// Where adding up succeeds, each delegator keeps its place and its new
/// amount is its old amount plus what all its delegate messages delegate.
pub proof fn law_stake_scan_adds_each_delegation(m: Map<Seq<char>, u128>, ms: Seq<AnyView>)
    ensures
        stake_scan(m, ms) matches StakeScan::Done(n) ==> {
            &&& n.dom() == m.dom()
            &&& forall|k: Seq<char>| #[trigger] m.contains_key(k) ==> n[k] == m[k] + delegated_to(ms, k)
        },
    decreases ms.len(),
{
    if ms.len() > 0 {
        let rest = ms.drop_first();
        if ms[0].type_url != delegate_url() {
            law_stake_scan_adds_each_delegation(m, rest);
        } else if let Some(d) = delegate_message(ms[0].value) {
            let k0 = d.delegator_address;
            if m.contains_key(k0) {
                if let Some(a) = carried_amount(d.amount) {
                    if m[k0] + a <= u128::MAX {
                        let m2 = m.insert(k0, (m[k0] + a) as u128);
                        law_stake_scan_adds_each_delegation(m2, rest);
                        assert(m2.dom() =~= m.dom());
                    }
                }
            }
        }
    }
}

/// An accepted transaction result raises the amount of each recorded
/// delegator by what its delegate messages among the first five delegate,
/// wherever they stand; no delegator is added or dropped.
pub proof fn law_stake_sudo_adds_delegated_amounts(
    a: StakeState,
    b: StakeState,
    data: Seq<u8>,
    registered_query: Result<String, NeutronError>,
    r: Option<Result<IcqResponse, IcqError>>,
)
    requires
        stake_sudo_outcome(a, b, data, registered_query, r),
        r matches Some(Ok(_)),
    ensures
        tx_messages_of(data) matches Some(ms) && {
            &&& as_map(b.delegate_amount.view()).dom() == as_map(a.delegate_amount.view()).dom()
            &&& forall|k: Seq<char>|
                #[trigger] as_map(a.delegate_amount.view()).contains_key(k) ==> as_map(
                    b.delegate_amount.view(),
                )[k] == as_map(a.delegate_amount.view())[k] + delegated_to(first_five(ms), k)
        },
{
    let ms = tx_messages_of(data)->0;
    law_stake_scan_adds_each_delegation(as_map(a.delegate_amount.view()), first_five(ms));
}

/// Where each enabled module of `vs` stands: strictly increasing positions
/// of enabled modules, every enabled module among them, in the order of
/// `enabled_only(vs)`.
proof fn lemma_enabled_positions(vs: Seq<ProposalModule>) -> (idx: Seq<int>)
    ensures
        idx.len() == enabled_only(vs).len(),
        forall|i: int| 0 <= i < idx.len() ==> 0 <= #[trigger] idx[i] < vs.len(),
        forall|i: int| 0 <= i < idx.len() ==> enabled_only(vs)[i] == vs[#[trigger] idx[i]],
        forall|i: int, j: int| 0 <= i < j < idx.len() ==> #[trigger] idx[i] < #[trigger] idx[j],
        forall|j: int|
            0 <= j < vs.len() && (#[trigger] vs[j]).status == ProposalModuleStatus::Enabled ==> exists|i: int|
                0 <= i < idx.len() && idx[i] == j,
    decreases vs.len(),
{
    if vs.len() == 0 {
        Seq::empty()
    } else {
        let t = vs.drop_last();
        let p = lemma_enabled_positions(t);
        let last = vs.len() - 1;
        assert forall|j: int| 0 <= j < t.len() implies #[trigger] t[j] == vs[j] by {}
        if vs.last().status == ProposalModuleStatus::Enabled {
            let idx = p.push(last);
            assert forall|j: int|
                0 <= j < vs.len() && (#[trigger] vs[j]).status == ProposalModuleStatus::Enabled implies exists|
                i: int,
            | 0 <= i < idx.len() && idx[i] == j by {
                if j == last {
                    assert(idx[p.len() as int] == j);
                } else {
                    assert(t[j] == vs[j]);
                    let i = choose|i: int| 0 <= i < p.len() && p[i] == j;
                    assert(idx[i] == j);
                }
            }
            idx
        } else {
            assert forall|j: int|
                0 <= j < vs.len() && (#[trigger] vs[j]).status == ProposalModuleStatus::Enabled implies exists|
                i: int,
            | 0 <= i < p.len() && p[i] == j by {
                assert(j != last);
                assert(t[j] == vs[j]);
            }
            p
        }
    }
}

/// Every module of `enabled_only(vs)` is enabled.
proof fn lemma_enabled_only_enabled(vs: Seq<ProposalModule>)
    ensures
        forall|i: int| 0 <= i < enabled_only(vs).len() ==> (#[trigger] enabled_only(vs)[i]).status
            == ProposalModuleStatus::Enabled,
    decreases vs.len(),
{
    if vs.len() > 0 {
        lemma_enabled_only_enabled(vs.drop_last());
    }
}

/// The active proposal modules listed after `start_after` are the enabled
/// modules of the full listing after it (`query_proposal_modules` without
/// a limit), in the same order, which is ascending address order: each is
/// enabled and comes from that listing, they keep its order, at most
/// `limit` are listed, and no enabled module before the last one listed
/// (or any, when fewer than `limit` are listed) is left out.
pub proof fn law_active_modules_keep_the_listing_order(
    s: CoreState,
    start_after: Option<Seq<char>>,
    lim: nat,
    r: Seq<ProposalModule>,
)
    requires
        s.wf(),
        r == capped(enabled_only(entry_values(entries_after(s.proposal_modules.view(), start_after))), Some(lim)),
    ensures
        ({
            let es = entries_after(s.proposal_modules.view(), start_after);
            let vs = entry_values(es);
            exists|idx: Seq<int>|
                {
                    &&& #[trigger] idx.len() == r.len()
                    &&& r.len() <= lim
                    &&& forall|i: int| 0 <= i < r.len() ==> 0 <= #[trigger] idx[i] < vs.len()
                    &&& forall|i: int| 0 <= i < r.len() ==> #[trigger] r[i] == vs[idx[i]]
                    &&& forall|i: int| 0 <= i < r.len() ==> (#[trigger] r[i]).status == ProposalModuleStatus::Enabled
                    &&& forall|i: int, j: int| 0 <= i < j < r.len() ==> #[trigger] idx[i] < #[trigger] idx[j]
                    &&& forall|i: int, j: int|
                        0 <= i < j < r.len() ==> key_lt(#[trigger] es[idx[i]].0, #[trigger] es[idx[j]].0)
                    &&& forall|j: int|
                        0 <= j < vs.len() && (#[trigger] vs[j]).status == ProposalModuleStatus::Enabled && (
                        r.len() < lim || (r.len() > 0 && j < idx[r.len() - 1])) ==> exists|i: int|
                            0 <= i < r.len() && idx[i] == j
                }
        }),
{
    let es = entries_after(s.proposal_modules.view(), start_after);
    let vs = entry_values(es);
    let e = enabled_only(vs);
    let all = lemma_enabled_positions(vs);
    lemma_enabled_only_enabled(vs);
    let n: int = if e.len() <= lim { e.len() as int } else { lim as int };
    let idx = all.take(n);
    assert(r.len() == n);
    assert forall|i: int| 0 <= i < r.len() implies #[trigger] r[i] == vs[idx[i]] by {
        assert(r[i] == e[i]);
    }
    assert forall|i: int| 0 <= i < r.len() implies (#[trigger] r[i]).status == ProposalModuleStatus::Enabled by {
        assert(r[i] == e[i]);
    }
    lemma_entries_after_sorted(s.proposal_modules.view(), start_after);
    assert forall|i: int, j: int| 0 <= i < j < r.len() implies key_lt(#[trigger] es[idx[i]].0, #[trigger] es[idx[j]].0) by {
        assert(all[i] < all[j]);
    }
    assert forall|j: int|
        0 <= j < vs.len() && (#[trigger] vs[j]).status == ProposalModuleStatus::Enabled && (r.len() < lim || (
        r.len() > 0 && j < idx[r.len() - 1])) implies exists|i: int| 0 <= i < r.len() && idx[i] == j by {
        let i = choose|i: int| 0 <= i < all.len() && all[i] == j;
        if r.len() < lim {
            assert(idx[i] == j);
        } else {
            if i >= n {
                assert(all[n - 1] < all[i]);
            }
            assert(idx[i] == j);
        }
    }
    assert(idx.len() == r.len());
}

/// A proposal handed on to the base module carries the title, description
/// and messages that were submitted, unchanged, and the sender as its
/// proposer, whatever the proposal says.
pub proof fn law_proposal_is_handed_on_as_submitted<M, S>(
    title: String,
    description: String,
    msgs: Vec<M>,
    sender: String,
    r: PreProposeExecuteMsg<ProposeMessageInternal<M>, S>,
)
    requires
        r == internalized(
            PreProposeExecuteMsg::<ProposeMessage<M>, S>::Propose {
                msg: ProposeMessage::Propose { title, description, msgs },
            },
            sender,
        ),
    ensures
        r matches PreProposeExecuteMsg::Propose {
            msg: ProposeMessageInternal::Propose { title: t, description: d, msgs: m, proposer: p },
        } && t == title && d == description && m == msgs && p == Some(sender),
{
}

/// The hooks reach the base module as they were sent.
pub proof fn law_hooks_are_handed_on_unchanged<M, S>(
    msg: PreProposeExecuteMsg<ProposeMessage<M>, S>,
    sender: String,
    r: PreProposeExecuteMsg<ProposeMessageInternal<M>, S>,
)
    requires
        r == internalized(msg, sender),
        !(msg is Propose),
    ensures
        msg matches PreProposeExecuteMsg::ProposalCreatedHook { proposal_id, proposer } ==> r
            matches PreProposeExecuteMsg::ProposalCreatedHook { proposal_id: i, proposer: p } && i
            == proposal_id && p == proposer,
        msg matches PreProposeExecuteMsg::ProposalCompletedHook { proposal_id, new_status } ==> r
            matches PreProposeExecuteMsg::ProposalCompletedHook { proposal_id: i, new_status: st } && i
            == proposal_id && st == new_status,
{
}

/// The query of new delegations reports the delegate actions, and with a
/// least height `h` only those from height `h` on: its filter is exactly
/// `message.action == "delegate"`, then `tx.height >= h` when a height is
/// given.
pub proof fn law_new_delegation_query_filter(
    connection_id: Seq<char>,
    update_period: u64,
    min_height: Option<u64>,
    m: NeutronMsg,
)
    requires
        m == tx_query_msg(stake_filter(min_height), connection_id, update_period),
    ensures
        m == tx_query_msg(
            match min_height {
                Some(h) => seq![
                    FilterItemView {
                        field: "message.action"@,
                        op: FilterOp::Eq,
                        value: FilterValueView::Str("delegate"@),
                    },
                    FilterItemView { field: "tx.height"@, op: FilterOp::Gte, value: FilterValueView::Int(h) },
                ],
                None => seq![
                    FilterItemView {
                        field: "message.action"@,
                        op: FilterOp::Eq,
                        value: FilterValueView::Str("delegate"@),
                    },
                ],
            },
            connection_id,
            update_period,
        ),
        min_height matches Some(h) ==> stake_filter(min_height).contains(
            FilterItemView { field: "tx.height"@, op: FilterOp::Gte, value: FilterValueView::Int(h) },
        ),
{
    match min_height {
        Some(h) => {
            let f = stake_filter(min_height);
            let expected = seq![
                FilterItemView {
                    field: "message.action"@,
                    op: FilterOp::Eq,
                    value: FilterValueView::Str("delegate"@),
                },
                FilterItemView { field: "tx.height"@, op: FilterOp::Gte, value: FilterValueView::Int(h) },
            ];
            assert(f =~= expected);
            assert(f[1] == expected[1]);
        },
        None => {
            assert(stake_filter(min_height) =~= seq![
                FilterItemView {
                    field: "message.action"@,
                    op: FilterOp::Eq,
                    value: FilterValueView::Str("delegate"@),
                },
            ]);
        },
    }
}

/// A proposal module's reply installs it, enabled, under its own address
/// and a non-empty prefix of capital letters; it counts once more among
/// the active and all modules, and every other module stays as it was.
pub proof fn law_module_reply_installs_an_enabled_module<I, W>(
    o: CoreState,
    n: CoreState,
    addr: String,
    r: Result<CoreResponse<I, W>, CoreError>,
)
    requires
        reply_outcome(o, n, PROPOSAL_MODULE_REPLY_ID, Ok::<String, String>(addr), r),
    ensures
        r is Ok,
        lookup(n.proposal_modules.view(), addr@) matches Some(m) && m.address == addr && m.status
            == ProposalModuleStatus::Enabled && m.prefix@.len() > 0 && all_upper_letters(m.prefix@),
        forall|k: Seq<char>|
            k != addr@ ==> #[trigger] lookup(n.proposal_modules.view(), k) == lookup(o.proposal_modules.view(), k),
        n.active_proposal_module_count == o.active_proposal_module_count + 1,
        n.total_proposal_module_count == o.total_proposal_module_count + 1,
{
    law_module_prefix_shape(o.total_proposal_module_count as nat);
    assert forall|k: Seq<char>|
        k != addr@ implies #[trigger] lookup(n.proposal_modules.view(), k) == lookup(o.proposal_modules.view(), k) by {
        let m = lookup(n.proposal_modules.view(), addr@)->0;
        assert(map_updated(o.proposal_modules.view(), n.proposal_modules.view(), addr@, Some(m)));
    }
}

/// The first replies of the voting registry and of the ICQ helper record
/// the instantiated address as that module, and nothing else changes.
pub proof fn law_helper_replies_record_their_address<I, W>(
    o: CoreState,
    n: CoreState,
    id: u64,
    addr: String,
    r: Result<CoreResponse<I, W>, CoreError>,
)
    requires
        reply_outcome(o, n, id, Ok::<String, String>(addr), r),
        id == VOTE_MODULE_INSTANTIATE_REPLY_ID || id == ICQ_HELPER_INSTANTIATE_REPLY_ID,
        id == VOTE_MODULE_INSTANTIATE_REPLY_ID ==> o.voting_module is None,
        id == ICQ_HELPER_INSTANTIATE_REPLY_ID ==> o.icq_helper is None,
    ensures
        r matches Ok(resp) && resp.messages@.len() == 0,
        id == VOTE_MODULE_INSTANTIATE_REPLY_ID ==> n.voting_module == Some(addr) && n.icq_helper
            == o.icq_helper,
        id == ICQ_HELPER_INSTANTIATE_REPLY_ID ==> n.icq_helper == Some(addr) && n.voting_module
            == o.voting_module,
        n.ica_helper == o.ica_helper,
        n.proposal_modules == o.proposal_modules,
        n.items == o.items,
        n.config == o.config,
        n.paused == o.paused,
{
}

/// Adding up succeeds only where every delegate message decodes, names a
/// recorded delegator and carries an amount that reads as a number.
pub proof fn law_stake_scan_reads_every_delegation(m: Map<Seq<char>, u128>, ms: Seq<AnyView>)
    ensures
        stake_scan(m, ms) is Done ==> forall|i: int|
            0 <= i < ms.len() && (#[trigger] ms[i]).type_url == delegate_url() ==> (delegate_message(
                ms[i].value,
            ) matches Some(d) && m.contains_key(d.delegator_address) && carried_amount(d.amount) is Some),
    decreases ms.len(),
{
    if ms.len() > 0 {
        let rest = ms.drop_first();
        if ms[0].type_url != delegate_url() {
            law_stake_scan_reads_every_delegation(m, rest);
            assert forall|i: int| 0 < i < ms.len() implies #[trigger] ms[i] == rest[i - 1] by {}
        } else if let Some(d) = delegate_message(ms[0].value) {
            let k0 = d.delegator_address;
            if m.contains_key(k0) {
                if let Some(a) = carried_amount(d.amount) {
                    if m[k0] + a <= u128::MAX {
                        let m2 = m.insert(k0, (m[k0] + a) as u128);
                        law_stake_scan_reads_every_delegation(m2, rest);
                        assert(m2.dom() =~= m.dom());
                        assert forall|i: int| 0 < i < ms.len() implies #[trigger] ms[i] == rest[i - 1] by {}
                    }
                }
            }
        }
    }
}

} // verus!
