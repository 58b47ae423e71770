//! The interchain-query helper's entry points: the results Neutron reports
//! for registered queries, the replies to registrations, the queries of
//! what was recorded, and the dispatch of executed messages.

use vstd::prelude::*;
use vstd::string::StringExecFns;
use neutron_sdk::NeutronError;
use crate::core_types::{attr, attrs_view, Attribute};
use crate::icq_types::{copy_delegations, copy_transfers, Delegation, DelegationView, ReplyId, Transfer};
use crate::icq_tx::{
    decode_tx_body, decode_tx_raw, filter_items_of, items_view, messages_view, parse_filter_items,
    raw_tx_body, tx_body_messages, AnyMsg, AnyView, FilterItem, FilterItemView, FilterOp, FilterValue,
    FilterValueView,
};
use crate::icq_helper::{
    delegator_field, query_filter, recipient_filter_view, register_balance_query,
    register_delegations_query, register_delegations_tx_query, register_gov_proposal_query,
    register_staking_validators_query, register_transfers_query, remove_interchain_query,
    same_records, single_message, update_interchain_query, IcqError, IcqResponse, IcqState,
    BALANCE_QUERY_REPLY_ID, DELEGATIONS_TX_QUERY_REPLY_ID, DELEGATION_USER_QUERY_REPLY_ID,
    TRANSFERS_TX_QUERY_REPLY_ID,
};
use crate::neutron::{
    balance_query_msg, delegations_query_msg,
    gov_proposal_query_msg, keys_view, remove_query_msg, strings_view, transfers_query_msg,
    tx_query_msg, update_query_msg, validators_query_msg, KvKey,
};
use crate::icq_sudo::{
    check_delegations_size, delegate_scan, delegation_amounts, delegator_deposits_from_tx_body,
    first_messages, size_error,
};
use crate::keymap::{lookup, map_updated, same_text, KeyMap};
use crate::text::{decimal, u64_text};

verus! {

/// The delegator a transaction query's filter names: the value of its first
/// condition `message.sender == ..`, empty when there is none or when that
/// value is a number.
pub open spec fn filter_delegator(items: Seq<FilterItemView>) -> Seq<char>
    decreases items.len(),
{
    if items.len() == 0 {
        Seq::empty()
    } else if items[0].field == delegator_field() && items[0].op == FilterOp::Eq {
        match items[0].value {
            FilterValueView::Str(v) => v,
            FilterValueView::Int(_) => Seq::empty(),
        }
    } else {
        filter_delegator(items.drop_first())
    }
}

/// The delegator that the filter conditions `items` name.
pub fn delegator_of_filter(items: &Vec<FilterItem>) -> (r: &str)
    ensures
        r@ == filter_delegator(items_view(items@)),
{
    let ghost all = items_view(items@);
    assert(all.skip(0) =~= all);
    let mut i: usize = 0;
    while i < items.len()
        invariant
            i <= items@.len(),
            all == items_view(items@),
            filter_delegator(all) == filter_delegator(all.skip(i as int)),
        decreases items.len() - i,
    {
        proof {
            assert(all.skip(i as int)[0] == all[i as int]);
            assert(all.skip(i as int).drop_first() =~= all.skip(i + 1));
        }
        let item = &items[i];
        assert(item@ == all[i as int]);
        if same_text(item.field.as_str(), "message.sender") && item.op == FilterOp::Eq {
            return match &item.value {
                FilterValue::Str(v) => v.as_str(),
                FilterValue::Int(_) => {
                    proof {
                        reveal_strlit("");
                    }
                    ""
                },
            };
        }
        i = i + 1;
    }
    assert(all.skip(items@.len() as int).len() == 0);
    proof {
        reveal_strlit("");
    }
    assert(""@ =~= Seq::<char>::empty());
    ""
}

/// The messages of the reported transaction `data`, when it decodes.
pub open spec fn tx_messages_of(data: Seq<u8>) -> Option<Seq<AnyView>> {
    match raw_tx_body(data) {
        Some(body) => tx_body_messages(body),
        None => None,
    }
}

/// The messages of the reported raw transaction `data`.
pub fn tx_messages(data: &[u8]) -> (r: Result<Vec<AnyMsg>, IcqError>)
    ensures
        match tx_messages_of(data@) {
            Some(ms) => r matches Ok(v) && messages_view(v@) == ms,
            None => r matches Err(IcqError::Decode(_)),
        },
{
    let body = match decode_tx_raw(data) {
        Ok(b) => b,
        Err(e) => {
            return Err(IcqError::Decode(e));
        },
    };
    match decode_tx_body(body.as_slice()) {
        Ok(m) => Ok(m),
        Err(e) => Err(IcqError::Decode(e)),
    }
}

/// The delegations that the reported transaction `data` carries by the
/// delegator that the registered filter `filter` names; `None` when the
/// transaction, the filter lookup or the filter does not read, or when a
/// delegate message does not decode.
pub open spec fn reported_delegations(
    data: Seq<u8>,
    filter: Result<String, NeutronError>,
) -> Option<Seq<DelegationView>> {
    match tx_messages_of(data) {
        None => None,
        Some(ms) => match filter {
            Err(_) => None,
            Ok(f) => match filter_items_of(f@) {
                None => None,
                Some(items) => delegate_scan(first_messages(ms), filter_delegator(items)),
            },
        },
    }
}

/// The number of delegations recorded so far.
pub open spec fn delegation_count(s: IcqState) -> nat {
    match s.delegations {
        Some(n) => n as nat,
        None => 0,
    }
}

/// The delegations recorded for `delegator` so far.
pub open spec fn recorded_delegations(s: IcqState, delegator: Seq<char>) -> Seq<Delegation> {
    match lookup(s.delegate_txs.view(), delegator) {
        Some(v) => v@,
        None => seq![],
    }
}

/// The delegations as characters.
pub open spec fn delegation_views(v: Seq<Delegation>) -> Seq<DelegationView> {
    v.map_values(|d: Delegation| d@)
}

/// The reported transaction can be recorded: where it carries delegations,
/// the count of delegations still fits in 64 bits after adding them.
pub open spec fn sudo_tx_admissible(
    s: IcqState,
    data: Seq<u8>,
    filter: Result<String, NeutronError>,
) -> bool {
    match reported_delegations(data, filter) {
        Some(ds) => ds.len() == 0 || delegation_count(s) + ds.len() <= u64::MAX,
        None => true,
    }
}

/// The delegations `ds` by `delegator` are added, in order, after those
/// recorded for it before; the count of delegations grows by their number;
/// nothing else changes.
pub open spec fn delegations_recorded(
    o: IcqState,
    n: IcqState,
    delegator: Seq<char>,
    ds: Seq<DelegationView>,
) -> bool {
    &&& lookup(n.delegate_txs.view(), delegator) is Some
    &&& delegation_views(recorded_delegations(n, delegator)) == delegation_views(
        recorded_delegations(o, delegator),
    ) + ds
    &&& forall|k: Seq<char>|
        #![trigger lookup(n.delegate_txs.view(), k)]
        k != delegator ==> lookup(n.delegate_txs.view(), k) == lookup(o.delegate_txs.view(), k)
    &&& n.delegate_txs.view().len() <= o.delegate_txs.view().len() + 1
    &&& delegation_count(n) == delegation_count(o) + ds.len()
    &&& n.delegations is Some
    &&& n.balance_query_id == o.balance_query_id
    &&& n.delegation_user_query_id == o.delegation_user_query_id
    &&& n.balance_query_queue == o.balance_query_queue
    &&& n.delegation_user_query_queue == o.delegation_user_query_queue
    &&& n.transfers_tx_query_queue == o.transfers_tx_query_queue
    &&& n.delegations_tx_query_queue == o.delegations_tx_query_queue
    &&& n.recipient_txs == o.recipient_txs
    &&& n.transfers == o.transfers
}

/// What handling a transaction query result answers and records: the
/// first error among decoding the transaction, looking up the registered
/// filter, reading the filter and decoding a delegation; an error when the
/// transaction holds no delegation by the filter's delegator or when one of
/// their amounts is not allowed; otherwise the delegations are recorded.
/// A refused result records nothing.
pub open spec fn sudo_tx_outcome(
    o: IcqState,
    n: IcqState,
    data: Seq<u8>,
    filter: Result<String, NeutronError>,
    r: Result<IcqResponse, IcqError>,
) -> bool {
    match tx_messages_of(data) {
        None => r matches Err(IcqError::Decode(_)) && n == o,
        Some(ms) => match filter {
            Err(e) => r matches Err(IcqError::Neutron(x)) && x == e && n == o,
            Ok(f) => match filter_items_of(f@) {
                None => r matches Err(IcqError::Json { .. }) && n == o,
                Some(items) => match delegate_scan(first_messages(ms), filter_delegator(items)) {
                    None => r matches Err(IcqError::Decode(_)) && n == o,
                    Some(ds) => if ds.len() == 0 {
                        r matches Err(IcqError::Std { msg }) && msg@
                            == "failed to find a matching Delegate transaction message"@ && n == o
                    } else {
                        match size_error(ds.map_values(|d: DelegationView| d.amount), "delegation"@) {
                            Some(m) => r matches Err(IcqError::Std { msg }) && msg@ == m && n == o,
                            None => {
                                &&& r matches Ok(resp)
                                &&& resp.attributes@.len() == 0
                                &&& resp.messages@.len() == 0
                                &&& delegations_recorded(o, n, filter_delegator(items), ds)
                            },
                        }
                    },
                },
            },
        },
    }
}

/// Handles the result of a transaction query: `data` is the reported raw
/// transaction and `transactions_filter` the lookup of the query's
/// registered filter.  The delegations by the filter's delegator are read
/// from the transaction, their amounts checked, and they are recorded for
/// the delegator and counted.
pub fn sudo_tx_query_result(
    state: &mut IcqState,
    data: &[u8],
    transactions_filter: Result<String, NeutronError>,
) -> (r: Result<IcqResponse, IcqError>)
    requires
        old(state).wf(),
        sudo_tx_admissible(*old(state), data@, transactions_filter),
    ensures
        final(state).wf(),
        sudo_tx_outcome(*old(state), *final(state), data@, transactions_filter, r),
{
    let ghost f0 = transactions_filter;
    let messages = match tx_messages(data) {
        Ok(m) => m,
        Err(e) => {
            return Err(e);
        },
    };
    let filter = match transactions_filter {
        Ok(f) => f,
        Err(e) => {
            return Err(IcqError::Neutron(e));
        },
    };
    let items = match parse_filter_items(filter.as_str()) {
        Ok(v) => v,
        Err(m) => {
            return Err(IcqError::Json { msg: m });
        },
    };
    let delegator = delegator_of_filter(&items);
    let delegations = match delegator_deposits_from_tx_body(&messages, delegator) {
        Ok(d) => d,
        Err(e) => {
            return Err(e);
        },
    };
    let ghost ds = delegation_views(delegations@);
    assert(reported_delegations(data@, f0) == Some(ds));
    if delegations.len() == 0 {
        return Err(
            IcqError::Std { msg: "failed to find a matching Delegate transaction message".to_owned() },
        );
    }
    assert(delegation_amounts(delegations@) =~= ds.map_values(|d: DelegationView| d.amount));
    match check_delegations_size(&delegations) {
        Ok(()) => {},
        Err(e) => {
            return Err(e);
        },
    }
    let ghost o = *state;
    let stored: u64 = match state.delegations {
        Some(n) => n,
        None => 0,
    };
    state.delegations = Some(stored + delegations.len() as u64);
    let mut stored_deposits = match state.delegate_txs.get(delegator) {
        Some(v) => copy_delegations(v),
        None => Vec::new(),
    };
    let ghost earlier = stored_deposits@;
    assert(earlier == recorded_delegations(o, delegator@));
    let mut more = delegations;
    stored_deposits.append(&mut more);
    let ghost all = stored_deposits@;
    assert(delegation_views(all) =~= delegation_views(earlier) + ds);
    state.delegate_txs.insert(delegator.to_owned(), stored_deposits);
    assert(recorded_delegations(*state, delegator@) == all);
    Ok(IcqResponse { attributes: Vec::new(), messages: Vec::new() })
}

/// Handles the result of a transaction query where the count of
/// delegations does not overflow: `None`, with nothing changed, where
/// recording the reported delegations would take it past 64 bits; else
/// what `sudo_tx_query_result` answers.
pub fn sudo_tx_query_result_checked(
    state: &mut IcqState,
    data: &[u8],
    transactions_filter: Result<String, NeutronError>,
) -> (r: Option<Result<IcqResponse, IcqError>>)
    requires
        old(state).wf(),
    ensures
        final(state).wf(),
        r is None <==> !sudo_tx_admissible(*old(state), data@, transactions_filter),
        r is None ==> *final(state) == *old(state),
        r matches Some(x) ==> sudo_tx_outcome(*old(state), *final(state), data@, transactions_filter, x),
{
    let fits = match tx_messages(data) {
        Err(_) => true,
        Ok(messages) => match &transactions_filter {
            Err(_) => true,
            Ok(f) => match parse_filter_items(f.as_str()) {
                Err(_) => true,
                Ok(items) => match delegator_deposits_from_tx_body(&messages, delegator_of_filter(&items)) {
                    Err(_) => true,
                    Ok(ds) => {
                        let count: u64 = match state.delegations {
                            Some(n) => n,
                            None => 0,
                        };
                        proof {
                            assert(delegation_views(ds@).len() == ds@.len());
                        }
                        ds.len() == 0 || (ds.len() as u64) <= u64::MAX - count
                    },
                },
            },
        },
    };
    if fits {
        Some(sudo_tx_query_result(state, data, transactions_filter))
    } else {
        None
    }
}

/// Handles the result of a key-value query: nothing is recorded.
pub fn sudo_kv_query_result(query_id: u64) -> (r: Result<IcqResponse, IcqError>)
    ensures
        r matches Ok(resp) && resp.attributes@.len() == 0 && resp.messages@.len() == 0,
{
    Ok(IcqResponse { attributes: Vec::new(), messages: Vec::new() })
}

/// The oldest address waiting in `old_queue` receives the query id `id`:
/// it leaves the queue and its id is recorded.  With an empty queue
/// nothing changes.
pub open spec fn id_assigned(
    old_queue: Seq<String>,
    new_queue: Seq<String>,
    old_ids: Seq<(Seq<char>, u64)>,
    new_ids: Seq<(Seq<char>, u64)>,
    id: u64,
) -> bool {
    if old_queue.len() == 0 {
        new_queue == old_queue && new_ids == old_ids
    } else {
        new_queue == old_queue.drop_first() && map_updated(old_ids, new_ids, old_queue[0]@, Some(id))
    }
}

/// Pops the oldest address of `queue` and records `id` for it in `ids`.
fn assign_query_id(queue: &mut Vec<String>, ids: &mut KeyMap<u64>, id: u64)
    requires
        old(ids).wf(),
    ensures
        final(ids).wf(),
        id_assigned(old(queue)@, final(queue)@, old(ids).view(), final(ids).view(), id),
{
    if queue.len() > 0 {
        let address = queue.remove(0);
        ids.insert(address, id);
        assert(final(queue)@ =~= old(queue)@.drop_first());
    }
}

/// The states agree but for the balance queue and ids.
pub open spec fn same_but_balance_ids(a: IcqState, b: IcqState) -> bool {
    &&& a.delegation_user_query_id == b.delegation_user_query_id
    &&& a.delegation_user_query_queue == b.delegation_user_query_queue
    &&& a.transfers_tx_query_queue == b.transfers_tx_query_queue
    &&& a.delegations_tx_query_queue == b.delegations_tx_query_queue
    &&& a.recipient_txs == b.recipient_txs
    &&& a.delegate_txs == b.delegate_txs
    &&& a.transfers == b.transfers
    &&& a.delegations == b.delegations
}

/// The states agree but for the delegations queue and ids.
pub open spec fn same_but_delegation_ids(a: IcqState, b: IcqState) -> bool {
    &&& a.balance_query_id == b.balance_query_id
    &&& a.balance_query_queue == b.balance_query_queue
    &&& a.transfers_tx_query_queue == b.transfers_tx_query_queue
    &&& a.delegations_tx_query_queue == b.delegations_tx_query_queue
    &&& a.recipient_txs == b.recipient_txs
    &&& a.delegate_txs == b.delegate_txs
    &&& a.transfers == b.transfers
    &&& a.delegations == b.delegations
}

/// What a reply to a registration does: for a balance or delegations query
/// whose registration succeeded with data, the oldest waiting address gets
/// the new query id, which the response names; a failed registration or
/// one without data is an error; other replies do nothing.
pub open spec fn icq_reply_outcome(
    old_state: IcqState,
    new_state: IcqState,
    id: u64,
    result: Result<Option<ReplyId>, String>,
    r: Result<IcqResponse, IcqError>,
) -> bool {
    if id == BALANCE_QUERY_REPLY_ID || id == DELEGATION_USER_QUERY_REPLY_ID {
        match result {
            Err(s) => r matches Err(IcqError::SubMsgFailure { msg }) && msg == s && new_state
                == old_state,
            Ok(None) => r matches Err(IcqError::ParseFailure { msg }) && msg@ == "Missing reply data"@
                && new_state == old_state,
            Ok(Some(reply_id)) => {
                &&& r matches Ok(resp)
                &&& resp.messages@.len() == 0
                &&& attrs_view(resp.attributes@) == seq![
                    (
                        if id == BALANCE_QUERY_REPLY_ID {
                            "balance_query_reply_id"@
                        } else {
                            "delegation_user_query_reply_id"@
                        },
                        decimal(reply_id.id as nat),
                    ),
                ]
                &&& if id == BALANCE_QUERY_REPLY_ID {
                    &&& id_assigned(
                        old_state.balance_query_queue@,
                        new_state.balance_query_queue@,
                        old_state.balance_query_id.view(),
                        new_state.balance_query_id.view(),
                        reply_id.id,
                    )
                    &&& same_but_balance_ids(old_state, new_state)
                } else {
                    &&& id_assigned(
                        old_state.delegation_user_query_queue@,
                        new_state.delegation_user_query_queue@,
                        old_state.delegation_user_query_id.view(),
                        new_state.delegation_user_query_id.view(),
                        reply_id.id,
                    )
                    &&& same_but_delegation_ids(old_state, new_state)
                }
            },
        }
    } else {
        r matches Ok(resp) && resp.attributes@.len() == 0 && resp.messages@.len() == 0 && new_state
            == old_state
    }
}

/// Handles the reply to a registration: `id` is the reply id and `result`
/// the registration's outcome, with the new query's id when the reply
/// carried data.
pub fn reply(state: &mut IcqState, id: u64, result: Result<Option<ReplyId>, String>) -> (r: Result<
    IcqResponse,
    IcqError,
>)
    requires
        old(state).wf(),
    ensures
        final(state).wf(),
        icq_reply_outcome(*old(state), *final(state), id, result, r),
{
    if id != BALANCE_QUERY_REPLY_ID && id != DELEGATION_USER_QUERY_REPLY_ID {
        return Ok(IcqResponse { attributes: Vec::new(), messages: Vec::new() });
    }
    let data = match result {
        Err(s) => {
            return Err(IcqError::SubMsgFailure { msg: s });
        },
        Ok(d) => d,
    };
    let reply_id = match data {
        None => {
            return Err(IcqError::ParseFailure { msg: "Missing reply data".to_owned() });
        },
        Some(x) => x,
    };
    let id_value: u64 = reply_id.id;
    let mut attributes: Vec<Attribute> = Vec::new();
    if id == BALANCE_QUERY_REPLY_ID {
        assign_query_id(&mut state.balance_query_queue, &mut state.balance_query_id, id_value);
        attributes.push(attr("balance_query_reply_id", u64_text(id_value)));
    } else {
        assign_query_id(
            &mut state.delegation_user_query_queue,
            &mut state.delegation_user_query_id,
            id_value,
        );
        attributes.push(attr("delegation_user_query_reply_id", u64_text(id_value)));
    }
    assert(attrs_view(attributes@) =~= seq![
        (
            if id == BALANCE_QUERY_REPLY_ID {
                "balance_query_reply_id"@
            } else {
                "delegation_user_query_reply_id"@
            },
            decimal(id_value as nat),
        ),
    ]);
    Ok(IcqResponse { attributes, messages: Vec::new() })
}

/// The error of loading an absent query id.
pub open spec fn id_not_found(r: Result<u64, IcqError>) -> bool {
    r matches Err(IcqError::NotFound { kind }) && kind@ == "u64"@
}

impl IcqState {
    /// The id of the balance query registered for `address`.
    pub fn query_address_balance(&self, address: &str) -> (r: Result<u64, IcqError>)
        requires
            self.wf(),
        ensures
            match lookup(self.balance_query_id.view(), address@) {
                Some(id) => r == Ok::<u64, IcqError>(id),
                None => id_not_found(r),
            },
    {
        match self.balance_query_id.get(address) {
            Some(id) => Ok(*id),
            None => Err(IcqError::NotFound { kind: "u64".to_owned() }),
        }
    }

    /// The id of the delegations query registered for `address`.
    pub fn query_address_delegations(&self, address: &str) -> (r: Result<u64, IcqError>)
        requires
            self.wf(),
        ensures
            match lookup(self.delegation_user_query_id.view(), address@) {
                Some(id) => r == Ok::<u64, IcqError>(id),
                None => id_not_found(r),
            },
    {
        match self.delegation_user_query_id.get(address) {
            Some(id) => Ok(*id),
            None => Err(IcqError::NotFound { kind: "u64".to_owned() }),
        }
    }

    /// The transfers recorded for `recipient`; none when nothing was.
    pub fn query_recipient_txs(&self, recipient: &str) -> (r: Vec<Transfer>)
        requires
            self.wf(),
        ensures
            match lookup(self.recipient_txs.view(), recipient@) {
                Some(v) => r@ == v@,
                None => r@.len() == 0,
            },
    {
        match self.recipient_txs.get(recipient) {
            Some(v) => copy_transfers(v),
            None => Vec::new(),
        }
    }

    /// The delegations recorded for `delegator`; none when nothing was.
    pub fn query_delegate_txs(&self, delegator: &str) -> (r: Vec<Delegation>)
        requires
            self.wf(),
        ensures
            match lookup(self.delegate_txs.view(), delegator@) {
                Some(v) => r@ == v@,
                None => r@.len() == 0,
            },
    {
        match self.delegate_txs.get(delegator) {
            Some(v) => copy_delegations(v),
            None => Vec::new(),
        }
    }
}

} // verus!

verus! {

/// The messages the interchain-query helper executes.
pub enum ExecuteMsg {
    RegisterBalanceQuery { connection_id: String, addr: String, denom: String, update_period: u64 },
    RegisterGovernmentProposalsQuery { connection_id: String, proposals_ids: Vec<u64>, update_period: u64 },
    RegisterStakingValidatorsQuery { connection_id: String, validators: Vec<String>, update_period: u64 },
    RegisterDelegatorDelegationsQuery {
        connection_id: String,
        delegator: String,
        validators: Vec<String>,
        update_period: u64,
    },
    RegisterTransfersQuery {
        connection_id: String,
        recipient: String,
        update_period: u64,
        min_height: Option<u64>,
    },
    RegisterDelegationsQuery {
        connection_id: String,
        delegator: String,
        update_period: u64,
        min_height: Option<u64>,
    },
    UpdateInterchainQuery {
        query_id: u64,
        new_keys: Option<Vec<KvKey>>,
        new_update_period: Option<u64>,
        new_recipient: Option<String>,
    },
    RemoveInterchainQuery { query_id: u64 },
}

/// The states agree but for `new` having `addr` added at the end of the
/// queue that `which` names (0 balance, 1 delegations, 2 transfers, 3
/// delegation transactions).
pub open spec fn queued(a: IcqState, b: IcqState, which: u64, addr: String) -> bool {
    &&& same_records(a, b)
    &&& b.balance_query_queue@ == if which == 0 {
        a.balance_query_queue@.push(addr)
    } else {
        a.balance_query_queue@
    }
    &&& b.delegation_user_query_queue@ == if which == 1 {
        a.delegation_user_query_queue@.push(addr)
    } else {
        a.delegation_user_query_queue@
    }
    &&& b.transfers_tx_query_queue@ == if which == 2 {
        a.transfers_tx_query_queue@.push(addr)
    } else {
        a.transfers_tx_query_queue@
    }
    &&& b.delegations_tx_query_queue@ == if which == 3 {
        a.delegations_tx_query_queue@.push(addr)
    } else {
        a.delegations_tx_query_queue@
    }
}

/// What executing `msg` answers and how it changes the helper's state.
pub open spec fn icq_execute_outcome(
    a: IcqState,
    b: IcqState,
    msg: ExecuteMsg,
    r: Result<IcqResponse, IcqError>,
) -> bool {
    match msg {
        ExecuteMsg::RegisterBalanceQuery { connection_id, addr, denom, update_period } => match balance_query_msg(
            connection_id@,
            addr@,
            denom@,
            update_period,
        ) {
            Ok(m) => {
                &&& r matches Ok(resp) && single_message(resp, m, Some(BALANCE_QUERY_REPLY_ID))
                &&& queued(a, b, 0, addr)
            },
            Err(e) => r matches Err(IcqError::Neutron(x)) && x == e && b == a,
        },
        ExecuteMsg::RegisterGovernmentProposalsQuery { connection_id, proposals_ids, update_period } => {
            &&& r matches Ok(resp) && single_message(
                resp,
                gov_proposal_query_msg(connection_id@, proposals_ids@, update_period),
                None,
            )
            &&& b == a
        },
        ExecuteMsg::RegisterStakingValidatorsQuery { connection_id, validators, update_period } => {
            &&& match validators_query_msg(connection_id@, strings_view(validators@), update_period) {
                Ok(m) => r matches Ok(resp) && single_message(resp, m, None),
                Err(e) => r matches Err(IcqError::Neutron(x)) && x == e,
            }
            &&& b == a
        },
        ExecuteMsg::RegisterDelegatorDelegationsQuery {
            connection_id,
            delegator,
            validators,
            update_period,
        } => match delegations_query_msg(connection_id@, delegator@, strings_view(validators@), update_period) {
            Ok(m) => {
                &&& r matches Ok(resp) && single_message(resp, m, Some(DELEGATION_USER_QUERY_REPLY_ID))
                &&& queued(a, b, 1, delegator)
            },
            Err(e) => r matches Err(IcqError::Neutron(x)) && x == e && b == a,
        },
        ExecuteMsg::RegisterTransfersQuery { connection_id, recipient, update_period, min_height } => {
            &&& r matches Ok(resp) && single_message(
                resp,
                transfers_query_msg(connection_id@, recipient@, update_period, min_height),
                Some(TRANSFERS_TX_QUERY_REPLY_ID),
            )
            &&& queued(a, b, 2, recipient)
        },
        ExecuteMsg::RegisterDelegationsQuery { connection_id, delegator, update_period, min_height } => {
            &&& r matches Ok(resp) && single_message(
                resp,
                tx_query_msg(
                    query_filter(delegator_field(), FilterValueView::Str(delegator@), min_height),
                    connection_id@,
                    update_period,
                ),
                Some(DELEGATIONS_TX_QUERY_REPLY_ID),
            )
            &&& queued(a, b, 3, delegator)
        },
        ExecuteMsg::UpdateInterchainQuery { query_id, new_keys, new_update_period, new_recipient } => {
            &&& r matches Ok(resp) && single_message(
                resp,
                update_query_msg(
                    query_id,
                    match new_keys {
                        Some(k) => Some(keys_view(k@)),
                        None => None,
                    },
                    new_update_period,
                    recipient_filter_view(new_recipient),
                ),
                None,
            )
            &&& b == a
        },
        ExecuteMsg::RemoveInterchainQuery { query_id } => {
            &&& r matches Ok(resp) && single_message(resp, remove_query_msg(query_id), None)
            &&& b == a
        },
    }
}

/// Executes `msg`: registers, updates or removes an interchain query.
pub fn execute(state: &mut IcqState, msg: ExecuteMsg) -> (r: Result<IcqResponse, IcqError>)
    requires
        old(state).wf(),
    ensures
        final(state).wf(),
        icq_execute_outcome(*old(state), *final(state), msg, r),
{
    match msg {
        ExecuteMsg::RegisterBalanceQuery { connection_id, addr, denom, update_period } => {
            register_balance_query(state, connection_id, addr, denom, update_period)
        },
        ExecuteMsg::RegisterGovernmentProposalsQuery { connection_id, proposals_ids, update_period } => {
            register_gov_proposal_query(connection_id, proposals_ids, update_period)
        },
        ExecuteMsg::RegisterStakingValidatorsQuery { connection_id, validators, update_period } => {
            register_staking_validators_query(connection_id, validators, update_period)
        },
        ExecuteMsg::RegisterDelegatorDelegationsQuery {
            connection_id,
            delegator,
            validators,
            update_period,
        } => register_delegations_query(state, connection_id, delegator, validators, update_period),
        ExecuteMsg::RegisterTransfersQuery { connection_id, recipient, update_period, min_height } => {
            register_transfers_query(state, connection_id, recipient, update_period, min_height)
        },
        ExecuteMsg::RegisterDelegationsQuery { connection_id, delegator, update_period, min_height } => {
            register_delegations_tx_query(state, connection_id, delegator, update_period, min_height)
        },
        ExecuteMsg::UpdateInterchainQuery { query_id, new_keys, new_update_period, new_recipient } => {
            update_interchain_query(query_id, new_keys, new_update_period, new_recipient)
        },
        ExecuteMsg::RemoveInterchainQuery { query_id } => remove_interchain_query(query_id),
    }
}

} // verus!
