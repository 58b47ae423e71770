//! The interchain-query helper: it registers Neutron interchain queries,
//! remembers which query id belongs to which remote address, and reads the
//! transactions that transaction queries report.

use vstd::prelude::*;
use neutron_sdk::bindings::msg::NeutronMsg;
use neutron_sdk::NeutronError;
use crate::core_types::Attribute;
use crate::icq_types::{Delegation, Transfer};
use crate::icq_tx::{items_view, FilterItem, FilterItemView, FilterOp, FilterValue, FilterValueView};
use crate::keymap::KeyMap;
use crate::neutron::{
    balance_query_msg, delegations_query_msg,
    fee_pool_query_msg, gov_proposal_query_msg, keys_view, new_register_balance_query_msg,
    new_register_bank_total_supply_query_msg, new_register_delegator_delegations_query_msg,
    new_register_distribution_fee_pool_query_msg, new_register_gov_proposal_query_msg,
    new_register_staking_validators_query_msg, new_register_transfers_query_msg, register_tx_query,
    remove_interchain_query_msg, remove_query_msg, strings_view, total_supply_query_msg,
    transfers_query_msg, tx_query_msg, update_interchain_query_msg, update_query_msg,
    validators_query_msg, KvKey,
};

verus! {

/// Reply to the registration of a balance query.
pub const BALANCE_QUERY_REPLY_ID: u64 = 0;
/// Reply to the registration of a delegations query.
pub const DELEGATION_USER_QUERY_REPLY_ID: u64 = 1;
/// Reply to the registration of a transfers query.
pub const TRANSFERS_TX_QUERY_REPLY_ID: u64 = 2;
/// Reply to the registration of a delegation transactions query.
pub const DELEGATIONS_TX_QUERY_REPLY_ID: u64 = 3;
/// Largest transfer or delegation amount accepted.
pub const MAX_ALLOWED_TRANSFER: u64 = 20000;
/// Messages of a reported transaction that are read; the rest are ignored.
pub const MAX_ALLOWED_MESSAGES: usize = 20;

/// Type URL of a staking delegation message.
pub open spec fn delegate_url() -> Seq<char> {
    "/cosmos.staking.v1beta1.MsgDelegate"@
}

/// Type URL of a bank send message.
pub open spec fn transfer_url() -> Seq<char> {
    "/cosmos.bank.v1beta1.MsgSend"@
}

/// Transaction filter field of a transfer's recipient.
pub open spec fn recipient_field() -> Seq<char> {
    "transfer.recipient"@
}

/// Transaction filter field of a delegation's delegator.
pub open spec fn delegator_field() -> Seq<char> {
    "message.sender"@
}

/// Transaction filter field of the block height.
pub open spec fn height_field() -> Seq<char> {
    "tx.height"@
}

/// Errors of the interchain-query helper.
#[derive(Debug, PartialEq)]
pub enum IcqError {
    /// Neutron refused to build a message.
    Neutron(NeutronError),
    /// A transaction or message did not decode.
    Decode(prost::DecodeError),
    /// The filter of a registered query did not parse.
    Json { msg: String },
    /// A failed check, with its message.
    Std { msg: String },
    /// A stored value is absent.
    NotFound { kind: String },
    /// A registration failed.
    SubMsgFailure { msg: String },
    /// A registration reply carried no data.
    ParseFailure { msg: String },
}

/// A message to Neutron, with the reply id when its success is answered.
pub struct IcqMsg {
    pub msg: NeutronMsg,
    pub reply_on_success: Option<u64>,
}

/// The attributes and messages of a successful operation.
pub struct IcqResponse {
    pub attributes: Vec<Attribute>,
    pub messages: Vec<IcqMsg>,
}

/// Everything the helper keeps in storage.
pub struct IcqState {
    /// Query id of the balance query of each address.
    pub balance_query_id: KeyMap<u64>,
    /// Query id of the delegations query of each address.
    pub delegation_user_query_id: KeyMap<u64>,
    /// Addresses whose balance query awaits its id, oldest first.
    pub balance_query_queue: Vec<String>,
    /// Addresses whose delegations query awaits its id, oldest first.
    pub delegation_user_query_queue: Vec<String>,
    /// Recipients whose transfers query awaits its id, oldest first.
    pub transfers_tx_query_queue: Vec<String>,
    /// Delegators whose delegation transactions query awaits its id, oldest first.
    pub delegations_tx_query_queue: Vec<String>,
    /// Transfers observed, by recipient.
    pub recipient_txs: KeyMap<Vec<Transfer>>,
    /// Delegations observed, by delegator.
    pub delegate_txs: KeyMap<Vec<Delegation>>,
    /// Number of transfers observed.
    pub transfers: Option<u64>,
    /// Number of delegations observed.
    pub delegations: Option<u64>,
}

impl IcqState {
    pub open spec fn wf(&self) -> bool {
        &&& self.balance_query_id.wf()
        &&& self.delegation_user_query_id.wf()
        &&& self.recipient_txs.wf()
        &&& self.delegate_txs.wf()
    }

    /// A helper that has seen nothing yet.
    pub fn new() -> (s: Self)
        ensures
            s.wf(),
            s.balance_query_id.view().len() == 0,
            s.delegation_user_query_id.view().len() == 0,
            s.balance_query_queue@.len() == 0,
            s.delegation_user_query_queue@.len() == 0,
            s.transfers_tx_query_queue@.len() == 0,
            s.delegations_tx_query_queue@.len() == 0,
            s.recipient_txs.view().len() == 0,
            s.delegate_txs.view().len() == 0,
            s.transfers is None,
            s.delegations is None,
    {
        IcqState {
            balance_query_id: KeyMap::new(),
            delegation_user_query_id: KeyMap::new(),
            balance_query_queue: Vec::new(),
            delegation_user_query_queue: Vec::new(),
            transfers_tx_query_queue: Vec::new(),
            delegations_tx_query_queue: Vec::new(),
            recipient_txs: KeyMap::new(),
            delegate_txs: KeyMap::new(),
            transfers: None,
            delegations: None,
        }
    }
}

/// Everything but the queues is the same in both states.
pub open spec fn same_records(a: IcqState, b: IcqState) -> bool {
    &&& a.balance_query_id == b.balance_query_id
    &&& a.delegation_user_query_id == b.delegation_user_query_id
    &&& a.recipient_txs == b.recipient_txs
    &&& a.delegate_txs == b.delegate_txs
    &&& a.transfers == b.transfers
    &&& a.delegations == b.delegations
}

/// The response holds exactly `m`, answered with `reply` when given.
pub open spec fn single_message(resp: IcqResponse, m: NeutronMsg, reply: Option<u64>) -> bool {
    &&& resp.attributes@.len() == 0
    &&& resp.messages@.len() == 1
    &&& resp.messages@[0].msg == m
    &&& resp.messages@[0].reply_on_success == reply
}

fn one_message(msg: NeutronMsg, reply: Option<u64>) -> (r: IcqResponse)
    ensures
        single_message(r, msg, reply),
{
    let mut messages: Vec<IcqMsg> = Vec::new();
    messages.push(IcqMsg { msg, reply_on_success: reply });
    IcqResponse { attributes: Vec::new(), messages }
}

/// Registers a query of the balance of `addr` in `denom`; the address waits
/// in the balance queue for the query id that the reply brings.
pub fn register_balance_query(
    state: &mut IcqState,
    connection_id: String,
    addr: String,
    denom: String,
    update_period: u64,
) -> (r: Result<IcqResponse, IcqError>)
    ensures
        balance_query_msg(connection_id@, addr@, denom@, update_period) matches Ok(m) ==> (r matches Ok(
            resp,
        ) && single_message(
            resp,
            m,
            Some(BALANCE_QUERY_REPLY_ID),
        )
            && final(state).balance_query_queue@ == old(state).balance_query_queue@.push(addr)
            && final(state).delegation_user_query_queue == old(state).delegation_user_query_queue
            && final(state).transfers_tx_query_queue == old(state).transfers_tx_query_queue
            && final(state).delegations_tx_query_queue == old(state).delegations_tx_query_queue
            && same_records(*old(state), *final(state))),
        balance_query_msg(connection_id@, addr@, denom@, update_period) matches Err(e) ==> (r matches Err(IcqError::Neutron(x)) && x == e && *final(state) == *old(state)),
{
    let msg = match new_register_balance_query_msg(connection_id, addr.clone(), denom, update_period) {
        Ok(m) => m,
        Err(e) => {
            return Err(IcqError::Neutron(e));
        },
    };
    state.balance_query_queue.push(addr);
    Ok(one_message(msg, Some(BALANCE_QUERY_REPLY_ID)))
}

/// Registers a query of the total supply of `denoms`.
pub fn register_bank_total_supply_query(connection_id: String, denoms: Vec<String>, update_period: u64) -> (r: Result<
    IcqResponse,
    IcqError,
>)
    ensures
        r matches Ok(resp) && single_message(
            resp,
            total_supply_query_msg(connection_id@, strings_view(denoms@), update_period),
            None,
        ),
{
    match new_register_bank_total_supply_query_msg(connection_id, denoms, update_period) {
        Ok(m) => Ok(one_message(m, None)),
        Err(e) => Err(IcqError::Neutron(e)),
    }
}

/// Registers a query of the distribution fee pool.
pub fn register_distribution_fee_pool_query(connection_id: String, update_period: u64) -> (r: Result<
    IcqResponse,
    IcqError,
>)
    ensures
        r matches Ok(resp) && single_message(resp, fee_pool_query_msg(connection_id@, update_period), None),
{
    match new_register_distribution_fee_pool_query_msg(connection_id, update_period) {
        Ok(m) => Ok(one_message(m, None)),
        Err(e) => Err(IcqError::Neutron(e)),
    }
}

/// Registers a query of governance proposals.
pub fn register_gov_proposal_query(connection_id: String, proposals_ids: Vec<u64>, update_period: u64) -> (r: Result<
    IcqResponse,
    IcqError,
>)
    ensures
        r matches Ok(resp) && single_message(
            resp,
            gov_proposal_query_msg(connection_id@, proposals_ids@, update_period),
            None,
        ),
{
    match new_register_gov_proposal_query_msg(connection_id, proposals_ids, update_period) {
        Ok(m) => Ok(one_message(m, None)),
        Err(e) => Err(IcqError::Neutron(e)),
    }
}

/// Registers a query of validators.
pub fn register_staking_validators_query(connection_id: String, validators: Vec<String>, update_period: u64) -> (r: Result<
    IcqResponse,
    IcqError,
>)
    ensures
        validators_query_msg(connection_id@, strings_view(validators@), update_period) matches Ok(m) ==> (r matches Ok(
            resp,
        ) && single_message(resp, m, None)),
        validators_query_msg(connection_id@, strings_view(validators@), update_period) matches Err(e) ==> r matches Err(IcqError::Neutron(x)) && x == e,
{
    match new_register_staking_validators_query_msg(connection_id, validators, update_period) {
        Ok(m) => Ok(one_message(m, None)),
        Err(e) => Err(IcqError::Neutron(e)),
    }
}

/// Registers a query of the delegations of `delegator`; the delegator
/// waits in the delegations queue for the query id that the reply brings.
pub fn register_delegations_query(
    state: &mut IcqState,
    connection_id: String,
    delegator: String,
    validators: Vec<String>,
    update_period: u64,
) -> (r: Result<IcqResponse, IcqError>)
    ensures
        delegations_query_msg(connection_id@, delegator@, strings_view(validators@), update_period) matches Ok(m) ==> (r matches Ok(resp) && single_message(
            resp,
            m,
            Some(DELEGATION_USER_QUERY_REPLY_ID),
        )
            && final(state).delegation_user_query_queue@ == old(state).delegation_user_query_queue@.push(delegator)
            && final(state).balance_query_queue == old(state).balance_query_queue
            && final(state).transfers_tx_query_queue == old(state).transfers_tx_query_queue
            && final(state).delegations_tx_query_queue == old(state).delegations_tx_query_queue
            && same_records(*old(state), *final(state))),
        delegations_query_msg(connection_id@, delegator@, strings_view(validators@), update_period) matches Err(e) ==> (r matches Err(IcqError::Neutron(x)) && x == e && *final(state) == *old(state)),
{
    let msg = match new_register_delegator_delegations_query_msg(
        connection_id,
        delegator.clone(),
        validators,
        update_period,
    ) {
        Ok(m) => m,
        Err(e) => {
            return Err(IcqError::Neutron(e));
        },
    };
    state.delegation_user_query_queue.push(delegator);
    Ok(one_message(msg, Some(DELEGATION_USER_QUERY_REPLY_ID)))
}

/// Registers a query of the transfers to `recipient`; the recipient waits
/// in the transfers queue.
pub fn register_transfers_query(
    state: &mut IcqState,
    connection_id: String,
    recipient: String,
    update_period: u64,
    min_height: Option<u64>,
) -> (r: Result<IcqResponse, IcqError>)
    ensures
        r matches Ok(resp) && single_message(
            resp,
            transfers_query_msg(connection_id@, recipient@, update_period, min_height),
            Some(TRANSFERS_TX_QUERY_REPLY_ID),
        ),
        final(state).transfers_tx_query_queue@ == old(state).transfers_tx_query_queue@.push(recipient),
        final(state).balance_query_queue == old(state).balance_query_queue,
        final(state).delegation_user_query_queue == old(state).delegation_user_query_queue,
        final(state).delegations_tx_query_queue == old(state).delegations_tx_query_queue,
        same_records(*old(state), *final(state)),
{
    let msg = match new_register_transfers_query_msg(
        connection_id,
        recipient.clone(),
        update_period,
        min_height,
    ) {
        Ok(m) => m,
        Err(e) => {
            return Err(IcqError::Neutron(e));
        },
    };
    state.transfers_tx_query_queue.push(recipient);
    Ok(one_message(msg, Some(TRANSFERS_TX_QUERY_REPLY_ID)))
}

/// The filter of a transaction query on `field`, optionally from
/// `min_height` on.
pub open spec fn query_filter(field: Seq<char>, value: FilterValueView, min_height: Option<u64>) -> Seq<
    FilterItemView,
> {
    let first = seq![FilterItemView { field: field, op: FilterOp::Eq, value: value }];
    match min_height {
        Some(h) => first.push(
            FilterItemView { field: height_field(), op: FilterOp::Gte, value: FilterValueView::Int(h) },
        ),
        None => first,
    }
}

/// The filter of a query of delegations by `delegator`.
pub fn delegate_query_filter(delegator: String, min_height: Option<u64>) -> (r: Vec<FilterItem>)
    ensures
        items_view(r@) == query_filter(
            delegator_field(),
            FilterValueView::Str(delegator@),
            min_height,
        ),
{
    let mut query_data: Vec<FilterItem> = Vec::new();
    query_data.push(
        FilterItem {
            field: "message.sender".to_owned(),
            op: FilterOp::Eq,
            value: FilterValue::Str(delegator),
        },
    );
    if let Some(h) = min_height {
        query_data.push(
            FilterItem { field: "tx.height".to_owned(), op: FilterOp::Gte, value: FilterValue::Int(h) },
        );
    }
    assert(items_view(query_data@) =~= query_filter(
        delegator_field(),
        FilterValueView::Str(delegator@),
        min_height,
    ));
    query_data
}

/// Builds the registration of a query of delegations by `delegator`.
pub fn new_register_delegate_query_msg(
    connection_id: String,
    delegator: String,
    update_period: u64,
    min_height: Option<u64>,
) -> (r: Result<NeutronMsg, NeutronError>)
    ensures
        r matches Ok(m) && m == tx_query_msg(
            query_filter(delegator_field(), FilterValueView::Str(delegator@), min_height),
            connection_id@,
            update_period,
        ),
{
    let filter = delegate_query_filter(delegator, min_height);
    assert(filter@.len() == items_view(filter@).len());
    register_tx_query(filter, connection_id, update_period)
}

/// Registers a query of the delegation transactions of `delegator`; the
/// delegator waits in the delegation transactions queue.
pub fn register_delegations_tx_query(
    state: &mut IcqState,
    connection_id: String,
    delegator: String,
    update_period: u64,
    min_height: Option<u64>,
) -> (r: Result<IcqResponse, IcqError>)
    ensures
        r matches Ok(resp) && single_message(
            resp,
            tx_query_msg(
                query_filter(delegator_field(), FilterValueView::Str(delegator@), min_height),
                connection_id@,
                update_period,
            ),
            Some(DELEGATIONS_TX_QUERY_REPLY_ID),
        ),
        final(state).delegations_tx_query_queue@ == old(state).delegations_tx_query_queue@.push(delegator),
        final(state).balance_query_queue == old(state).balance_query_queue,
        final(state).delegation_user_query_queue == old(state).delegation_user_query_queue,
        final(state).transfers_tx_query_queue == old(state).transfers_tx_query_queue,
        same_records(*old(state), *final(state)),
{
    let msg = match new_register_delegate_query_msg(connection_id, delegator.clone(), update_period, min_height) {
        Ok(m) => m,
        Err(e) => {
            return Err(IcqError::Neutron(e));
        },
    };
    state.delegations_tx_query_queue.push(delegator);
    Ok(one_message(msg, Some(DELEGATIONS_TX_QUERY_REPLY_ID)))
}

/// The new filter of an update: transfers to the new recipient.
pub fn recipient_filter(new_recipient: Option<String>) -> (r: Option<Vec<FilterItem>>)
    ensures
        match new_recipient {
            None => r is None,
            Some(rec) => r matches Some(f) && items_view(f@) == seq![
                FilterItemView {
                    field: recipient_field(),
                    op: FilterOp::Eq,
                    value: FilterValueView::Str(rec@),
                },
            ],
        },
{
    match new_recipient {
        None => None,
        Some(rec) => {
            let mut f: Vec<FilterItem> = Vec::new();
            f.push(
                FilterItem {
                    field: "transfer.recipient".to_owned(),
                    op: FilterOp::Eq,
                    value: FilterValue::Str(rec),
                },
            );
            assert(items_view(f@) =~= seq![
                FilterItemView {
                    field: recipient_field(),
                    op: FilterOp::Eq,
                    value: FilterValueView::Str(rec@),
                },
            ]);
            Some(f)
        },
    }
}

/// The filter that an update on transfers to `new_recipient` sets.
pub open spec fn recipient_filter_view(new_recipient: Option<String>) -> Option<Seq<FilterItemView>> {
    match new_recipient {
        None => None,
        Some(rec) => Some(
            seq![
                FilterItemView {
                    field: recipient_field(),
                    op: FilterOp::Eq,
                    value: FilterValueView::Str(rec@),
                },
            ],
        ),
    }
}

/// Updates a registered query: new keys, a new period, and a new filter on
/// transfers to `new_recipient`, each when given.
pub fn update_interchain_query(
    query_id: u64,
    new_keys: Option<Vec<KvKey>>,
    new_update_period: Option<u64>,
    new_recipient: Option<String>,
) -> (r: Result<IcqResponse, IcqError>)
    ensures
        r matches Ok(resp) && single_message(
            resp,
            update_query_msg(
                query_id,
                match new_keys {
                    Some(k) => Some(keys_view(k@)),
                    None => None,
                },
                new_update_period,
                recipient_filter_view(new_recipient),
            ),
            None,
        ),
{
    let filter = recipient_filter(new_recipient);
    match &filter {
        Some(f) => {
            assert(f@.len() == items_view(f@).len());
        },
        None => {},
    }
    match update_interchain_query_msg(query_id, new_keys, new_update_period, filter) {
        Ok(m) => Ok(one_message(m, None)),
        Err(e) => Err(IcqError::Neutron(e)),
    }
}

/// Removes a registered query.
pub fn remove_interchain_query(query_id: u64) -> (r: Result<IcqResponse, IcqError>)
    ensures
        r matches Ok(resp) && single_message(resp, remove_query_msg(query_id), None),
{
    Ok(one_message(remove_interchain_query_msg(query_id), None))
}

} // verus!
