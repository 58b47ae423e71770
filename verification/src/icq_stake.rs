//! The first interchain-query helper for stake: it registers balance,
//! delegation and new-delegation queries and adds up, per delegator, the
//! amounts delegated in the transactions that new-delegation queries report.

use vstd::prelude::*;
use vstd::string::StringExecFns;
use neutron_sdk::bindings::msg::NeutronMsg;
use neutron_sdk::NeutronError;
use crate::icq_contract::{tx_messages, tx_messages_of};
use crate::icq_helper::{delegate_url, height_field, single_message, IcqError, IcqMsg, IcqResponse};
use crate::icq_tx::{
    decode_msg_delegate, decode_tx_body, decode_tx_raw, delegate_message, items_view, messages_view,
    AnyMsg, AnyView, CoinView, FilterItem, FilterItemView, FilterOp, FilterValue, FilterValueView,
};
use crate::keymap::{as_map, lookup, same_text, KeyMap};
use crate::neutron::{
    balance_query_msg, delegations_query_msg,
    new_register_balance_query_msg, new_register_delegator_delegations_query_msg, register_tx_query,
    remove_interchain_query_msg, remove_query_msg, strings_view, tx_query_msg,
};
use crate::text::{parse_u128, parsed_unsigned};

verus! {

/// Messages of a reported transaction that are read; the rest are ignored.
pub const STAKE_MAX_ALLOWED_MESSAGES: usize = 5;

/// Transaction filter field of a message's action.
pub open spec fn action_field() -> Seq<char> {
    "message.action"@
}

/// The denomination whose balance users are queried for.
pub open spec fn balance_denom() -> Seq<char> {
    "uatom"@
}

/// The chain that recorded delegations are reported for.
pub open spec fn stake_chain_id() -> Seq<char> {
    "cosmos-4"@
}

/// What loading an absent delegated amount reports.
pub open spec fn amount_kind() -> Seq<char> {
    "cosmwasm_std::math::uint128::Uint128"@
}

/// What the helper keeps: the amount delegated by each delegator.
pub struct StakeState {
    pub delegate_amount: KeyMap<u128>,
}

impl StakeState {
    pub open spec fn wf(&self) -> bool {
        self.delegate_amount.wf()
    }

    /// A helper that has recorded nothing yet.
    pub fn new() -> (s: Self)
        ensures
            s.wf(),
            s.delegate_amount.view().len() == 0,
    {
        StakeState { delegate_amount: KeyMap::new() }
    }
}

/// The response holds no attribute and no message.
pub open spec fn empty_response(resp: IcqResponse) -> bool {
    resp.attributes@.len() == 0 && resp.messages@.len() == 0
}

fn no_response() -> (r: IcqResponse)
    ensures
        empty_response(r),
{
    IcqResponse { attributes: Vec::new(), messages: Vec::new() }
}

fn message_response(msg: NeutronMsg) -> (r: IcqResponse)
    ensures
        single_message(r, msg, None),
{
    let mut messages: Vec<IcqMsg> = Vec::new();
    messages.push(IcqMsg { msg, reply_on_success: None });
    IcqResponse { attributes: Vec::new(), messages }
}

/// Registers a query of the `uatom` balance of `address`.
pub fn register_balance_amount_user(connection_id: String, address: String, update_period: u64) -> (r: Result<
    IcqResponse,
    IcqError,
>)
    ensures
        balance_query_msg(connection_id@, address@, balance_denom(), update_period) matches Ok(m) ==> (r matches Ok(
            resp,
        ) && single_message(resp, m, None)),
        balance_query_msg(connection_id@, address@, balance_denom(), update_period) matches Err(e) ==> r matches Err(IcqError::Neutron(x)) && x == e,
{
    let denom = "uatom".to_owned();
    proof {
        reveal_strlit("uatom");
    }
    match new_register_balance_query_msg(connection_id, address, denom, update_period) {
        Ok(m) => Ok(message_response(m)),
        Err(e) => Err(IcqError::Neutron(e)),
    }
}

/// Registers nothing yet: the query of the total staked amount is not built.
pub fn register_staked_amount_total(connection_id: String, update_period: u64) -> (r: Result<
    IcqResponse,
    IcqError,
>)
    ensures
        r matches Ok(resp) && empty_response(resp),
{
    Ok(no_response())
}

/// Registers a query of the delegations of `addr` to `valaddrs`.
pub fn register_voting_power_query(
    connection_id: String,
    addr: String,
    valaddrs: Vec<String>,
    update_period: u64,
) -> (r: Result<IcqResponse, IcqError>)
    ensures
        delegations_query_msg(connection_id@, addr@, strings_view(valaddrs@), update_period) matches Ok(m) ==> (r matches Ok(
            resp,
        ) && single_message(resp, m, None)),
        delegations_query_msg(connection_id@, addr@, strings_view(valaddrs@), update_period) matches Err(e) ==> r matches Err(IcqError::Neutron(x)) && x == e,
{
    match new_register_delegator_delegations_query_msg(connection_id, addr, valaddrs, update_period) {
        Ok(m) => Ok(message_response(m)),
        Err(e) => Err(IcqError::Neutron(e)),
    }
}

/// The filter of the new-delegation query: delegate actions, optionally
/// from `min_height` on.
pub open spec fn stake_filter(min_height: Option<u64>) -> Seq<FilterItemView> {
    let first = seq![
        FilterItemView {
            field: action_field(),
            op: FilterOp::Eq,
            value: FilterValueView::Str("delegate"@),
        },
    ];
    match min_height {
        Some(h) => first.push(
            FilterItemView { field: height_field(), op: FilterOp::Gte, value: FilterValueView::Int(h) },
        ),
        None => first,
    }
}

/// Builds the registration of a query of delegate actions.
pub fn new_register_stake_query_msg(connection_id: String, update_period: u64, min_height: Option<u64>) -> (r: Result<
    NeutronMsg,
    NeutronError,
>)
    ensures
        r matches Ok(m) && m == tx_query_msg(stake_filter(min_height), connection_id@, update_period),
{
    let mut query_data: Vec<FilterItem> = Vec::new();
    query_data.push(
        FilterItem {
            field: "message.action".to_owned(),
            op: FilterOp::Eq,
            value: FilterValue::Str("delegate".to_owned()),
        },
    );
    if let Some(h) = min_height {
        query_data.push(
            FilterItem { field: "tx.height".to_owned(), op: FilterOp::Gte, value: FilterValue::Int(h) },
        );
    }
    assert(items_view(query_data@) =~= stake_filter(min_height));
    register_tx_query(query_data, connection_id, update_period)
}

/// Registers a query of delegate actions.
pub fn register_stake_query_msg(connection_id: String, update_period: u64, min_height: Option<u64>) -> (r: Result<
    IcqResponse,
    IcqError,
>)
    ensures
        r matches Ok(resp) && single_message(
            resp,
            tx_query_msg(stake_filter(min_height), connection_id@, update_period),
            None,
        ),
{
    match new_register_stake_query_msg(connection_id, update_period, min_height) {
        Ok(m) => Ok(message_response(m)),
        Err(e) => Err(IcqError::Neutron(e)),
    }
}

/// Removes a registered query.
pub fn remove_interchain_query(query_id: u64) -> (r: Result<IcqResponse, IcqError>)
    ensures
        r matches Ok(resp) && single_message(resp, remove_query_msg(query_id), None),
{
    Ok(message_response(remove_interchain_query_msg(query_id)))
}

/// The messages the stake helper executes.
pub enum ExecuteMsg {
    RegisterStakedAmountTotal { connection_id: String, update_period: u64 },
    RegisterBalanceAmountUser { address: String, connection_id: String, update_period: u64 },
    RegisterNewDelegationQuery { connection_id: String, update_period: u64, min_height: Option<u64> },
    RemoveInterchainQuery { query_id: u64 },
}

/// What executing `msg` answers; the helper's state does not change.
pub open spec fn stake_execute_outcome(msg: ExecuteMsg, r: Result<IcqResponse, IcqError>) -> bool {
    match msg {
        ExecuteMsg::RegisterStakedAmountTotal { .. } => r matches Ok(resp) && empty_response(resp),
        ExecuteMsg::RegisterBalanceAmountUser { address, connection_id, update_period } => match balance_query_msg(
            connection_id@,
            address@,
            balance_denom(),
            update_period,
        ) {
            Ok(m) => r matches Ok(resp) && single_message(resp, m, None),
            Err(e) => r matches Err(IcqError::Neutron(x)) && x == e,
        },
        ExecuteMsg::RegisterNewDelegationQuery { connection_id, update_period, min_height } => r matches Ok(resp)
            && single_message(
            resp,
            tx_query_msg(stake_filter(min_height), connection_id@, update_period),
            None,
        ),
        ExecuteMsg::RemoveInterchainQuery { query_id } => r matches Ok(resp) && single_message(
            resp,
            remove_query_msg(query_id),
            None,
        ),
    }
}

/// Executes `msg`.
pub fn execute(msg: ExecuteMsg) -> (r: Result<IcqResponse, IcqError>)
    ensures
        stake_execute_outcome(msg, r),
{
    match msg {
        ExecuteMsg::RegisterStakedAmountTotal { connection_id, update_period } => {
            register_staked_amount_total(connection_id, update_period)
        },
        ExecuteMsg::RegisterBalanceAmountUser { address, connection_id, update_period } => {
            register_balance_amount_user(connection_id, address, update_period)
        },
        ExecuteMsg::RegisterNewDelegationQuery { connection_id, update_period, min_height } => {
            register_stake_query_msg(connection_id, update_period, min_height)
        },
        ExecuteMsg::RemoveInterchainQuery { query_id } => remove_interchain_query(query_id),
    }
}

/// The delegations recorded for an address, and the chain they are on.
pub struct NewDelegateResponse {
    pub delegations: u128,
    pub chain_id: String,
}

impl StakeState {
    /// The amount recorded as delegated by `address`.
    pub fn query_new_delegations(&self, address: &str) -> (r: Result<NewDelegateResponse, IcqError>)
        requires
            self.wf(),
        ensures
            match lookup(self.delegate_amount.view(), address@) {
                Some(a) => r matches Ok(resp) && resp.delegations == a && resp.chain_id@
                    == stake_chain_id(),
                None => r matches Err(IcqError::NotFound { kind }) && kind@ == amount_kind(),
            },
    {
        match self.delegate_amount.get(address) {
            Some(a) => Ok(NewDelegateResponse { delegations: *a, chain_id: "cosmos-4".to_owned() }),
            None => Err(IcqError::NotFound { kind: "cosmwasm_std::math::uint128::Uint128".to_owned() }),
        }
    }
}

/// The messages that are read: the first five.
pub open spec fn first_five(ms: Seq<AnyView>) -> Seq<AnyView> {
    if ms.len() <= 5 {
        ms
    } else {
        ms.take(5)
    }
}

/// The amount a delegation message carries, when it reads as a `u128`
/// (nothing carried is zero).
pub open spec fn carried_amount(c: Option<CoinView>) -> Option<nat> {
    match c {
        None => Some(0),
        Some(coin) => parsed_unsigned(coin.amount, u128::MAX as nat),
    }
}

/// How adding up the delegations of the messages ends.
pub enum StakeScan {
    /// Every message was read; the amounts after adding.
    Done(Map<Seq<char>, u128>),
    /// A delegation message did not decode.
    DecodeFails,
    /// A delegator has no recorded amount.
    Missing,
    /// An amount does not read as a `u128`, or a sum overflows.
    Panics,
}

/// Adds, in order, the amount of each delegation message to the amount
/// recorded for its delegator.
pub open spec fn stake_scan(m: Map<Seq<char>, u128>, ms: Seq<AnyView>) -> StakeScan
    decreases ms.len(),
{
    if ms.len() == 0 {
        StakeScan::Done(m)
    } else if ms[0].type_url != delegate_url() {
        stake_scan(m, ms.drop_first())
    } else {
        match delegate_message(ms[0].value) {
            None => StakeScan::DecodeFails,
            Some(d) => if !m.contains_key(d.delegator_address) {
                StakeScan::Missing
            } else {
                match carried_amount(d.amount) {
                    None => StakeScan::Panics,
                    Some(a) => if m[d.delegator_address] + a > u128::MAX {
                        StakeScan::Panics
                    } else {
                        stake_scan(
                            m.insert(d.delegator_address, (m[d.delegator_address] + a) as u128),
                            ms.drop_first(),
                        )
                    },
                }
            },
        }
    }
}

/// What handling a reported transaction answers and records, `None`
/// standing for a panic.
pub open spec fn stake_sudo_outcome(
    a: StakeState,
    b: StakeState,
    data: Seq<u8>,
    registered_query: Result<String, NeutronError>,
    r: Option<Result<IcqResponse, IcqError>>,
) -> bool {
    match tx_messages_of(data) {
        None => r matches Some(Err(IcqError::Decode(_))) && b == a,
        Some(ms) => match registered_query {
            Err(e) => r matches Some(Err(IcqError::Neutron(x))) && x == e && b == a,
            Ok(_) => match stake_scan(as_map(a.delegate_amount.view()), first_five(ms)) {
                StakeScan::Done(m) => r matches Some(Ok(resp)) && empty_response(resp) && as_map(
                    b.delegate_amount.view(),
                ) == m,
                StakeScan::DecodeFails => r matches Some(Err(IcqError::Decode(_))) && b == a,
                StakeScan::Missing => r matches Some(Err(IcqError::NotFound { kind })) && kind@
                    == amount_kind() && b == a,
                StakeScan::Panics => r is None && b == a,
            },
        },
    }
}

/// Handling the reported transaction `data` does not panic.
pub open spec fn stake_sudo_admissible(
    amounts: Seq<(Seq<char>, u128)>,
    data: Seq<u8>,
    registered_query: Result<String, NeutronError>,
) -> bool {
    match tx_messages_of(data) {
        None => true,
        Some(ms) => registered_query is Err || !(stake_scan(as_map(amounts), first_five(ms)) is Panics),
    }
}

proof fn lemma_as_map_insert(old_view: Seq<(Seq<char>, u128)>, new_view: Seq<(Seq<char>, u128)>, key: Seq<char>, v: u128)
    requires
        forall|k: Seq<char>|
            #![trigger lookup(new_view, k)]
            lookup(new_view, k) == if k == key {
                Some(v)
            } else {
                lookup(old_view, k)
            },
    ensures
        as_map(new_view) == as_map(old_view).insert(key, v),
{
    assert forall|k: Seq<char>| #[trigger] as_map(new_view).contains_key(k) == as_map(old_view).insert(key, v).contains_key(k) by {
        assert(lookup(new_view, k) == if k == key { Some(v) } else { lookup(old_view, k) });
    }
    assert forall|k: Seq<char>| as_map(new_view).contains_key(k) implies #[trigger] as_map(new_view)[k] == as_map(old_view).insert(key, v)[k] by {
        assert(lookup(new_view, k) == if k == key { Some(v) } else { lookup(old_view, k) });
    }
    assert(as_map(new_view) =~= as_map(old_view).insert(key, v));
}

/// Handles a transaction query result: for each delegation message among
/// the first five of the reported transaction `data`, adds its amount to
/// the amount recorded for its delegator.  `registered_query` is the lookup
/// of the query's registered filter.  `None` where handling would panic:
/// an amount that does not read as a `u128`, or a sum that overflows.
pub fn sudo_tx_query_result_checked(
    state: &mut StakeState,
    data: &[u8],
    registered_query: Result<String, NeutronError>,
) -> (r: Option<Result<IcqResponse, IcqError>>)
    requires
        old(state).wf(),
    ensures
        final(state).wf(),
        stake_sudo_outcome(*old(state), *final(state), data@, registered_query, r),
{
    let messages = match tx_messages(data) {
        Ok(m) => m,
        Err(e) => {
            return Some(Err(e));
        },
    };
    match registered_query {
        Err(e) => {
            return Some(Err(IcqError::Neutron(e)));
        },
        Ok(_) => {},
    }
    let ghost start = as_map(state.delegate_amount.view());
    let ghost first = first_five(messages_view(messages@));
    let mut amounts = state.delegate_amount.copy();
    let n: usize = if messages.len() < STAKE_MAX_ALLOWED_MESSAGES {
        messages.len()
    } else {
        STAKE_MAX_ALLOWED_MESSAGES
    };
    assert(first.skip(0) =~= first);
    let mut i: usize = 0;
    while i < n
        invariant
            n == first.len(),
            n <= messages@.len(),
            i <= n,
            first == first_five(messages_view(messages@)),
            tx_messages_of(data@) == Some(messages_view(messages@)),
            registered_query is Ok,
            *state == *old(state),
            state.wf(),
            start == as_map(old(state).delegate_amount.view()),
            amounts.wf(),
            stake_scan(start, first) == stake_scan(as_map(amounts.view()), first.skip(i as int)),
        decreases n - i,
    {
        proof {
            assert(first.skip(i as int)[0] == first[i as int]);
            assert(first.skip(i as int).drop_first() =~= first.skip(i + 1));
            assert(first[i as int] == messages@[i as int]@);
        }
        if same_text(messages[i].type_url.as_str(), "/cosmos.staking.v1beta1.MsgDelegate") {
            let d = match decode_msg_delegate(messages[i].value.as_slice()) {
                Ok(d) => d,
                Err(e) => {
                    return Some(Err(IcqError::Decode(e)));
                },
            };
            let stored: u128 = match amounts.get(d.delegator_address.as_str()) {
                Some(v) => *v,
                None => {
                    return Some(
                        Err(IcqError::NotFound { kind: "cosmwasm_std::math::uint128::Uint128".to_owned() }),
                    );
                },
            };
            let mut delegate_amount: u128 = 0;
            match &d.amount {
                Some(c) => match parse_u128(c.amount.as_str()) {
                    Some(a) => {
                        delegate_amount = a;
                    },
                    None => {
                        return None;
                    },
                },
                None => {},
            }
            if stored > u128::MAX - delegate_amount {
                return None;
            }
            let ghost before = amounts.view();
            amounts.insert(d.delegator_address.clone(), stored + delegate_amount);
            proof {
                lemma_as_map_insert(before, amounts.view(), d.delegator_address@, (stored + delegate_amount) as u128);
            }
        }
        i = i + 1;
    }
    assert(first.skip(n as int).len() == 0);
    state.delegate_amount = amounts;
    Some(Ok(no_response()))
}

/// Handles a transaction query result (see `sudo_tx_query_result_checked`)
/// where that does not panic.
pub fn sudo_tx_query_result(
    state: &mut StakeState,
    data: &[u8],
    registered_query: Result<String, NeutronError>,
) -> (r: Result<IcqResponse, IcqError>)
    requires
        old(state).wf(),
        stake_sudo_admissible(old(state).delegate_amount.view(), data@, registered_query),
    ensures
        final(state).wf(),
        stake_sudo_outcome(*old(state), *final(state), data@, registered_query, Some(r)),
{
    match sudo_tx_query_result_checked(state, data, registered_query) {
        Some(r) => r,
        None => {
            assert(false);
            Err(IcqError::ParseFailure { msg: String::new() })
        },
    }
}

/// The sum of the amounts.
pub open spec fn amounts_sum(v: Seq<u128>) -> nat
    decreases v.len(),
{
    if v.len() == 0 {
        0
    } else {
        amounts_sum(v.drop_last()) + (v.last() as nat)
    }
}

/// Handles a key-value query result: `delegations` is the reading of the
/// query's delegations, whose amounts are added up; nothing is recorded.
pub fn sudo_kv_query_result(delegations: Result<Vec<u128>, NeutronError>) -> (r: Result<
    IcqResponse,
    IcqError,
>)
    requires
        delegations matches Ok(v) ==> amounts_sum(v@) <= u128::MAX,
    ensures
        match delegations {
            Ok(_) => r matches Ok(resp) && empty_response(resp),
            Err(e) => r matches Err(IcqError::Neutron(x)) && x == e,
        },
{
    let amounts = match delegations {
        Ok(v) => v,
        Err(e) => {
            return Err(IcqError::Neutron(e));
        },
    };
    let mut total_staked: u128 = 0;
    let mut i: usize = 0;
    while i < amounts.len()
        invariant
            i <= amounts@.len(),
            amounts_sum(amounts@) <= u128::MAX,
            total_staked == amounts_sum(amounts@.take(i as int)),
        decreases amounts.len() - i,
    {
        assert(amounts@.take(i + 1).drop_last() =~= amounts@.take(i as int));
        proof {
            lemma_sum_prefix(amounts@, i + 1);
        }
        total_staked = total_staked + amounts[i];
        i = i + 1;
    }
    Ok(no_response())
}

proof fn lemma_sum_prefix(v: Seq<u128>, k: int)
    requires
        0 <= k <= v.len(),
    ensures
        amounts_sum(v.take(k)) <= amounts_sum(v),
    decreases v.len() - k,
{
    if k < v.len() {
        lemma_sum_prefix(v, k + 1);
        assert(v.take(k + 1).drop_last() =~= v.take(k));
    } else {
        assert(v.take(k) =~= v);
    }
}

/// How adding up the delegations of one delegator ends.
pub enum DelegateTotal {
    /// Every message was read; the total.
    Total(nat),
    /// A delegation message did not decode.
    DecodeFails,
    /// An amount does not read as a `u128`, or the total overflows.
    Panics,
}

/// Adds, from `acc` on, the amounts of the delegation messages by
/// `delegator`.
pub open spec fn delegate_total(ms: Seq<AnyView>, delegator: Seq<char>, acc: nat) -> DelegateTotal
    decreases ms.len(),
{
    if ms.len() == 0 {
        DelegateTotal::Total(acc)
    } else if ms[0].type_url != delegate_url() {
        delegate_total(ms.drop_first(), delegator, acc)
    } else {
        match delegate_message(ms[0].value) {
            None => DelegateTotal::DecodeFails,
            Some(d) => if d.delegator_address != delegator {
                delegate_total(ms.drop_first(), delegator, acc)
            } else {
                match carried_amount(d.amount) {
                    None => DelegateTotal::Panics,
                    Some(a) => if acc + a > u128::MAX {
                        DelegateTotal::Panics
                    } else {
                        delegate_total(ms.drop_first(), delegator, acc + a)
                    },
                }
            },
        }
    }
}

/// What adding up the delegations answers, `None` standing for a panic.
pub open spec fn delegate_total_outcome(t: DelegateTotal, r: Option<Result<u128, IcqError>>) -> bool {
    match t {
        DelegateTotal::Total(n) => r == Some(Ok::<u128, IcqError>(n as u128)),
        DelegateTotal::DecodeFails => r matches Some(Err(IcqError::Decode(_))),
        DelegateTotal::Panics => r is None,
    }
}

/// The total amount that `recipient` delegates in the first five messages;
/// `None` where adding up would panic.
pub fn recipient_delegate_from_tx_body_checked(messages: &Vec<AnyMsg>, recipient: &str) -> (r: Option<
    Result<u128, IcqError>,
>)
    ensures
        delegate_total_outcome(delegate_total(first_five(messages_view(messages@)), recipient@, 0), r),
{
    let ghost first = first_five(messages_view(messages@));
    let mut delegate_amount: u128 = 0;
    let n: usize = if messages.len() < STAKE_MAX_ALLOWED_MESSAGES {
        messages.len()
    } else {
        STAKE_MAX_ALLOWED_MESSAGES
    };
    assert(first.skip(0) =~= first);
    let mut i: usize = 0;
    while i < n
        invariant
            n == first.len(),
            n <= messages@.len(),
            i <= n,
            first == first_five(messages_view(messages@)),
            delegate_total(first, recipient@, 0) == delegate_total(
                first.skip(i as int),
                recipient@,
                delegate_amount as nat,
            ),
        decreases n - i,
    {
        proof {
            assert(first.skip(i as int)[0] == first[i as int]);
            assert(first.skip(i as int).drop_first() =~= first.skip(i + 1));
            assert(first[i as int] == messages@[i as int]@);
        }
        if same_text(messages[i].type_url.as_str(), "/cosmos.staking.v1beta1.MsgDelegate") {
            let d = match decode_msg_delegate(messages[i].value.as_slice()) {
                Ok(d) => d,
                Err(e) => {
                    return Some(Err(IcqError::Decode(e)));
                },
            };
            if same_text(d.delegator_address.as_str(), recipient) {
                match &d.amount {
                    Some(c) => match parse_u128(c.amount.as_str()) {
                        Some(a) => {
                            if delegate_amount > u128::MAX - a {
                                return None;
                            }
                            delegate_amount = delegate_amount + a;
                        },
                        None => {
                            return None;
                        },
                    },
                    None => {},
                }
            }
        }
        i = i + 1;
    }
    assert(first.skip(n as int).len() == 0);
    Some(Ok(delegate_amount))
}

/// The total amount that `recipient` delegates in the first five messages,
/// where adding up does not panic.
pub fn recipient_delegate_from_tx_body(messages: &Vec<AnyMsg>, recipient: &str) -> (r: Result<
    u128,
    IcqError,
>)
    requires
        !(delegate_total(first_five(messages_view(messages@)), recipient@, 0) is Panics),
    ensures
        delegate_total_outcome(delegate_total(first_five(messages_view(messages@)), recipient@, 0), Some(r)),
{
    match recipient_delegate_from_tx_body_checked(messages, recipient) {
        Some(r) => r,
        None => {
            assert(false);
            Err(IcqError::ParseFailure { msg: String::new() })
        },
    }
}

} // verus!
