//! Messages to Neutron's interchain-query module, built by `neutron_sdk`.
//! The library does not read a message: each is named by what it was built
//! from, and the library relies on when building one succeeds.

use vstd::prelude::*;
use neutron_sdk::bindings::msg::NeutronMsg;
use cosmwasm_std::Binary;
use neutron_sdk::bindings::types::KVKey;
use neutron_sdk::interchain_queries::types::{
    QueryPayload, TransactionFilterItem, TransactionFilterOp, TransactionFilterValue,
};
use neutron_sdk::interchain_queries::v045;
use neutron_sdk::NeutronError;
use crate::icq_tx::{items_view, FilterItem, FilterItemView, FilterOp, FilterValue};

verus! {

/// A message to Neutron.
#[verifier::external_type_specification]
#[verifier::external_body]
pub struct ExNeutronMsg(NeutronMsg);

/// An error of `neutron_sdk`.
#[verifier::external_type_specification]
#[verifier::external_body]
pub struct ExNeutronError(NeutronError);

/// Most filter conditions a transaction query may have.
pub const MAX_TX_FILTERS: usize = 32;

/// A key of remote storage to query: the store's path and the key bytes.
pub struct KvKey {
    pub path: String,
    pub key: Vec<u8>,
}

/// The registration of a query of `addr`'s balance of `denom`, or the
/// error with which Neutron refuses the address (it must decode as bech32
/// into at most 255 bytes).
pub uninterp spec fn balance_query_msg(
    connection_id: Seq<char>,
    addr: Seq<char>,
    denom: Seq<char>,
    update_period: u64,
) -> Result<NeutronMsg, NeutronError>;

/// The registration of a query of the total supply of `denoms`.
pub uninterp spec fn total_supply_query_msg(
    connection_id: Seq<char>,
    denoms: Seq<Seq<char>>,
    update_period: u64,
) -> NeutronMsg;

/// The registration of a query of the distribution fee pool.
pub uninterp spec fn fee_pool_query_msg(connection_id: Seq<char>, update_period: u64) -> NeutronMsg;

/// The registration of a query of governance proposals.
pub uninterp spec fn gov_proposal_query_msg(
    connection_id: Seq<char>,
    proposals_ids: Seq<u64>,
    update_period: u64,
) -> NeutronMsg;

/// The registration of a query of validators, or the error with which
/// Neutron refuses an address.
pub uninterp spec fn validators_query_msg(
    connection_id: Seq<char>,
    validators: Seq<Seq<char>>,
    update_period: u64,
) -> Result<NeutronMsg, NeutronError>;

/// The registration of a query of a delegator's delegations, or the error
/// with which Neutron refuses an address.
pub uninterp spec fn delegations_query_msg(
    connection_id: Seq<char>,
    delegator: Seq<char>,
    validators: Seq<Seq<char>>,
    update_period: u64,
) -> Result<NeutronMsg, NeutronError>;

/// The registration of a query of transfers to `recipient`.
pub uninterp spec fn transfers_query_msg(
    connection_id: Seq<char>,
    recipient: Seq<char>,
    update_period: u64,
    min_height: Option<u64>,
) -> NeutronMsg;

/// The registration of a transaction query with the filter `filters`.
pub uninterp spec fn tx_query_msg(
    filters: Seq<FilterItemView>,
    connection_id: Seq<char>,
    update_period: u64,
) -> NeutronMsg;

/// The update of a registered query.
pub uninterp spec fn update_query_msg(
    query_id: u64,
    new_keys: Option<Seq<(Seq<char>, Seq<u8>)>>,
    new_update_period: Option<u64>,
    new_filter: Option<Seq<FilterItemView>>,
) -> NeutronMsg;

/// The removal of a registered query.
pub uninterp spec fn remove_query_msg(query_id: u64) -> NeutronMsg;

/// The characters of each string.
pub open spec fn strings_view(v: Seq<String>) -> Seq<Seq<char>> {
    v.map_values(|s: String| s@)
}

/// The paths and key bytes of storage keys.
pub open spec fn keys_view(v: Seq<KvKey>) -> Seq<(Seq<char>, Seq<u8>)> {
    v.map_values(|k: KvKey| (k.path@, k.key@))
}

/// `v045::new_register_balance_query_msg`: registers a query of `addr`'s
/// balance of `denom`, or hands back the error with which the address fails
/// to decode.
#[verifier::external_body]
pub(crate) fn new_register_balance_query_msg(
    connection_id: String,
    addr: String,
    denom: String,
    update_period: u64,
) -> (r: Result<NeutronMsg, NeutronError>)
    ensures
        r == balance_query_msg(connection_id@, addr@, denom@, update_period),
{
    v045::new_register_balance_query_msg(connection_id, addr, denom, update_period)
}

/// `v045::new_register_bank_total_supply_query_msg`: registers a query of
/// the total supply of `denoms`; building it does not fail.
#[verifier::external_body]
pub(crate) fn new_register_bank_total_supply_query_msg(
    connection_id: String,
    denoms: Vec<String>,
    update_period: u64,
) -> (r: Result<NeutronMsg, NeutronError>)
    ensures
        r is Ok,
        r matches Ok(m) ==> m == total_supply_query_msg(connection_id@, strings_view(denoms@), update_period),
{
    v045::new_register_bank_total_supply_query_msg(connection_id, denoms, update_period)
}

/// `v045::new_register_distribution_fee_pool_query_msg`: registers a query
/// of the fee pool; building it does not fail.
#[verifier::external_body]
pub(crate) fn new_register_distribution_fee_pool_query_msg(connection_id: String, update_period: u64) -> (r: Result<
    NeutronMsg,
    NeutronError,
>)
    ensures
        r is Ok,
        r matches Ok(m) ==> m == fee_pool_query_msg(connection_id@, update_period),
{
    v045::new_register_distribution_fee_pool_query_msg(connection_id, update_period)
}

/// `v045::new_register_gov_proposal_query_msg`: registers a query of
/// governance proposals; building it does not fail.
#[verifier::external_body]
pub(crate) fn new_register_gov_proposal_query_msg(
    connection_id: String,
    proposals_ids: Vec<u64>,
    update_period: u64,
) -> (r: Result<NeutronMsg, NeutronError>)
    ensures
        r is Ok,
        r matches Ok(m) ==> m == gov_proposal_query_msg(connection_id@, proposals_ids@, update_period),
{
    v045::new_register_gov_proposal_query_msg(connection_id, proposals_ids, update_period)
}

/// `v045::new_register_staking_validators_query_msg`: registers a query of
/// validators, or hands back the error with which an address fails to
/// decode.
#[verifier::external_body]
pub(crate) fn new_register_staking_validators_query_msg(
    connection_id: String,
    validators: Vec<String>,
    update_period: u64,
) -> (r: Result<NeutronMsg, NeutronError>)
    ensures
        r == validators_query_msg(connection_id@, strings_view(validators@), update_period),
{
    v045::new_register_staking_validators_query_msg(connection_id, validators, update_period)
}

/// `v045::new_register_delegator_delegations_query_msg`: registers a query
/// of the delegations of `delegator` to `validators`, or hands back the
/// error with which an address fails to decode.
#[verifier::external_body]
pub(crate) fn new_register_delegator_delegations_query_msg(
    connection_id: String,
    delegator: String,
    validators: Vec<String>,
    update_period: u64,
) -> (r: Result<NeutronMsg, NeutronError>)
    ensures
        r == delegations_query_msg(connection_id@, delegator@, strings_view(validators@), update_period),
{
    v045::new_register_delegator_delegations_query_msg(connection_id, delegator, validators, update_period)
}

/// `v045::new_register_transfers_query_msg`: registers a query of
/// transfers to `recipient` (from `min_height` on); with at most two
/// filter conditions, building it does not fail.
#[verifier::external_body]
pub(crate) fn new_register_transfers_query_msg(
    connection_id: String,
    recipient: String,
    update_period: u64,
    min_height: Option<u64>,
) -> (r: Result<NeutronMsg, NeutronError>)
    ensures
        r is Ok,
        r matches Ok(m) ==> m == transfers_query_msg(connection_id@, recipient@, update_period, min_height),
{
    v045::new_register_transfers_query_msg(connection_id, recipient, update_period, min_height)
}

/// `NeutronMsg::register_interchain_query` of a transaction query: it fails
/// exactly when there are more than 32 filter conditions.
#[verifier::external_body]
pub(crate) fn register_tx_query(filters: Vec<FilterItem>, connection_id: String, update_period: u64) -> (r: Result<
    NeutronMsg,
    NeutronError,
>)
    ensures
        r is Ok == (filters@.len() <= MAX_TX_FILTERS),
        r matches Ok(m) ==> m == tx_query_msg(items_view(filters@), connection_id@, update_period),
{
    let items = filters.into_iter().map(|f| TransactionFilterItem {
        field: f.field,
        op: match f.op { FilterOp::Eq => TransactionFilterOp::Eq, FilterOp::Lt => TransactionFilterOp::Lt, FilterOp::Gt => TransactionFilterOp::Gt, FilterOp::Lte => TransactionFilterOp::Lte, FilterOp::Gte => TransactionFilterOp::Gte },
        value: match f.value { FilterValue::Str(s) => TransactionFilterValue::String(s), FilterValue::Int(n) => TransactionFilterValue::Int(n) },
    });
    NeutronMsg::register_interchain_query(QueryPayload::TX(items.collect()), connection_id, update_period)
}

/// `NeutronMsg::update_interchain_query`: it fails exactly when a new
/// filter has more than 32 conditions.
#[verifier::external_body]
pub(crate) fn update_interchain_query_msg(
    query_id: u64,
    new_keys: Option<Vec<KvKey>>,
    new_update_period: Option<u64>,
    new_filter: Option<Vec<FilterItem>>,
) -> (r: Result<NeutronMsg, NeutronError>)
    ensures
        r is Ok == (new_filter matches Some(f) ==> f@.len() <= MAX_TX_FILTERS),
        r matches Ok(m) ==> m == update_query_msg(
            query_id,
            match new_keys {
                Some(k) => Some(keys_view(k@)),
                None => None,
            },
            new_update_period,
            match new_filter {
                Some(f) => Some(items_view(f@)),
                None => None,
            },
        ),
{
    let keys = new_keys.map(|k| k.into_iter().map(|k| KVKey { path: k.path, key: Binary(k.key) }).collect());
    let filter = new_filter.map(|f| f.into_iter().map(|f| TransactionFilterItem {
        field: f.field,
        op: match f.op { FilterOp::Eq => TransactionFilterOp::Eq, FilterOp::Lt => TransactionFilterOp::Lt, FilterOp::Gt => TransactionFilterOp::Gt, FilterOp::Lte => TransactionFilterOp::Lte, FilterOp::Gte => TransactionFilterOp::Gte },
        value: match f.value { FilterValue::Str(s) => TransactionFilterValue::String(s), FilterValue::Int(n) => TransactionFilterValue::Int(n) },
    }).collect());
    NeutronMsg::update_interchain_query(query_id, keys, new_update_period, filter)
}

/// `NeutronMsg::remove_interchain_query`: removes a registered query.
#[verifier::external_body]
pub(crate) fn remove_interchain_query_msg(query_id: u64) -> (r: NeutronMsg)
    ensures
        r == remove_query_msg(query_id),
{
    NeutronMsg::remove_interchain_query(query_id)
}

} // verus!
