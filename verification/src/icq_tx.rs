//! Transactions reported by interchain queries, as the library reads
//! them: the raw transaction, its body's messages, and the delegate and
//! send messages among them.  Decoding is done by `prost` with the types of
//! `cosmos_sdk_proto`; filters are read by `serde_json_wasm`.

use vstd::prelude::*;
use cosmos_sdk_proto::cosmos::tx::v1beta1::{TxBody, TxRaw};
use cosmos_sdk_proto::cosmos::staking::v1beta1::MsgDelegate;
use cosmos_sdk_proto::cosmos::bank::v1beta1::MsgSend;
use neutron_sdk::interchain_queries::types::{
    TransactionFilterItem, TransactionFilterOp, TransactionFilterValue,
};
use prost::Message;

verus! {

/// `prost::DecodeError`, the error of a failed protobuf decoding.
#[verifier::external_type_specification]
#[verifier::external_body]
pub struct ExDecodeError(prost::DecodeError);

/// A message of a transaction body: its type URL and encoded value.
pub struct AnyMsg {
    pub type_url: String,
    pub value: Vec<u8>,
}

/// An amount of a denomination, the amount written in decimal.
pub struct Coin {
    pub denom: String,
    pub amount: String,
}

/// A staking delegation message.
pub struct MsgDelegateInfo {
    pub delegator_address: String,
    pub validator_address: String,
    pub amount: Option<Coin>,
}

/// A bank send message.
pub struct MsgSendInfo {
    pub from_address: String,
    pub to_address: String,
    pub amount: Vec<Coin>,
}

/// A body message as characters and bytes.
pub struct AnyView {
    pub type_url: Seq<char>,
    pub value: Seq<u8>,
}

/// A coin as characters.
pub struct CoinView {
    pub denom: Seq<char>,
    pub amount: Seq<char>,
}

/// A delegation message as characters.
pub struct DelegateView {
    pub delegator_address: Seq<char>,
    pub validator_address: Seq<char>,
    pub amount: Option<CoinView>,
}

/// A send message as characters.
pub struct SendView {
    pub from_address: Seq<char>,
    pub to_address: Seq<char>,
    pub amount: Seq<CoinView>,
}

impl View for AnyMsg {
    type V = AnyView;

    open spec fn view(&self) -> AnyView {
        AnyView { type_url: self.type_url@, value: self.value@ }
    }
}

impl View for Coin {
    type V = CoinView;

    open spec fn view(&self) -> CoinView {
        CoinView { denom: self.denom@, amount: self.amount@ }
    }
}

impl View for MsgDelegateInfo {
    type V = DelegateView;

    open spec fn view(&self) -> DelegateView {
        DelegateView {
            delegator_address: self.delegator_address@,
            validator_address: self.validator_address@,
            amount: match self.amount {
                Some(c) => Some(c@),
                None => None,
            },
        }
    }
}

impl View for MsgSendInfo {
    type V = SendView;

    open spec fn view(&self) -> SendView {
        SendView {
            from_address: self.from_address@,
            to_address: self.to_address@,
            amount: self.amount@.map_values(|c: Coin| c@),
        }
    }
}

/// The messages as characters and bytes.
pub open spec fn messages_view(v: Seq<AnyMsg>) -> Seq<AnyView> {
    v.map_values(|m: AnyMsg| m@)
}

/// The body bytes of the raw transaction `data`, when it decodes.
pub uninterp spec fn raw_tx_body(data: Seq<u8>) -> Option<Seq<u8>>;

/// The messages of the transaction body `body`, when it decodes.
pub uninterp spec fn tx_body_messages(body: Seq<u8>) -> Option<Seq<AnyView>>;

/// The delegation message encoded in `value`, when it decodes.
pub uninterp spec fn delegate_message(value: Seq<u8>) -> Option<DelegateView>;

/// The send message encoded in `value`, when it decodes.
pub uninterp spec fn send_message(value: Seq<u8>) -> Option<SendView>;

/// `TxRaw::decode` (protobuf): the body bytes of a raw transaction.
#[verifier::external_body]
pub(crate) fn decode_tx_raw(data: &[u8]) -> (r: Result<Vec<u8>, prost::DecodeError>)
    ensures
        match r {
            Ok(b) => raw_tx_body(data@) == Some(b@),
            Err(_) => raw_tx_body(data@) is None,
        },
{
    TxRaw::decode(data).map(|tx| tx.body_bytes)
}

/// `TxBody::decode` (protobuf): the messages of a transaction body.
#[verifier::external_body]
pub(crate) fn decode_tx_body(body: &[u8]) -> (r: Result<Vec<AnyMsg>, prost::DecodeError>)
    ensures
        match r {
            Ok(ms) => tx_body_messages(body@) == Some(messages_view(ms@)),
            Err(_) => tx_body_messages(body@) is None,
        },
{
    let decoded = TxBody::decode(body)?;
    Ok(decoded.messages.into_iter().map(|m| AnyMsg { type_url: m.type_url, value: m.value }).collect())
}

/// `MsgDelegate::decode` (protobuf): a staking delegation message.
#[verifier::external_body]
pub(crate) fn decode_msg_delegate(value: &[u8]) -> (r: Result<MsgDelegateInfo, prost::DecodeError>)
    ensures
        match r {
            Ok(d) => delegate_message(value@) == Some(d@),
            Err(_) => delegate_message(value@) is None,
        },
{
    let m = MsgDelegate::decode(value)?;
    let amount = match m.amount {
        Some(c) => Some(Coin { denom: c.denom, amount: c.amount }),
        None => None,
    };
    Ok(MsgDelegateInfo { delegator_address: m.delegator_address, validator_address: m.validator_address, amount })
}

/// `MsgSend::decode` (protobuf): a bank send message.
#[verifier::external_body]
pub(crate) fn decode_msg_send(value: &[u8]) -> (r: Result<MsgSendInfo, prost::DecodeError>)
    ensures
        match r {
            Ok(s) => send_message(value@) == Some(s@),
            Err(_) => send_message(value@) is None,
        },
{
    let m = MsgSend::decode(value)?;
    let amount = m.amount.into_iter().map(|c| Coin { denom: c.denom, amount: c.amount }).collect();
    Ok(MsgSendInfo { from_address: m.from_address, to_address: m.to_address, amount })
}

/// Comparison of a transaction filter.
#[derive(PartialEq, Eq, Structural, Clone, Copy, Debug)]
pub enum FilterOp {
    Eq,
    Lt,
    Gt,
    Lte,
    Gte,
}

/// Value of a transaction filter.
pub enum FilterValue {
    Str(String),
    Int(u64),
}

/// A condition on the transactions an interchain query reports.
pub struct FilterItem {
    pub field: String,
    pub op: FilterOp,
    pub value: FilterValue,
}

/// A filter value as characters.
pub enum FilterValueView {
    Str(Seq<char>),
    Int(u64),
}

/// A filter condition as characters.
pub struct FilterItemView {
    pub field: Seq<char>,
    pub op: FilterOp,
    pub value: FilterValueView,
}

impl View for FilterItem {
    type V = FilterItemView;

    open spec fn view(&self) -> FilterItemView {
        FilterItemView {
            field: self.field@,
            op: self.op,
            value: match self.value {
                FilterValue::Str(s) => FilterValueView::Str(s@),
                FilterValue::Int(n) => FilterValueView::Int(n),
            },
        }
    }
}

/// The views of filter conditions.
pub open spec fn items_view(v: Seq<FilterItem>) -> Seq<FilterItemView> {
    v.map_values(|f: FilterItem| f@)
}

/// The filter conditions written as JSON in `json`, when it parses.
pub uninterp spec fn filter_items_of(json: Seq<char>) -> Option<Seq<FilterItemView>>;

/// `serde_json_wasm::from_str` of a list of Neutron transaction filters:
/// the conditions of a registered transaction query.
#[verifier::external_body]
pub(crate) fn parse_filter_items(json: &str) -> (r: Result<Vec<FilterItem>, String>)
    ensures
        match r {
            Ok(v) => filter_items_of(json@) == Some(items_view(v@)),
            Err(_) => filter_items_of(json@) is None,
        },
{
    let parsed: Vec<TransactionFilterItem> = serde_json_wasm::from_str(json).map_err(|e| e.to_string())?;
    Ok(parsed.into_iter().map(|f| FilterItem {
        field: f.field,
        op: match f.op { TransactionFilterOp::Eq => FilterOp::Eq, TransactionFilterOp::Lt => FilterOp::Lt, TransactionFilterOp::Gt => FilterOp::Gt, TransactionFilterOp::Lte => FilterOp::Lte, TransactionFilterOp::Gte => FilterOp::Gte },
        value: match f.value { TransactionFilterValue::String(s) => FilterValue::Str(s), TransactionFilterValue::Int(n) => FilterValue::Int(n) },
    }).collect())
}

} // verus!
