use accelerator_dao::icq_contract::{
    delegator_of_filter, execute, reply, sudo_kv_query_result, sudo_tx_query_result,
    sudo_tx_query_result_checked, tx_messages, ExecuteMsg as IcqExecuteMsg,
};
use accelerator_dao::icq_helper::{
    delegate_query_filter, recipient_filter, register_bank_total_supply_query,
    register_distribution_fee_pool_query, IcqError, IcqState, BALANCE_QUERY_REPLY_ID,
    DELEGATIONS_TX_QUERY_REPLY_ID, DELEGATION_USER_QUERY_REPLY_ID, TRANSFERS_TX_QUERY_REPLY_ID,
};
use accelerator_dao::icq_sudo::{
    check_delegations_size, check_deposits_size, delegator_deposits_from_tx_body,
    recipient_deposits_from_tx_body,
};
use accelerator_dao::icq_tx::{AnyMsg, FilterItem, FilterOp, FilterValue};
use accelerator_dao::icq_types::{Delegation, ReplyId, Transfer};
use cosmos_sdk_proto::cosmos::bank::v1beta1::MsgSend;
use cosmos_sdk_proto::cosmos::base::v1beta1::Coin;
use cosmos_sdk_proto::cosmos::staking::v1beta1::MsgDelegate;
use cosmos_sdk_proto::cosmos::tx::v1beta1::{TxBody, TxRaw};
use cosmos_sdk_proto::Any;
use neutron_sdk::bindings::msg::NeutronMsg;
use prost::Message;

const ADDR: &str = "cosmos15fqjpj90ruhj57q3l6a5hda0rt77g6mcuz7w8n";

fn polymod(values: &[u8]) -> u32 {
    let generator = [0x3b6a57b2u32, 0x26508e6d, 0x1ea119fa, 0x3d4233dd, 0x2a1462b3];
    let mut chk: u32 = 1;
    for v in values {
        let top = chk >> 25;
        chk = ((chk & 0x1ffffff) << 5) ^ (*v as u32);
        for (i, g) in generator.iter().enumerate() {
            if (top >> i) & 1 == 1 {
                chk ^= g;
            }
        }
    }
    chk
}

/// A bech32 address with prefix `hrp` for the bytes `data`.
fn bech32(hrp: &str, data: &[u8]) -> String {
    let mut acc: u32 = 0;
    let mut bits = 0;
    let mut five: Vec<u8> = Vec::new();
    for b in data {
        acc = (acc << 8) | *b as u32;
        bits += 8;
        while bits >= 5 {
            bits -= 5;
            five.push(((acc >> bits) & 31) as u8);
        }
    }
    if bits > 0 {
        five.push(((acc << (5 - bits)) & 31) as u8);
    }
    let mut values: Vec<u8> = hrp.bytes().map(|c| c >> 5).collect();
    values.push(0);
    values.extend(hrp.bytes().map(|c| c & 31));
    values.extend(&five);
    values.extend([0u8; 6]);
    let checksum = polymod(&values) ^ 1;
    let charset = b"qpzry9x8gf2tvdw0s3jn54khce6mua7l";
    let mut out = String::from(hrp);
    out.push('1');
    for v in five {
        out.push(charset[v as usize] as char);
    }
    for i in 0..6 {
        out.push(charset[((checksum >> (5 * (5 - i))) & 31) as usize] as char);
    }
    out
}

fn coin(denom: &str, amount: &str) -> Coin {
    Coin { denom: denom.to_string(), amount: amount.to_string() }
}

fn delegate_any(delegator: &str, amount: Option<Coin>) -> Any {
    let m = MsgDelegate {
        delegator_address: delegator.to_string(),
        validator_address: "cosmosvaloper1v".to_string(),
        amount,
    };
    Any { type_url: "/cosmos.staking.v1beta1.MsgDelegate".to_string(), value: m.encode_to_vec() }
}

fn send_any(from: &str, to: &str, amount: Vec<Coin>) -> Any {
    let m = MsgSend { from_address: from.to_string(), to_address: to.to_string(), amount };
    Any { type_url: "/cosmos.bank.v1beta1.MsgSend".to_string(), value: m.encode_to_vec() }
}

fn tx(messages: Vec<Any>) -> Vec<u8> {
    let body = TxBody { messages, ..Default::default() };
    TxRaw { body_bytes: body.encode_to_vec(), ..Default::default() }.encode_to_vec()
}

fn messages_of(data: &[u8]) -> Vec<AnyMsg> {
    tx_messages(data).unwrap()
}

fn sender_filter(delegator: &str) -> String {
    format!("[{{\"field\":\"message.sender\",\"op\":\"Eq\",\"value\":\"{}\"}}]", delegator)
}

#[test]
fn transaction_bytes_decode_into_messages() {
    let data = tx(vec![send_any("a", "b", vec![]), delegate_any("d", None)]);
    let messages = messages_of(&data);
    assert_eq!(messages.len(), 2);
    assert_eq!(messages[0].type_url, "/cosmos.bank.v1beta1.MsgSend");
    assert_eq!(messages[1].type_url, "/cosmos.staking.v1beta1.MsgDelegate");
    assert!(matches!(tx_messages(&[0xff, 0xff]), Err(IcqError::Decode(_))));
}

#[test]
fn transfers_to_the_recipient_are_collected_one_per_coin() {
    let data = tx(vec![
        send_any("alice", "bob", vec![coin("uatom", "10"), coin("untrn", "20")]),
        send_any("carol", "dave", vec![coin("uatom", "30")]),
        delegate_any("bob", None),
        send_any("erin", "bob", vec![coin("uatom", "40")]),
    ]);
    let transfers = recipient_deposits_from_tx_body(&messages_of(&data), "bob").unwrap();
    assert_eq!(transfers.len(), 3);
    assert_eq!(transfers[0].sender, "alice");
    assert_eq!(transfers[0].denom, "uatom");
    assert_eq!(transfers[0].amount, "10");
    assert_eq!(transfers[1].denom, "untrn");
    assert_eq!(transfers[2].sender, "erin");
    assert!(transfers.iter().all(|t| t.recipient == "bob"));
}

#[test]
fn only_the_first_twenty_messages_are_read() {
    let mut messages: Vec<Any> = (0..20).map(|_| send_any("x", "y", vec![coin("u", "1")])).collect();
    messages.push(send_any("alice", "bob", vec![coin("uatom", "10")]));
    let transfers = recipient_deposits_from_tx_body(&messages_of(&tx(messages)), "bob").unwrap();
    assert!(transfers.is_empty());
}

#[test]
fn a_send_message_that_does_not_decode_is_an_error() {
    let broken = Any { type_url: "/cosmos.bank.v1beta1.MsgSend".to_string(), value: vec![0xff, 0xff, 0xff] };
    let r = recipient_deposits_from_tx_body(&messages_of(&tx(vec![broken])), "bob");
    assert!(matches!(r, Err(IcqError::Decode(_))));
}

#[test]
fn delegations_by_the_delegator_are_collected_once_each() {
    let messages = messages_of(&tx(vec![
        delegate_any("alice", None),
        delegate_any("bob", Some(coin("uatom", "5"))),
        send_any("bob", "carol", vec![coin("uatom", "1")]),
        delegate_any("bob", Some(coin("untrn", "7"))),
    ]));
    // A delegation without an amount records nothing.
    assert!(delegator_deposits_from_tx_body(&messages, "alice").unwrap().is_empty());
    let found = delegator_deposits_from_tx_body(&messages, "bob").unwrap();
    assert_eq!(found.len(), 2);
    assert_eq!(found[0].delegator, "bob");
    assert_eq!(found[0].denom, "uatom");
    assert_eq!(found[0].amount, "5");
    assert_eq!(found[1].denom, "untrn");
    assert_eq!(found[1].amount, "7");
    assert!(found.iter().all(|d| d.validator == "cosmosvaloper1v"));
    let broken = Any { type_url: "/cosmos.staking.v1beta1.MsgDelegate".to_string(), value: vec![0xff, 0xff, 0xff] };
    let r = delegator_deposits_from_tx_body(&messages_of(&tx(vec![broken])), "bob");
    assert!(matches!(r, Err(IcqError::Decode(_))));
}

#[test]
fn size_checks() {
    let t = |amount: &str| Transfer {
        recipient: "r".to_string(),
        sender: "s".to_string(),
        denom: "d".to_string(),
        amount: amount.to_string(),
    };
    assert_eq!(check_deposits_size(&vec![t("1"), t("20000")]), Ok(()));
    assert_eq!(
        check_deposits_size(&vec![t("1"), t("20001"), t("x")]),
        Err(IcqError::Std { msg: "maximum allowed transfer is 20000".to_string() })
    );
    assert_eq!(
        check_deposits_size(&vec![t("abc")]),
        Err(IcqError::Std { msg: "failed to cast transfer amount to u64: invalid digit found in string".to_string() })
    );
    let d = |amount: &str| Delegation {
        delegator: "a".to_string(),
        validator: "v".to_string(),
        denom: "d".to_string(),
        amount: amount.to_string(),
    };
    assert_eq!(
        check_delegations_size(&vec![d("30000")]),
        Err(IcqError::Std { msg: "maximum allowed delegation is 20000".to_string() })
    );
    assert_eq!(
        check_delegations_size(&vec![d("")]),
        Err(IcqError::Std {
            msg: "failed to cast delegation amount to u64: cannot parse integer from empty string".to_string()
        })
    );
}

#[test]
fn filters_name_their_delegator() {
    let item = |field: &str, op: FilterOp, value: FilterValue| FilterItem { field: field.to_string(), op, value };
    let items = vec![
        item("tx.height", FilterOp::Gte, FilterValue::Int(5)),
        item("message.sender", FilterOp::Gt, FilterValue::Str("bob".to_string())),
        item("message.sender", FilterOp::Eq, FilterValue::Str("alice".to_string())),
        item("message.sender", FilterOp::Eq, FilterValue::Str("carol".to_string())),
    ];
    assert_eq!(delegator_of_filter(&items), "alice");
    let numeric = vec![item("message.sender", FilterOp::Eq, FilterValue::Int(5))];
    assert_eq!(delegator_of_filter(&numeric), "");
    let other = vec![item("tx.height", FilterOp::Gte, FilterValue::Int(5))];
    assert_eq!(delegator_of_filter(&other), "");
    let built = delegate_query_filter("alice".to_string(), Some(7));
    assert_eq!(built.len(), 2);
    assert_eq!(built[1].op, FilterOp::Gte);
    let update = recipient_filter(Some("bob".to_string())).unwrap();
    assert_eq!(update[0].field, "transfer.recipient");
}

#[test]
fn transaction_query_results_without_delegations_are_refused() {
    let mut state = IcqState::new();
    let data = tx(vec![delegate_any("alice", None)]);
    let r = sudo_tx_query_result(&mut state, &data, Ok(sender_filter("alice")));
    assert_eq!(
        r.err(),
        Some(IcqError::Std { msg: "failed to find a matching Delegate transaction message".to_string() })
    );
    let r = sudo_tx_query_result(&mut state, &[1, 2, 3], Ok(sender_filter("alice")));
    assert!(matches!(r, Err(IcqError::Decode(_))));
    let r = sudo_tx_query_result(&mut state, &data, Ok("[".to_string()));
    assert!(matches!(r, Err(IcqError::Json { .. })));
    let with_amount = tx(vec![delegate_any("alice", Some(coin("uatom", "5")))]);
    let r = sudo_tx_query_result(&mut state, &with_amount, Ok(sender_filter("bob")));
    assert!(r.is_err());
    assert!(state.query_delegate_txs("alice").is_empty());
    assert_eq!(state.delegations, None);
}

#[test]
fn transaction_query_results_record_delegations_in_order() {
    let mut state = IcqState::new();
    let first = tx(vec![delegate_any("alice", Some(coin("uatom", "5")))]);
    let r = sudo_tx_query_result(&mut state, &first, Ok(sender_filter("alice"))).unwrap();
    assert!(r.attributes.is_empty() && r.messages.is_empty());
    let second = tx(vec![
        delegate_any("alice", Some(coin("uatom", "6"))),
        delegate_any("bob", Some(coin("uatom", "9"))),
        delegate_any("alice", Some(coin("untrn", "7"))),
    ]);
    assert!(sudo_tx_query_result_checked(&mut state, &second, Ok(sender_filter("alice"))).unwrap().is_ok());
    let recorded = state.query_delegate_txs("alice");
    let amounts: Vec<&str> = recorded.iter().map(|d| d.amount.as_str()).collect();
    assert_eq!(amounts, vec!["5", "6", "7"]);
    assert_eq!(state.delegations, Some(3));
    assert_eq!(state.transfers, None);
    assert!(state.query_delegate_txs("bob").is_empty());
    // An amount over the limit refuses the whole result and records nothing.
    let big = tx(vec![delegate_any("alice", Some(coin("uatom", "1"))), delegate_any("alice", Some(coin("uatom", "20001")))]);
    let r = sudo_tx_query_result(&mut state, &big, Ok(sender_filter("alice")));
    assert_eq!(r.err(), Some(IcqError::Std { msg: "maximum allowed delegation is 20000".to_string() }));
    assert_eq!(state.query_delegate_txs("alice").len(), 3);
    assert_eq!(state.delegations, Some(3));
    // A count that would overflow is not recorded.
    state.delegations = Some(u64::MAX);
    assert!(sudo_tx_query_result_checked(&mut state, &first, Ok(sender_filter("alice"))).is_none());
    assert_eq!(state.query_delegate_txs("alice").len(), 3);
}

#[test]
fn kv_query_results_record_nothing() {
    let r = sudo_kv_query_result(3).unwrap();
    assert!(r.attributes.is_empty() && r.messages.is_empty());
}

#[test]
fn registrations_wait_for_their_ids_in_order() {
    let mut state = IcqState::new();
    let r = execute(
        &mut state,
        IcqExecuteMsg::RegisterBalanceQuery {
            connection_id: "connection-0".to_string(),
            addr: ADDR.to_string(),
            denom: "uatom".to_string(),
            update_period: 10,
        },
    )
    .unwrap();
    assert_eq!(r.messages.len(), 1);
    assert_eq!(r.messages[0].reply_on_success, Some(BALANCE_QUERY_REPLY_ID));
    let _ = execute(
        &mut state,
        IcqExecuteMsg::RegisterBalanceQuery {
            connection_id: "connection-0".to_string(),
            addr: "cosmos1other".to_string(),
            denom: "uatom".to_string(),
            update_period: 10,
        },
    );
    assert_eq!(state.balance_query_queue.len(), 1);
    let r = reply(&mut state, BALANCE_QUERY_REPLY_ID, Ok(Some(ReplyId { id: 42 }))).unwrap();
    assert_eq!(r.attributes[0].key, "balance_query_reply_id");
    assert_eq!(r.attributes[0].value, "42");
    assert_eq!(state.query_address_balance(ADDR), Ok(42));
    assert!(state.balance_query_queue.is_empty());
    assert_eq!(
        state.query_address_balance("cosmos1unknown"),
        Err(IcqError::NotFound { kind: "u64".to_string() })
    );
}

#[test]
fn replies_give_ids_in_registration_order() {
    let first = bech32("cosmos", &[7u8; 20]);
    let second = bech32("cosmos", &[9u8; 20]);
    let mut state = IcqState::new();
    for (addr, validators) in [(&first, vec![]), (&second, vec![])] {
        let r = execute(
            &mut state,
            IcqExecuteMsg::RegisterDelegatorDelegationsQuery {
                connection_id: "connection-0".to_string(),
                delegator: addr.clone(),
                validators,
                update_period: 10,
            },
        )
        .unwrap();
        assert_eq!(r.messages[0].reply_on_success, Some(DELEGATION_USER_QUERY_REPLY_ID));
    }
    assert_eq!(state.delegation_user_query_queue, vec![first.clone(), second.clone()]);
    reply(&mut state, DELEGATION_USER_QUERY_REPLY_ID, Ok(Some(ReplyId { id: 10 }))).unwrap();
    reply(&mut state, DELEGATION_USER_QUERY_REPLY_ID, Ok(Some(ReplyId { id: 11 }))).unwrap();
    assert_eq!(state.query_address_delegations(&first), Ok(10));
    assert_eq!(state.query_address_delegations(&second), Ok(11));
    assert!(state.delegation_user_query_queue.is_empty());
}

#[test]
fn an_address_that_does_not_decode_is_not_registered() {
    let mut state = IcqState::new();
    let r = execute(
        &mut state,
        IcqExecuteMsg::RegisterBalanceQuery {
            connection_id: "connection-0".to_string(),
            addr: "not-an-address".to_string(),
            denom: "uatom".to_string(),
            update_period: 10,
        },
    );
    // The builder's own error is handed on.
    let expected = neutron_sdk::interchain_queries::v045::new_register_balance_query_msg(
        "connection-0".to_string(),
        "not-an-address".to_string(),
        "uatom".to_string(),
        10,
    )
    .unwrap_err();
    match r {
        Err(IcqError::Neutron(e)) => assert_eq!(format!("{:?}", e), format!("{:?}", expected)),
        _ => panic!("expected the builder's error"),
    }
    assert!(state.balance_query_queue.is_empty());
}

#[test]
fn transaction_registrations_queue_their_addresses() {
    let mut state = IcqState::new();
    let r = execute(
        &mut state,
        IcqExecuteMsg::RegisterTransfersQuery {
            connection_id: "connection-0".to_string(),
            recipient: "bob".to_string(),
            update_period: 5,
            min_height: Some(100),
        },
    )
    .unwrap();
    assert_eq!(r.messages[0].reply_on_success, Some(TRANSFERS_TX_QUERY_REPLY_ID));
    let r = execute(
        &mut state,
        IcqExecuteMsg::RegisterDelegationsQuery {
            connection_id: "connection-0".to_string(),
            delegator: "alice".to_string(),
            update_period: 5,
            min_height: None,
        },
    )
    .unwrap();
    assert_eq!(r.messages[0].reply_on_success, Some(DELEGATIONS_TX_QUERY_REPLY_ID));
    assert_eq!(state.transfers_tx_query_queue, vec!["bob".to_string()]);
    assert_eq!(state.delegations_tx_query_queue, vec!["alice".to_string()]);
    let r = execute(&mut state, IcqExecuteMsg::RemoveInterchainQuery { query_id: 3 }).unwrap();
    assert_eq!(r.messages[0].reply_on_success, None);
    let r = execute(
        &mut state,
        IcqExecuteMsg::UpdateInterchainQuery {
            query_id: 3,
            new_keys: None,
            new_update_period: Some(9),
            new_recipient: Some("carol".to_string()),
        },
    )
    .unwrap();
    assert_eq!(r.messages.len(), 1);
}

#[test]
fn reply_errors_and_other_ids() {
    let mut state = IcqState::new();
    let r = reply(&mut state, DELEGATION_USER_QUERY_REPLY_ID, Err("boom".to_string()));
    assert_eq!(r.err(), Some(IcqError::SubMsgFailure { msg: "boom".to_string() }));
    let r = reply(&mut state, DELEGATION_USER_QUERY_REPLY_ID, Ok(None));
    assert_eq!(r.err(), Some(IcqError::ParseFailure { msg: "Missing reply data".to_string() }));
    // A reply with nothing waiting names the id and records nothing.
    let r = reply(&mut state, DELEGATION_USER_QUERY_REPLY_ID, Ok(Some(ReplyId { id: 7 }))).unwrap();
    assert_eq!(r.attributes[0].key, "delegation_user_query_reply_id");
    assert_eq!(state.query_address_delegations("x"), Err(IcqError::NotFound { kind: "u64".to_string() }));
    let r = reply(&mut state, TRANSFERS_TX_QUERY_REPLY_ID, Err("ignored".to_string())).unwrap();
    assert!(r.attributes.is_empty());
}

#[test]
fn registrations_carry_what_they_were_built_from() {
    let mut state = IcqState::new();
    let r = execute(
        &mut state,
        IcqExecuteMsg::RegisterTransfersQuery {
            connection_id: "connection-3".to_string(),
            recipient: "bob".to_string(),
            update_period: 7,
            min_height: Some(100),
        },
    )
    .unwrap();
    match &r.messages[0].msg {
        NeutronMsg::RegisterInterchainQuery { query_type, transactions_filter, connection_id, update_period, .. } => {
            assert_eq!(query_type, "tx");
            assert_eq!(connection_id, "connection-3");
            assert_eq!(*update_period, 7);
            assert!(transactions_filter.contains("\"transfer.recipient\""));
            assert!(transactions_filter.contains("\"bob\""));
            assert!(transactions_filter.contains("100"));
        }
        _ => panic!("expected a registration"),
    }
    let r = execute(
        &mut state,
        IcqExecuteMsg::RegisterDelegationsQuery {
            connection_id: "connection-3".to_string(),
            delegator: "alice".to_string(),
            update_period: 9,
            min_height: None,
        },
    )
    .unwrap();
    match &r.messages[0].msg {
        NeutronMsg::RegisterInterchainQuery { transactions_filter, update_period, .. } => {
            assert_eq!(*update_period, 9);
            assert!(transactions_filter.contains("\"message.sender\""));
            assert!(transactions_filter.contains("\"alice\""));
        }
        _ => panic!("expected a registration"),
    }
    let r = execute(
        &mut state,
        IcqExecuteMsg::UpdateInterchainQuery {
            query_id: 5,
            new_keys: None,
            new_update_period: Some(12),
            new_recipient: Some("carol".to_string()),
        },
    )
    .unwrap();
    match &r.messages[0].msg {
        NeutronMsg::UpdateInterchainQuery { query_id, new_update_period, new_transactions_filter, .. } => {
            assert_eq!(*query_id, 5);
            assert_eq!(*new_update_period, Some(12));
            assert!(new_transactions_filter.as_ref().unwrap().contains("\"carol\""));
        }
        _ => panic!("expected an update"),
    }
    let r = execute(&mut state, IcqExecuteMsg::RemoveInterchainQuery { query_id: 8 }).unwrap();
    assert!(matches!(r.messages[0].msg, NeutronMsg::RemoveInterchainQuery { query_id: 8 }));
}

#[test]
fn supply_and_fee_pool_registrations_always_build() {
    let r = register_bank_total_supply_query("connection-1".to_string(), vec!["uatom".to_string()], 4).unwrap();
    assert_eq!(r.messages.len(), 1);
    match &r.messages[0].msg {
        NeutronMsg::RegisterInterchainQuery { query_type, connection_id, update_period, keys, .. } => {
            assert_eq!(query_type, "kv");
            assert_eq!(connection_id, "connection-1");
            assert_eq!(*update_period, 4);
            assert_eq!(keys.len(), 1);
        }
        _ => panic!("expected a registration"),
    }
    let r = register_distribution_fee_pool_query("connection-2".to_string(), 6).unwrap();
    assert_eq!(r.messages[0].reply_on_success, None);
}
