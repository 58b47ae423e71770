use accelerator_dao::chain_registry::{
    ChainRegistry, Config, ExecuteMsg as RegistryExecuteMsg, QueryMsg as RegistryQueryMsg, RegistryError,
    RegistryQueryResponse,
};
use accelerator_dao::core_types::{ProposalModule, ProposalModuleStatus};
use accelerator_dao::icq_helper::IcqError;
use accelerator_dao::icq_stake::{
    execute as stake_execute, new_register_stake_query_msg, recipient_delegate_from_tx_body,
    recipient_delegate_from_tx_body_checked, register_voting_power_query, sudo_kv_query_result as stake_kv_result,
    sudo_tx_query_result as stake_tx_result, sudo_tx_query_result_checked as stake_tx_checked,
    ExecuteMsg as StakeExecuteMsg, StakeState,
};
use accelerator_dao::icq_contract::tx_messages;
use accelerator_dao::icq_tx::AnyMsg;
use accelerator_dao::pre_propose::{
    execute as pre_propose_execute, pre_propose_module_addr, query_multiple_proposal_module,
    ExecuteMsg as PreProposeExecuteMsg, ProposalCreationPolicy, ProposeMessage, ProposeMessageInternal,
};
use cosmos_sdk_proto::cosmos::base::v1beta1::Coin;
use cosmos_sdk_proto::cosmos::staking::v1beta1::MsgDelegate;
use cosmos_sdk_proto::cosmos::tx::v1beta1::{TxBody, TxRaw};
use cosmos_sdk_proto::Any;
use prost::Message;

fn delegate_any(delegator: &str, amount: Option<&str>) -> Any {
    let m = MsgDelegate {
        delegator_address: delegator.to_string(),
        validator_address: "cosmosvaloper1v".to_string(),
        amount: amount.map(|a| Coin { denom: "uatom".to_string(), amount: a.to_string() }),
    };
    Any { type_url: "/cosmos.staking.v1beta1.MsgDelegate".to_string(), value: m.encode_to_vec() }
}

fn tx(messages: Vec<Any>) -> Vec<u8> {
    let body = TxBody { messages, ..Default::default() };
    TxRaw { body_bytes: body.encode_to_vec(), ..Default::default() }.encode_to_vec()
}

fn messages_of(data: &[u8]) -> Vec<AnyMsg> {
    tx_messages(data).unwrap()
}

#[test]
fn the_admin_records_connections_that_queries_read_back() {
    let mut registry = ChainRegistry::instantiate("admin".to_string(), "0.1.0".to_string());
    assert_eq!(registry.version.contract, "chain_registry");
    let r = registry.execute(
        "admin",
        RegistryExecuteMsg::UpdateChainInfo {
            remote_chain: "cosmoshub-4".to_string(),
            connection_id: "connection-0".to_string(),
        },
    );
    assert_eq!(r, Ok(()));
    assert_eq!(registry.query_connection_id("cosmoshub-4").unwrap().connection_id, "connection-0");
    registry
        .try_update_chain_info("admin", "cosmoshub-4".to_string(), "connection-7".to_string())
        .unwrap();
    match registry.query(&RegistryQueryMsg::ConnectionIds { remote_chain: "cosmoshub-4".to_string() }) {
        Ok(RegistryQueryResponse::Connection(c)) => assert_eq!(c.connection_id, "connection-7"),
        _ => panic!("expected a connection"),
    }
    match registry.query(&RegistryQueryMsg::Config {}) {
        Ok(RegistryQueryResponse::Config(c)) => assert_eq!(c.admin, "admin"),
        _ => panic!("expected the configuration"),
    }
}

#[test]
fn only_the_admin_records_connections() {
    let mut registry = ChainRegistry::instantiate("admin".to_string(), "0.1.0".to_string());
    let r = registry.try_update_chain_info("mallory", "osmosis-1".to_string(), "connection-1".to_string());
    assert_eq!(r, Err(RegistryError::Std { msg: "unauthorized".to_string() }));
    assert_eq!(
        registry.query_connection_id("osmosis-1").err(),
        Some(RegistryError::NotFound { kind: "alloc::string::String".to_string() })
    );
    registry.store_config(Config { admin: "new_admin".to_string() });
    assert_eq!(registry.read_config().admin, "new_admin");
    assert!(registry.try_update_chain_info("new_admin", "osmosis-1".to_string(), "c".to_string()).is_ok());
}

#[test]
fn stake_results_add_delegated_amounts() {
    let mut state = StakeState::new();
    let data = tx(vec![delegate_any("alice", Some("100"))]);
    // The delegator has no recorded amount yet.
    let r = stake_tx_result(&mut state, &data, Ok(String::new()));
    assert_eq!(
        r.err(),
        Some(IcqError::NotFound { kind: "cosmwasm_std::math::uint128::Uint128".to_string() })
    );
    state.delegate_amount.insert("alice".to_string(), 5);
    let data = tx(vec![
        delegate_any("alice", Some("100")),
        delegate_any("alice", None),
        delegate_any("alice", Some("20")),
    ]);
    assert!(stake_tx_result(&mut state, &data, Ok(String::new())).is_ok());
    let resp = state.query_new_delegations("alice").unwrap();
    assert_eq!(resp.delegations, 125);
    assert_eq!(resp.chain_id, "cosmos-4");
    // An amount that is not a number would panic.
    let bad = tx(vec![delegate_any("alice", Some("many"))]);
    assert!(stake_tx_checked(&mut state, &bad, Ok(String::new())).is_none());
    assert_eq!(state.query_new_delegations("alice").unwrap().delegations, 125);
    assert!(state.query_new_delegations("bob").is_err());
}

#[test]
fn stake_totals_of_one_delegator() {
    let messages = messages_of(&tx(vec![
        delegate_any("alice", Some("7")),
        delegate_any("bob", Some("100")),
        delegate_any("alice", Some("3")),
    ]));
    assert_eq!(recipient_delegate_from_tx_body(&messages, "alice"), Ok(10));
    let overflow = messages_of(&tx(vec![
        delegate_any("alice", Some("340282366920938463463374607431768211455")),
        delegate_any("alice", Some("1")),
    ]));
    assert!(recipient_delegate_from_tx_body_checked(&overflow, "alice").is_none());
}

#[test]
fn stake_registrations() {
    match new_register_stake_query_msg("connection-0".to_string(), 10, Some(5)).unwrap() {
        neutron_sdk::bindings::msg::NeutronMsg::RegisterInterchainQuery {
            query_type,
            transactions_filter,
            connection_id,
            ..
        } => {
            assert_eq!(query_type, "tx");
            assert_eq!(connection_id, "connection-0");
            assert!(transactions_filter.contains("\"message.action\""));
            assert!(transactions_filter.contains("\"delegate\""));
            assert!(transactions_filter.contains("\"tx.height\""));
        }
        _ => panic!("expected a registration"),
    }
    let r = stake_execute(StakeExecuteMsg::RegisterStakedAmountTotal {
        connection_id: "connection-0".to_string(),
        update_period: 1,
    })
    .unwrap();
    assert!(r.messages.is_empty());
    let r = stake_execute(StakeExecuteMsg::RegisterNewDelegationQuery {
        connection_id: "connection-0".to_string(),
        update_period: 1,
        min_height: None,
    })
    .unwrap();
    assert_eq!(r.messages.len(), 1);
    let r = stake_execute(StakeExecuteMsg::RegisterBalanceAmountUser {
        address: "bogus".to_string(),
        connection_id: "connection-0".to_string(),
        update_period: 1,
    });
    assert!(r.is_err());
    assert!(stake_kv_result(Ok(vec![1, 2, 3])).is_ok());
    assert!(register_voting_power_query("c".to_string(), "bogus".to_string(), vec![], 1).is_err());
}

#[test]
fn proposals_get_the_sender_as_proposer() {
    let msg: PreProposeExecuteMsg<ProposeMessage<String>, u8> = PreProposeExecuteMsg::Propose {
        msg: ProposeMessage::Propose {
            title: "t".to_string(),
            description: "d".to_string(),
            msgs: vec!["m".to_string()],
        },
    };
    match pre_propose_execute(msg, "alice".to_string()) {
        PreProposeExecuteMsg::Propose {
            msg: ProposeMessageInternal::Propose { title, msgs, proposer, .. },
        } => {
            assert_eq!(title, "t");
            assert_eq!(msgs, vec!["m".to_string()]);
            assert_eq!(proposer, Some("alice".to_string()));
        }
        _ => panic!("expected a proposal"),
    }
    let hook: PreProposeExecuteMsg<ProposeMessage<String>, u8> =
        PreProposeExecuteMsg::ProposalCreatedHook { proposal_id: 4, proposer: "bob".to_string() };
    match pre_propose_execute(hook, "alice".to_string()) {
        PreProposeExecuteMsg::ProposalCreatedHook { proposal_id, proposer } => {
            assert_eq!(proposal_id, 4);
            assert_eq!(proposer, "bob");
        }
        _ => panic!("expected the hook"),
    }
}

#[test]
fn the_one_enabled_proposal_module() {
    let m = |a: &str, status: ProposalModuleStatus| ProposalModule {
        address: a.to_string(),
        prefix: "A".to_string(),
        status,
    };
    let modules = vec![
        m("old", ProposalModuleStatus::Disabled),
        m("current", ProposalModuleStatus::Enabled),
        m("older", ProposalModuleStatus::Disabled),
    ];
    assert_eq!(query_multiple_proposal_module(modules), "current");
    let policy = ProposalCreationPolicy::Module { addr: "pre".to_string() };
    assert_eq!(pre_propose_module_addr(&policy), "pre");
}
