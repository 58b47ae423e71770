use std::collections::HashSet;

use accelerator_dao::core_dao::{
    instantiate, CoreMsg, CoreResponse, CoreState, InstantiateMsg, PauseInfo,
    ICA_HELPER_INSTANTIATE_REPLY_ID, ICQ_HELPER_INSTANTIATE_REPLY_ID, PROPOSAL_MODULE_REPLY_ID,
    VOTE_MODULE_INSTANTIATE_REPLY_ID, VOTE_MODULE_UPDATE_REPLY_ID,
};
use accelerator_dao::core_execute::{execute, ExecuteMsg};
use accelerator_dao::core_query::ChainStake;
use accelerator_dao::core_reply::{instantiated_address, reply};
use accelerator_dao::core_types::{
    ChainStakeInfo, Config, ContractVersion, CoreError, InitialItem, ProposalModuleStatus,
};
use accelerator_dao::expiration::{BlockInfo, Duration, Expiration};
use accelerator_dao::prefix::derive_proposal_module_prefix;

type Resp = CoreResponse<String, String>;

fn dao() -> String {
    "dao".to_string()
}

fn block(height: u64) -> BlockInfo {
    BlockInfo { height, time_nanos: 1_000_000_000 * height, chain_id: "neutron-1".to_string() }
}

fn version() -> ContractVersion {
    ContractVersion { contract: "cwd-core".to_string(), version: "0.1.0".to_string() }
}

fn chain(id: &str, conn: &str, stake: u8) -> ChainStakeInfo {
    ChainStakeInfo { chain_id: id.to_string(), connection_id: conn.to_string(), stake }
}

fn msg(name: &str, modules: usize, chains: Vec<ChainStakeInfo>) -> InstantiateMsg<String> {
    InstantiateMsg {
        name: name.to_string(),
        description: "description".to_string(),
        dao_uri: Some("www.dao.org".to_string()),
        voting_registry_module_instantiate_info: "voting".to_string(),
        ica_helper_module_instantiate_info: "ica".to_string(),
        icq_helper_module_instantiate_info: "icq".to_string(),
        proposal_modules_instantiate_info: (0..modules).map(|i| format!("prop{}", i)).collect(),
        initial_items: Some(vec![
            InitialItem { key: "k".to_string(), value: "first".to_string() },
            InitialItem { key: "k".to_string(), value: "second".to_string() },
            InitialItem { key: "other".to_string(), value: "v".to_string() },
        ]),
        contract_registry: "registry".to_string(),
        chain_list: chains,
    }
}

fn new_dao() -> CoreState {
    let (state, _resp): (CoreState, Resp) =
        instantiate(msg("name", 1, vec![chain("cosmoshub-4", "connection-0", 50)]), &dao(), &"creator".to_string(), version())
            .unwrap();
    state
}

fn attrs(resp: &Resp) -> Vec<(String, String)> {
    resp.attributes.iter().map(|a| (a.key.clone(), a.value.clone())).collect()
}

#[test]
fn test_prefix_generation() {
    assert_eq!("A", derive_proposal_module_prefix(0).unwrap());
    assert_eq!("B", derive_proposal_module_prefix(1).unwrap());
    assert_eq!("C", derive_proposal_module_prefix(2).unwrap());
    assert_eq!("AA", derive_proposal_module_prefix(26).unwrap());
    assert_eq!("AB", derive_proposal_module_prefix(27).unwrap());
    assert_eq!("BA", derive_proposal_module_prefix(26 * 2).unwrap());
    assert_eq!("BB", derive_proposal_module_prefix(26 * 2 + 1).unwrap());
    assert_eq!("CA", derive_proposal_module_prefix(26 * 3).unwrap());
    assert_eq!("JA", derive_proposal_module_prefix(26 * 10).unwrap());
    assert_eq!("YA", derive_proposal_module_prefix(26 * 25).unwrap());
    assert_eq!("ZA", derive_proposal_module_prefix(26 * 26).unwrap());
    assert_eq!("ZZ", derive_proposal_module_prefix(26 * 26 + 25).unwrap());
    assert_eq!("AAA", derive_proposal_module_prefix(26 * 26 + 26).unwrap());
    assert_eq!("YZA", derive_proposal_module_prefix(26 * 26 * 26).unwrap());
    assert_eq!("ZZ", derive_proposal_module_prefix(26 * 26 + 25).unwrap());
}

#[test]
fn test_prefixes_no_collisions() {
    let mut seen = HashSet::<String>::new();
    for i in 0..25 * 25 * 25 {
        let prefix = derive_proposal_module_prefix(i).unwrap();
        if seen.contains(&prefix) {
            panic!("already seen value")
        }
        seen.insert(prefix);
    }
}

#[test]
fn test_config_validate() {
    let cfg_ok = Config {
        name: String::from("name"),
        description: String::from("description"),
        dao_uri: Some(String::from("www.dao.org")),
    };
    assert_eq!(cfg_ok.validate(), Ok(()));
    let cfg_ok_none_uri = Config {
        name: String::from("name"),
        description: String::from("description"),
        dao_uri: None,
    };
    assert_eq!(cfg_ok_none_uri.validate(), Ok(()));

    let cfg_empty_name = Config {
        name: String::from(""),
        description: String::from("description"),
        dao_uri: Some(String::from("www.dao.org")),
    };
    assert_eq!(cfg_empty_name.validate(), Err(CoreError::NameIsEmpty));

    let cfg_empty_description = Config {
        name: String::from("name"),
        description: String::from(""),
        dao_uri: Some(String::from("www.dao.org")),
    };
    assert_eq!(cfg_empty_description.validate(), Err(CoreError::DescriptionIsEmpty));

    let cfg_empty_dao_uri = Config {
        name: String::from("name"),
        description: String::from("description"),
        dao_uri: Some(String::from("")),
    };
    assert_eq!(cfg_empty_dao_uri.validate(), Err(CoreError::DaoUriIsEmpty));
}

#[test]
fn instantiate_stores_config_items_and_chains() {
    let (state, resp): (CoreState, Resp) = instantiate(
        msg("name", 2, vec![chain("cosmoshub-4", "connection-0", 50), chain("osmosis-1", "connection-1", 30)]),
        &dao(),
        &"creator".to_string(),
        version(),
    )
    .unwrap();
    assert_eq!(state.config.name, "name");
    // The last item with a key wins.
    assert_eq!(state.query_get_item("k"), Some("second".to_string()));
    assert_eq!(state.query_get_item("other"), Some("v".to_string()));
    assert_eq!(state.query_get_item("absent"), None);
    assert_eq!(state.total_proposal_module_count, 0);
    assert_eq!(state.active_proposal_module_count, 0);
    assert_eq!(
        attrs(&resp),
        vec![("action".to_string(), "instantiate".to_string()), ("sender".to_string(), "creator".to_string())]
    );
    // voting registry, ICQ helper, two proposal modules, ICA helper
    assert_eq!(resp.messages.len(), 5);
    match &resp.messages[0] {
        CoreMsg::InstantiateModule { info, admin, reply_id } => {
            assert_eq!(info, "voting");
            assert_eq!(admin, "dao");
            assert_eq!(*reply_id, VOTE_MODULE_INSTANTIATE_REPLY_ID);
        }
        _ => panic!("expected an instantiation"),
    }
    match &resp.messages[1] {
        CoreMsg::InstantiateModule { info, admin, reply_id } => {
            assert_eq!(info, "icq");
            assert_eq!(admin, "dao");
            assert_eq!(*reply_id, ICQ_HELPER_INSTANTIATE_REPLY_ID);
        }
        _ => panic!("expected an instantiation"),
    }
    match &resp.messages[3] {
        CoreMsg::InstantiateModule { info, reply_id, .. } => {
            assert_eq!(info, "prop1");
            assert_eq!(*reply_id, PROPOSAL_MODULE_REPLY_ID);
        }
        _ => panic!("expected an instantiation"),
    }
    match &resp.messages[4] {
        CoreMsg::InstantiateModule { info, reply_id, .. } => {
            assert_eq!(info, "ica");
            assert_eq!(*reply_id, ICA_HELPER_INSTANTIATE_REPLY_ID);
        }
        _ => panic!("expected an instantiation"),
    }
}

#[test]
fn instantiate_errors() {
    let r: Result<(CoreState, Resp), CoreError> =
        instantiate(msg("", 1, vec![]), &dao(), &"creator".to_string(), version());
    assert_eq!(r.err(), Some(CoreError::NameIsEmpty));
    let r: Result<(CoreState, Resp), CoreError> =
        instantiate(msg("name", 0, vec![]), &dao(), &"creator".to_string(), version());
    assert_eq!(r.err(), Some(CoreError::NoActiveProposalModules));
    let r: Result<(CoreState, Resp), CoreError> = instantiate(
        msg("name", 1, vec![chain("a", "c0", 1), chain("b", "c1", 1), chain("a", "c2", 1)]),
        &dao(),
        &"creator".to_string(),
        version(),
    );
    assert_eq!(r.err(), Some(CoreError::ChainListRepeat));
}

#[test]
fn replies_install_modules_with_fresh_prefixes() {
    let mut state = new_dao();
    let r: Resp = reply(&mut state, PROPOSAL_MODULE_REPLY_ID, Ok("prop_a".to_string())).unwrap();
    assert_eq!(attrs(&r), vec![("prop_module".to_string(), "prop_a".to_string())]);
    let _: Resp = reply(&mut state, PROPOSAL_MODULE_REPLY_ID, Ok("prop_b".to_string())).unwrap();
    let modules = state.query_proposal_modules(None, None);
    assert_eq!(modules.len(), 2);
    assert_eq!(modules[0].address, "prop_a");
    assert_eq!(modules[0].prefix, "A");
    assert_eq!(modules[1].prefix, "B");
    assert_eq!(modules[1].status, ProposalModuleStatus::Enabled);
    assert_eq!(state.total_proposal_module_count, 2);
    assert_eq!(state.active_proposal_module_count, 2);
}

#[test]
fn reply_errors() {
    let mut state = new_dao();
    let r: Result<Resp, CoreError> = reply(&mut state, 9, Ok("x".to_string()));
    assert_eq!(r.err(), Some(CoreError::UnknownReplyID));
    let r: Result<Resp, CoreError> =
        reply(&mut state, PROPOSAL_MODULE_REPLY_ID, Err("bad".to_string()));
    assert_eq!(r.err(), Some(CoreError::Std { msg: "bad".to_string() }));
    let r: Resp = reply(&mut state, VOTE_MODULE_INSTANTIATE_REPLY_ID, Ok("voting".to_string())).unwrap();
    assert_eq!(attrs(&r), vec![("voting_regsitry_module".to_string(), "voting".to_string())]);
    assert_eq!(state.query_voting_module(), Ok("voting".to_string()));
    let r: Result<Resp, CoreError> = reply(&mut state, VOTE_MODULE_INSTANTIATE_REPLY_ID, Ok("v2".to_string()));
    assert_eq!(r.err(), Some(CoreError::MultipleVotingModules));
    // A replacement voting module is taken as it comes.
    let r: Resp = reply(&mut state, VOTE_MODULE_UPDATE_REPLY_ID, Ok("v3".to_string())).unwrap();
    assert_eq!(attrs(&r), vec![("voting_registry_module".to_string(), "v3".to_string())]);
    assert_eq!(state.query_voting_module(), Ok("v3".to_string()));
}

#[test]
fn ica_helper_reply_registers_accounts_on_every_chain() {
    let mut state = new_dao();
    let r: Resp = reply(&mut state, ICA_HELPER_INSTANTIATE_REPLY_ID, Ok("ica".to_string())).unwrap();
    assert_eq!(r.messages.len(), 1);
    match &r.messages[0] {
        CoreMsg::RegisterIca { ica_helper, connection_id, interchain_account_id } => {
            assert_eq!(ica_helper, "ica");
            assert_eq!(connection_id, "connection-0");
            assert_eq!(interchain_account_id, "cosmoshub-4");
        }
        _ => panic!("expected an account registration"),
    }
    let r: Result<Resp, CoreError> = reply(&mut state, ICA_HELPER_INSTANTIATE_REPLY_ID, Ok("ica2".to_string()));
    assert_eq!(r.err(), Some(CoreError::MultipleIcaContract));
    let _: Resp = reply(&mut state, ICQ_HELPER_INSTANTIATE_REPLY_ID, Ok("icq".to_string())).unwrap();
    assert_eq!(state.query_icq_helper(), Ok("icq".to_string()));
    let dump = state.query_dump_state(&block(1)).unwrap();
    assert_eq!(dump.ica_helper, "ica");
}

#[test]
fn items_read_back_what_was_written() {
    let mut state = new_dao();
    let b = block(10);
    let r: Resp = execute(
        &mut state,
        &dao(),
        &b,
        &dao(),
        ExecuteMsg::SetItem { key: "meme".to_string(), addr: "foobar".to_string() },
    )
    .unwrap();
    assert_eq!(
        attrs(&r),
        vec![
            ("action".to_string(), "execute_set_item".to_string()),
            ("key".to_string(), "meme".to_string()),
            ("addr".to_string(), "foobar".to_string()),
        ]
    );
    assert_eq!(state.query_get_item("meme"), Some("foobar".to_string()));
    let _: Resp = execute(&mut state, &dao(), &b, &dao(), ExecuteMsg::SetItem { key: "meme".to_string(), addr: "new".to_string() }).unwrap();
    assert_eq!(state.query_get_item("meme"), Some("new".to_string()));
    let items = state.query_list_items(None, None);
    assert_eq!(items.len(), 3);
    assert_eq!(items[1], ("meme".to_string(), "new".to_string()));
    let page = state.query_list_items(Some("other"), Some(1));
    assert_eq!(page, vec![("meme".to_string(), "new".to_string())]);
    let _: Resp = execute(&mut state, &dao(), &b, &dao(), ExecuteMsg::RemoveItem { key: "meme".to_string() }).unwrap();
    assert_eq!(state.query_get_item("meme"), None);
    let r: Result<Resp, CoreError> =
        execute(&mut state, &dao(), &b, &dao(), ExecuteMsg::RemoveItem { key: "meme".to_string() });
    assert_eq!(r.err(), Some(CoreError::KeyMissing));
}

#[test]
fn only_the_dao_changes_items() {
    let mut state = new_dao();
    let b = block(10);
    let r: Result<Resp, CoreError> = execute(
        &mut state,
        &dao(),
        &b,
        &"stranger".to_string(),
        ExecuteMsg::SetItem { key: "meme".to_string(), addr: "foobar".to_string() },
    );
    assert_eq!(r.err(), Some(CoreError::Unauthorized));
    assert_eq!(state.query_get_item("meme"), None);
    let r: Result<Resp, CoreError> = execute(
        &mut state,
        &dao(),
        &b,
        &"stranger".to_string(),
        ExecuteMsg::Pause { duration: Duration::Height(10) },
    );
    assert_eq!(r.err(), Some(CoreError::Unauthorized));
}

#[test]
fn a_paused_dao_refuses_messages_until_expiry() {
    let mut state = new_dao();
    let r: Resp =
        execute(&mut state, &dao(), &block(10), &dao(), ExecuteMsg::Pause { duration: Duration::Height(10) }).unwrap();
    assert_eq!(
        attrs(&r),
        vec![
            ("action".to_string(), "execute_pause".to_string()),
            ("sender".to_string(), "dao".to_string()),
            ("until".to_string(), "expiration height: 20".to_string()),
        ]
    );
    assert_eq!(state.paused, Some(Expiration::AtHeight(20)));
    match state.get_pause_info(&block(19)) {
        PauseInfo::Paused { expiration } => assert_eq!(expiration, Expiration::AtHeight(20)),
        PauseInfo::Unpaused => panic!("expected a pause"),
    }
    let r: Result<Resp, CoreError> = execute(
        &mut state,
        &dao(),
        &block(19),
        &dao(),
        ExecuteMsg::SetItem { key: "a".to_string(), addr: "b".to_string() },
    );
    assert_eq!(r.err(), Some(CoreError::Paused));
    assert!(matches!(state.get_pause_info(&block(20)), PauseInfo::Unpaused));
    let r: Result<Resp, CoreError> = execute(
        &mut state,
        &dao(),
        &block(20),
        &dao(),
        ExecuteMsg::SetItem { key: "a".to_string(), addr: "b".to_string() },
    );
    assert!(r.is_ok());
}

#[test]
fn pause_by_time_reads_seconds_and_nanoseconds() {
    let mut state = new_dao();
    let b = BlockInfo { height: 1, time_nanos: 1_500_000_000, chain_id: "n".to_string() };
    let r: Resp = execute(&mut state, &dao(), &b, &dao(), ExecuteMsg::Pause { duration: Duration::Time(2) }).unwrap();
    assert_eq!(r.attributes[2].value, "expiration time: 3.500000000");
    assert_eq!(state.paused, Some(Expiration::AtTime(3_500_000_000)));
}

#[test]
fn update_config_is_validated() {
    let mut state = new_dao();
    let b = block(1);
    let bad = Config { name: "n".to_string(), description: "".to_string(), dao_uri: None };
    let r: Result<Resp, CoreError> = execute(&mut state, &dao(), &b, &dao(), ExecuteMsg::UpdateConfig { config: bad });
    assert_eq!(r.err(), Some(CoreError::DescriptionIsEmpty));
    let good = Config { name: "new".to_string(), description: "d".to_string(), dao_uri: None };
    let _: Resp = execute(&mut state, &dao(), &b, &dao(), ExecuteMsg::UpdateConfig { config: good }).unwrap();
    assert_eq!(state.query_config().name, "new");
    assert_eq!(state.query_dao_uri(), None);
}

#[test]
fn proposal_hook_forwards_messages_of_enabled_modules() {
    let mut state = new_dao();
    let _: Resp = reply(&mut state, PROPOSAL_MODULE_REPLY_ID, Ok("prop_a".to_string())).unwrap();
    let b = block(1);
    let r: Resp = execute(
        &mut state,
        &dao(),
        &b,
        &"prop_a".to_string(),
        ExecuteMsg::ExecuteProposalHook { msgs: vec!["m1".to_string(), "m2".to_string()] },
    )
    .unwrap();
    assert_eq!(r.messages.len(), 2);
    assert!(matches!(&r.messages[1], CoreMsg::Forward(m) if m == "m2"));
    let r: Result<Resp, CoreError> = execute(
        &mut state,
        &dao(),
        &b,
        &"nobody".to_string(),
        ExecuteMsg::ExecuteProposalHook { msgs: vec![] },
    );
    assert_eq!(r.err(), Some(CoreError::Unauthorized));
}

#[test]
fn modules_to_add_are_instantiated_in_order() {
    let mut state = new_dao();
    let _: Resp = reply(&mut state, PROPOSAL_MODULE_REPLY_ID, Ok("prop_a".to_string())).unwrap();
    let b = block(1);
    let r: Resp = execute(
        &mut state,
        &dao(),
        &b,
        &dao(),
        ExecuteMsg::UpdateProposalModules {
            to_add: vec!["new1".to_string(), "new2".to_string()],
            to_disable: vec![Ok("prop_a".to_string())],
        },
    )
    .unwrap();
    assert_eq!(r.messages.len(), 2);
    for (m, expected) in r.messages.iter().zip(["new1", "new2"]) {
        match m {
            CoreMsg::InstantiateModule { info, admin, reply_id } => {
                assert_eq!(info, expected);
                assert_eq!(admin, "dao");
                assert_eq!(*reply_id, PROPOSAL_MODULE_REPLY_ID);
            }
            _ => panic!("expected an instantiation"),
        }
    }
    assert_eq!(state.active_proposal_module_count, 0);
    // The replies to those instantiations install the new modules.
    let _: Resp = reply(&mut state, PROPOSAL_MODULE_REPLY_ID, Ok("new1".to_string())).unwrap();
    assert_eq!(state.active_proposal_module_count, 1);
}

#[test]
fn disabling_proposal_modules() {
    let mut state = new_dao();
    let _: Resp = reply(&mut state, PROPOSAL_MODULE_REPLY_ID, Ok("prop_a".to_string())).unwrap();
    let _: Resp = reply(&mut state, PROPOSAL_MODULE_REPLY_ID, Ok("prop_b".to_string())).unwrap();
    let b = block(1);
    let r: Result<Resp, CoreError> = execute(
        &mut state,
        &dao(),
        &b,
        &dao(),
        ExecuteMsg::UpdateProposalModules { to_add: vec![], to_disable: vec![Ok("nope".to_string())] },
    );
    assert_eq!(r.err(), Some(CoreError::ProposalModuleDoesNotExist { address: "nope".to_string() }));
    // An address that did not validate gives the chain's error.
    let r: Result<Resp, CoreError> = execute(
        &mut state,
        &dao(),
        &b,
        &dao(),
        ExecuteMsg::UpdateProposalModules { to_add: vec![], to_disable: vec![Err("invalid address".to_string())] },
    );
    assert_eq!(r.err(), Some(CoreError::Std { msg: "invalid address".to_string() }));
    let r: Result<Resp, CoreError> = execute(
        &mut state,
        &dao(),
        &b,
        &dao(),
        ExecuteMsg::UpdateProposalModules {
            to_add: vec![],
            to_disable: vec![Ok("prop_a".to_string()), Ok("prop_b".to_string())],
        },
    );
    assert_eq!(r.err(), Some(CoreError::NoActiveProposalModules));
    let _: Resp = execute(
        &mut state,
        &dao(),
        &b,
        &dao(),
        ExecuteMsg::UpdateProposalModules { to_add: vec![], to_disable: vec![Ok("prop_a".to_string())] },
    )
    .unwrap();
    assert_eq!(state.active_proposal_module_count, 1);
    let active = state.query_active_proposal_modules(None, None);
    assert_eq!(active.len(), 1);
    assert_eq!(active[0].address, "prop_b");
    let r: Result<Resp, CoreError> = execute(
        &mut state,
        &dao(),
        &b,
        &dao(),
        ExecuteMsg::UpdateProposalModules { to_add: vec![], to_disable: vec![Ok("prop_a".to_string())] },
    );
    assert_eq!(r.err(), Some(CoreError::ModuleAlreadyDisabled { address: "prop_a".to_string() }));
    // A disabled module may no longer have messages executed.
    let r: Result<Resp, CoreError> = execute(
        &mut state,
        &dao(),
        &b,
        &"prop_a".to_string(),
        ExecuteMsg::ExecuteProposalHook { msgs: vec![] },
    );
    assert_eq!(r.err(), Some(CoreError::ModuleDisabledCannotExecute { address: "prop_a".to_string() }));
}

#[test]
fn net_voting_power_weights_each_chain_by_its_say() {
    // The DAO has a 50% say of the Hub: a staker with 6% of the Hub's stake
    // gets 3% of the DAO's voting power; chains outside the DAO add nothing.
    let state = new_dao();
    let power = state.calculate_net_voting_power(vec![
        ChainStake { chain_id: "cosmoshub-4".to_string(), stake: 6 },
        ChainStake { chain_id: "unknown".to_string(), stake: 5 },
    ]);
    assert_eq!(power, 3);
    let power = state.calculate_net_voting_power(vec![
        ChainStake { chain_id: "cosmoshub-4".to_string(), stake: 1000 },
        ChainStake { chain_id: "cosmoshub-4".to_string(), stake: 7 },
    ]);
    assert_eq!(power, 500 + 3);
    assert_eq!(state.calculate_net_voting_power(vec![]), 0);
}

#[test]
fn net_voting_power_too_large_is_refused() {
    let state = new_dao();
    let chains = vec![
        ChainStake { chain_id: "cosmoshub-4".to_string(), stake: u128::MAX },
        ChainStake { chain_id: "cosmoshub-4".to_string(), stake: u128::MAX },
        ChainStake { chain_id: "cosmoshub-4".to_string(), stake: u128::MAX },
    ];
    assert_eq!(state.calculate_net_voting_power_checked(&chains), None);
    let one = vec![ChainStake { chain_id: "cosmoshub-4".to_string(), stake: u128::MAX }];
    assert_eq!(state.calculate_net_voting_power_checked(&one), Some(u128::MAX / 2));
}

#[test]
fn queries_without_helpers_report_missing_addresses() {
    let state = new_dao();
    assert_eq!(
        state.query_voting_module(),
        Err(CoreError::NotFound { kind: "cosmwasm_std::addresses::Addr".to_string() })
    );
    assert!(state.query_dump_state(&block(1)).is_err());
    assert_eq!(state.query_info().contract, "cwd-core");
    assert_eq!(state.query_info().version, "0.1.0");
}

#[test]
fn instantiation_replies_report_the_new_address() {
    let mut data = vec![0x0a, 9];
    data.extend_from_slice(b"contract1");
    assert_eq!(instantiated_address(Ok(Some(data))), Ok("contract1".to_string()));
    assert_eq!(
        instantiated_address(Err("out of gas".to_string())),
        Err("Failure response from sub-message: out of gas".to_string())
    );
    assert_eq!(
        instantiated_address(Ok(None)),
        Err("Invalid reply from sub-message: Missing reply data".to_string())
    );
    assert!(instantiated_address(Ok(Some(vec![0x12, 0]))).is_err());
}

#[test]
fn paging_through_proposal_modules_visits_each_once() {
    let mut state = new_dao();
    for a in ["prop_c", "prop_a", "prop_b"] {
        let _: Resp = reply(&mut state, PROPOSAL_MODULE_REPLY_ID, Ok(a.to_string())).unwrap();
    }
    let first = state.query_proposal_modules(None, Some(2));
    assert_eq!(first.iter().map(|m| m.address.clone()).collect::<Vec<_>>(), vec!["prop_a", "prop_b"]);
    let last = first.last().unwrap().address.clone();
    let rest = state.query_proposal_modules(Some(&last), Some(2));
    assert_eq!(rest.iter().map(|m| m.address.clone()).collect::<Vec<_>>(), vec!["prop_c"]);
    // The first installed module got the first prefix.
    assert_eq!(rest[0].prefix, "A");
}

#[test]
fn paging_backwards_through_items_visits_each_once() {
    let mut state = new_dao();
    let b = block(1);
    let _: Resp =
        execute(&mut state, &dao(), &b, &dao(), ExecuteMsg::SetItem { key: "meme".to_string(), addr: "x".to_string() })
            .unwrap();
    let first = state.query_list_items(None, Some(2));
    assert_eq!(first.iter().map(|e| e.0.clone()).collect::<Vec<_>>(), vec!["other", "meme"]);
    let rest = state.query_list_items(Some(&first[1].0), Some(2));
    assert_eq!(rest.iter().map(|e| e.0.clone()).collect::<Vec<_>>(), vec!["k"]);
}
