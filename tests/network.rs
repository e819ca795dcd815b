use test_utils::bootstrap::{Action, Bootstrap, BootstrapKind, Stage, StageOutcome, Status};
use test_utils::config::{artifact_paths, join_path};
use test_utils::rpc::{push_decimal, rpc_url, LocalAddr, RPC_BIND_ADDRESS};
use test_utils::swarm::{
    decide_launch, plan_swarm, BootstrapError, LaunchDecision, NodeStatus, SwarmPlan,
    DEFAULT_COMMITTEE_SIZE,
};
use test_utils::wallet::{
    account_addresses, build_keystore, initial_client_config, point_to_embedded, rewire_to_rpc, AccountKey,
    GatewayConfig, GatewayType, SuiAddress,
};

fn account(n: u8) -> AccountKey {
    AccountKey { address: SuiAddress { bytes: [n; 20] }, keypair: [n.wrapping_add(100); 64] }
}

fn loopback(port: u16) -> LocalAddr {
    LocalAddr { ip: [127, 0, 0, 1], port }
}

#[test]
fn plan_counts_validators_and_nodes() {
    let plan = plan_swarm(4, 3).unwrap();
    assert_eq!(plan.validator_count(), 4);
    assert_eq!(plan.node_count(), 7);
    let plan = plan_swarm(1, 0).unwrap();
    assert_eq!(plan.validator_count(), 1);
    assert_eq!(plan.node_count(), 1);
    assert_eq!(DEFAULT_COMMITTEE_SIZE, 4);
}

#[test]
fn plan_rejects_empty_committee() {
    assert_eq!(plan_swarm(0, 0), Err(BootstrapError::Launch));
    assert_eq!(plan_swarm(0, 5), Err(BootstrapError::Launch));
}

#[test]
fn plan_rejects_node_count_overflow() {
    assert_eq!(plan_swarm(usize::MAX, 1), Err(BootstrapError::Launch));
    assert_eq!(plan_swarm(usize::MAX, 0).unwrap().node_count(), usize::MAX);
}

#[test]
fn launch_runs_when_every_node_is_ready() {
    let plan = SwarmPlan { committee_size: 4, fullnode_count: 1 };
    let statuses = vec![NodeStatus::Ready; 5];
    assert!(matches!(decide_launch(&plan, &statuses), LaunchDecision::Running));
}

#[test]
fn launch_tears_down_started_nodes_on_failure() {
    let plan = SwarmPlan { committee_size: 4, fullnode_count: 0 };
    let statuses =
        vec![NodeStatus::Ready, NodeStatus::Failed, NodeStatus::Ready, NodeStatus::Ready];
    match decide_launch(&plan, &statuses) {
        LaunchDecision::TearDown { started } => assert_eq!(started, vec![0, 2, 3]),
        LaunchDecision::Running => panic!("a failed node must not give a running swarm"),
    }
    let all_failed = vec![NodeStatus::Failed; 4];
    match decide_launch(&plan, &all_failed) {
        LaunchDecision::TearDown { started } => assert!(started.is_empty()),
        LaunchDecision::Running => panic!("no node is up"),
    }
}

#[test]
fn launch_with_missing_nodes_tears_down() {
    let plan = SwarmPlan { committee_size: 4, fullnode_count: 2 };
    let statuses = vec![NodeStatus::Ready; 4];
    match decide_launch(&plan, &statuses) {
        LaunchDecision::TearDown { started } => assert_eq!(started, vec![0, 1, 2, 3]),
        LaunchDecision::Running => panic!("two full nodes never reported"),
    }
}

#[test]
fn join_path_places_name_in_dir() {
    assert_eq!(join_path("/tmp/net", "client.yaml"), "/tmp/net/client.yaml");
    assert_eq!(join_path("/tmp/net/", "client.yaml"), "/tmp/net/client.yaml");
    assert_eq!(join_path("", "client.yaml"), "client.yaml");
}

#[test]
fn artifact_paths_in_working_dir() {
    let p = artifact_paths("/tmp/swarm1");
    assert_eq!(p.network_config, "/tmp/swarm1/network.yaml");
    assert_eq!(p.client_config, "/tmp/swarm1/client.yaml");
    assert_eq!(p.keystore, "/tmp/swarm1/sui.keystore");
    assert_eq!(p.gateway_config, "/tmp/swarm1/gateway.yaml");
    assert_eq!(p.client_db, "/tmp/swarm1/client_db");
}

#[test]
fn distinct_working_dirs_share_no_artifact() {
    let a = artifact_paths("/tmp/net_a");
    let b = artifact_paths("/tmp/net_b");
    assert_ne!(a.keystore, b.keystore);
    assert_ne!(a.client_config, b.client_config);
    assert_ne!(a.client_db, b.client_db);
    assert_ne!(a.gateway_config, b.gateway_config);
    assert_ne!(a.network_config, b.network_config);
}

#[test]
fn keystore_has_one_entry_per_account() {
    let accounts = vec![account(1), account(2), account(3)];
    let ks = build_keystore(&accounts, "/tmp/n/sui.keystore".to_string());
    assert_eq!(ks.entries.len(), 3);
    for (entry, acct) in ks.entries.iter().zip(accounts.iter()) {
        assert_eq!(entry.address, acct.address);
        assert_eq!(entry.keypair, acct.keypair);
    }
    assert_eq!(ks.path, "/tmp/n/sui.keystore");
    let empty = build_keystore(&vec![], "k".to_string());
    assert!(empty.entries.is_empty());
}

#[test]
fn account_addresses_in_order() {
    let accounts = vec![account(7), account(9)];
    assert_eq!(
        account_addresses(&accounts),
        vec![SuiAddress { bytes: [7; 20] }, SuiAddress { bytes: [9; 20] }]
    );
}

#[test]
fn fresh_wallet_is_embedded_and_acts_as_first_account() {
    let addrs = vec![SuiAddress { bytes: [5; 20] }, SuiAddress { bytes: [6; 20] }];
    let gw: GatewayConfig<u32> =
        GatewayConfig { db_folder_path: "/tmp/n/client_db".to_string(), validator_set: vec![1, 2, 3, 4] };
    let conf = initial_client_config(addrs.clone(), "/tmp/n/sui.keystore".to_string(), gw);
    assert_eq!(conf.accounts, addrs);
    assert_eq!(conf.active_address, Some(SuiAddress { bytes: [5; 20] }));
    match &conf.gateway {
        GatewayType::Embedded(g) => {
            assert_eq!(g.db_folder_path, "/tmp/n/client_db");
            assert_eq!(g.validator_set, vec![1, 2, 3, 4]);
        }
        GatewayType::Rpc(_) => panic!("a fresh wallet uses the embedded gateway"),
    }
}

#[test]
fn fresh_wallet_without_accounts_has_no_active_address() {
    let gw: GatewayConfig<u32> = GatewayConfig { db_folder_path: "db".to_string(), validator_set: vec![] };
    let conf = initial_client_config(vec![], "k".to_string(), gw);
    assert_eq!(conf.active_address, None);
}

#[test]
fn rewire_keeps_accounts_and_active_address() {
    let addrs = vec![SuiAddress { bytes: [1; 20] }];
    let gw: GatewayConfig<u32> = GatewayConfig { db_folder_path: "db".to_string(), validator_set: vec![9] };
    let mut conf = initial_client_config(addrs.clone(), "ks".to_string(), gw);
    let url = rpc_url(&loopback(40123));
    rewire_to_rpc(&mut conf, url.clone());
    assert_eq!(conf.accounts, addrs);
    assert_eq!(conf.keystore_path, "ks");
    assert_eq!(conf.active_address, Some(SuiAddress { bytes: [1; 20] }));
    match &conf.gateway {
        GatewayType::Rpc(u) => assert_eq!(u, "http://127.0.0.1:40123"),
        GatewayType::Embedded(_) => panic!("the wallet must now go through JSON-RPC"),
    }
}

#[test]
fn rpc_url_writes_address_in_decimal() {
    assert_eq!(rpc_url(&loopback(9000)), "http://127.0.0.1:9000");
    assert_eq!(rpc_url(&loopback(0)), "http://127.0.0.1:0");
    assert_eq!(rpc_url(&LocalAddr { ip: [10, 200, 3, 255], port: 65535 }), "http://10.200.3.255:65535");
    assert_eq!(RPC_BIND_ADDRESS, "127.0.0.1:0");
}

#[test]
fn push_decimal_appends() {
    let mut s = String::from("port ");
    push_decimal(&mut s, 1207);
    assert_eq!(s, "port 1207");
    let mut z = String::new();
    push_decimal(&mut z, 0);
    assert_eq!(z, "0");
}

#[test]
fn start_with_empty_committee_fails_with_nothing_running() {
    let (b, actions) = Bootstrap::start(BootstrapKind::RpcNetwork, 0, 0);
    assert_eq!(actions, vec![Action::Fail(BootstrapError::Launch)]);
    assert_eq!(b.status, Status::Failed);
    assert!(!b.swarm_up);
    assert!(!b.rpc_up);
    assert!(b.rpc_url.is_none());
}

#[test]
fn network_bootstrap_launches_then_persists() {
    let (mut b, actions) = Bootstrap::start(BootstrapKind::Network, 4, 2);
    assert_eq!(actions, vec![Action::Run(Stage::Launch)]);
    assert_eq!(b.step(StageOutcome::Done), vec![Action::Run(Stage::Persist)]);
    assert!(b.swarm_up);
    assert_eq!(b.step(StageOutcome::Done), vec![Action::Finish]);
    assert_eq!(b.status, Status::Finished);
    assert!(b.swarm_up);
    assert!(!b.rpc_up);
}

#[test]
fn wallet_bootstrap_syncs_last() {
    let (mut b, _) = Bootstrap::start(BootstrapKind::NetworkAndWallet, 4, 0);
    assert_eq!(b.step(StageOutcome::Done), vec![Action::Run(Stage::Persist)]);
    assert_eq!(b.step(StageOutcome::Done), vec![Action::Run(Stage::SyncWallet)]);
    assert_eq!(
        b.step(StageOutcome::Failed(BootstrapError::Sync)),
        vec![Action::StopSwarm, Action::Fail(BootstrapError::Sync)]
    );
    assert_eq!(b.status, Status::Failed);
    assert!(!b.swarm_up);
}

#[test]
fn failed_launch_stops_nothing() {
    let (mut b, _) = Bootstrap::start(BootstrapKind::RpcNetwork, 4, 0);
    assert_eq!(
        b.step(StageOutcome::Failed(BootstrapError::Launch)),
        vec![Action::Fail(BootstrapError::Launch)]
    );
    assert!(!b.swarm_up);
}

#[test]
fn failed_persist_stops_swarm() {
    let (mut b, _) = Bootstrap::start(BootstrapKind::Network, 4, 0);
    b.step(StageOutcome::Done);
    assert_eq!(
        b.step(StageOutcome::Failed(BootstrapError::Persist)),
        vec![Action::StopSwarm, Action::Fail(BootstrapError::Persist)]
    );
}

#[test]
fn failed_bind_stops_swarm() {
    let (mut b, _) = Bootstrap::start(BootstrapKind::RpcNetwork, 4, 0);
    b.step(StageOutcome::Done);
    b.step(StageOutcome::Done);
    assert_eq!(
        b.step(StageOutcome::Failed(BootstrapError::Bind)),
        vec![Action::StopSwarm, Action::Fail(BootstrapError::Bind)]
    );
    assert!(!b.rpc_up);
}

#[test]
fn unreadable_gateway_config_is_a_config_error() {
    let (mut b, _) = Bootstrap::start(BootstrapKind::RpcNetwork, 4, 0);
    b.step(StageOutcome::Done);
    b.step(StageOutcome::Done);
    assert_eq!(
        b.step(StageOutcome::Failed(BootstrapError::Config)),
        vec![Action::StopSwarm, Action::Fail(BootstrapError::Config)]
    );
}

#[test]
fn failed_clients_restore_wallet_then_stop_server_and_swarm() {
    let (mut b, _) = Bootstrap::start(BootstrapKind::RpcNetwork, 4, 0);
    b.step(StageOutcome::Done);
    b.step(StageOutcome::Done);
    b.step(StageOutcome::Bound(loopback(5001)));
    assert_eq!(b.step(StageOutcome::Done), vec![Action::Run(Stage::ConnectClients)]);
    assert!(b.wallet_rewired);
    assert_eq!(
        b.step(StageOutcome::Failed(BootstrapError::Config)),
        vec![
            Action::RestoreEmbedded,
            Action::StopRpcServer,
            Action::StopSwarm,
            Action::Fail(BootstrapError::Config)
        ]
    );
    assert!(b.rpc_url.is_none());
    assert!(!b.wallet_rewired);
}

#[test]
fn failed_rewire_reports_persist_error() {
    let (mut b, _) = Bootstrap::start(BootstrapKind::RpcNetwork, 4, 0);
    b.step(StageOutcome::Done);
    b.step(StageOutcome::Done);
    b.step(StageOutcome::Bound(loopback(5002)));
    assert_eq!(
        b.step(StageOutcome::Failed(BootstrapError::Persist)),
        vec![Action::StopRpcServer, Action::StopSwarm, Action::Fail(BootstrapError::Persist)]
    );
}

#[test]
fn unreadable_wallet_config_fails_rewire_as_config_error() {
    let (mut b, _) = Bootstrap::start(BootstrapKind::RpcNetwork, 4, 0);
    b.step(StageOutcome::Done);
    b.step(StageOutcome::Done);
    b.step(StageOutcome::Bound(loopback(5003)));
    assert_eq!(
        b.step(StageOutcome::Failed(BootstrapError::Config)),
        vec![Action::StopRpcServer, Action::StopSwarm, Action::Fail(BootstrapError::Config)]
    );
}

#[test]
fn restoring_embedded_gives_back_built_wallet() {
    let addrs = vec![SuiAddress { bytes: [3; 20] }, SuiAddress { bytes: [4; 20] }];
    let gw: GatewayConfig<u32> = GatewayConfig { db_folder_path: "db".to_string(), validator_set: vec![1, 2] };
    let mut conf = initial_client_config(addrs.clone(), "ks".to_string(), gw.clone());
    rewire_to_rpc(&mut conf, "http://127.0.0.1:1".to_string());
    point_to_embedded(&mut conf, gw);
    assert_eq!(conf.accounts, addrs);
    assert_eq!(conf.keystore_path, "ks");
    assert_eq!(conf.active_address, Some(SuiAddress { bytes: [3; 20] }));
    match &conf.gateway {
        GatewayType::Embedded(g) => {
            assert_eq!(g.db_folder_path, "db");
            assert_eq!(g.validator_set, vec![1, 2]);
        }
        GatewayType::Rpc(_) => panic!("the wallet must be back on the embedded gateway"),
    }
}

#[test]
fn same_dir_with_trailing_separator_shares_paths() {
    assert_eq!(artifact_paths("/tmp/n").keystore, artifact_paths("/tmp/n/").keystore);
}

#[test]
fn rpc_network_end_to_end() {
    let (mut b, actions) = Bootstrap::start(BootstrapKind::RpcNetwork, DEFAULT_COMMITTEE_SIZE, 0);
    assert_eq!(actions, vec![Action::Run(Stage::Launch)]);
    let plan = plan_swarm(DEFAULT_COMMITTEE_SIZE, 0).unwrap();
    let statuses = vec![NodeStatus::Ready; plan.node_count()];
    assert!(matches!(decide_launch(&plan, &statuses), LaunchDecision::Running));
    assert_eq!(b.step(StageOutcome::Done), vec![Action::Run(Stage::Persist)]);

    let paths = artifact_paths("/tmp/rpc_net");
    let keys = vec![account(1), account(2), account(3), account(4), account(5)];
    let keystore = build_keystore(&keys, paths.keystore.clone());
    assert_eq!(keystore.entries.len(), keys.len());
    let gw: GatewayConfig<u32> =
        GatewayConfig { db_folder_path: paths.client_db.clone(), validator_set: vec![0, 1, 2, 3] };
    let mut wallet = initial_client_config(account_addresses(&keys), paths.keystore.clone(), gw);
    assert_eq!(b.step(StageOutcome::Done), vec![Action::Run(Stage::StartRpc)]);

    let bound = loopback(38211);
    assert_eq!(b.step(StageOutcome::Bound(bound)), vec![Action::Run(Stage::Rewire)]);
    assert!(b.rpc_up);
    let url = b.rpc_url.clone().unwrap();
    assert_eq!(url, "http://127.0.0.1:38211");
    let accounts_before = wallet.accounts.clone();
    rewire_to_rpc(&mut wallet, url.clone());
    assert_eq!(b.step(StageOutcome::Done), vec![Action::Run(Stage::ConnectClients)]);
    assert_eq!(b.step(StageOutcome::Done), vec![Action::Finish]);
    assert_eq!(b.status, Status::Finished);
    assert!(b.rpc_up && b.swarm_up);

    assert!(!wallet.accounts.is_empty());
    assert_eq!(wallet.accounts, accounts_before);
    match &wallet.gateway {
        GatewayType::Rpc(u) => assert_eq!(u, &url),
        GatewayType::Embedded(_) => panic!("the wallet must reach the front-end"),
    }
}

#[test]
fn artifacts_of_one_dir_are_distinct() {
    let p = artifact_paths("/tmp/one");
    let all = [&p.network_config, &p.client_config, &p.keystore, &p.gateway_config, &p.client_db];
    for i in 0..all.len() {
        for j in (i + 1)..all.len() {
            assert_ne!(all[i], all[j]);
        }
    }
}

#[test]
fn rpc_url_differs_for_different_addresses() {
    assert_ne!(rpc_url(&loopback(80)), rpc_url(&loopback(8)));
    assert_ne!(
        rpc_url(&LocalAddr { ip: [1, 11, 1, 1], port: 5 }),
        rpc_url(&LocalAddr { ip: [11, 1, 1, 1], port: 5 })
    );
}
