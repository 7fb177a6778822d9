use cheqd_ledger::error::LedgerError;
use cheqd_ledger::pool::check_protocol_version;
use cheqd_ledger::pool::Node;
use cheqd_ledger::pool::PoolConfig;
use cheqd_ledger::pool::PoolRegistry;
use cheqd_ledger::pool::PoolState;
use cheqd_ledger::state_proof::TrustRoot;

fn config(alias: &str) -> PoolConfig {
    PoolConfig::new(
        alias.to_string(),
        "cheqd-testnet".to_string(),
        vec![Node { id: "n1".to_string(), network_address: "127.0.0.1:26657".to_string() }],
        Vec::new(),
    )
}

#[test]
fn new_config_has_the_defaults() {
    let c = config("testnet");
    assert_eq!(c.alias, "testnet");
    assert_eq!(c.chain_id, "cheqd-testnet");
    assert_eq!(c.number_read_nodes, 2);
    assert_eq!(c.preferred_node_order, None);
    assert_eq!(c.node_list.len(), 1);
}

#[test]
fn life_cycle_of_a_pool() {
    let mut pools = PoolRegistry::new();
    assert_eq!(pools.list(), Vec::<String>::new());
    assert_eq!(pools.state("testnet"), None);
    assert_eq!(pools.create("testnet", config("testnet")), Ok(()));
    assert_eq!(pools.state("testnet"), Some(PoolState::Unopened));
    assert_eq!(pools.open("testnet"), Ok(()));
    assert_eq!(pools.state("testnet"), Some(PoolState::Open));
    assert_eq!(pools.open("testnet"), Err(LedgerError::PoolAlreadyOpen));
    assert_eq!(pools.delete("testnet"), Err(LedgerError::PoolStillOpen));
    assert_eq!(pools.state("testnet"), Some(PoolState::Open));
    assert_eq!(pools.close("testnet"), Ok(()));
    assert_eq!(pools.state("testnet"), Some(PoolState::Closed));
    assert_eq!(pools.close("testnet"), Err(LedgerError::PoolNotOpen));
    assert_eq!(pools.open("testnet"), Ok(()));
    assert_eq!(pools.close("testnet"), Ok(()));
    assert_eq!(pools.delete("testnet"), Ok(()));
    assert_eq!(pools.state("testnet"), None);
    assert_eq!(pools.list(), Vec::<String>::new());
}

#[test]
fn create_rejects_duplicates_and_bad_input() {
    let mut pools = PoolRegistry::new();
    assert_eq!(pools.create("", config("")), Err(LedgerError::InvalidAlias));
    assert_eq!(pools.create("a", config("a")), Ok(()));
    let mut other = config("a");
    other.chain_id = "other-chain".to_string();
    assert_eq!(pools.create("a", other), Err(LedgerError::DuplicateAlias));
    assert_eq!(pools.config("a").unwrap().chain_id, "cheqd-testnet");
    let mut zero = config("b");
    zero.number_read_nodes = 0;
    assert_eq!(pools.create("b", zero), Err(LedgerError::InvalidConfig));
    assert_eq!(pools.list(), vec!["a".to_string()]);
}

#[test]
fn unknown_pools_are_not_found() {
    let mut pools = PoolRegistry::new();
    assert_eq!(pools.open("x"), Err(LedgerError::PoolNotFound));
    assert_eq!(pools.close("x"), Err(LedgerError::PoolNotFound));
    assert_eq!(pools.delete("x"), Err(LedgerError::PoolNotFound));
    assert_eq!(pools.refresh("x", Vec::new(), Vec::new()), Err(LedgerError::PoolNotFound));
    assert!(pools.config("x").is_none());
}

#[test]
fn list_keeps_the_order_of_creation() {
    let mut pools = PoolRegistry::new();
    for alias in ["c", "a", "b"] {
        pools.create(alias, config(alias)).unwrap();
    }
    assert_eq!(pools.list(), vec!["c".to_string(), "a".to_string(), "b".to_string()]);
    pools.open("a").unwrap();
    assert_eq!(pools.state("c"), Some(PoolState::Unopened));
    assert_eq!(pools.state("a"), Some(PoolState::Open));
    assert_eq!(pools.state("b"), Some(PoolState::Unopened));
    pools.delete("c").unwrap();
    assert_eq!(pools.list(), vec!["a".to_string(), "b".to_string()]);
    assert_eq!(pools.state("a"), Some(PoolState::Open));
    assert_eq!(pools.config("b").unwrap().alias, "b");
}

#[test]
fn refresh_replaces_nodes_and_keeps_the_state() {
    let mut pools = PoolRegistry::new();
    let mut first = config("testnet");
    first.preferred_node_order = Some(vec!["n2".to_string()]);
    first.number_read_nodes = 3;
    pools.create("testnet", first).unwrap();
    pools.create("other", config("other")).unwrap();
    let fresh = vec![
        Node { id: "n1".to_string(), network_address: "a:1".to_string() },
        Node { id: "n2".to_string(), network_address: "b:2".to_string() },
    ];
    let roots = vec![TrustRoot { height: 4, root: vec![1, 2, 3] }];
    assert_eq!(
        pools.refresh("testnet", fresh.clone(), roots.clone()),
        Err(LedgerError::PoolNotOpen)
    );
    assert_eq!(pools.config("testnet").unwrap().node_list.len(), 1);
    pools.open("testnet").unwrap();
    assert_eq!(pools.refresh("testnet", fresh.clone(), roots.clone()), Ok(()));
    assert_eq!(pools.state("testnet"), Some(PoolState::Open));
    let now = pools.config("testnet").unwrap();
    assert_eq!(now.node_list, fresh);
    assert_eq!(now.trust_roots, roots);
    assert_eq!(now.alias, "testnet");
    assert_eq!(now.chain_id, "cheqd-testnet");
    assert_eq!(now.number_read_nodes, 3);
    assert_eq!(now.preferred_node_order, Some(vec!["n2".to_string()]));
    assert_eq!(pools.config("other").unwrap().node_list.len(), 1);
    assert_eq!(pools.list(), vec!["testnet".to_string(), "other".to_string()]);
}

#[test]
fn protocol_versions_one_and_two_are_spoken() {
    assert_eq!(check_protocol_version(1), Ok(1));
    assert_eq!(check_protocol_version(2), Ok(2));
    assert_eq!(check_protocol_version(0), Err(LedgerError::IncompatibleProtocolVersion));
    assert_eq!(check_protocol_version(3), Err(LedgerError::IncompatibleProtocolVersion));
}
