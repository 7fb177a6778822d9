use cheqd_ledger::client::observe;
use cheqd_ledger::client::query;
use cheqd_ledger::error::LedgerError;
use cheqd_ledger::pool::contact_order;
use cheqd_ledger::pool::Node;
use cheqd_ledger::pool::PoolConfig;
use cheqd_ledger::quorum::resolve;
use cheqd_ledger::quorum::Observation;
use cheqd_ledger::quorum::QuorumRead;
use cheqd_ledger::state_proof::ExistenceProof;
use cheqd_ledger::state_proof::ProofMode;
use cheqd_ledger::state_proof::QueryResponse;
use cheqd_ledger::state_proof::TrustRoot;

fn response(value: &[u8], height: u64) -> QueryResponse {
    QueryResponse { value: value.to_vec(), height, proof: None }
}

fn verified(value: &[u8], height: u64) -> Observation {
    Observation::Verified(response(value, height))
}

fn unverifiable(value: &[u8], height: u64) -> Observation {
    Observation::Unverifiable(response(value, height))
}

fn nodes(n: usize) -> Vec<Node> {
    (0..n)
        .map(|i| Node { id: format!("node{}", i), network_address: format!("10.0.0.{}:26657", i) })
        .collect()
}

fn honest(key: &[u8], value: &[u8], height: u64) -> QueryResponse {
    QueryResponse {
        value: value.to_vec(),
        height,
        proof: Some(ExistenceProof {
            key: key.to_vec(),
            value: value.to_vec(),
            leaf_prefix: vec![0],
            path: Vec::new(),
        }),
    }
}

fn trust(key: &[u8], value: &[u8], height: u64) -> TrustRoot {
    TrustRoot { height, root: honest(key, value, height).proof.unwrap().root() }
}

#[test]
fn first_round_accepts_one_verified_answer() {
    let table = vec![verified(b"v", 5), Observation::Silent, Observation::Silent];
    assert_eq!(resolve(&table, 2), Ok(0));
    let table = vec![Observation::Silent, verified(b"v", 5), unverifiable(b"w", 9)];
    assert_eq!(resolve(&table, 2), Ok(1));
}

#[test]
fn agreement_and_superseding() {
    let table = vec![verified(b"v", 5), unverifiable(b"v", 5)];
    assert_eq!(resolve(&table, 2), Ok(0));
    let table = vec![unverifiable(b"old", 4), verified(b"v", 5)];
    assert_eq!(resolve(&table, 2), Ok(1));
    let table = vec![verified(b"old", 4), verified(b"v", 5)];
    assert_eq!(resolve(&table, 2), Ok(1));
    let table = vec![verified(b"v", 5), verified(b"v", 5), verified(b"w", 6)];
    assert_eq!(resolve(&table, 2), Ok(0));
    assert_eq!(resolve(&table, 3), Ok(2));
}

#[test]
fn disagreement_escalates_and_the_verified_answer_wins_at_the_end() {
    let table = vec![
        verified(b"v", 5),
        unverifiable(b"lie", 5),
        Observation::Silent,
        Observation::Silent,
    ];
    assert_eq!(resolve(&table, 2), Ok(0));

    let mut read = QuorumRead::begin(4, 2).unwrap();
    assert_eq!(read.window(), (0, 2));
    assert_eq!(read.absorb(&table[..2].to_vec()), None);
    assert_eq!(read.window(), (2, 4));
    assert_eq!(read.absorb(&table), Some(Ok(0)));

    let later = vec![
        verified(b"v", 5),
        unverifiable(b"lie", 7),
        verified(b"w", 6),
        Observation::Silent,
    ];
    assert_eq!(resolve(&later, 2), Ok(2));
}

#[test]
fn silence_escalates_to_double_until_the_pool_is_exhausted() {
    let table: Vec<Observation> = (0..10).map(|_| Observation::Silent).collect();
    let mut read = QuorumRead::begin(10, 1).unwrap();
    let mut windows = Vec::new();
    loop {
        let window = read.window();
        windows.push(window);
        let shown: Vec<Observation> = table[..window.1].to_vec();
        match read.absorb(&shown) {
            Some(result) => {
                assert_eq!(result, Err(LedgerError::QueryUnreachable));
                break;
            }
            None => {}
        }
    }
    assert_eq!(windows, vec![(0, 1), (1, 3), (3, 7), (7, 10)]);
    assert_eq!(resolve(&table, 1), Err(LedgerError::QueryUnreachable));
    assert_eq!(resolve(&table, 2), Err(LedgerError::QueryUnreachable));
    assert_eq!(resolve(&table, 100), Err(LedgerError::QueryUnreachable));
    assert_eq!(resolve(&Vec::new(), 2), Err(LedgerError::QueryUnreachable));
}

#[test]
fn late_answer_is_found_after_escalation() {
    let mut table: Vec<Observation> = (0..7).map(|_| Observation::Silent).collect();
    table[5] = verified(b"v", 3);
    assert_eq!(resolve(&table, 2), Ok(5));
    let mut read = QuorumRead::begin(7, 2).unwrap();
    assert_eq!(read.window(), (0, 2));
    assert_eq!(read.absorb(&table), None);
    assert_eq!(read.window(), (2, 6));
    assert_eq!(read.absorb(&table), Some(Ok(5)));
}

#[test]
fn answers_without_a_verified_one_are_an_invalid_proof() {
    let table = vec![unverifiable(b"a", 1), Observation::Silent, unverifiable(b"b", 2)];
    assert_eq!(resolve(&table, 2), Err(LedgerError::ProofInvalid));
    let table = vec![Observation::Silent, Observation::Silent, unverifiable(b"b", 2)];
    assert_eq!(resolve(&table, 1), Err(LedgerError::ProofInvalid));
}

#[test]
fn zero_fan_out_is_refused() {
    assert_eq!(resolve(&vec![verified(b"v", 5)], 0), Err(LedgerError::InvalidConfig));
    assert!(matches!(QuorumRead::begin(4, 0), Err(LedgerError::InvalidConfig)));
}

#[test]
fn contact_order_puts_preferred_nodes_first() {
    let list = nodes(5);
    assert_eq!(contact_order(&list, &Vec::new()), vec![0, 1, 2, 3, 4]);
    let preferred = vec!["node3".to_string(), "node1".to_string()];
    assert_eq!(contact_order(&list, &preferred), vec![3, 1, 0, 2, 4]);
    let odd = vec![
        "node4".to_string(),
        "nobody".to_string(),
        "node4".to_string(),
        "node0".to_string(),
    ];
    assert_eq!(contact_order(&list, &odd), vec![4, 0, 1, 2, 3]);
    assert_eq!(contact_order(&Vec::new(), &preferred), Vec::<usize>::new());
    let mut twins = nodes(3);
    twins[2].id = "node0".to_string();
    assert_eq!(contact_order(&twins, &vec!["node0".to_string()]), vec![0, 1, 2]);
}

#[test]
fn observe_classifies_by_the_trusted_root_of_the_height() {
    let roots = vec![trust(b"k", b"v", 10), trust(b"k", b"w", 11)];
    assert_eq!(observe(b"k", None, &roots, ProofMode::WithProof), Observation::Silent);
    let good = honest(b"k", b"v", 10);
    assert_eq!(
        observe(b"k", Some(good.duplicate()), &roots, ProofMode::WithProof),
        Observation::Verified(good.duplicate())
    );
    let newer = honest(b"k", b"w", 11);
    assert_eq!(
        observe(b"k", Some(newer.duplicate()), &roots, ProofMode::WithProof),
        Observation::Verified(newer)
    );
    let mismatched = honest(b"k", b"v", 11);
    assert_eq!(
        observe(b"k", Some(mismatched.duplicate()), &roots, ProofMode::WithProof),
        Observation::Unverifiable(mismatched)
    );
    let unknown_height = honest(b"k", b"v", 12);
    assert_eq!(
        observe(b"k", Some(unknown_height.duplicate()), &roots, ProofMode::WithProof),
        Observation::Unverifiable(unknown_height.duplicate())
    );
    assert_eq!(
        observe(b"k", Some(unknown_height.duplicate()), &roots, ProofMode::WithoutProof),
        Observation::Verified(unknown_height)
    );
}

#[test]
fn query_reads_a_simulated_pool() {
    let mut config = PoolConfig::new(
        "testnet".to_string(),
        "cheqd".to_string(),
        nodes(4),
        vec![trust(b"k", b"v", 10)],
    );
    assert_eq!(config.number_read_nodes, 2);
    let good = honest(b"k", b"v", 10);
    let mut tampered = honest(b"k", b"v", 10);
    tampered.value = b"x".to_vec();

    let replies = vec![Some(good.duplicate()), None, None, None];
    assert_eq!(query(b"k", &config, &replies, ProofMode::WithProof).unwrap().response, good);

    let replies = vec![Some(tampered.duplicate()), Some(tampered.duplicate()), None, Some(good.duplicate())];
    assert_eq!(query(b"k", &config, &replies, ProofMode::WithProof).unwrap().response, good);

    let replies = vec![Some(tampered.duplicate()), None, None, None];
    assert_eq!(
        query(b"k", &config, &replies, ProofMode::WithProof),
        Err(LedgerError::ProofInvalid)
    );
    assert_eq!(
        query(b"k", &config, &replies, ProofMode::WithoutProof).unwrap().response,
        tampered
    );
    assert_eq!(
        query(b"other", &config, &vec![Some(good.duplicate()), None, None, None], ProofMode::WithProof),
        Err(LedgerError::ProofInvalid)
    );

    let replies = vec![None, None, None, None];
    assert_eq!(
        query(b"k", &config, &replies, ProofMode::WithProof),
        Err(LedgerError::QueryUnreachable)
    );
    assert_eq!(
        query(b"k", &config, &Vec::new(), ProofMode::WithProof),
        Err(LedgerError::QueryUnreachable)
    );

    let mut stale = honest(b"k", b"old", 9);
    stale.height = 9;
    let replies = vec![None, None, Some(stale.duplicate()), Some(good.duplicate())];
    config.preferred_node_order = Some(vec!["node3".to_string(), "node2".to_string()]);
    assert_eq!(query(b"k", &config, &replies, ProofMode::WithProof).unwrap().response, good);

    config.number_read_nodes = 0;
    assert_eq!(
        query(b"k", &config, &replies, ProofMode::WithProof),
        Err(LedgerError::InvalidConfig)
    );
}

#[test]
fn giving_up_settles_on_what_was_seen() {
    let table = vec![
        verified(b"v", 5),
        unverifiable(b"lie", 5),
        verified(b"w", 9),
        Observation::Silent,
    ];
    let mut read = QuorumRead::begin(4, 2).unwrap();
    assert_eq!(read.give_up(&Vec::new()), Err(LedgerError::QueryUnreachable));
    assert_eq!(read.give_up(&table), Err(LedgerError::QueryUnreachable));
    assert_eq!(read.absorb(&table[..2].to_vec()), None);
    assert_eq!(read.give_up(&table), Ok(0));

    let doubtful = vec![unverifiable(b"a", 1), Observation::Silent, Observation::Silent];
    let mut read = QuorumRead::begin(3, 2).unwrap();
    assert_eq!(read.absorb(&doubtful), None);
    assert_eq!(read.give_up(&doubtful), Err(LedgerError::ProofInvalid));
}

#[test]
fn rounds_stay_within_the_doubling_bound() {
    for (n, k, most) in [(10usize, 1u32, 4usize), (4, 2, 2), (7, 2, 3), (1, 1, 1), (9, 3, 2), (100, 2, 6)] {
        let table: Vec<Observation> = (0..n).map(|_| Observation::Silent).collect();
        let mut read = QuorumRead::begin(n, k).unwrap();
        let mut rounds = 0;
        loop {
            rounds += 1;
            let (_, end) = read.window();
            if read.absorb(&table[..end].to_vec()).is_some() {
                break;
            }
        }
        assert_eq!(rounds, most, "{} nodes, fan-out {}", n, k);
        assert!((k as usize) * ((1usize << most) - 1) >= n);
    }
}
