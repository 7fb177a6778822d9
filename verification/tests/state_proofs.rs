use cheqd_ledger::state_proof::verify;
use cheqd_ledger::state_proof::ExistenceProof;
use cheqd_ledger::state_proof::InnerOp;
use cheqd_ledger::state_proof::ProofMode;
use cheqd_ledger::state_proof::QueryResponse;
use cheqd_ledger::state_proof::TrustRoot;
use cheqd_ledger::state_proof::Verdict;
use sha2::Digest;

fn sha(data: &[u8]) -> Vec<u8> {
    sha2::Sha256::digest(data).to_vec()
}

fn leaf(prefix: &[u8], key: &[u8], value: &[u8]) -> Vec<u8> {
    let mut bytes = prefix.to_vec();
    bytes.push(key.len() as u8);
    bytes.extend_from_slice(key);
    bytes.push(32);
    bytes.extend_from_slice(&sha(value));
    sha(&bytes)
}

fn two_leaf_tree() -> (ExistenceProof, ExistenceProof, Vec<u8>) {
    let left = leaf(&[0], b"key-a", b"value-a");
    let right = leaf(&[0], b"key-b", b"value-b");
    let mut node = vec![1u8];
    node.extend_from_slice(&left);
    node.extend_from_slice(&right);
    let root = sha(&node);
    let mut left_prefix = vec![1u8];
    left_prefix.extend_from_slice(&left);
    let for_a = ExistenceProof {
        key: b"key-a".to_vec(),
        value: b"value-a".to_vec(),
        leaf_prefix: vec![0],
        path: vec![InnerOp { prefix: vec![1], suffix: right }],
    };
    let for_b = ExistenceProof {
        key: b"key-b".to_vec(),
        value: b"value-b".to_vec(),
        leaf_prefix: vec![0],
        path: vec![InnerOp { prefix: left_prefix, suffix: Vec::new() }],
    };
    (for_a, for_b, root)
}

#[test]
fn root_of_a_single_leaf() {
    let proof = ExistenceProof {
        key: b"k".to_vec(),
        value: b"v".to_vec(),
        leaf_prefix: vec![0],
        path: Vec::new(),
    };
    let root = proof.root();
    assert_eq!(root, leaf(&[0], b"k", b"v"));
    assert_eq!(root.len(), 32);
    assert_ne!(root, sha(b"v"));
}

#[test]
fn root_of_a_long_key_uses_a_two_byte_length() {
    let key = vec![7u8; 200];
    let proof = ExistenceProof {
        key: key.clone(),
        value: Vec::new(),
        leaf_prefix: Vec::new(),
        path: Vec::new(),
    };
    let mut bytes = vec![0xc8, 0x01];
    bytes.extend_from_slice(&key);
    bytes.push(32);
    bytes.extend_from_slice(&sha(&[]));
    assert_eq!(proof.root(), sha(&bytes));
}

#[test]
fn roots_of_both_leaves_of_a_tree_meet() {
    let (for_a, for_b, root) = two_leaf_tree();
    assert_eq!(for_a.root(), root);
    assert_eq!(for_b.root(), root);
    assert_eq!(for_a.duplicate(), for_a);
}

#[test]
fn valid_proof_is_verified() {
    let (for_a, _, root) = two_leaf_tree();
    let trust = TrustRoot { height: 10, root };
    let response = QueryResponse { value: b"value-a".to_vec(), height: 10, proof: Some(for_a) };
    assert_eq!(
        verify(b"key-a", &response, &trust, ProofMode::WithProof),
        Verdict::Verified(b"value-a".to_vec())
    );
    assert_eq!(response.duplicate(), response);
}

#[test]
fn tampering_is_unverifiable() {
    let (for_a, for_b, root) = two_leaf_tree();
    let trust = TrustRoot { height: 10, root: root.clone() };
    let good = QueryResponse { value: b"value-a".to_vec(), height: 10, proof: Some(for_a.clone()) };

    let mut wrong_value = good.duplicate();
    wrong_value.value = b"value-x".to_vec();
    assert_eq!(verify(b"key-a", &wrong_value, &trust, ProofMode::WithProof), Verdict::Unverifiable);

    let mut forged = good.duplicate();
    forged.value = b"value-x".to_vec();
    forged.proof.as_mut().unwrap().value = b"value-x".to_vec();
    assert_eq!(verify(b"key-a", &forged, &trust, ProofMode::WithProof), Verdict::Unverifiable);

    let mut wrong_path = good.duplicate();
    wrong_path.proof.as_mut().unwrap().path[0].suffix[0] ^= 1;
    assert_eq!(verify(b"key-a", &wrong_path, &trust, ProofMode::WithProof), Verdict::Unverifiable);

    let mut wrong_prefix = good.duplicate();
    wrong_prefix.proof.as_mut().unwrap().leaf_prefix = vec![2];
    assert_eq!(verify(b"key-a", &wrong_prefix, &trust, ProofMode::WithProof), Verdict::Unverifiable);

    let mut wrong_height = good.duplicate();
    wrong_height.height = 11;
    assert_eq!(verify(b"key-a", &wrong_height, &trust, ProofMode::WithProof), Verdict::Unverifiable);

    let mut missing = good.duplicate();
    missing.proof = None;
    assert_eq!(verify(b"key-a", &missing, &trust, ProofMode::WithProof), Verdict::Unverifiable);

    assert_eq!(verify(b"key-b", &good, &trust, ProofMode::WithProof), Verdict::Unverifiable);

    let other = QueryResponse { value: b"value-b".to_vec(), height: 10, proof: Some(for_b) };
    assert_eq!(verify(b"key-a", &other, &trust, ProofMode::WithProof), Verdict::Unverifiable);
    assert_eq!(
        verify(b"key-b", &other, &trust, ProofMode::WithProof),
        Verdict::Verified(b"value-b".to_vec())
    );

    let mut wrong_root = root;
    wrong_root[31] ^= 0x80;
    let distrust = TrustRoot { height: 10, root: wrong_root };
    assert_eq!(verify(b"key-a", &good, &distrust, ProofMode::WithProof), Verdict::Unverifiable);
    assert_eq!(trust.height, 10);
}

#[test]
fn without_proof_everything_is_taken() {
    let trust = TrustRoot { height: 10, root: vec![0; 32] };
    let response = QueryResponse { value: b"anything".to_vec(), height: 99, proof: None };
    assert_eq!(
        verify(b"key", &response, &trust, ProofMode::WithoutProof),
        Verdict::Verified(b"anything".to_vec())
    );
}
