//! State proofs: whether a value a node returned is backed by a state root
//! that the client already trusts.
//!
//! A proof is a Merkle path. The leaf hashes the key and the hashed value
//! under a prefix; every step up hashes the child between a prefix and a
//! suffix. The value is accepted only if the path ends at the trusted root
//! of the very height the node answered for.

use vstd::prelude::*;
use crate::bytes::append_bytes;
use crate::bytes::copy_bytes;
use crate::bytes::same_bytes;
use crate::crypto::sha256;
use crate::crypto::sha256_digest;
use crate::wire::varint;
use crate::wire::write_varint;

verus! {

/// One step from a child hash to its parent.
#[derive(Clone, Debug, PartialEq, Eq)]
pub struct InnerOp {
    pub prefix: Vec<u8>,
    pub suffix: Vec<u8>,
}

/// Evidence that `key` maps to `value` in a committed state tree.
#[derive(Clone, Debug, PartialEq, Eq)]
pub struct ExistenceProof {
    pub key: Vec<u8>,
    pub value: Vec<u8>,
    pub leaf_prefix: Vec<u8>,
    pub path: Vec<InnerOp>,
}

/// A state root the client trusts, with the height it belongs to.
#[derive(Clone, Debug, PartialEq, Eq)]
pub struct TrustRoot {
    pub height: u64,
    pub root: Vec<u8>,
}

/// What a node answered to a query.
#[derive(Clone, Debug, PartialEq, Eq)]
pub struct QueryResponse {
    pub value: Vec<u8>,
    pub height: u64,
    pub proof: Option<ExistenceProof>,
}

/// Whether answers must carry a proof.
#[derive(Clone, Copy, Debug, PartialEq, Eq)]
pub enum ProofMode {
    /// Fail closed: no valid proof, no value.
    WithProof,
    /// Explicit opt-out for trusted deployments: the value is taken as is.
    WithoutProof,
}

/// The verifier's answer.
#[derive(Clone, Debug, PartialEq, Eq)]
pub enum Verdict {
    Verified(Vec<u8>),
    Unverifiable,
}

pub struct InnerOpModel {
    pub prefix: Seq<u8>,
    pub suffix: Seq<u8>,
}

pub struct ProofModel {
    pub key: Seq<u8>,
    pub value: Seq<u8>,
    pub leaf_prefix: Seq<u8>,
    pub path: Seq<InnerOpModel>,
}

pub struct ResponseModel {
    pub value: Seq<u8>,
    pub height: u64,
    pub proof: Option<ProofModel>,
}

impl View for InnerOp {
    type V = InnerOpModel;

    open spec fn view(&self) -> InnerOpModel {
        InnerOpModel { prefix: self.prefix@, suffix: self.suffix@ }
    }
}

impl View for ExistenceProof {
    type V = ProofModel;

    open spec fn view(&self) -> ProofModel {
        ProofModel {
            key: self.key@,
            value: self.value@,
            leaf_prefix: self.leaf_prefix@,
            path: Seq::new(self.path@.len(), |i: int| self.path@[i]@),
        }
    }
}

impl View for QueryResponse {
    type V = ResponseModel;

    open spec fn view(&self) -> ResponseModel {
        ResponseModel {
            value: self.value@,
            height: self.height,
            proof: proof_model(self.proof),
        }
    }
}

/// The model of a proof that may be absent.
pub open spec fn proof_model(evidence: Option<ExistenceProof>) -> Option<ProofModel> {
    match evidence {
        Some(p) => Some(p@),
        None => None,
    }
}

/// The hash of the leaf that binds `key` to `value`.
pub open spec fn leaf_hash(leaf_prefix: Seq<u8>, key: Seq<u8>, value: Seq<u8>) -> Seq<u8> {
    let hashed = sha256_digest(value);
    sha256_digest(leaf_prefix + varint(key.len()) + key + varint(hashed.len()) + hashed)
}

/// The hash reached from `hash` by walking `path` upward.
pub open spec fn climb(hash: Seq<u8>, path: Seq<InnerOpModel>) -> Seq<u8>
    decreases path.len(),
{
    if path.len() == 0 {
        hash
    } else {
        climb(sha256_digest(path[0].prefix + hash + path[0].suffix), path.skip(1))
    }
}

/// The root that a proof commits to.
pub open spec fn proven_root(p: ProofModel) -> Seq<u8> {
    climb(leaf_hash(p.leaf_prefix, p.key, p.value), p.path)
}

/// A proof backs `value` under `key` against a trusted root.
pub open spec fn proof_holds(p: ProofModel, key: Seq<u8>, value: Seq<u8>, root: Seq<u8>) -> bool {
    &&& p.key == key
    &&& p.value == value
    &&& proven_root(p) == root
}

/// When the verifier accepts a response.
pub open spec fn accepted(
    key: Seq<u8>,
    response: ResponseModel,
    trust_height: u64,
    trust_root: Seq<u8>,
    mode: ProofMode,
) -> bool {
    match mode {
        ProofMode::WithoutProof => true,
        ProofMode::WithProof => {
            &&& response.proof matches Some(p)
            &&& response.height == trust_height
            &&& proof_holds(p, key, response.value, trust_root)
        },
    }
}

impl InnerOp {
    /// A copy of this step.
    pub fn duplicate(&self) -> (copy: InnerOp)
        ensures
            copy@ == self@,
    {
        InnerOp {
            prefix: copy_bytes(self.prefix.as_slice()),
            suffix: copy_bytes(self.suffix.as_slice()),
        }
    }
}

impl QueryResponse {
    /// A copy of this response.
    pub fn duplicate(&self) -> (copy: QueryResponse)
        ensures
            copy@ == self@,
    {
        let evidence = match &self.proof {
            Some(p) => Some(p.duplicate()),
            None => None,
        };
        QueryResponse { value: copy_bytes(self.value.as_slice()), height: self.height, proof: evidence }
    }
}

impl ExistenceProof {
    /// A copy of this proof.
    pub fn duplicate(&self) -> (copy: ExistenceProof)
        ensures
            copy@ == self@,
    {
        let mut path: Vec<InnerOp> = Vec::new();
        let mut i: usize = 0;
        while i < self.path.len()
            invariant
                i <= self.path.len(),
                path@.len() == i,
                forall|j: int| 0 <= j < i ==> (#[trigger] path@[j])@ == self.path@[j]@,
            decreases self.path.len() - i,
        {
            path.push(self.path[i].duplicate());
            i += 1;
        }
        let copy = ExistenceProof {
            key: copy_bytes(self.key.as_slice()),
            value: copy_bytes(self.value.as_slice()),
            leaf_prefix: copy_bytes(self.leaf_prefix.as_slice()),
            path,
        };
        assert(copy@.path =~= self@.path);
        copy
    }

    /// Computes the root this proof commits to.
    pub fn root(&self) -> (root: Vec<u8>)
        ensures
            root@ == proven_root(self@),
    {
        let hashed = sha256(self.value.as_slice());
        let mut leaf: Vec<u8> = copy_bytes(self.leaf_prefix.as_slice());
        write_varint(&mut leaf, self.key.len() as u64);
        append_bytes(&mut leaf, self.key.as_slice());
        write_varint(&mut leaf, hashed.len() as u64);
        append_bytes(&mut leaf, hashed.as_slice());
        proof {
            assert(leaf@ =~= self.leaf_prefix@ + varint(self.key@.len()) + self.key@ + varint(
                hashed@.len(),
            ) + hashed@);
        }
        let mut current = sha256(leaf.as_slice());
        let ghost path = self@.path;
        proof {
            assert(path.skip(0) =~= path);
        }
        let mut i: usize = 0;
        while i < self.path.len()
            invariant
                i <= self.path.len(),
                path == self@.path,
                path.len() == self.path.len(),
                proven_root(self@) == climb(current@, path.skip(i as int)),
            decreases self.path.len() - i,
        {
            let op = &self.path[i];
            let mut node: Vec<u8> = copy_bytes(op.prefix.as_slice());
            append_bytes(&mut node, current.as_slice());
            append_bytes(&mut node, op.suffix.as_slice());
            proof {
                assert(path.skip(i as int)[0] == op@);
                assert(path.skip(i as int).skip(1) =~= path.skip(i + 1));
            }
            current = sha256(node.as_slice());
            i += 1;
        }
        current
    }
}

/// Decides whether `response` may be used as the answer to a query for
/// `key`, given the root trusted for one height.
///
/// With proofs on, the value is verified only if a proof is present, the
/// response is for the trusted height, the proof is about this key and this
/// value, and its path ends at the trusted root. Anything else is
/// unverifiable. With proofs off every response is taken as verified. The
/// trust material is only read.
pub fn verify(key: &[u8], response: &QueryResponse, trust: &TrustRoot, mode: ProofMode) -> (verdict:
    Verdict)
    ensures
        match verdict {
            Verdict::Verified(v) => accepted(key@, response@, trust.height, trust.root@, mode)
                && v@ == response.value@,
            Verdict::Unverifiable => !accepted(key@, response@, trust.height, trust.root@, mode),
        },
{
    match mode {
        ProofMode::WithoutProof => Verdict::Verified(copy_bytes(response.value.as_slice())),
        ProofMode::WithProof => {
            let evidence = &response.proof;
            match evidence {
                None => Verdict::Unverifiable,
                Some(p) => {
                    if response.height != trust.height {
                        return Verdict::Unverifiable;
                    }
                    if !same_bytes(p.key.as_slice(), key) {
                        return Verdict::Unverifiable;
                    }
                    if !same_bytes(p.value.as_slice(), response.value.as_slice()) {
                        return Verdict::Unverifiable;
                    }
                    let root = p.root();
                    if same_bytes(root.as_slice(), trust.root.as_slice()) {
                        Verdict::Verified(copy_bytes(response.value.as_slice()))
                    } else {
                        Verdict::Unverifiable
                    }
                },
            }
        },
    }
}

} // verus!
