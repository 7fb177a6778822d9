//! The pool client: what a read of a pool returns, given what its nodes
//! answer, and what a broadcast comes to, given what the pool reports.
//!
//! Talking to nodes is the caller's part. This module classifies each
//! answer with the state-proof verifier, lays the answers out in contact
//! order, lets the quorum read decide, and hands out the one answer that
//! won.

use vstd::prelude::*;
use crate::bytes::copy_bytes;
use crate::error::LedgerError;
use crate::pool::contact_order;
use crate::pool::contact_sequence;
use crate::pool::lemma_contact_sequence_is_permutation;
use crate::pool::names;
use crate::pool::node_ids;
use crate::pool::positions;
use crate::pool::PoolConfig;
use crate::quorum::outcome;
use crate::quorum::resolve;
use crate::quorum::table;
use crate::quorum::Observation;
use crate::quorum::ObservationModel;
use crate::state_proof::accepted;
use crate::state_proof::verify;
use crate::state_proof::ProofMode;
use crate::state_proof::QueryResponse;
use crate::state_proof::ResponseModel;
use crate::state_proof::TrustRoot;
use crate::state_proof::Verdict;

verus! {

/// What a read returns: the value, the height it was read at, and the
/// proof that came with it.
#[derive(Clone, Debug, PartialEq, Eq)]
pub struct QueryResult {
    pub response: QueryResponse,
}

/// The position of the first trusted root for `height` at or after `from`.
pub open spec fn root_for(roots: Seq<TrustRoot>, height: u64, from: int) -> Option<int>
    decreases roots.len() - from,
{
    if from < 0 || from >= roots.len() {
        None
    } else if roots[from].height == height {
        Some(from)
    } else {
        root_for(roots, height, from + 1)
    }
}

/// Whether the client may believe `response` as the answer to a query for
/// `key`: always with proofs off; with proofs on, only if a root is trusted
/// for the height the response is for and the verifier accepts the response
/// against that root.
pub open spec fn verifiable(
    key: Seq<u8>,
    response: ResponseModel,
    roots: Seq<TrustRoot>,
    mode: ProofMode,
) -> bool {
    match mode {
        ProofMode::WithoutProof => true,
        ProofMode::WithProof => match root_for(roots, response.height, 0) {
            Some(i) => accepted(key, response, roots[i].height, roots[i].root@, mode),
            None => false,
        },
    }
}

/// How one node's answer is classified.
pub open spec fn observed(
    key: Seq<u8>,
    reply: Option<ResponseModel>,
    roots: Seq<TrustRoot>,
    mode: ProofMode,
) -> ObservationModel {
    match reply {
        None => ObservationModel::Silent,
        Some(r) => if verifiable(key, r, roots, mode) {
            ObservationModel::Verified(r)
        } else {
            ObservationModel::Unverifiable(r)
        },
    }
}

/// The model of an answer that may be missing.
pub open spec fn reply_model(reply: Option<QueryResponse>) -> Option<ResponseModel> {
    match reply {
        Some(r) => Some(r@),
        None => None,
    }
}

/// The first trusted root for `height`.
fn find_root(roots: &Vec<TrustRoot>, height: u64) -> (found: Option<usize>)
    ensures
        match found {
            Some(i) => root_for(roots@, height, 0) == Some(i as int) && i < roots.len(),
            None => root_for(roots@, height, 0).is_none(),
        },
{
    let mut i: usize = 0;
    while i < roots.len()
        invariant
            i <= roots.len(),
            root_for(roots@, height, 0) == root_for(roots@, height, i as int),
        decreases roots.len() - i,
    {
        if roots[i].height == height {
            return Some(i);
        }
        i += 1;
    }
    None
}

/// Classifies what one node answered to a query for `key`.
///
/// No answer is silence. An answer is verified exactly where the client may
/// believe it, and unverifiable otherwise: a missing, malformed or
/// non-matching proof, or a height for which nothing is trusted, never gives
/// a verified answer while proofs are on.
pub fn observe(key: &[u8], reply: Option<QueryResponse>, roots: &Vec<TrustRoot>, mode: ProofMode) -> (seen:
    Observation)
    ensures
        seen@ == observed(key@, reply_model(reply), roots@, mode),
{
    match reply {
        None => Observation::Silent,
        Some(response) => {
            match mode {
                ProofMode::WithoutProof => Observation::Verified(response),
                ProofMode::WithProof => {
                    match find_root(roots, response.height) {
                        None => Observation::Unverifiable(response),
                        Some(i) => match verify(key, &response, &roots[i], mode) {
                            Verdict::Verified(_) => Observation::Verified(response),
                            Verdict::Unverifiable => Observation::Unverifiable(response),
                        },
                    }
                },
            }
        },
    }
}

/// What node `node` of the pool answers, where `replies` lists the answers
/// by position in the node list; a node without an entry is silent.
pub open spec fn reply_of(replies: Seq<Option<QueryResponse>>, node: int) -> Option<ResponseModel> {
    if 0 <= node < replies.len() {
        reply_model(replies[node])
    } else {
        None
    }
}

/// The observations of a whole pool, in contact order.
pub open spec fn observations(
    key: Seq<u8>,
    replies: Seq<Option<QueryResponse>>,
    order: Seq<int>,
    roots: Seq<TrustRoot>,
    mode: ProofMode,
) -> Seq<ObservationModel> {
    Seq::new(order.len(), |k: int| observed(key, reply_of(replies, order[k]), roots, mode))
}

/// The names a configuration prefers; none where it prefers none.
pub open spec fn preferred_names(config: PoolConfig) -> Seq<Seq<char>> {
    match config.preferred_node_order {
        Some(list) => names(list@),
        None => Seq::empty(),
    }
}

/// What a read of the pool `config` returns for a query for `key`, where
/// `replies` lists what each node answers, by position in the node list:
/// the response of the node that the quorum read settles on, or the read's
/// failure.
pub open spec fn query_outcome(
    key: Seq<u8>,
    config: PoolConfig,
    replies: Seq<Option<QueryResponse>>,
    mode: ProofMode,
) -> Result<ResponseModel, LedgerError> {
    let order = contact_sequence(node_ids(config.node_list@), preferred_names(config));
    let obs = observations(key, replies, order, config.trust_roots@, mode);
    if config.number_read_nodes == 0 {
        Err(LedgerError::InvalidConfig)
    } else {
        match outcome(obs, 0, config.number_read_nodes as int) {
            Ok(b) => Ok(reply_of(replies, order[b]).unwrap()),
            Err(e) => Err(e),
        }
    }
}

/// Whatever a read returns was given by a node of the pool and is
/// believable: a response that the verifier turned down is never returned.
pub proof fn lemma_query_returns_verified_only(
    key: Seq<u8>,
    config: PoolConfig,
    replies: Seq<Option<QueryResponse>>,
    mode: ProofMode,
)
    ensures
        query_outcome(key, config, replies, mode) matches Ok(r) ==> verifiable(
            key,
            r,
            config.trust_roots@,
            mode,
        ) && exists|node: int|
            0 <= node < config.node_list@.len() && #[trigger] reply_of(replies, node) == Some(r),
{
    let ids = node_ids(config.node_list@);
    let order = contact_sequence(ids, preferred_names(config));
    let obs = observations(key, replies, order, config.trust_roots@, mode);
    lemma_contact_sequence_is_permutation(ids, preferred_names(config));
    if config.number_read_nodes != 0 {
        crate::quorum::lemma_outcome_is_verified(obs, 0, config.number_read_nodes as int);
        match outcome(obs, 0, config.number_read_nodes as int) {
            Ok(b) => {
                assert(obs[b] is Verified);
                assert(0 <= order[b] < ids.len());
                assert(reply_of(replies, order[b]) is Some);
            },
            Err(_) => {},
        }
    }
}

/// A pool of which no node answers is unreachable.
pub proof fn lemma_silent_pool(
    key: Seq<u8>,
    config: PoolConfig,
    replies: Seq<Option<QueryResponse>>,
    mode: ProofMode,
)
    requires
        config.number_read_nodes >= 1,
        forall|node: int| #[trigger] reply_of(replies, node).is_none(),
    ensures
        query_outcome(key, config, replies, mode) == Err::<ResponseModel, LedgerError>(
            LedgerError::QueryUnreachable,
        ),
{
    let ids = node_ids(config.node_list@);
    let order = contact_sequence(ids, preferred_names(config));
    let obs = observations(key, replies, order, config.trust_roots@, mode);
    assert forall|i: int| 0 <= i < obs.len() implies #[trigger] obs[i] is Silent by {
        assert(reply_of(replies, order[i]).is_none());
    }
    crate::quorum::lemma_silent_pool_is_unreachable(obs, config.number_read_nodes as int);
}

/// Reads a pool whose nodes' answers are known: `replies` holds, by
/// position in the node list, what each node answers to `key`, nothing for
/// a node that stays silent.
///
/// The nodes are taken in contact order, each answer is classified, and the
/// quorum read decides. The result is the response of the node the read
/// settled on; it fails with `QueryUnreachable` where no node answered,
/// with `ProofInvalid` where nodes answered but none believably, and with
/// `InvalidConfig` on a fan-out of zero.
pub fn query(
    key: &[u8],
    config: &PoolConfig,
    replies: &Vec<Option<QueryResponse>>,
    mode: ProofMode,
) -> (result: Result<QueryResult, LedgerError>)
    ensures
        match query_outcome(key@, *config, replies@, mode) {
            Ok(r) => result.is_ok() && result.unwrap().response@ == r,
            Err(e) => result == Err::<QueryResult, LedgerError>(e),
        },
        result matches Ok(q) ==> verifiable(key@, q.response@, config.trust_roots@, mode),
{
    let empty: Vec<String> = Vec::new();
    let preferred: &Vec<String> = match &config.preferred_node_order {
        Some(list) => list,
        None => &empty,
    };
    proof {
        assert(names(empty@) =~= Seq::<Seq<char>>::empty());
        assert(names(preferred@) == preferred_names(*config));
    }
    let order = contact_order(&config.node_list, preferred);
    let ghost sequence = positions(order@);
    proof {
        assert(sequence == contact_sequence(node_ids(config.node_list@), preferred_names(*config)));
    }
    let mut seen: Vec<Observation> = Vec::new();
    let mut k: usize = 0;
    while k < order.len()
        invariant
            k <= order.len(),
            sequence == positions(order@),
            sequence == contact_sequence(node_ids(config.node_list@), preferred_names(*config)),
            seen@.len() == k,
            forall|j: int|
                0 <= j < k ==> (#[trigger] seen@[j])@ == observed(
                    key@,
                    reply_of(replies@, sequence[j]),
                    config.trust_roots@,
                    mode,
                ),
        decreases order.len() - k,
    {
        let node: usize = order[k];
        assert(sequence[k as int] == node as int);
        let reply: Option<QueryResponse> = if node < replies.len() {
            match &replies[node] {
                Some(r) => Some(r.duplicate()),
                None => None,
            }
        } else {
            None
        };
        seen.push(observe(key, reply, &config.trust_roots, mode));
        k += 1;
    }
    proof {
        assert(table(seen@) =~= observations(key@, replies@, sequence, config.trust_roots@, mode));
        lemma_query_returns_verified_only(key@, *config, replies@, mode);
    }
    let ghost obs = observations(key@, replies@, sequence, config.trust_roots@, mode);
    assert(table(seen@) == obs);
    match resolve(&seen, config.number_read_nodes) {
        Err(e) => Err(e),
        Ok(b) => {
            proof {
                assert(table(seen@)[b as int] == seen@[b as int]@);
                assert(seen@[b as int]@ == observed(
                    key@,
                    reply_of(replies@, sequence[b as int]),
                    config.trust_roots@,
                    mode,
                ));
            }
            match &seen[b] {
                Observation::Verified(r) => Ok(QueryResult { response: r.duplicate() }),
                Observation::Unverifiable(r) => Err(LedgerError::InternalError),
                Observation::Silent => Err(LedgerError::InternalError),
            }
        },
    }
}

/// What the chain says of one phase of a transaction.
#[derive(Clone, Debug, PartialEq, Eq)]
pub struct TxOutcome {
    pub code: u32,
    pub log: String,
    pub data: Vec<u8>,
}

/// What the pool reports of a broadcast.
#[derive(Clone, Debug, PartialEq, Eq)]
pub enum BroadcastEvent {
    /// The chain answered for both phases.
    Committed { check_tx: TxOutcome, deliver_tx: TxOutcome, height: u64 },
    /// No commit confirmation arrived within the configured window.
    TimedOut,
}

/// A committed transaction.
#[derive(Clone, Debug, PartialEq, Eq)]
pub struct BroadcastResult {
    pub height: u64,
    pub data: Vec<u8>,
}

/// What a broadcast comes to.
///
/// A timeout gives `BroadcastTimeout`. A non-zero code of the check phase,
/// or else of the delivery phase, gives `BroadcastRejected` with that
/// phase's code and log, as the chain wrote them. Otherwise the transaction
/// is committed, at the reported height and with the delivery phase's data.
/// Nothing is retried.
pub fn broadcast_outcome(event: BroadcastEvent) -> (result: Result<BroadcastResult, LedgerError>)
    ensures
        match event {
            BroadcastEvent::TimedOut => result == Err::<BroadcastResult, LedgerError>(
                LedgerError::BroadcastTimeout,
            ),
            BroadcastEvent::Committed { check_tx, deliver_tx, height } => if check_tx.code != 0 {
                result == Err::<BroadcastResult, LedgerError>(
                    LedgerError::BroadcastRejected { code: check_tx.code, log: check_tx.log },
                )
            } else if deliver_tx.code != 0 {
                result == Err::<BroadcastResult, LedgerError>(
                    LedgerError::BroadcastRejected { code: deliver_tx.code, log: deliver_tx.log },
                )
            } else {
                result == Ok::<BroadcastResult, LedgerError>(
                    BroadcastResult { height, data: deliver_tx.data },
                )
            },
        },
{
    match event {
        BroadcastEvent::TimedOut => Err(LedgerError::BroadcastTimeout),
        BroadcastEvent::Committed { check_tx, deliver_tx, height } => {
            if check_tx.code != 0 {
                Err(LedgerError::BroadcastRejected { code: check_tx.code, log: check_tx.log })
            } else if deliver_tx.code != 0 {
                Err(LedgerError::BroadcastRejected { code: deliver_tx.code, log: deliver_tx.log })
            } else {
                Ok(BroadcastResult { height, data: deliver_tx.data })
            }
        },
    }
}

} // verus!
