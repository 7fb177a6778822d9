//! The quorum read: which of several possibly lying nodes to believe, and how
//! many to ask.
//!
//! Nodes are asked in rounds, in contact order. The first round asks
//! `number_read_nodes` nodes. A round is accepted when at least one of its
//! answers is verified and no answer of the round disagrees with the best
//! verified one. Otherwise the fan-out doubles and the next round asks that
//! many further nodes. When every node has been asked, the best verified
//! answer seen in any round wins; where there is none the read fails.
//!
//! The decisions are here; contacting nodes is the caller's part. The caller
//! keeps a table of what each node answered, in contact order, and shows it
//! to [`QuorumRead::absorb`] after every round.

use vstd::prelude::*;
use crate::bytes::same_bytes;
use crate::error::LedgerError;
use crate::state_proof::QueryResponse;
use crate::state_proof::ResponseModel;

verus! {

/// What came back from one node.
#[derive(Clone, Debug, PartialEq, Eq)]
pub enum Observation {
    /// No answer within the node's time limit.
    Silent,
    /// An answer that the verifier did not accept.
    Unverifiable(QueryResponse),
    /// An answer that the verifier accepted.
    Verified(QueryResponse),
}

pub enum ObservationModel {
    Silent,
    Unverifiable(ResponseModel),
    Verified(ResponseModel),
}

impl View for Observation {
    type V = ObservationModel;

    open spec fn view(&self) -> ObservationModel {
        match *self {
            Observation::Silent => ObservationModel::Silent,
            Observation::Unverifiable(r) => ObservationModel::Unverifiable(r@),
            Observation::Verified(r) => ObservationModel::Verified(r@),
        }
    }
}

/// The models of a table of observations, in contact order.
pub open spec fn table(observed: Seq<Observation>) -> Seq<ObservationModel> {
    Seq::new(observed.len(), |i: int| observed[i]@)
}

/// The answer in an observation, if the node gave one.
pub open spec fn answer(o: ObservationModel) -> Option<ResponseModel> {
    match o {
        ObservationModel::Silent => None,
        ObservationModel::Unverifiable(r) => Some(r),
        ObservationModel::Verified(r) => Some(r),
    }
}

pub open spec fn height_at(obs: Seq<ObservationModel>, at: int) -> u64 {
    answer(obs[at]).unwrap().height
}

/// The position of the best verified answer among positions `lo..hi`: the
/// greatest height, and the earliest position among equals.
pub open spec fn best_in(obs: Seq<ObservationModel>, lo: int, hi: int) -> Option<int>
    decreases hi - lo,
{
    if hi <= lo {
        None
    } else {
        let earlier = best_in(obs, lo, hi - 1);
        match obs[hi - 1] {
            ObservationModel::Verified(r) => match earlier {
                Some(b) => if r.height > height_at(obs, b) {
                    Some(hi - 1)
                } else {
                    Some(b)
                },
                None => Some(hi - 1),
            },
            _ => earlier,
        }
    }
}

/// An observation does not contradict `best`: the node was silent, or it
/// answered for an earlier height, or it gave the same value for the same
/// height.
pub open spec fn agrees(o: ObservationModel, best: ResponseModel) -> bool {
    match answer(o) {
        None => true,
        Some(r) => r.height < best.height || (r.height == best.height && r.value == best.value),
    }
}

pub open spec fn round_agrees(obs: Seq<ObservationModel>, lo: int, hi: int, best: int) -> bool {
    forall|i: int| lo <= i < hi ==> agrees(#[trigger] obs[i], answer(obs[best]).unwrap())
}

/// The answer that the round over positions `lo..hi` accepts, if it accepts
/// one.
pub open spec fn round_winner(obs: Seq<ObservationModel>, lo: int, hi: int) -> Option<int> {
    match best_in(obs, lo, hi) {
        Some(b) => if round_agrees(obs, lo, hi, b) {
            Some(b)
        } else {
            None
        },
        None => None,
    }
}

/// Some node among the first `hi` answered.
pub open spec fn any_answer(obs: Seq<ObservationModel>, hi: int) -> bool {
    exists|i: int| 0 <= i < hi && !(#[trigger] obs[i] is Silent)
}

/// Some node among the first `hi` gave a verified answer.
pub open spec fn any_verified(obs: Seq<ObservationModel>, hi: int) -> bool {
    exists|i: int| 0 <= i < hi && #[trigger] obs[i] is Verified
}

/// Where the round that starts at `tried` with fan-out `fanout` ends.
pub open spec fn window_end(tried: int, fanout: int, total: int) -> int {
    if tried + fanout < total {
        tried + fanout
    } else {
        total
    }
}

/// What the read comes to once every node has been asked without a round
/// being accepted.
pub open spec fn exhausted_outcome(obs: Seq<ObservationModel>) -> Result<int, LedgerError> {
    match best_in(obs, 0, obs.len() as int) {
        Some(b) => Ok(b),
        None => if any_answer(obs, obs.len() as int) {
            Err(LedgerError::ProofInvalid)
        } else {
            Err(LedgerError::QueryUnreachable)
        },
    }
}

/// What the read comes to, from the round that starts at position `tried`
/// with fan-out `fanout`, over the whole table `obs`: the position of the
/// answer it returns, or why it fails.
pub open spec fn outcome(obs: Seq<ObservationModel>, tried: int, fanout: int) -> Result<
    int,
    LedgerError,
>
    decreases obs.len() - tried,
{
    let end = window_end(tried, fanout, obs.len() as int);
    match round_winner(obs, tried, end) {
        Some(b) => Ok(b),
        None => if end >= obs.len() || fanout < 1 || tried < 0 {
            exhausted_outcome(obs)
        } else {
            outcome(obs, end, 2 * fanout)
        },
    }
}

/// Two to the power `e`.
pub open spec fn pow2(e: nat) -> nat
    decreases e,
{
    if e == 0 {
        1
    } else {
        2 * pow2((e - 1) as nat)
    }
}

/// How many rounds the read takes, counted from the round that starts at
/// position `tried` with fan-out `fanout`: one where that round settles the
/// read, and one more than the rest of the read where it does not.
pub open spec fn rounds(obs: Seq<ObservationModel>, tried: int, fanout: int) -> nat
    decreases obs.len() - tried,
{
    let end = window_end(tried, fanout, obs.len() as int);
    if round_winner(obs, tried, end).is_some() || end >= obs.len() || fanout < 1 || tried < 0 {
        1
    } else {
        1 + rounds(obs, end, 2 * fanout)
    }
}

/// A read is over after `r` rounds at the latest, where `r` rounds of
/// doubling fan-out reach past the last node: the rounds ask `fanout`,
/// twice `fanout`, four times `fanout` nodes and so on, which after `r`
/// rounds are `fanout * (2^r - 1)` nodes. For a pool of `n` nodes read with
/// a first fan-out of `k` that is the least `r` with `k * (2^r - 1) >= n`.
pub proof fn lemma_rounds_bound(obs: Seq<ObservationModel>, tried: int, fanout: int, r: nat)
    requires
        0 <= tried,
        1 <= fanout,
        1 <= r,
        tried + fanout * (pow2(r) - 1) >= obs.len(),
    ensures
        rounds(obs, tried, fanout) <= r,
    decreases r,
{
    let end = window_end(tried, fanout, obs.len() as int);
    if round_winner(obs, tried, end).is_some() || end >= obs.len() {
    } else {
        assert(end == tried + fanout);
        assert(pow2(r) == 2 * pow2((r - 1) as nat));
        if r == 1 {
            assert(pow2(0) == 1);
            assert(fanout * (pow2(r) - 1) == fanout) by (nonlinear_arith)
                requires
                    pow2(r) == 2,
            ;
        } else {
            let rest = pow2((r - 1) as nat);
            assert(end + (2 * fanout) * (rest - 1) == tried + fanout * (2 * rest - 1))
                by (nonlinear_arith)
                requires
                    end == tried + fanout,
            ;
            lemma_rounds_bound(obs, end, 2 * fanout, (r - 1) as nat);
        }
    }
}

/// A read with a fan-out that covers the whole pool takes one round.
pub proof fn lemma_one_round_when_all_are_asked(obs: Seq<ObservationModel>, fanout: int)
    requires
        1 <= fanout,
        fanout >= obs.len(),
    ensures
        rounds(obs, 0, fanout) == 1,
{
}

/// The best answer of a range is a verified answer inside the range, and
/// there is one exactly when the range holds a verified answer.
pub proof fn lemma_best_in(obs: Seq<ObservationModel>, lo: int, hi: int)
    requires
        0 <= lo,
        hi <= obs.len(),
    ensures
        match best_in(obs, lo, hi) {
            Some(b) => lo <= b < hi && obs[b] is Verified,
            None => forall|i: int| lo <= i < hi ==> !(#[trigger] obs[i] is Verified),
        },
    decreases hi - lo,
{
    if hi > lo {
        lemma_best_in(obs, lo, hi - 1);
    }
}

/// The best answer of a range depends on that range alone.
pub proof fn lemma_best_in_same(
    a: Seq<ObservationModel>,
    b: Seq<ObservationModel>,
    lo: int,
    hi: int,
)
    requires
        0 <= lo,
        hi <= a.len(),
        hi <= b.len(),
        forall|i: int| lo <= i < hi ==> a[i] == b[i],
    ensures
        best_in(a, lo, hi) == best_in(b, lo, hi),
    decreases hi - lo,
{
    if hi > lo {
        lemma_best_in_same(a, b, lo, hi - 1);
        lemma_best_in(a, lo, hi - 1);
    }
}

/// Whether a node answered among the first rows depends on those rows
/// alone.
pub proof fn lemma_any_answer_same(
    a: Seq<ObservationModel>,
    b: Seq<ObservationModel>,
    hi: int,
)
    requires
        hi <= a.len(),
        hi <= b.len(),
        forall|i: int| 0 <= i < hi ==> a[i] == b[i],
    ensures
        any_answer(a, hi) == any_answer(b, hi),
{
    if any_answer(a, hi) {
        let w = choose|i: int| 0 <= i < hi && !(#[trigger] a[i] is Silent);
        assert(!(b[w] is Silent));
    }
    if any_answer(b, hi) {
        let w = choose|i: int| 0 <= i < hi && !(#[trigger] b[i] is Silent);
        assert(!(a[w] is Silent));
    }
}

/// A read returns only the position of a verified answer: nothing that the
/// verifier turned down, and nothing from a silent node, ever comes out.
pub proof fn lemma_outcome_is_verified(obs: Seq<ObservationModel>, tried: int, fanout: int)
    requires
        0 <= tried <= obs.len(),
    ensures
        outcome(obs, tried, fanout) matches Ok(b) ==> 0 <= b < obs.len() && obs[b] is Verified,
    decreases obs.len() - tried,
{
    let end = window_end(tried, fanout, obs.len() as int);
    if fanout >= 0 {
        lemma_best_in(obs, tried, end);
    } else {
        assert(best_in(obs, tried, end).is_none());
    }
    lemma_best_in(obs, 0, obs.len() as int);
    if round_winner(obs, tried, end).is_none() && !(end >= obs.len() || fanout < 1 || tried < 0) {
        lemma_outcome_is_verified(obs, end, 2 * fanout);
    }
}

/// How a read ends, whatever the nodes did: with a verified answer exactly
/// when some node gave one; unreachable exactly when every node was silent;
/// and otherwise, when nodes answered but none verifiably, with an invalid
/// proof.
pub proof fn lemma_outcome_by_cases(obs: Seq<ObservationModel>, tried: int, fanout: int)
    requires
        0 <= tried <= obs.len(),
    ensures
        outcome(obs, tried, fanout).is_ok() <==> any_verified(obs, obs.len() as int),
        outcome(obs, tried, fanout) == Err::<int, LedgerError>(LedgerError::QueryUnreachable)
            <==> !any_answer(obs, obs.len() as int),
        outcome(obs, tried, fanout) == Err::<int, LedgerError>(LedgerError::ProofInvalid) <==> (
        any_answer(obs, obs.len() as int) && !any_verified(obs, obs.len() as int)),
    decreases obs.len() - tried,
{
    let n = obs.len() as int;
    let end = window_end(tried, fanout, n);
    lemma_best_in(obs, 0, n);
    if fanout >= 0 {
        lemma_best_in(obs, tried, end);
    } else {
        assert(best_in(obs, tried, end).is_none());
    }
    if any_verified(obs, n) {
        let w = choose|i: int| 0 <= i < n && #[trigger] obs[i] is Verified;
        assert(!(obs[w] is Silent));
    }
    match round_winner(obs, tried, end) {
        Some(b) => {
            assert(obs[b] is Verified);
        },
        None => {
            if end >= n || fanout < 1 || tried < 0 {
                match best_in(obs, 0, n) {
                    Some(b) => {
                        assert(obs[b] is Verified);
                    },
                    None => {},
                }
            } else {
                lemma_outcome_by_cases(obs, end, 2 * fanout);
            }
        },
    }
}

/// A round that accepts nothing while nodes remain hands over to a round
/// with twice the fan-out, which starts where this one ended.
pub proof fn lemma_escalation_doubles(obs: Seq<ObservationModel>, tried: int, fanout: int)
    requires
        0 <= tried,
        1 <= fanout,
        tried + fanout < obs.len(),
        round_winner(obs, tried, tried + fanout).is_none(),
    ensures
        outcome(obs, tried, fanout) == outcome(obs, tried + fanout, 2 * fanout),
{
}

/// A pool in which no node answers is unreachable, whatever the fan-out.
pub proof fn lemma_silent_pool_is_unreachable(obs: Seq<ObservationModel>, fanout: int)
    requires
        forall|i: int| 0 <= i < obs.len() ==> #[trigger] obs[i] is Silent,
    ensures
        outcome(obs, 0, fanout) == Err::<int, LedgerError>(LedgerError::QueryUnreachable),
{
    lemma_outcome_by_cases(obs, 0, fanout);
}

/// The state of one read between rounds.
pub struct QuorumRead {
    total: usize,
    tried: usize,
    fanout: u128,
    best: Option<(usize, u64)>,
    answered: bool,
}

impl QuorumRead {
    /// No more nodes were asked than there are, and the fan-out is at least
    /// one and at most the first fan-out ahead of the nodes asked.
    #[verifier::type_invariant]
    pub closed spec fn bounded(&self) -> bool {
        &&& self.tried <= self.total
        &&& 1 <= self.fanout <= self.tried + u32::MAX
    }

    /// How many nodes the pool has.
    pub closed spec fn total(&self) -> int {
        self.total as int
    }

    /// How many nodes, from the front of the contact order, have been asked.
    pub closed spec fn tried(&self) -> int {
        self.tried as int
    }

    /// How many nodes the next round asks.
    pub closed spec fn fanout(&self) -> int {
        self.fanout as int
    }

    /// The state is a faithful summary of the first `tried` rows of `obs`.
    pub closed spec fn tracks(&self, obs: Seq<ObservationModel>) -> bool {
        &&& self.tried <= obs.len()
        &&& self.answered == any_answer(obs, self.tried as int)
        &&& match self.best {
            Some((b, h)) => best_in(obs, 0, self.tried as int) == Some(b as int) && h == height_at(
                obs,
                b as int,
            ),
            None => best_in(obs, 0, self.tried as int).is_none(),
        }
    }

    /// A state that summarises a table summarises every table with the
    /// same rows for the nodes asked so far: rows may be added for nodes
    /// that are asked later.
    pub proof fn lemma_tracks_longer_table(
        &self,
        shorter: Seq<ObservationModel>,
        longer: Seq<ObservationModel>,
    )
        requires
            self.tracks(shorter),
            shorter.len() <= longer.len(),
            forall|i: int| 0 <= i < shorter.len() ==> shorter[i] == longer[i],
        ensures
            self.tracks(longer),
    {
        lemma_best_in_same(shorter, longer, 0, self.tried as int);
        lemma_best_in(shorter, 0, self.tried as int);
        lemma_any_answer_same(shorter, longer, self.tried as int);
        match self.best {
            Some((b, h)) => {
                assert(shorter[b as int] == longer[b as int]);
            },
            None => {},
        }
    }

    /// Starts a read over a pool of `total` nodes. A fan-out of zero is
    /// refused.
    pub fn begin(total: usize, number_read_nodes: u32) -> (started: Result<Self, LedgerError>)
        ensures
            number_read_nodes == 0 ==> started == Err::<Self, LedgerError>(
                LedgerError::InvalidConfig,
            ),
            number_read_nodes > 0 ==> started.is_ok() && started.unwrap().total() == total
                && started.unwrap().tried() == 0 && started.unwrap().fanout() == number_read_nodes
                && forall|obs: Seq<ObservationModel>| #[trigger] started.unwrap().tracks(obs),
    {
        if number_read_nodes == 0 {
            return Err(LedgerError::InvalidConfig);
        }
        let state = QuorumRead {
            total,
            tried: 0,
            fanout: number_read_nodes as u128,
            best: None,
            answered: false,
        };
        Ok(state)
    }

    /// The positions, in contact order, that the next round asks: from the
    /// first to just before the second.
    pub fn window(&self) -> (range: (usize, usize))
        ensures
            range.0 == self.tried(),
            range.1 == window_end(self.tried(), self.fanout(), self.total()),
            range.0 <= range.1 <= self.total(),
    {
        proof {
            use_type_invariant(self);
        }
        let room: u128 = (self.total - self.tried) as u128;
        if self.fanout < room {
            (self.tried, self.tried + self.fanout as usize)
        } else {
            (self.tried, self.total)
        }
    }

    /// Ends the read where the caller's time is up: settles on what the
    /// nodes asked so far have answered, as if there were no further nodes.
    /// The best verified answer wins; without one the read fails, with
    /// `ProofInvalid` where some node answered and with `QueryUnreachable`
    /// where none did. Rows of a round that was not taken in do not count.
    pub fn give_up(&self, observed: &Vec<Observation>) -> (result: Result<usize, LedgerError>)
        requires
            self.tracks(table(observed@)),
        ensures
            match exhausted_outcome(table(observed@).take(self.tried())) {
                Ok(b) => result.is_ok() && result.unwrap() as int == b,
                Err(e) => result == Err::<usize, LedgerError>(e),
            },
    {
        proof {
            let obs = table(observed@);
            let asked = obs.take(self.tried as int);
            lemma_best_in_same(asked, obs, 0, self.tried as int);
            lemma_any_answer_same(asked, obs, self.tried as int);
        }
        match self.best {
            Some((b, _)) => Ok(b),
            None => if self.answered {
                Err(LedgerError::ProofInvalid)
            } else {
                Err(LedgerError::QueryUnreachable)
            },
        }
    }

    /// Takes in the round just asked. `observed` is the caller's table, in
    /// contact order, with a row for every node asked so far.
    ///
    /// Gives the read's result where the round settles it: the position of
    /// the accepted answer, or the failure once no node is left. Gives
    /// nothing where another round is due, which then starts after this one
    /// with twice the fan-out.
    pub fn absorb(&mut self, observed: &Vec<Observation>) -> (settled: Option<
        Result<usize, LedgerError>,
    >)
        requires
            old(self).tracks(table(observed@)),
            window_end(old(self).tried(), old(self).fanout(), old(self).total()) <= observed.len()
                <= old(self).total(),
        ensures
            final(self).total() == old(self).total(),
            ({
                let obs = table(observed@);
                let end = window_end(old(self).tried(), old(self).fanout(), old(self).total());
                match round_winner(obs, old(self).tried(), end) {
                    Some(b) => settled.is_some() && settled.unwrap().is_ok() && settled.unwrap().unwrap() as int
                        == b,
                    None => if end >= old(self).total() {
                        &&& settled.is_some()
                        &&& match exhausted_outcome(obs) {
                            Ok(b) => settled.unwrap().is_ok() && settled.unwrap().unwrap() as int == b,
                            Err(e) => settled.unwrap() == Err::<usize, LedgerError>(e),
                        }
                    } else {
                        &&& settled.is_none()
                        &&& final(self).tracks(obs)
                        &&& final(self).tried() == end
                        &&& final(self).fanout() == 2 * old(self).fanout()
                    },
                }
            }),
    {
        let ghost obs = table(observed@);
        proof {
            use_type_invariant(&*self);
        }
        let (start, end) = self.window();
        let mut round_best: Option<(usize, u64)> = None;
        let mut i: usize = start;
        while i < end
            invariant
                start <= i <= end <= observed.len(),
                obs == table(observed@),
                self.total == old(self).total,
                self.tried == old(self).tried,
                self.fanout == old(self).fanout,
                self.tried <= self.total,
                1 <= self.fanout <= self.tried + u32::MAX,
                start == self.tried,
                self.answered == any_answer(obs, i as int),
                match self.best {
                    Some((b, h)) => best_in(obs, 0, i as int) == Some(b as int) && h == height_at(
                        obs,
                        b as int,
                    ),
                    None => best_in(obs, 0, i as int).is_none(),
                },
                match round_best {
                    Some((b, h)) => best_in(obs, start as int, i as int) == Some(b as int) && h
                        == height_at(obs, b as int),
                    None => best_in(obs, start as int, i as int).is_none(),
                },
            decreases end - i,
        {
            proof {
                assert(obs[i as int] == observed@[i as int]@);
                if any_answer(obs, i as int) {
                    let w = choose|j: int| 0 <= j < i && !(#[trigger] obs[j] is Silent);
                    assert(0 <= w < i + 1 && !(obs[w] is Silent));
                }
                if any_answer(obs, i + 1) && obs[i as int] is Silent {
                    let w = choose|j: int| 0 <= j < i + 1 && !(#[trigger] obs[j] is Silent);
                    assert(0 <= w < i && !(obs[w] is Silent));
                }
            }
            match &observed[i] {
                Observation::Silent => {},
                Observation::Unverifiable(_) => {
                    self.answered = true;
                },
                Observation::Verified(r) => {
                    self.answered = true;
                    self.best = match self.best {
                        Some((b, h)) => if r.height > h {
                            Some((i, r.height))
                        } else {
                            Some((b, h))
                        },
                        None => Some((i, r.height)),
                    };
                    round_best = match round_best {
                        Some((b, h)) => if r.height > h {
                            Some((i, r.height))
                        } else {
                            Some((b, h))
                        },
                        None => Some((i, r.height)),
                    };
                },
            }
            i += 1;
        }
        let mut accepted: Option<usize> = None;
        match round_best {
            None => {},
            Some((b, h)) => {
                proof {
                    lemma_best_in(obs, start as int, end as int);
                    assert(obs[b as int] == observed@[b as int]@);
                }
                let best_value: &Vec<u8> = match &observed[b] {
                    Observation::Verified(r) => &r.value,
                    Observation::Unverifiable(r) => &r.value,
                    Observation::Silent => {
                        return Some(Err(LedgerError::InternalError));
                    },
                };
                let mut all: bool = true;
                let mut j: usize = start;
                while j < end
                    invariant
                        start <= j <= end <= observed.len(),
                        obs == table(observed@),
                        b < observed.len(),
                        answer(obs[b as int]) is Some,
                        answer(obs[b as int]).unwrap().height == h,
                        answer(obs[b as int]).unwrap().value == best_value@,
                        all == round_agrees(obs, start as int, j as int, b as int),
                    decreases end - j,
                {
                    proof {
                        assert(obs[j as int] == observed@[j as int]@);
                    }
                    let fine: bool = match &observed[j] {
                        Observation::Silent => true,
                        Observation::Unverifiable(r) => r.height < h || (r.height == h
                            && same_bytes(r.value.as_slice(), best_value.as_slice())),
                        Observation::Verified(r) => r.height < h || (r.height == h && same_bytes(
                            r.value.as_slice(),
                            best_value.as_slice(),
                        )),
                    };
                    proof {
                        assert(fine == agrees(obs[j as int], answer(obs[b as int]).unwrap()));
                        if all && fine {
                            assert(round_agrees(obs, start as int, j + 1, b as int));
                        }
                    }
                    all = all && fine;
                    j += 1;
                }
                if all {
                    accepted = Some(b);
                }
            },
        }
        match accepted {
            Some(b) => Some(Ok(b)),
            None => {
                if end >= self.total {
                    proof {
                        assert(obs.len() == end);
                    }
                    match self.best {
                        Some((b, _)) => Some(Ok(b)),
                        None => if self.answered {
                            Some(Err(LedgerError::ProofInvalid))
                        } else {
                            Some(Err(LedgerError::QueryUnreachable))
                        },
                    }
                } else {
                    self.tried = end;
                    self.fanout = self.fanout * 2;
                    None
                }
            },
        }
    }
}

/// Runs a whole read over a table that already holds what every node of the
/// pool answers, in contact order, and gives the position of the answer the
/// read returns.
///
/// This is the read against a pool whose behaviour is known in advance; the
/// rounds, their fan-out and their verdicts are those of a live read.
pub fn resolve(observed: &Vec<Observation>, number_read_nodes: u32) -> (result: Result<
    usize,
    LedgerError,
>)
    ensures
        number_read_nodes == 0 ==> result == Err::<usize, LedgerError>(LedgerError::InvalidConfig),
        number_read_nodes > 0 ==> match outcome(table(observed@), 0, number_read_nodes as int) {
            Ok(b) => result.is_ok() && result.unwrap() as int == b,
            Err(e) => result == Err::<usize, LedgerError>(e),
        },
        result matches Ok(b) ==> b < observed.len() && observed[b as int] is Verified,
{
    let mut state = match QuorumRead::begin(observed.len(), number_read_nodes) {
        Ok(state) => state,
        Err(e) => {
            return Err(e);
        },
    };
    let ghost obs = table(observed@);
    proof {
        assert(state.tracks(obs));
        lemma_outcome_is_verified(obs, 0, number_read_nodes as int);
    }
    loop
        invariant
            number_read_nodes > 0,
            obs == table(observed@),
            state.tracks(obs),
            state.total() == observed.len(),
            0 <= state.tried() <= observed.len(),
            1 <= state.fanout(),
            outcome(obs, 0, number_read_nodes as int) == outcome(
                obs,
                state.tried(),
                state.fanout(),
            ),
            outcome(obs, 0, number_read_nodes as int) matches Ok(b) ==> 0 <= b < obs.len()
                && obs[b] is Verified,
        decreases observed.len() - state.tried(),
    {
        match state.absorb(observed) {
            Some(result) => {
                proof {
                    match result {
                        Ok(b) => {
                            assert(obs[b as int] == observed@[b as int]@);
                        },
                        Err(_) => {},
                    }
                }
                return result;
            },
            None => {},
        }
    }
}

} // verus!
