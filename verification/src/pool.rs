//! Pool configurations and their life cycle.
//!
//! A pool is a named set of ledger nodes with the material needed to check
//! what they say. A configuration is created once under an alias, opened,
//! possibly refreshed while open, closed, and deleted once it is no longer
//! open. At most one connection per alias is open at a time.

use vstd::prelude::*;
use crate::alias_map::same_text;
use crate::alias_map::AliasMap;
use crate::error::LedgerError;
use crate::state_proof::TrustRoot;

verus! {

/// How many nodes a read asks first, unless the configuration says
/// otherwise.
pub const DEFAULT_READ_NODES: u32 = 2;

/// One node of a pool.
#[derive(Clone, Debug, PartialEq, Eq)]
pub struct Node {
    pub id: String,
    pub network_address: String,
}

/// The configuration of a pool.
#[derive(Clone, Debug, PartialEq, Eq)]
pub struct PoolConfig {
    pub alias: String,
    pub chain_id: String,
    pub node_list: Vec<Node>,
    pub trust_roots: Vec<TrustRoot>,
    pub preferred_node_order: Option<Vec<String>>,
    pub number_read_nodes: u32,
}

/// Where a pool stands in its life cycle.
#[derive(Clone, Copy, Debug, PartialEq, Eq, Structural)]
pub enum PoolState {
    Unopened,
    Open,
    Closed,
}

impl PoolConfig {
    /// A configuration with the default fan-out and no preferred nodes.
    pub fn new(
        alias: String,
        chain_id: String,
        node_list: Vec<Node>,
        trust_roots: Vec<TrustRoot>,
    ) -> (config: Self)
        ensures
            config.alias == alias,
            config.chain_id == chain_id,
            config.node_list == node_list,
            config.trust_roots == trust_roots,
            config.preferred_node_order.is_none(),
            config.number_read_nodes == DEFAULT_READ_NODES,
    {
        PoolConfig {
            alias,
            chain_id,
            node_list,
            trust_roots,
            preferred_node_order: None,
            number_read_nodes: DEFAULT_READ_NODES,
        }
    }
}

/// The protocol versions a pool speaks are 1 and 2: gives the version back
/// where it is one of them, and fails with `IncompatibleProtocolVersion`
/// where it is not.
pub fn check_protocol_version(version: usize) -> (checked: Result<usize, LedgerError>)
    ensures
        checked == if version == 1 || version == 2 {
            Ok::<usize, LedgerError>(version)
        } else {
            Err::<usize, LedgerError>(LedgerError::IncompatibleProtocolVersion)
        },
{
    if version == 1 || version == 2 {
        Ok(version)
    } else {
        Err(LedgerError::IncompatibleProtocolVersion)
    }
}

/// The ids of a node list, in order.
pub open spec fn node_ids(nodes: Seq<Node>) -> Seq<Seq<char>> {
    Seq::new(nodes.len(), |i: int| nodes[i].id@)
}

/// A list of names as sequences of characters.
pub open spec fn names(list: Seq<String>) -> Seq<Seq<char>> {
    Seq::new(list.len(), |i: int| list[i]@)
}

/// A list of positions as integers.
pub open spec fn positions(list: Seq<usize>) -> Seq<int> {
    Seq::new(list.len(), |i: int| list[i] as int)
}

/// The first position from `from` on whose id is `name`.
pub open spec fn first_index(ids: Seq<Seq<char>>, name: Seq<char>, from: int) -> Option<int>
    decreases ids.len() - from,
{
    if from < 0 || from >= ids.len() {
        None
    } else if ids[from] == name {
        Some(from)
    } else {
        first_index(ids, name, from + 1)
    }
}

/// The nodes that the first `upto` preferred names pick, in the order of the
/// names: each name picks the first node with that id, once.
pub open spec fn preferred_first(ids: Seq<Seq<char>>, preferred: Seq<Seq<char>>, upto: int) -> Seq<
    int,
>
    decreases upto,
{
    if upto <= 0 {
        Seq::empty()
    } else {
        let earlier = preferred_first(ids, preferred, upto - 1);
        match first_index(ids, preferred[upto - 1], 0) {
            Some(i) => if earlier.contains(i) {
                earlier
            } else {
                earlier.push(i)
            },
            None => earlier,
        }
    }
}

/// The positions below `upto` that are not in `chosen`, ascending.
pub open spec fn others(chosen: Seq<int>, upto: int) -> Seq<int>
    decreases upto,
{
    if upto <= 0 {
        Seq::empty()
    } else {
        let earlier = others(chosen, upto - 1);
        if chosen.contains(upto - 1) {
            earlier
        } else {
            earlier.push(upto - 1)
        }
    }
}

/// The order in which the nodes of a pool are asked: the preferred nodes
/// first, in the order in which they are named, then all others in the order
/// of the node list.
pub open spec fn contact_sequence(ids: Seq<Seq<char>>, preferred: Seq<Seq<char>>) -> Seq<int> {
    let chosen = preferred_first(ids, preferred, preferred.len() as int);
    chosen + others(chosen, ids.len() as int)
}

proof fn lemma_first_index(ids: Seq<Seq<char>>, name: Seq<char>, from: int)
    requires
        0 <= from,
    ensures
        first_index(ids, name, from) matches Some(i) ==> from <= i < ids.len() && ids[i] == name,
    decreases ids.len() - from,
{
    if from < ids.len() && ids[from] != name {
        lemma_first_index(ids, name, from + 1);
    }
}

proof fn lemma_preferred_first(ids: Seq<Seq<char>>, preferred: Seq<Seq<char>>, upto: int)
    ensures
        preferred_first(ids, preferred, upto).no_duplicates(),
        forall|k: int|
            0 <= k < preferred_first(ids, preferred, upto).len() ==> 0 <= #[trigger] preferred_first(
                ids,
                preferred,
                upto,
            )[k] < ids.len(),
    decreases upto,
{
    if upto > 0 {
        lemma_preferred_first(ids, preferred, upto - 1);
        lemma_first_index(ids, preferred[upto - 1], 0);
    }
}

proof fn lemma_others(chosen: Seq<int>, upto: int)
    ensures
        others(chosen, upto).no_duplicates(),
        forall|k: int|
            0 <= k < others(chosen, upto).len() ==> 0 <= #[trigger] others(chosen, upto)[k] < upto
                && !chosen.contains(others(chosen, upto)[k]),
        forall|x: int|
            0 <= x < upto && !chosen.contains(x) ==> #[trigger] others(chosen, upto).contains(x),
    decreases upto,
{
    if upto > 0 {
        lemma_others(chosen, upto - 1);
        let earlier = others(chosen, upto - 1);
        let now = others(chosen, upto);
        assert forall|x: int| 0 <= x < upto && !chosen.contains(x) implies #[trigger] now.contains(
            x,
        ) by {
            if x < upto - 1 {
                assert(earlier.contains(x));
                let k = choose|k: int| 0 <= k < earlier.len() && earlier[k] == x;
                assert(now[k] == x);
            } else {
                assert(now[now.len() - 1] == x);
            }
        }
    }
}

/// The contact order asks every node of the pool exactly once.
pub proof fn lemma_contact_sequence_is_permutation(ids: Seq<Seq<char>>, preferred: Seq<Seq<char>>)
    ensures
        contact_sequence(ids, preferred).len() == ids.len(),
        contact_sequence(ids, preferred).no_duplicates(),
        forall|k: int|
            0 <= k < ids.len() ==> 0 <= #[trigger] contact_sequence(ids, preferred)[k] < ids.len(),
        forall|x: int| 0 <= x < ids.len() ==> #[trigger] contact_sequence(ids, preferred).contains(x),
{
    let n = ids.len() as int;
    let chosen = preferred_first(ids, preferred, preferred.len() as int);
    let rest = others(chosen, n);
    let order = contact_sequence(ids, preferred);
    lemma_preferred_first(ids, preferred, preferred.len() as int);
    lemma_others(chosen, n);
    assert forall|i: int, j: int| 0 <= i < chosen.len() && 0 <= j < rest.len() implies chosen[i]
        != rest[j] by {
        assert(!chosen.contains(rest[j]));
    }
    vstd::seq_lib::lemma_no_dup_in_concat(chosen, rest);
    assert forall|x: int| 0 <= x < n implies #[trigger] order.contains(x) by {
        if chosen.contains(x) {
            let k = choose|k: int| 0 <= k < chosen.len() && chosen[k] == x;
            assert(order[k] == x);
        } else {
            assert(rest.contains(x));
            let k = choose|k: int| 0 <= k < rest.len() && rest[k] == x;
            assert(order[chosen.len() + k] == x);
        }
    }
    assert forall|k: int| 0 <= k < order.len() implies 0 <= #[trigger] order[k] < n by {
        if k < chosen.len() {
            assert(order[k] == chosen[k]);
        } else {
            assert(order[k] == rest[k - chosen.len()]);
        }
    }
    assert(order.to_set() =~= vstd::set_lib::set_int_range(0, n)) by {
        assert forall|x: int| order.to_set().contains(x) <==> vstd::set_lib::set_int_range(
            0,
            n,
        ).contains(x) by {
            if order.to_set().contains(x) {
                let k = choose|k: int| 0 <= k < order.len() && order[k] == x;
                assert(0 <= order[k] < n);
            }
            if 0 <= x < n {
                assert(order.contains(x));
            }
        }
    }
    order.unique_seq_to_set();
    vstd::set_lib::lemma_int_range(0, n);
}

/// The first node whose id is `name`.
fn find_node(nodes: &Vec<Node>, name: &str) -> (found: Option<usize>)
    ensures
        match found {
            Some(i) => first_index(node_ids(nodes@), name@, 0) == Some(i as int) && i < nodes.len(),
            None => first_index(node_ids(nodes@), name@, 0).is_none(),
        },
{
    let ghost ids = node_ids(nodes@);
    let mut i: usize = 0;
    while i < nodes.len()
        invariant
            i <= nodes.len(),
            ids == node_ids(nodes@),
            first_index(ids, name@, 0) == first_index(ids, name@, i as int),
        decreases nodes.len() - i,
    {
        assert(ids[i as int] == nodes@[i as int].id@);
        if same_text(nodes[i].id.as_str(), name) {
            return Some(i);
        }
        i += 1;
    }
    None
}

/// Whether `x` is among the first `upto` entries of `list`.
fn among(list: &Vec<usize>, upto: usize, x: usize) -> (found: bool)
    requires
        upto <= list.len(),
    ensures
        found == positions(list@).take(upto as int).contains(x as int),
{
    let ghost front = positions(list@).take(upto as int);
    let mut i: usize = 0;
    while i < upto
        invariant
            i <= upto <= list.len(),
            front == positions(list@).take(upto as int),
            forall|j: int| 0 <= j < i ==> front[j] != x as int,
        decreases upto - i,
    {
        if list[i] == x {
            assert(front[i as int] == x as int);
            return true;
        }
        i += 1;
    }
    false
}

/// Computes the order in which the nodes are asked, as positions in the
/// node list.
pub fn contact_order(nodes: &Vec<Node>, preferred: &Vec<String>) -> (order: Vec<usize>)
    ensures
        positions(order@) == contact_sequence(node_ids(nodes@), names(preferred@)),
        order.len() == nodes.len(),
        forall|k: int| 0 <= k < order.len() ==> #[trigger] order[k] < nodes.len(),
{
    let ghost ids = node_ids(nodes@);
    let ghost wanted = names(preferred@);
    let mut order: Vec<usize> = Vec::new();
    let mut p: usize = 0;
    while p < preferred.len()
        invariant
            p <= preferred.len(),
            ids == node_ids(nodes@),
            wanted == names(preferred@),
            positions(order@) == preferred_first(ids, wanted, p as int),
        decreases preferred.len() - p,
    {
        assert(wanted[p as int] == preferred@[p as int]@);
        match find_node(nodes, preferred[p].as_str()) {
            Some(i) => {
                let ghost before = positions(order@);
                assert(before.take(before.len() as int) =~= before);
                if !among(&order, order.len(), i) {
                    order.push(i);
                    assert(positions(order@) =~= before.push(i as int));
                }
            },
            None => {},
        }
        p += 1;
    }
    let ghost chosen = positions(order@);
    let picked: usize = order.len();
    let mut i: usize = 0;
    while i < nodes.len()
        invariant
            i <= nodes.len(),
            picked <= order.len(),
            chosen == positions(order@).take(picked as int),
            positions(order@) == chosen + others(chosen, i as int),
        decreases nodes.len() - i,
    {
        let ghost before = positions(order@);
        if !among(&order, picked, i) {
            order.push(i);
            assert(positions(order@) =~= before.push(i as int));
            assert(positions(order@).take(picked as int) =~= before.take(picked as int));
        }
        assert(positions(order@) =~= chosen + others(chosen, i + 1));
        i += 1;
    }
    proof {
        lemma_contact_sequence_is_permutation(ids, wanted);
        assert(ids.len() == nodes.len());
        assert forall|k: int| 0 <= k < order.len() implies #[trigger] order[k] < nodes.len() by {
            assert(positions(order@)[k] == order[k] as int);
        }
    }
    order
}

/// The pool configurations of one client, each with its state.
pub struct PoolRegistry {
    configs: AliasMap<PoolConfig>,
    states: AliasMap<PoolState>,
}

impl PoolRegistry {
    /// Every configuration has a state and a usable fan-out, and no alias
    /// is empty.
    #[verifier::type_invariant]
    pub closed spec fn paired(&self) -> bool {
        &&& forall|i: int|
            0 <= i < self.configs.aliases().len() ==> (#[trigger] self.configs.aliases()[i]).len()
                > 0
        &&& self.configs.unique()
        &&& self.states.unique()
        &&& self.configs.aliases() == self.states.aliases()
        &&& self.configs.aliases().len() == self.configs.values().len()
        &&& self.states.aliases().len() == self.states.values().len()
        &&& forall|i: int|
            0 <= i < self.configs.values().len() ==> (
            #[trigger] self.configs.values()[i]).number_read_nodes >= 1
    }

    /// The aliases, in the order in which the configurations were created.
    pub closed spec fn aliases(&self) -> Seq<Seq<char>> {
        self.configs.aliases()
    }

    /// The configurations, each at the position of its alias.
    pub closed spec fn configs(&self) -> Seq<PoolConfig> {
        self.configs.values()
    }

    /// The states, each at the position of its alias.
    pub closed spec fn states(&self) -> Seq<PoolState> {
        self.states.values()
    }

    /// Whether a configuration is stored under `alias`.
    pub open spec fn contains(&self, alias: Seq<char>) -> bool {
        exists|i: int| 0 <= i < self.aliases().len() && #[trigger] self.aliases()[i] == alias
    }

    /// The position of `alias`, where a configuration is stored under it.
    pub open spec fn position(&self, alias: Seq<char>) -> int {
        choose|i: int| 0 <= i < self.aliases().len() && #[trigger] self.aliases()[i] == alias
    }

    /// The state of the pool `alias`.
    pub open spec fn state_of(&self, alias: Seq<char>) -> PoolState {
        self.states()[self.position(alias)]
    }

    /// The configuration of the pool `alias`.
    pub open spec fn config_of(&self, alias: Seq<char>) -> PoolConfig {
        self.configs()[self.position(alias)]
    }

    /// Nothing differs between this registry and `other`.
    pub open spec fn same_as(&self, other: &PoolRegistry) -> bool {
        &&& self.aliases() == other.aliases()
        &&& self.configs() == other.configs()
        &&& self.states() == other.states()
    }

    /// This registry is `other` with the state of `alias` set to `state`.
    pub open spec fn same_but_state(
        &self,
        other: &PoolRegistry,
        alias: Seq<char>,
        state: PoolState,
    ) -> bool {
        &&& self.aliases() == other.aliases()
        &&& self.configs() == other.configs()
        &&& self.states() == other.states().update(other.position(alias), state)
    }

    /// The three sequences have one length, no alias occurs twice, and every
    /// fan-out is at least one.
    pub proof fn lemma_shape(&self)
        requires
            self.paired(),
        ensures
            self.aliases().len() == self.configs().len() == self.states().len(),
            forall|i: int, j: int|
                0 <= i < self.aliases().len() && 0 <= j < self.aliases().len()
                    && #[trigger] self.aliases()[i] == #[trigger] self.aliases()[j] ==> i == j,
            forall|i: int|
                0 <= i < self.aliases().len() ==> self.contains(#[trigger] self.aliases()[i])
                    && self.position(self.aliases()[i]) == i,
            forall|i: int|
                0 <= i < self.configs().len() ==> (#[trigger] self.configs()[i]).number_read_nodes
                    >= 1,
    {
        self.configs.lemma_shape();
    }

    /// A registry without pools.
    pub fn new() -> (registry: Self)
        ensures
            registry.aliases() == Seq::<Seq<char>>::empty(),
    {
        let configs: AliasMap<PoolConfig> = AliasMap::new();
        let states: AliasMap<PoolState> = AliasMap::new();
        proof {
            use_type_invariant(&configs);
            use_type_invariant(&states);
        }
        PoolRegistry { configs, states }
    }

    /// Stores `config` under `alias`, unopened.
    ///
    /// Fails with `InvalidAlias` on an empty alias, with `DuplicateAlias`
    /// where the alias is taken, and with `InvalidConfig` where the
    /// configuration asks for a fan-out of zero. A failed call changes
    /// nothing.
    pub fn create(&mut self, alias: &str, config: PoolConfig) -> (created: Result<(), LedgerError>)
        ensures
            old(self).contains(alias@) ==> created == Err::<(), LedgerError>(
                LedgerError::DuplicateAlias,
            ),
            match created {
                Ok(_) => {
                    &&& alias@.len() > 0
                    &&& !old(self).contains(alias@)
                    &&& config.number_read_nodes >= 1
                    &&& final(self).aliases() == old(self).aliases().push(alias@)
                    &&& final(self).configs() == old(self).configs().push(config)
                    &&& final(self).states() == old(self).states().push(PoolState::Unopened)
                    &&& final(self).contains(alias@)
                    &&& final(self).state_of(alias@) == PoolState::Unopened
                    &&& final(self).config_of(alias@) == config
                },
                Err(e) => {
                    &&& final(self).same_as(old(self))
                    &&& e == if alias@.len() == 0 {
                        LedgerError::InvalidAlias
                    } else if old(self).contains(alias@) {
                        LedgerError::DuplicateAlias
                    } else {
                        LedgerError::InvalidConfig
                    }
                    &&& alias@.len() > 0 && !old(self).contains(alias@) ==> config.number_read_nodes
                        == 0
                },
            },
    {
        proof {
            use_type_invariant(&*self);
            use_type_invariant(&self.configs);
            self.lemma_shape();
        }
        if alias.is_empty() {
            proof {
                if self.contains(alias@) {
                    let i = self.position(alias@);
                    assert(self.configs.aliases()[i].len() > 0);
                }
            }
            return Err(LedgerError::InvalidAlias);
        }
        match self.configs.find(alias) {
            Some(at) => {
                assert(self.aliases()[at as int] == alias@);
                return Err(LedgerError::DuplicateAlias);
            },
            None => {},
        }
        if config.number_read_nodes == 0 {
            return Err(LedgerError::InvalidConfig);
        }
        let (mut configs, mut states) = self.take_apart();
        let ghost old_configs = configs;
        let a = configs.add(alias.to_owned(), config);
        let b = states.add(alias.to_owned(), PoolState::Unopened);
        proof {
            assert(a && b);
            assert forall|i: int| 0 <= i < configs.values().len() implies (
            #[trigger] configs.values()[i]).number_read_nodes >= 1 by {
                if i < old_configs.values().len() {
                    assert(configs.values()[i] == old_configs.values()[i]);
                }
            }
        }
        proof {
            use_type_invariant(&configs);
            use_type_invariant(&states);
        }
        *self = PoolRegistry { configs, states };
        proof {
            use_type_invariant(&self.configs);
            self.lemma_shape();
            let last = self.aliases().len() - 1;
            assert(self.aliases()[last] == alias@);
        }
        Ok(())
    }

    /// Opens the pool `alias`.
    ///
    /// Fails with `PoolNotFound` where no configuration is stored under the
    /// alias and with `PoolAlreadyOpen` where the pool is open. A pool that
    /// was closed may be opened again.
    pub fn open(&mut self, alias: &str) -> (opened: Result<(), LedgerError>)
        ensures
            match opened {
                Ok(_) => old(self).contains(alias@) && old(self).state_of(alias@)
                    != PoolState::Open && final(self).same_but_state(
                    old(self),
                    alias@,
                    PoolState::Open,
                ) && final(self).state_of(alias@) == PoolState::Open,
                Err(e) => final(self).same_as(old(self)) && e == if !old(self).contains(alias@) {
                    LedgerError::PoolNotFound
                } else {
                    LedgerError::PoolAlreadyOpen
                } && (old(self).contains(alias@) ==> old(self).state_of(alias@) == PoolState::Open),
            },
    {
        proof {
            use_type_invariant(&*self);
            use_type_invariant(&self.configs);
            self.lemma_shape();
        }
        match self.states.find(alias) {
            None => Err(LedgerError::PoolNotFound),
            Some(at) => {
                proof {
                    assert(self.aliases()[at as int] == alias@);
                }
                if *self.states.value_at(at) == PoolState::Open {
                    Err(LedgerError::PoolAlreadyOpen)
                } else {
                    self.set_state(alias, PoolState::Open);
                    Ok(())
                }
            },
        }
    }

    /// Closes the pool `alias`.
    ///
    /// Fails with `PoolNotFound` where no configuration is stored under the
    /// alias and with `PoolNotOpen` where the pool is not open.
    pub fn close(&mut self, alias: &str) -> (closed: Result<(), LedgerError>)
        ensures
            match closed {
                Ok(_) => old(self).contains(alias@) && old(self).state_of(alias@)
                    == PoolState::Open && final(self).same_but_state(
                    old(self),
                    alias@,
                    PoolState::Closed,
                ) && final(self).state_of(alias@) == PoolState::Closed,
                Err(e) => final(self).same_as(old(self)) && e == if !old(self).contains(alias@) {
                    LedgerError::PoolNotFound
                } else {
                    LedgerError::PoolNotOpen
                } && (old(self).contains(alias@) ==> old(self).state_of(alias@) != PoolState::Open),
            },
    {
        proof {
            use_type_invariant(&*self);
            use_type_invariant(&self.configs);
            self.lemma_shape();
        }
        match self.states.find(alias) {
            None => Err(LedgerError::PoolNotFound),
            Some(at) => {
                proof {
                    assert(self.aliases()[at as int] == alias@);
                }
                if *self.states.value_at(at) == PoolState::Open {
                    self.set_state(alias, PoolState::Closed);
                    Ok(())
                } else {
                    Err(LedgerError::PoolNotOpen)
                }
            },
        }
    }

    /// Puts a freshly fetched node list and trust material in the place of
    /// those of the open pool `alias`. The state stays as it is.
    ///
    /// Fails with `PoolNotFound` where no configuration is stored under the
    /// alias and with `PoolNotOpen` where the pool is not open.
    pub fn refresh(
        &mut self,
        alias: &str,
        node_list: Vec<Node>,
        trust_roots: Vec<TrustRoot>,
    ) -> (refreshed: Result<(), LedgerError>)
        ensures
            match refreshed {
                Ok(_) => {
                    &&& old(self).contains(alias@)
                    &&& old(self).state_of(alias@) == PoolState::Open
                    &&& final(self).aliases() == old(self).aliases()
                    &&& final(self).states() == old(self).states()
                    &&& final(self).configs().len() == old(self).configs().len()
                    &&& forall|i: int|
                        0 <= i < old(self).configs().len() && i != old(self).position(alias@)
                            ==> #[trigger] final(self).configs()[i] == old(self).configs()[i]
                    &&& final(self).config_of(alias@).node_list == node_list
                    &&& final(self).config_of(alias@).trust_roots == trust_roots
                    &&& final(self).config_of(alias@).alias@ == old(self).config_of(alias@).alias@
                    &&& final(self).config_of(alias@).chain_id@ == old(self).config_of(
                        alias@,
                    ).chain_id@
                    &&& final(self).config_of(alias@).number_read_nodes == old(self).config_of(
                        alias@,
                    ).number_read_nodes
                    &&& names_of(final(self).config_of(alias@).preferred_node_order) == names_of(
                        old(self).config_of(alias@).preferred_node_order,
                    )
                },
                Err(e) => final(self).same_as(old(self)) && e == if !old(self).contains(alias@) {
                    LedgerError::PoolNotFound
                } else {
                    LedgerError::PoolNotOpen
                } && (old(self).contains(alias@) ==> old(self).state_of(alias@) != PoolState::Open),
            },
    {
        proof {
            use_type_invariant(&*self);
            use_type_invariant(&self.configs);
            self.lemma_shape();
        }
        let at = match self.states.find(alias) {
            None => {
                return Err(LedgerError::PoolNotFound);
            },
            Some(at) => at,
        };
        proof {
            assert(self.aliases()[at as int] == alias@);
        }
        if *self.states.value_at(at) != PoolState::Open {
            return Err(LedgerError::PoolNotOpen);
        }
        let current = self.configs.value_at(at);
        let preferred = match &current.preferred_node_order {
            Some(list) => Some(copy_names(list)),
            None => None,
        };
        let renewed = PoolConfig {
            alias: current.alias.clone(),
            chain_id: current.chain_id.clone(),
            node_list,
            trust_roots,
            preferred_node_order: preferred,
            number_read_nodes: current.number_read_nodes,
        };
        let (mut configs, states) = self.take_apart();
        let ghost old_configs = configs;
        let replaced = configs.replace(alias, renewed);
        proof {
            assert(replaced);
            assert forall|i: int| 0 <= i < configs.values().len() implies (
            #[trigger] configs.values()[i]).number_read_nodes >= 1 by {
                if i != at {
                    assert(configs.values()[i] == old_configs.values()[i]);
                }
            }
        }
        proof {
            use_type_invariant(&configs);
            use_type_invariant(&states);
        }
        *self = PoolRegistry { configs, states };
        proof {
            use_type_invariant(&self.configs);
            self.lemma_shape();
        }
        Ok(())
    }

    /// Deletes the configuration `alias`.
    ///
    /// Fails with `PoolNotFound` where no configuration is stored under the
    /// alias and with `PoolStillOpen` where the pool is open.
    pub fn delete(&mut self, alias: &str) -> (deleted: Result<(), LedgerError>)
        ensures
            match deleted {
                Ok(_) => {
                    &&& old(self).contains(alias@)
                    &&& old(self).state_of(alias@) != PoolState::Open
                    &&& final(self).aliases() == old(self).aliases().remove(
                        old(self).position(alias@),
                    )
                    &&& final(self).configs() == old(self).configs().remove(
                        old(self).position(alias@),
                    )
                    &&& final(self).states() == old(self).states().remove(
                        old(self).position(alias@),
                    )
                    &&& !final(self).contains(alias@)
                },
                Err(e) => final(self).same_as(old(self)) && e == if !old(self).contains(alias@) {
                    LedgerError::PoolNotFound
                } else {
                    LedgerError::PoolStillOpen
                } && (old(self).contains(alias@) ==> old(self).state_of(alias@) == PoolState::Open),
            },
    {
        proof {
            use_type_invariant(&*self);
            use_type_invariant(&self.configs);
            use_type_invariant(&self.states);
            self.lemma_shape();
            self.states.lemma_shape();
        }
        let at = match self.states.find(alias) {
            None => {
                return Err(LedgerError::PoolNotFound);
            },
            Some(at) => at,
        };
        proof {
            assert(self.aliases()[at as int] == alias@);
        }
        if *self.states.value_at(at) == PoolState::Open {
            return Err(LedgerError::PoolStillOpen);
        }
        let (mut configs, mut states) = self.take_apart();
        let ghost old_configs = configs;
        let a = configs.remove(alias);
        let b = states.remove(alias);
        proof {
            assert(a.is_some() && b.is_some());
            assert forall|i: int| 0 <= i < configs.values().len() implies (
            #[trigger] configs.values()[i]).number_read_nodes >= 1 by {
                let from = if i < at { i } else { i + 1 };
                assert(configs.values()[i] == old_configs.values()[from]);
            }
        }
        proof {
            use_type_invariant(&configs);
            use_type_invariant(&states);
        }
        *self = PoolRegistry { configs, states };
        proof {
            assert(!self.configs.contains(alias@));
            if self.contains(alias@) {
                let w = self.position(alias@);
                assert(self.configs.aliases()[w] == alias@);
            }
        }
        Ok(())
    }

    /// The aliases of all configurations, in the order of their creation.
    pub fn list(&self) -> (aliases: Vec<String>)
        ensures
            names(aliases@) == self.aliases(),
    {
        let mut aliases: Vec<String> = Vec::new();
        let mut i: usize = 0;
        while i < self.configs.len()
            invariant
                i <= self.configs.aliases().len(),
                names(aliases@) == self.aliases().take(i as int),
            decreases self.configs.aliases().len() - i,
        {
            let ghost before = names(aliases@);
            aliases.push(self.configs.alias_at(i).clone());
            assert(names(aliases@) =~= before.push(self.aliases()[i as int]));
            assert(self.aliases().take(i + 1) =~= self.aliases().take(i as int).push(
                self.aliases()[i as int],
            ));
            i += 1;
        }
        assert(self.aliases().take(self.aliases().len() as int) =~= self.aliases());
        aliases
    }

    /// The state of the pool `alias`, or nothing where there is none.
    pub fn state(&self, alias: &str) -> (state: Option<PoolState>)
        ensures
            match state {
                Some(s) => self.contains(alias@) && s == self.state_of(alias@),
                None => !self.contains(alias@),
            },
    {
        proof {
            use_type_invariant(self);
            use_type_invariant(&self.configs);
            self.lemma_shape();
        }
        match self.states.find(alias) {
            Some(at) => {
                assert(self.aliases()[at as int] == alias@);
                Some(*self.states.value_at(at))
            },
            None => None,
        }
    }

    /// The configuration of the pool `alias`, or nothing where there is
    /// none. Its fan-out is at least one.
    pub fn config(&self, alias: &str) -> (config: Option<&PoolConfig>)
        ensures
            match config {
                Some(c) => self.contains(alias@) && *c == self.config_of(alias@)
                    && c.number_read_nodes >= 1,
                None => !self.contains(alias@),
            },
    {
        proof {
            use_type_invariant(self);
            use_type_invariant(&self.configs);
            self.lemma_shape();
        }
        match self.configs.find(alias) {
            Some(at) => {
                assert(self.aliases()[at as int] == alias@);
                Some(self.configs.value_at(at))
            },
            None => None,
        }
    }

    fn take_apart(&mut self) -> (parts: (AliasMap<PoolConfig>, AliasMap<PoolState>))
        ensures
            parts.0 == old(self).configs,
            parts.1 == old(self).states,
    {
        let mut whole = PoolRegistry::new();
        std::mem::swap(&mut whole, self);
        let PoolRegistry { configs, states } = whole;
        (configs, states)
    }

    fn set_state(&mut self, alias: &str, state: PoolState)
        requires
            old(self).contains(alias@),
        ensures
            final(self).same_but_state(old(self), alias@, state),
            final(self).state_of(alias@) == state,
    {
        proof {
            use_type_invariant(&*self);
            use_type_invariant(&self.configs);
            use_type_invariant(&self.states);
            self.lemma_shape();
            self.states.lemma_shape();
            let w = self.position(alias@);
            assert(self.states.aliases()[w] == alias@);
        }
        let (configs, mut states) = self.take_apart();
        let replaced = states.replace(alias, state);
        proof {
            assert(replaced);
            use_type_invariant(&configs);
            use_type_invariant(&states);
        }
        *self = PoolRegistry { configs, states };
    }
}

/// The names in a list that may be absent.
pub open spec fn names_of(list: Option<Vec<String>>) -> Option<Seq<Seq<char>>> {
    match list {
        Some(l) => Some(names(l@)),
        None => None,
    }
}

/// A copy of a list of names.
pub fn copy_names(list: &Vec<String>) -> (copy: Vec<String>)
    ensures
        names(copy@) == names(list@),
{
    let mut copy: Vec<String> = Vec::new();
    let mut i: usize = 0;
    while i < list.len()
        invariant
            i <= list.len(),
            names(copy@) == names(list@).take(i as int),
        decreases list.len() - i,
    {
        let ghost before = names(copy@);
        copy.push(list[i].clone());
        assert(names(copy@) =~= before.push(list@[i as int]@));
        assert(names(list@).take(i + 1) =~= names(list@).take(i as int).push(list@[i as int]@));
        i += 1;
    }
    assert(names(list@).take(list@.len() as int) =~= names(list@));
    copy
}

} // verus!
